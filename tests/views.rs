use rusty_files::explorer::{Entry, FileExplorer, SortMode, UIMode};
use rusty_files::listing::{order_listing, text_le};
use rusty_files::fsmodel::checked_paths_of;
use rusty_files::ops::UndoAction;
use rusty_files::path::FsPath;
use rusty_files::textedit::{EditKey, TextField};

fn strings(v: &[&str]) -> Vec<String> {
    v.iter().map(|s| s.to_string()).collect()
}

fn path(parts: &[&str]) -> FsPath {
    FsPath { comps: strings(parts) }
}

#[test]
fn dates_in_utc() {
    assert_eq!(FileExplorer::format_date(Some(0)), "1970-01-01 00:00");
    assert_eq!(FileExplorer::format_date(Some(86399)), "1970-01-01 23:59");
    assert_eq!(FileExplorer::format_date(Some(1700000000)), "2023-11-14 22:13");
    assert_eq!(FileExplorer::format_date(Some(951782400)), "2000-02-29 00:00");
    assert_eq!(FileExplorer::format_date(Some(951868799)), "2000-02-29 23:59");
    assert_eq!(FileExplorer::format_date(Some(946598400)), "1999-12-31 00:00");
    assert_eq!(FileExplorer::format_date(Some(1735603200)), "2024-12-31 00:00");
    assert_eq!(FileExplorer::format_date(Some(4102444800)), "2100-01-01 00:00");
    assert_eq!(FileExplorer::format_date(Some(4107542400)), "2100-03-01 00:00");
    assert_eq!(FileExplorer::format_date(None), "Unknown         ");
}

fn sample() -> FileExplorer {
    let mut ex = FileExplorer::new(path(&["home"]), path(&["trash"]));
    ex.load_directory(vec![
        Entry { path: path(&["home", "docs"]), name: "docs".to_string(), is_dir: true, modified: Some(0) },
        Entry {
            path: path(&["home", "a-rather-long-file-name.txt"]),
            name: "a-rather-long-file-name.txt".to_string(),
            is_dir: false,
            modified: Some(1700000000),
        },
        Entry { path: path(&["home", ".env"]), name: ".env".to_string(), is_dir: false, modified: None },
    ]);
    ex
}

#[test]
fn tree_rows() {
    let mut ex = sample();
    ex.cursor_index = 1;
    ex.toggle_selection();
    let lines = ex.build_tree_lines(60);
    assert_eq!(lines.len(), 5);
    assert_eq!(lines[0].tree_prefix, "\u{2500} ");
    assert_eq!(lines[0].text, "/");
    assert!(!lines[0].is_current_dir);
    assert_eq!(lines[1].tree_prefix, "  \u{2514}\u{2500}");
    assert_eq!(lines[1].text, "home");
    assert!(lines[1].is_current_dir);

    let first = &lines[2];
    assert_eq!(first.tree_prefix, "    \u{251c}\u{2500} \u{f07b} ");
    assert_eq!(first.entry_index, Some(0));
    assert!(first.is_dir);
    assert_eq!(first.timestamp.as_deref(), Some("1970-01-01 00:00"));
    // 60 columns: 8 before the name, 16 for the date.
    assert_eq!(first.text, format!("docs{}", " ".repeat(60 - 8 - 4 - 16)));

    let second = &lines[3];
    assert!(second.is_cursor && second.is_selected);
    assert_eq!(second.timestamp.as_deref(), Some("2023-11-14 22:13"));
    assert_eq!(second.text.chars().count(), 60 - 8 - 16);

    let last = &lines[4];
    assert_eq!(last.tree_prefix, "    \u{2514}\u{2500} \u{f15b} ");
    assert!(last.is_hidden);
    assert_eq!(last.timestamp.as_deref(), Some("Unknown         "));
}

#[test]
fn tree_rows_truncate_long_names() {
    let ex = sample();
    let lines = ex.build_tree_lines(40);
    // Room for a name: 40 - 8 - 16 - 3 = 13 columns.
    assert_eq!(lines[3].text, "a-rather-l...   ");
    let tiny = ex.build_tree_lines(10);
    assert_eq!(tiny[3].text, "...");
}

#[test]
fn text_field_editing() {
    let mut f = TextField { text: "report.pdf".to_string(), cursor: 6, anchor: Some(0) };
    assert!(f.apply(EditKey::Insert("summary".to_string())).is_none());
    assert_eq!(f.text, "summary.pdf");
    assert_eq!(f.cursor, 7);
    assert!(f.anchor.is_none());
    f.apply(EditKey::Backspace);
    assert_eq!(f.text, "summar.pdf");
    f.apply(EditKey::Home { shift: false });
    f.apply(EditKey::Delete);
    assert_eq!(f.text, "ummar.pdf");
    f.apply(EditKey::End { shift: true });
    assert_eq!(f.anchor, Some(0));
    assert_eq!(f.apply(EditKey::Copy), Some("ummar.pdf".to_string()));
    f.apply(EditKey::Left { shift: true });
    assert_eq!(f.apply(EditKey::Cut), Some("ummar.pd".to_string()));
    assert_eq!(f.text, "f");
    assert_eq!(f.cursor, 0);
    assert!(f.apply(EditKey::Cut).is_none());
    f.apply(EditKey::SelectAll);
    f.apply(EditKey::Insert("x".to_string()));
    assert_eq!(f.text, "x");
    f.apply(EditKey::Right { shift: false });
    assert_eq!(f.cursor, 1);
}

#[test]
fn rename_prompt_editing() {
    let mut ex = sample();
    ex.cursor_index = 1;
    ex.start_rename();
    ex.edit_rename(EditKey::Insert("b".to_string()));
    match &ex.ui_mode {
        UIMode::RenameItem { new_name, cursor_pos, selection_start, .. } => {
            assert_eq!(new_name, "b.txt");
            assert_eq!(*cursor_pos, 1);
            assert!(selection_start.is_none());
        },
        _ => panic!("expected the rename prompt"),
    }
    let mut normal = sample();
    assert!(normal.edit_rename(EditKey::SelectAll).is_none());
    assert!(matches!(normal.ui_mode, UIMode::Normal));
}

#[test]
fn paths_an_undo_checks() {
    let moved = UndoAction::Move { moved_files: vec![(path(&["a"]), path(&["d", "a"]))] };
    let p = checked_paths_of(&moved);
    assert_eq!(p.len(), 1);
    assert_eq!(p[0].comps, strings(&["d", "a"]));
    let renamed = UndoAction::Rename { original_path: path(&["x"]), new_path: path(&["y"]) };
    assert_eq!(checked_paths_of(&renamed)[0].comps, strings(&["y"]));
}

fn entry(name: &str, is_dir: bool, modified: u64) -> Entry {
    Entry { path: path(&["d", name]), name: name.to_string(), is_dir, modified: Some(modified) }
}

#[test]
fn listing_by_name_dirs_first() {
    let es = vec![entry("b.txt", false, 5), entry(".git", true, 1), entry("Zeta", true, 2), entry("alpha", true, 3), entry("A.md", false, 9)];
    let names: Vec<String> = order_listing(es, false, SortMode::Name).into_iter().map(|e| e.name).collect();
    assert_eq!(names, strings(&["alpha", "Zeta", "A.md", "b.txt"]));
    let es = vec![entry("b.txt", false, 5), entry(".git", true, 1), entry("a.txt", false, 9)];
    let names: Vec<String> = order_listing(es, true, SortMode::Name).into_iter().map(|e| e.name).collect();
    assert_eq!(names, strings(&[".git", "a.txt", "b.txt"]));
    assert!(text_le("abc", "abd"));
    assert!(text_le("ab", "abc"));
    assert!(!text_le("b", "abc"));
}

#[test]
fn listing_by_date_newest_first() {
    let es = vec![entry("old", false, 1), entry("dir", true, 0), entry("new", false, 50), entry("mid", false, 20)];
    let names: Vec<String> = order_listing(es, false, SortMode::Date).into_iter().map(|e| e.name).collect();
    assert_eq!(names, strings(&["dir", "new", "mid", "old"]));
}

#[test]
fn directory_time_is_latest_inside() {
    assert_eq!(FileExplorer::get_dir_max_modified(10, &vec![]), 10);
    assert_eq!(FileExplorer::get_dir_max_modified(10, &vec![3, 42, 7]), 42);
    assert_eq!(FileExplorer::get_dir_max_modified(50, &vec![3, 42, 7]), 50);
}

#[test]
fn listing_keeps_tie_order() {
    let es = vec![entry("b", false, 1), entry("B", false, 2), entry("a", false, 3), entry("A", false, 4)];
    let names: Vec<String> = order_listing(es, false, SortMode::Name).into_iter().map(|e| e.name).collect();
    assert_eq!(names, strings(&["a", "A", "b", "B"]));
    let es = vec![entry("x", false, 5), entry("y", false, 5), entry("z", false, 9)];
    let mut old = entry("old", false, 0);
    old.modified = None;
    let mut all = es;
    all.push(old);
    let names: Vec<String> = order_listing(all, false, SortMode::Date).into_iter().map(|e| e.name).collect();
    assert_eq!(names, strings(&["z", "x", "y", "old"]));
}
