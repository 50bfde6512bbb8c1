use rusty_files::explorer::{Entry, FileExplorer, SortMode, UIMode};
use rusty_files::path::FsPath;
use rusty_files::selection::{range_of, toggled};

fn strings(v: &[&str]) -> Vec<String> {
    v.iter().map(|s| s.to_string()).collect()
}

fn path(parts: &[&str]) -> FsPath {
    FsPath { comps: strings(parts) }
}

fn listing(dir: &[&str], names: &[(&str, bool)]) -> Vec<Entry> {
    names
        .iter()
        .map(|(n, d)| {
            let mut p = strings(dir);
            p.push(n.to_string());
            Entry { path: FsPath { comps: p }, name: n.to_string(), is_dir: *d, modified: Some(0) }
        })
        .collect()
}

fn explorer_with(n: usize) -> FileExplorer {
    let mut ex = FileExplorer::new(path(&["home", "a"]), path(&["trash"]));
    let names: Vec<String> = (0..n).map(|i| format!("f{}", i)).collect();
    let pairs: Vec<(&str, bool)> = names.iter().map(|s| (s.as_str(), false)).collect();
    ex.load_directory(listing(&["home", "a"], &pairs));
    ex
}

#[test]
fn range_is_same_both_ways() {
    assert_eq!(range_of(5, 2), vec![2, 3, 4, 5]);
    assert_eq!(range_of(2, 5), vec![2, 3, 4, 5]);
    assert_eq!(range_of(4, 4), vec![4]);
}

#[test]
fn shift_selection_down_and_up_agree() {
    let mut down = explorer_with(8);
    down.cursor_index = 2;
    for _ in 0..3 {
        down.move_down(true);
    }
    assert_eq!(down.cursor_index, 5);
    assert_eq!(down.selected_indices, vec![2, 3, 4, 5]);

    let mut up = explorer_with(8);
    up.cursor_index = 5;
    for _ in 0..3 {
        up.move_up(true);
    }
    assert_eq!(up.cursor_index, 2);
    assert_eq!(up.selected_indices, vec![2, 3, 4, 5]);
}

#[test]
fn range_is_recomputed_not_accumulated() {
    let mut ex = explorer_with(8);
    ex.cursor_index = 3;
    ex.move_down(true);
    ex.move_down(true);
    assert_eq!(ex.selected_indices, vec![3, 4, 5]);
    ex.move_up(true);
    ex.move_up(true);
    ex.move_up(true);
    assert_eq!(ex.cursor_index, 2);
    assert_eq!(ex.selected_indices, vec![2, 3]);
}

#[test]
fn plain_move_clears_selection() {
    let mut ex = explorer_with(4);
    ex.move_down(true);
    assert_eq!(ex.selected_indices, vec![0, 1]);
    ex.move_down(false);
    assert_eq!(ex.cursor_index, 2);
    assert!(ex.selected_indices.is_empty());
    assert!(ex.selection_anchor.is_none());
}

#[test]
fn moves_stop_at_the_ends() {
    let mut ex = explorer_with(2);
    ex.move_up(false);
    assert_eq!(ex.cursor_index, 0);
    ex.move_down(false);
    ex.move_down(false);
    assert_eq!(ex.cursor_index, 1);
    let mut empty = explorer_with(0);
    empty.move_down(false);
    assert_eq!(empty.cursor_index, 0);
}

#[test]
fn toggle_adds_and_removes() {
    let mut ex = explorer_with(5);
    ex.cursor_index = 3;
    ex.toggle_selection();
    ex.cursor_index = 1;
    ex.toggle_selection();
    assert_eq!(ex.selected_indices, vec![1, 3]);
    ex.cursor_index = 3;
    ex.toggle_selection();
    assert_eq!(ex.selected_indices, vec![1]);
    assert!(ex.selection_anchor.is_none());
    assert_eq!(toggled(&vec![1, 4], 2), vec![1, 2, 4]);
    assert_eq!(toggled(&vec![1, 2, 4], 2), vec![1, 4]);
}

#[test]
fn directory_memory_round_trip() {
    let mut ex = FileExplorer::new(path(&["home", "a"]), path(&["trash"]));
    let a = listing(&["home", "a"], &[("f0", false), ("f1", false), ("f2", false), ("b", true), ("f4", false)]);
    ex.load_directory(a);
    ex.cursor_index = 1;
    ex.move_down(true);
    ex.move_down(true);
    assert_eq!(ex.cursor_index, 3);
    assert_eq!(ex.selected_indices, vec![1, 2, 3]);

    assert!(ex.enter_directory());
    assert_eq!(ex.current_dir.comps, strings(&["home", "a", "b"]));
    ex.load_directory(listing(&["home", "a", "b"], &[("x", false), ("y", false)]));
    assert_eq!(ex.cursor_index, 0);
    assert!(ex.selected_indices.is_empty());
    ex.move_down(false);

    let left = ex.go_to_parent().unwrap();
    assert_eq!(left, "b");
    assert_eq!(ex.current_dir.comps, strings(&["home", "a"]));
    let a = listing(&["home", "a"], &[("f0", false), ("f1", false), ("f2", false), ("b", true), ("f4", false)]);
    ex.load_directory(a);
    assert_eq!(ex.cursor_index, 3);
    assert_eq!(ex.selected_indices, vec![1, 2, 3]);
    ex.focus_entry_named(&left);
    assert_eq!(ex.cursor_index, 3);
    assert_eq!(ex.selected_indices, vec![1, 2, 3]);

    ex.enter_directory();
    ex.load_directory(listing(&["home", "a", "b"], &[("x", false), ("y", false)]));
    assert_eq!(ex.cursor_index, 1);
}

#[test]
fn memory_is_clamped_to_a_shorter_listing() {
    let mut ex = explorer_with(6);
    ex.cursor_index = 2;
    ex.move_down(true);
    ex.move_down(true);
    ex.move_down(true);
    assert_eq!(ex.selected_indices, vec![2, 3, 4, 5]);
    ex.load_directory(listing(&["home", "a"], &[("f0", false), ("f1", false), ("f2", false)]));
    assert_eq!(ex.cursor_index, 2);
    assert_eq!(ex.selected_indices, vec![2]);
}

#[test]
fn enter_on_a_file_does_nothing() {
    let mut ex = explorer_with(2);
    assert!(!ex.enter_directory());
    assert_eq!(ex.current_dir.comps, strings(&["home", "a"]));
    let opened = ex.open_or_enter().unwrap();
    assert_eq!(opened.comps, strings(&["home", "a", "f0"]));
}

#[test]
fn parent_of_root_is_none() {
    let mut ex = FileExplorer::new(FsPath::root(), path(&["trash"]));
    assert!(ex.go_to_parent().is_none());
}

#[test]
fn ancestors_from_root() {
    let ex = FileExplorer::new(path(&["home", "a"]), path(&["trash"]));
    let anc = ex.get_ancestors();
    assert_eq!(anc.len(), 3);
    assert!(anc[0].comps.is_empty());
    assert_eq!(anc[1].comps, strings(&["home"]));
    assert_eq!(anc[2].comps, strings(&["home", "a"]));
}

#[test]
fn cursor_line_and_entries_by_line() {
    let mut ex = explorer_with(4);
    ex.cursor_index = 2;
    assert_eq!(ex.get_cursor_line_index(), 5);
    assert_eq!(ex.entry_at_line(2), None);
    assert_eq!(ex.entry_at_line(3), Some(0));
    assert_eq!(ex.entry_at_line(6), Some(3));
    assert_eq!(ex.entry_at_line(7), None);
    let empty = explorer_with(0);
    assert_eq!(empty.get_cursor_line_index(), 0);
}

#[test]
fn scroll_follows_cursor() {
    let mut ex = explorer_with(20);
    ex.cursor_index = 15;
    ex.calculate_scroll_offset(10);
    assert_eq!(ex.scroll_offset, 10);
    ex.cursor_index = 2;
    ex.calculate_scroll_offset(10);
    assert_eq!(ex.scroll_offset, 4);
    ex.cursor_index = 5;
    ex.calculate_scroll_offset(10);
    assert_eq!(ex.scroll_offset, 4);
    ex.calculate_scroll_offset(0);
    assert_eq!(ex.scroll_offset, 4);
    ex.cursor_index = 19;
    ex.calculate_scroll_offset(100);
    assert_eq!(ex.scroll_offset, 0);
}

#[test]
fn click_and_drag_select() {
    let mut ex = explorer_with(6);
    ex.handle_mouse_down(5, 0, false);
    assert_eq!(ex.cursor_index, 1);
    assert_eq!(ex.selected_indices, vec![1]);
    assert_eq!(ex.drag_selection, Some(1));
    ex.handle_mouse_drag(8, 0);
    assert_eq!(ex.cursor_index, 4);
    assert_eq!(ex.selected_indices, vec![1, 2, 3, 4]);
    ex.handle_mouse_up();
    assert!(ex.drag_selection.is_none());
    ex.handle_mouse_drag(5, 0);
    assert_eq!(ex.cursor_index, 4);
    ex.handle_mouse_down(6, 0, true);
    assert_eq!(ex.selected_indices, vec![1, 3, 4]);
    ex.handle_mouse_down(1, 0, false);
    assert_eq!(ex.cursor_index, 2);
}

#[test]
fn selected_paths_fall_back_to_cursor() {
    let mut ex = explorer_with(3);
    ex.cursor_index = 2;
    let p = ex.get_selected_paths();
    assert_eq!(p.len(), 1);
    assert_eq!(p[0].comps, strings(&["home", "a", "f2"]));
    ex.cursor_index = 0;
    ex.toggle_selection();
    ex.cursor_index = 1;
    ex.toggle_selection();
    let p = ex.get_selected_paths();
    assert_eq!(p.len(), 2);
    assert_eq!(p[1].comps, strings(&["home", "a", "f1"]));
}

#[test]
fn select_by_name_puts_cursor_on_first() {
    let mut ex = explorer_with(5);
    ex.select_items_by_name(&strings(&["f3", "f1", "zz"]));
    assert_eq!(ex.selected_indices, vec![1, 3]);
    assert_eq!(ex.cursor_index, 1);
    ex.select_items_by_name(&strings(&["none"]));
    assert!(ex.selected_indices.is_empty());
    assert_eq!(ex.cursor_index, 1);
}

#[test]
fn total_size_of_selection() {
    let mut ex = explorer_with(3);
    assert_eq!(ex.get_selected_total_size(&vec![10, 20, 30]), 0);
    ex.select_items_by_name(&strings(&["f0", "f2"]));
    assert_eq!(ex.get_selected_total_size(&vec![10, 20, 30]), 40);
    assert_eq!(ex.get_selected_total_size(&vec![u64::MAX, 1, 5]), u64::MAX);
}

#[test]
fn item_size_status_help_sort_hidden() {
    let mut ex = explorer_with(2);
    ex.update_current_item_size(42);
    assert_eq!(ex.current_item_size, Some(42));
    let mut empty = explorer_with(0);
    empty.update_current_item_size(42);
    assert_eq!(empty.current_item_size, None);

    ex.toggle_help();
    assert!(matches!(ex.ui_mode, UIMode::Help));
    ex.toggle_help();
    assert!(matches!(ex.ui_mode, UIMode::Normal));

    ex.toggle_sort_mode();
    assert_eq!(ex.sort_mode, SortMode::Date);
    assert_eq!(ex.status_message.as_deref(), Some("Sorting by: Date Modified"));
    ex.toggle_sort_mode();
    assert_eq!(ex.status_message.as_deref(), Some("Sorting by: Name"));

    ex.toggle_hidden();
    assert!(ex.show_hidden);
    assert_eq!(ex.status_message.as_deref(), Some("Showing hidden files"));

    ex.ui_mode = UIMode::StatusMessage { message: "x".to_string() };
    ex.clear_status();
    assert!(ex.status_message.is_none());
    assert!(matches!(ex.ui_mode, UIMode::Normal));
}
