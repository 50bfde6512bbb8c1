use rusty_files::engine::OpOutcome;
use rusty_files::escalation::{escalation_commands, next_command, EscalationError, HelperCommand, RunnerStep};
use rusty_files::explorer::{ClipboardOp, CreationType, Entry, FileExplorer, OperationType, PendingOperation, UIMode};
use rusty_files::ops::{plan_delete, plan_rename, plan_transfer, undo_steps, FsStep, OpError, PathKind, RenameError, UndoAction};
use rusty_files::path::FsPath;

fn strings(v: &[&str]) -> Vec<String> {
    v.iter().map(|s| s.to_string()).collect()
}

fn path(parts: &[&str]) -> FsPath {
    FsPath { comps: strings(parts) }
}

fn explorer(names: &[&str]) -> FileExplorer {
    let mut ex = FileExplorer::new(path(&["home", "d"]), path(&["trash"]));
    let entries = names
        .iter()
        .map(|n| Entry { path: path(&["home", "d", n]), name: n.to_string(), is_dir: false, modified: Some(0) })
        .collect();
    ex.load_directory(entries);
    ex
}

#[test]
fn transfer_plan_avoids_taken_names() {
    let items = vec![path(&["src", "a.txt"]), path(&["src", "b.txt"]), path(&["other", "a.txt"])];
    let pairs = plan_transfer(&items, &path(&["dst"]), &strings(&["a.txt"])).unwrap();
    assert_eq!(pairs.len(), 3);
    assert_eq!(pairs[0].0.comps, strings(&["src", "a.txt"]));
    assert_eq!(pairs[0].1.comps, strings(&["dst", "a (1).txt"]));
    assert_eq!(pairs[1].1.comps, strings(&["dst", "b.txt"]));
    assert_eq!(pairs[2].1.comps, strings(&["dst", "a (2).txt"]));
}

#[test]
fn transfer_plan_refuses_root() {
    let items = vec![path(&["src", "a.txt"]), FsPath::root()];
    assert!(matches!(plan_transfer(&items, &path(&["dst"]), &vec![]), Err(OpError::InvalidFileName)));
}

#[test]
fn delete_moves_into_trash_and_undo_moves_back() {
    let items = vec![path(&["home", "a.txt"]), path(&["home", "b.txt"])];
    let pairs = plan_delete(&items, &path(&["trash"]), 1700000000, &vec![]).unwrap();
    assert_eq!(pairs[0].1.comps, strings(&["trash", "1700000000_a.txt"]));
    assert_eq!(pairs[1].1.comps, strings(&["trash", "1700000000_b.txt"]));

    let mut ex = explorer(&["a.txt", "b.txt"]);
    ex.complete_delete(pairs, OpOutcome::Done);
    assert_eq!(ex.undo_stack.len(), 1);
    assert_eq!(ex.status_message.as_deref(), Some("Deleted 2 item(s) (moved to trash)"));

    let action = ex.undo().unwrap();
    assert!(ex.undo_stack.is_empty());
    let steps = undo_steps(&action, &vec![PathKind::File, PathKind::File]);
    assert_eq!(steps.len(), 2);
    match &steps[0] {
        FsStep::Rename { from, to } => {
            assert_eq!(from.comps, strings(&["trash", "1700000000_a.txt"]));
            assert_eq!(to.comps, strings(&["home", "a.txt"]));
        },
        _ => panic!("expected a rename"),
    }
    ex.complete_undo(action, 2, OpOutcome::Done);
    assert_eq!(ex.status_message.as_deref(), Some("Undone delete: restored 2 item(s)"));
}

#[test]
fn undo_skips_what_is_gone() {
    let action = UndoAction::Copy { copied_files: vec![path(&["d", "x"]), path(&["d", "y"]), path(&["d", "z"])] };
    let steps = undo_steps(&action, &vec![PathKind::Dir, PathKind::Absent, PathKind::File]);
    assert_eq!(steps.len(), 2);
    match &steps[0] {
        FsStep::Remove { path, recursive } => {
            assert_eq!(path.comps, strings(&["d", "x"]));
            assert!(*recursive);
        },
        _ => panic!("expected a removal"),
    }
    match &steps[1] {
        FsStep::Remove { path, recursive } => {
            assert_eq!(path.comps, strings(&["d", "z"]));
            assert!(!*recursive);
        },
        _ => panic!("expected a removal"),
    }
    let rename = UndoAction::Rename { original_path: path(&["d", "a"]), new_path: path(&["d", "b"]) };
    assert!(undo_steps(&rename, &vec![PathKind::Absent]).is_empty());
}

#[test]
fn rename_refuses_existing_target() {
    let r = plan_rename(&path(&["d", "a.txt"]), &"b.txt".to_string(), &strings(&["a.txt", "b.txt"]));
    assert!(matches!(r, Err(RenameError::AlreadyExists)));
    let mut ex = explorer(&["a.txt", "b.txt"]);
    let r = ex.rename_item(&path(&["home", "d", "a.txt"]), &"b.txt".to_string(), &strings(&["a.txt", "b.txt"]));
    assert!(r.is_none());
    assert_eq!(ex.status_message.as_deref(), Some("'b.txt' already exists"));
    assert!(ex.undo_stack.is_empty());
}

#[test]
fn rename_checks() {
    let sib = strings(&["a.txt"]);
    assert!(matches!(plan_rename(&path(&["d", "a.txt"]), &"".to_string(), &sib), Err(RenameError::EmptyName)));
    assert!(matches!(plan_rename(&path(&["d", "a.txt"]), &"a.txt".to_string(), &sib), Err(RenameError::Unchanged)));
    assert!(matches!(plan_rename(&FsPath::root(), &"x".to_string(), &sib), Err(RenameError::InvalidPath)));
    let p = plan_rename(&path(&["d", "a.txt"]), &"c.txt".to_string(), &sib).unwrap();
    assert_eq!(p.comps, strings(&["d", "c.txt"]));
}

#[test]
fn rename_done_and_undone() {
    let mut ex = explorer(&["a.txt"]);
    let target = ex.rename_item(&path(&["home", "d", "a.txt"]), &"c.txt".to_string(), &strings(&["a.txt"])).unwrap();
    ex.complete_rename(path(&["home", "d", "a.txt"]), target, OpOutcome::Done);
    assert_eq!(ex.status_message.as_deref(), Some("Renamed to 'c.txt'"));
    let action = ex.undo().unwrap();
    ex.complete_undo(action, 1, OpOutcome::Done);
    assert_eq!(ex.status_message.as_deref(), Some("Undone rename: restored to 'a.txt'"));
}

#[test]
fn rename_denied_asks_password() {
    let mut ex = explorer(&["a.txt"]);
    ex.complete_rename(path(&["home", "d", "a.txt"]), path(&["home", "d", "c.txt"]), OpOutcome::PermissionDenied);
    match &ex.ui_mode {
        UIMode::PasswordPrompt { prompt, password, pending_operation } => {
            assert_eq!(prompt, "Enter sudo password to rename 'a.txt':");
            assert!(password.is_empty());
            assert_eq!(pending_operation.operation, OperationType::Rename);
        },
        _ => panic!("expected the password prompt"),
    }
}

#[test]
fn copy_cut_and_paste() {
    let mut ex = explorer(&["a.txt", "b.txt"]);
    ex.copy_selected();
    assert_eq!(ex.status_message.as_deref(), Some("Copied 1 item(s)"));
    let clip = ex.clipboard.as_ref().unwrap();
    assert_eq!(clip.operation, ClipboardOp::Copy);
    assert_eq!(clip.items[0].comps, strings(&["home", "d", "a.txt"]));

    let pairs = ex.paste(&strings(&["a.txt", "b.txt"])).unwrap().unwrap();
    assert_eq!(pairs[0].1.comps, strings(&["home", "d", "a (1).txt"]));
    let names = ex.complete_transfer(pairs, false, OpOutcome::Done);
    assert_eq!(names, strings(&["a (1).txt"]));
    assert_eq!(ex.status_message.as_deref(), Some("Pasted 1 item(s)"));
    assert!(ex.clipboard.is_some());
    assert!(matches!(ex.undo_stack[0], UndoAction::Copy { .. }));

    ex.select_items_by_name(&strings(&["a.txt", "b.txt"]));
    ex.cut_selected();
    assert_eq!(ex.status_message.as_deref(), Some("Cut 2 item(s)"));
    let pairs = ex.paste(&strings(&[])).unwrap().unwrap();
    ex.complete_transfer(pairs, true, OpOutcome::Done);
    assert!(ex.clipboard.is_none());
    assert_eq!(ex.undo_stack.len(), 2);
    assert!(ex.paste(&vec![]).is_none());
}

#[test]
fn paste_failures() {
    let mut ex = explorer(&["a.txt"]);
    ex.copy_selected();
    let pairs = ex.paste(&strings(&["a.txt"])).unwrap().unwrap();
    ex.complete_transfer(pairs, false, OpOutcome::Failed("disk full".to_string()));
    assert_eq!(ex.status_message.as_deref(), Some("Error: disk full"));
    assert!(ex.undo_stack.is_empty());

    let pairs = ex.paste(&strings(&["a.txt"])).unwrap().unwrap();
    ex.complete_transfer(pairs, false, OpOutcome::PermissionDenied);
    match &ex.ui_mode {
        UIMode::PasswordPrompt { pending_operation, .. } => {
            assert_eq!(pending_operation.operation, OperationType::Copy);
            assert_eq!(pending_operation.items[0].comps, strings(&["home", "d", "a.txt"]));
            assert_eq!(pending_operation.destination.as_ref().unwrap().comps, strings(&["home", "d"]));
        },
        _ => panic!("expected the password prompt"),
    }
    let (op, pw) = ex.submit_password().unwrap();
    assert!(pw.is_empty());
    assert_eq!(op.operation, OperationType::Copy);
    assert!(matches!(ex.ui_mode, UIMode::Normal));
    assert!(ex.submit_password().is_none());
}

#[test]
fn delete_asks_confirmation() {
    let mut ex = explorer(&["a.txt", "b.txt"]);
    ex.cursor_index = 1;
    ex.delete_selected();
    match &ex.ui_mode {
        UIMode::ConfirmDelete { items } => assert_eq!(items[0].comps, strings(&["home", "d", "b.txt"])),
        _ => panic!("expected the confirmation"),
    }
    let mut empty = explorer(&[]);
    empty.delete_selected();
    assert!(matches!(empty.ui_mode, UIMode::Normal));
    let pairs = ex.perform_delete(&vec![path(&["home", "d", "b.txt"])], 5, &vec![]).unwrap();
    assert_eq!(pairs[0].1.comps, strings(&["trash", "5_b.txt"]));
}

#[test]
fn nothing_to_undo() {
    let mut ex = explorer(&[]);
    assert!(ex.undo().is_none());
    assert_eq!(ex.status_message.as_deref(), Some("Nothing to undo"));
}

#[test]
fn undo_denied_keeps_the_action() {
    let mut ex = explorer(&["a"]);
    ex.complete_rename(path(&["home", "d", "a"]), path(&["home", "d", "b"]), OpOutcome::Done);
    let action = ex.undo().unwrap();
    assert!(ex.undo_stack.is_empty());
    ex.complete_undo(action, 0, OpOutcome::PermissionDenied);
    assert_eq!(ex.undo_stack.len(), 1);
    match &ex.ui_mode {
        UIMode::PasswordPrompt { pending_operation, .. } => {
            assert_eq!(pending_operation.operation, OperationType::Undo);
            assert!(pending_operation.undo_action.is_some());
        },
        _ => panic!("expected the password prompt"),
    }
}

#[test]
fn undo_other_error_drops_the_action() {
    let mut ex = explorer(&["a"]);
    ex.complete_rename(path(&["home", "d", "a"]), path(&["home", "d", "b"]), OpOutcome::Done);
    let action = ex.undo().unwrap();
    ex.handle_undo_error(action, false, &"busy".to_string());
    assert!(ex.undo_stack.is_empty());
    assert_eq!(ex.status_message.as_deref(), Some("Undo error: busy"));
}

#[test]
fn failed_validation_runs_nothing_else() {
    let steps = vec![FsStep::Rename { from: path(&["a"]), to: path(&["b"]) }];
    let cmds = escalation_commands(steps);
    assert_eq!(cmds.len(), 2);
    assert!(matches!(cmds[0], HelperCommand::Validate));
    assert!(matches!(cmds[1], HelperCommand::Move { .. }));
    assert!(matches!(
        next_command(2, 0, false, "bad".to_string()),
        RunnerStep::Abort(EscalationError::IncorrectCredential)
    ));
    assert!(matches!(next_command(2, 0, true, String::new()), RunnerStep::Run(1)));
    assert!(matches!(next_command(2, 1, true, String::new()), RunnerStep::Finished));
    match next_command(2, 1, false, "mv: denied".to_string()) {
        RunnerStep::Abort(EscalationError::CommandFailed(m)) => assert_eq!(m, "mv: denied"),
        _ => panic!("expected an abort"),
    }
}

#[test]
fn escalation_plans() {
    let ex = explorer(&["a.txt"]);
    let op = PendingOperation {
        items: vec![path(&["home", "d", "a.txt"])],
        destination: None,
        operation: OperationType::Delete,
        undo_action: None,
    };
    let plan = ex.plan_escalation(&op, &vec![], 9, &vec![]).unwrap();
    assert_eq!(plan.commands.len(), 2);
    assert!(matches!(plan.commands[0], HelperCommand::Validate));
    match &plan.commands[1] {
        HelperCommand::Move { from, to } => {
            assert_eq!(from.comps, strings(&["home", "d", "a.txt"]));
            assert_eq!(to.comps, strings(&["trash", "9_a.txt"]));
        },
        _ => panic!("expected a move"),
    }
    assert!(matches!(plan.record, Some(UndoAction::Delete { .. })));

    let copy = PendingOperation {
        items: vec![path(&["src", "a.txt"])],
        destination: Some(path(&["home", "d"])),
        operation: OperationType::Copy,
        undo_action: None,
    };
    let plan = ex.plan_escalation(&copy, &strings(&["a.txt"]), 0, &vec![]).unwrap();
    match &plan.commands[1] {
        HelperCommand::Copy { to, .. } => assert_eq!(to.comps, strings(&["home", "d", "a (1).txt"])),
        _ => panic!("expected a copy"),
    }

    let undo = PendingOperation {
        items: vec![],
        destination: None,
        operation: OperationType::Undo,
        undo_action: Some(UndoAction::Copy { copied_files: vec![path(&["x"]), path(&["y"])] }),
    };
    let plan = ex.plan_escalation(&undo, &vec![], 0, &vec![PathKind::Dir, PathKind::Absent]).unwrap();
    assert_eq!(plan.commands.len(), 2);
    assert!(matches!(plan.commands[1], HelperCommand::Remove { recursive: true, .. }));
    assert!(plan.record.is_none());
    assert!(ex.plan_escalation(&undo, &vec![], 0, &vec![]).is_none());
}

#[test]
fn escalation_completion() {
    let mut ex = explorer(&["a.txt"]);
    ex.complete_escalation(OperationType::Delete, None, Err(EscalationError::IncorrectCredential));
    assert_eq!(ex.status_message.as_deref(), Some("Incorrect sudo password"));
    let record = UndoAction::Rename { original_path: path(&["a"]), new_path: path(&["b"]) };
    ex.complete_escalation(OperationType::Rename, Some(record), Ok(1));
    assert_eq!(ex.undo_stack.len(), 1);
    assert_eq!(ex.status_message.as_deref(), Some("Renamed 1 item(s) with sudo"));
    ex.complete_escalation(OperationType::Undo, None, Ok(1));
    assert!(ex.undo_stack.is_empty());
    assert_eq!(ex.status_message.as_deref(), Some("Undone 1 item(s) with sudo"));
    ex.complete_escalation(OperationType::Copy, None, Err(EscalationError::CommandFailed("cp: x".to_string())));
    assert_eq!(ex.status_message.as_deref(), Some("Error: cp: x"));
}

#[test]
fn create_new_item_checks() {
    let mut ex = explorer(&["a.txt"]);
    ex.start_create_new();
    assert!(matches!(ex.ui_mode, UIMode::CreateNew { .. }));
    assert!(ex.create_new_item(&"".to_string(), &strings(&["a.txt"])).is_none());
    assert_eq!(ex.status_message.as_deref(), Some("Name cannot be empty"));
    assert!(ex.create_new_item(&"a.txt".to_string(), &strings(&["a.txt"])).is_none());
    assert_eq!(ex.status_message.as_deref(), Some("'a.txt' already exists"));
    let p = ex.create_new_item(&"new.py".to_string(), &strings(&["a.txt"])).unwrap();
    assert_eq!(p.comps, strings(&["home", "d", "new.py"]));
}

#[test]
fn start_rename_selects_stem() {
    let mut ex = explorer(&["report.final.pdf", ".hidden"]);
    ex.start_rename();
    match &ex.ui_mode {
        UIMode::RenameItem { new_name, cursor_pos, selection_start, .. } => {
            assert_eq!(new_name, "report.final.pdf");
            assert_eq!(*cursor_pos, 12);
            assert_eq!(*selection_start, Some(0));
        },
        _ => panic!("expected the rename prompt"),
    }
    ex.cursor_index = 1;
    ex.start_rename();
    match &ex.ui_mode {
        UIMode::RenameItem { cursor_pos, .. } => assert_eq!(*cursor_pos, 7),
        _ => panic!("expected the rename prompt"),
    }
}

#[test]
fn create_messages() {
    let mut ex = explorer(&[]);
    ex.complete_create(CreationType::File, &"a.py".to_string(), OpOutcome::Done);
    assert_eq!(ex.status_message.as_deref(), Some("Created file 'a.py'"));
    ex.complete_create(CreationType::Directory, &"src".to_string(), OpOutcome::Done);
    assert_eq!(ex.status_message.as_deref(), Some("Created directory 'src'"));
    ex.complete_create(CreationType::File, &"x".to_string(), OpOutcome::Failed("read-only".to_string()));
    assert_eq!(ex.status_message.as_deref(), Some("Error: read-only"));
    ex.complete_create(CreationType::File, &"x".to_string(), OpOutcome::PermissionDenied);
    assert_eq!(ex.status_message.as_deref(), Some("Error: permission denied"));
}

#[test]
fn delete_never_reuses_a_trash_path() {
    let items = vec![path(&["d1", "x"]), path(&["d2", "x"]), path(&["d3", "x"])];
    let pairs = plan_delete(&items, &path(&["trash"]), 7, &strings(&["7_x"])).unwrap();
    assert_eq!(pairs[0].1.comps, strings(&["trash", "7_x (1)"]));
    assert_eq!(pairs[1].1.comps, strings(&["trash", "7_x (2)"]));
    assert_eq!(pairs[2].1.comps, strings(&["trash", "7_x (3)"]));
    let items = vec![path(&["d1", "a.txt"]), path(&["d2", "a.txt"])];
    let pairs = plan_delete(&items, &path(&["trash"]), 7, &vec![]).unwrap();
    assert_eq!(pairs[0].1.comps, strings(&["trash", "7_a.txt"]));
    assert_eq!(pairs[1].1.comps, strings(&["trash", "7_a (1).txt"]));
    assert!(matches!(plan_delete(&vec![FsPath::root()], &path(&["trash"]), 7, &vec![]), Err(OpError::InvalidFileName)));
}

#[test]
fn confirmation_and_cancel() {
    let mut ex = explorer(&["a.txt", "b.txt"]);
    ex.delete_selected();
    assert!(ex.answer_delete(false).is_none());
    assert!(matches!(ex.ui_mode, UIMode::Normal));
    ex.delete_selected();
    let items = ex.answer_delete(true).unwrap();
    assert_eq!(items[0].comps, strings(&["home", "d", "a.txt"]));
    assert!(matches!(ex.ui_mode, UIMode::Normal));
    assert!(ex.answer_delete(true).is_none());
    ex.start_create_new();
    ex.cancel_modal();
    assert!(matches!(ex.ui_mode, UIMode::Normal));
}

#[test]
fn undo_of_a_directory_copy_is_recursive_in_the_helper() {
    let ex = explorer(&[]);
    let undo = PendingOperation {
        items: vec![],
        destination: None,
        operation: OperationType::Undo,
        undo_action: Some(UndoAction::Copy { copied_files: vec![path(&["x"]), path(&["y"])] }),
    };
    let plan = ex.plan_escalation(&undo, &vec![], 0, &vec![PathKind::File, PathKind::Dir]).unwrap();
    assert!(matches!(plan.commands[1], HelperCommand::Remove { recursive: false, .. }));
    assert!(matches!(plan.commands[2], HelperCommand::Remove { recursive: true, .. }));
}
