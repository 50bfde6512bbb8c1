use vstd::prelude::*;
use crate::content::{default_content, default_file_content};
use crate::engine::OpOutcome;
use crate::explorer::{CreationType, FileExplorer, OperationType, PendingOperation, UIMode};
use crate::names::{contains_name, count_message, dec, ext_start, extension_start, framed, name_views, unique_name, unique_name_spec};
use crate::ops::{delete_dests, firsts_of, plan_delete, plan_rename, rename_spec, has_root, ActionV, OpError, PathV, RenameError, UndoAction};
use crate::path::{pairs_view, paths_view, FsPath};

verus! {

/// The text shown when a rename is refused.
pub open spec fn rename_refusal(e: RenameError, new_name: Seq<char>) -> Seq<char> {
    match e {
        RenameError::EmptyName => "Name cannot be empty"@,
        RenameError::InvalidPath => "Invalid path"@,
        RenameError::Unchanged => "Name unchanged"@,
        RenameError::AlreadyExists => "'"@ + new_name + "' already exists"@,
    }
}

/// The text shown when an undo of `action` reversed `count` items.
pub open spec fn undo_report(action: ActionV, count: nat) -> Seq<char> {
    match action {
        ActionV::Copy(_) => "Undone copy: removed "@ + dec(count) + " item(s)"@,
        ActionV::Move(_) => "Undone move: restored "@ + dec(count) + " item(s)"@,
        ActionV::Delete(_) => "Undone delete: restored "@ + dec(count) + " item(s)"@,
        ActionV::Rename(o, _) => if count == 0 {
            "Cannot undo rename: file not found"@
        } else {
            "Undone rename: restored to '"@ + (if o.len() > 0 {
                o.last()
            } else {
                Seq::empty()
            }) + "'"@
        },
    }
}

/// The path `get_unique_path` gives for `dest` in a directory whose entries
/// are named `taken`.
pub open spec fn unique_path_spec(dest: PathV, taken: Seq<Seq<char>>) -> PathV {
    dest.drop_last().push(unique_name_spec(dest.last(), taken))
}

/// Asking twice for a free path while the directory is unchanged gives the
/// same free path; once that path has been created, asking again gives
/// another free path in the same directory, named `stem (k)ext` with `k >= 1`.
pub proof fn lemma_unique_path_idempotent(dest: PathV, taken: Seq<Seq<char>>)
    requires
        dest.len() > 0,
    ensures
        ({
            let r = unique_path_spec(dest, taken);
            let again = unique_path_spec(dest, taken.push(r.last()));
            &&& !taken.contains(r.last())
            &&& r.drop_last() == dest.drop_last()
            &&& again != r
            &&& again.drop_last() == dest.drop_last()
            &&& !taken.push(r.last()).contains(again.last())
            &&& exists|k: nat|
                k >= 1 && again.last() == crate::names::candidate(
                    crate::names::stem_of(dest.last()),
                    crate::names::ext_of(dest.last()),
                    k,
                )
        }),
{
    let r = unique_path_spec(dest, taken);
    crate::names::lemma_unique_name_idempotent(dest.last(), taken);
    assert(r.last() == unique_name_spec(dest.last(), taken));
    assert(r.drop_last() =~= dest.drop_last());
    let again = unique_path_spec(dest, taken.push(r.last()));
    assert(again.drop_last() =~= dest.drop_last());
    assert(again.last() == unique_name_spec(dest.last(), taken.push(r.last())));
    let k = crate::names::first_free(
        crate::names::stem_of(dest.last()),
        crate::names::ext_of(dest.last()),
        taken.push(r.last()),
        1,
    );
    assert(k >= 1);
}

impl FileExplorer {
    /// Leaves a prompt, a confirmation or the help for normal mode; nothing
    /// else changes.
    pub fn cancel_modal(&mut self)
        ensures
            final(self).ui_mode is Normal,
            final(self).same_nav(old(self)),
            final(self).entries == old(self).entries,
            final(self).undo_stack == old(self).undo_stack,
            final(self).clipboard == old(self).clipboard,
            final(self).status_message == old(self).status_message,
    {
        self.ui_mode = UIMode::Normal;
    }

    /// Answers the delete confirmation: either way back to normal mode, and
    /// with `yes` the items to delete are handed back. Outside the
    /// confirmation nothing changes.
    pub fn answer_delete(&mut self, yes: bool) -> (r: Option<Vec<FsPath>>)
        ensures
            old(self).ui_mode is ConfirmDelete ==> {
                &&& final(self).ui_mode is Normal
                &&& yes ==> r == Some(old(self).ui_mode->items)
                &&& !yes ==> r is None
            },
            !(old(self).ui_mode is ConfirmDelete) ==> final(self).ui_mode == old(self).ui_mode
                && r is None,
            final(self).same_nav(old(self)),
            final(self).entries == old(self).entries,
            final(self).undo_stack == old(self).undo_stack,
            final(self).clipboard == old(self).clipboard,
    {
        let mut mode = UIMode::Normal;
        core::mem::swap(&mut mode, &mut self.ui_mode);
        match mode {
            UIMode::ConfirmDelete { items } => {
                if yes {
                    Some(items)
                } else {
                    None
                }
            },
            other => {
                self.ui_mode = other;
                None
            },
        }
    }

    /// Opens the prompt for the name of a new file or directory.
    pub fn start_create_new(&mut self)
        ensures
            final(self).ui_mode is CreateNew,
            final(self).ui_mode->creation_type is None,
            final(self).ui_mode->name@.len() == 0,
            final(self).same_nav(old(self)),
            final(self).entries == old(self).entries,
            final(self).undo_stack == old(self).undo_stack,
    {
        self.ui_mode = UIMode::CreateNew { creation_type: None, name: String::new() };
    }

    /// Checks the name of a new item in the open directory, whose entries are
    /// named `taken`: an empty or taken name is refused with a message, else
    /// the path to create is returned.
    pub fn create_new_item(&mut self, name: &String, taken: &Vec<String>) -> (r: Option<FsPath>)
        ensures
            name@.len() == 0 ==> r is None && final(self).status_message is Some
                && final(self).status_message->0@ == "Name cannot be empty"@,
            name@.len() > 0 && name_views(taken@).contains(name@) ==> r is None
                && final(self).status_message is Some && final(self).status_message->0@ == "'"@
                + name@ + "' already exists"@,
            name@.len() > 0 && !name_views(taken@).contains(name@) ==> r is Some && r->0@
                == old(self).current_dir@.push(name@) && final(self).status_message
                == old(self).status_message,
            final(self).same_nav(old(self)),
            final(self).entries == old(self).entries,
            final(self).undo_stack == old(self).undo_stack,
            final(self).current_dir == old(self).current_dir,
    {
        if name.as_str().unicode_len() == 0 {
            self.show_status(String::from_str("Name cannot be empty"));
            return None;
        }
        if contains_name(taken, name) {
            self.show_status(framed("'", name.as_str(), "' already exists"));
            return None;
        }
        Some(self.current_dir.join(name))
    }

    /// Settles the creation of an item named `name`, carried out with
    /// `outcome`: done, says what was made; else shows the error.
    pub fn complete_create(&mut self, kind: CreationType, name: &String, outcome: OpOutcome)
        ensures
            final(self).status_message is Some,
            final(self).status_message->0@ == match outcome {
                OpOutcome::Done => (if kind == CreationType::File {
                    "Created file '"@
                } else {
                    "Created directory '"@
                }) + name@ + "'"@,
                OpOutcome::PermissionDenied => "Error: permission denied"@,
                OpOutcome::Failed(msg) => "Error: "@ + msg@ + ""@,
            },
            final(self).same_nav(old(self)),
            final(self).entries == old(self).entries,
            final(self).undo_stack == old(self).undo_stack,
            final(self).ui_mode == old(self).ui_mode,
    {
        let msg = match outcome {
            OpOutcome::Done => match kind {
                CreationType::File => framed("Created file '", name.as_str(), "'"),
                CreationType::Directory => framed("Created directory '", name.as_str(), "'"),
            },
            OpOutcome::PermissionDenied => String::from_str("Error: permission denied"),
            OpOutcome::Failed(m) => framed("Error: ", m.as_str(), ""),
        };
        self.show_status(msg);
    }

    /// The starter text of a new file named `filename` (see `default_content`).
    pub fn get_default_file_content(filename: &str) -> (r: String)
        ensures
            r@ == default_content(filename@),
    {
        default_file_content(filename)
    }

    /// Opens the rename prompt on the entry under the cursor, with its name
    /// and the part before the extension selected.
    pub fn start_rename(&mut self)
        requires
            old(self).wf(),
        ensures
            final(self).wf(),
            final(self).same_nav(old(self)),
            final(self).entries == old(self).entries,
            final(self).undo_stack == old(self).undo_stack,
            old(self).entries.len() == 0 ==> final(self).ui_mode == old(self).ui_mode,
            old(self).entries.len() > 0 ==> {
                let e = old(self).entries@[old(self).cursor_index as int];
                &&& final(self).ui_mode is RenameItem
                &&& final(self).ui_mode->original_path@ == e.path@
                &&& final(self).ui_mode->new_name@ == e.name@
                &&& final(self).ui_mode->cursor_pos == ext_start(e.name@)
                &&& final(self).ui_mode->selection_start == Some(0usize)
            },
    {
        if self.entries.len() == 0 {
            return;
        }
        let path = self.entries[self.cursor_index].path.duplicate();
        let name = self.entries[self.cursor_index].name.clone();
        let pos = extension_start(name.as_str());
        self.ui_mode = UIMode::RenameItem {
            original_path: path,
            new_name: name,
            cursor_pos: pos,
            selection_start: Some(0),
        };
    }

    /// Checks a rename of `original` to `new_name` in a directory whose
    /// entries are named `siblings` (see `rename_spec`): a refusal is shown
    /// and none returned, else the new path.
    pub fn rename_item(&mut self, original: &FsPath, new_name: &String, siblings: &Vec<String>) -> (r: Option<FsPath>)
        ensures
            match rename_spec(original@, new_name@, name_views(siblings@)) {
                Ok(p) => r is Some && r->0@ == p && final(self).status_message
                    == old(self).status_message,
                Err(e) => r is None && final(self).status_message is Some
                    && final(self).status_message->0@ == rename_refusal(e, new_name@),
            },
            final(self).same_nav(old(self)),
            final(self).entries == old(self).entries,
            final(self).undo_stack == old(self).undo_stack,
            final(self).ui_mode == old(self).ui_mode,
    {
        match plan_rename(original, new_name, siblings) {
            Ok(p) => Some(p),
            Err(e) => {
                let msg = match e {
                    RenameError::EmptyName => String::from_str("Name cannot be empty"),
                    RenameError::InvalidPath => String::from_str("Invalid path"),
                    RenameError::Unchanged => String::from_str("Name unchanged"),
                    RenameError::AlreadyExists => framed("'", new_name.as_str(), "' already exists"),
                };
                self.show_status(msg);
                None
            },
        }
    }

    /// Settles a rename of `original` to `new_path` carried out with
    /// `outcome`: done, it goes on the undo stack; refused for want of
    /// permission, a password is asked to retry; else the error is shown.
    pub fn complete_rename(&mut self, original: FsPath, new_path: FsPath, outcome: OpOutcome)
        requires
            old(self).wf(),
            new_path@.len() > 0,
            original@.len() > 0,
        ensures
            final(self).wf(),
            final(self).same_nav(old(self)),
            final(self).entries == old(self).entries,
            match outcome {
                OpOutcome::Done => {
                    &&& final(self).undo_stack@ == old(self).undo_stack@.push(
                        UndoAction::Rename { original_path: original, new_path },
                    )
                    &&& final(self).status_message is Some
                    &&& final(self).status_message->0@ == "Renamed to '"@ + new_path@.last() + "'"@
                },
                OpOutcome::PermissionDenied => {
                    &&& final(self).undo_stack == old(self).undo_stack
                    &&& final(self).prompts_for(OperationType::Rename)
                    &&& paths_view(final(self).ui_mode->pending_operation.items@) == seq![original@]
                    &&& final(self).ui_mode->pending_operation.destination is Some
                    &&& final(self).ui_mode->pending_operation.destination->0@ == new_path@
                    &&& final(self).ui_mode->pending_operation.undo_action is None
                    &&& final(self).clipboard == old(self).clipboard
                },
                OpOutcome::Failed(msg) => {
                    &&& final(self).undo_stack == old(self).undo_stack
                    &&& final(self).status_message is Some
                    &&& final(self).status_message->0@ == "Error: "@ + msg@ + ""@
                },
            },
    {
        match outcome {
            OpOutcome::Done => {
                let name = match new_path.file_name() {
                    Some(n) => n,
                    None => String::new(),
                };
                self.undo_stack.push(UndoAction::Rename { original_path: original, new_path });
                self.show_status(framed("Renamed to '", name.as_str(), "'"));
            },
            OpOutcome::PermissionDenied => {
                let old_name = match original.file_name() {
                    Some(n) => n,
                    None => String::new(),
                };
                let mut items: Vec<FsPath> = Vec::new();
                items.push(original);
                proof {
                    assert(paths_view(items@) =~= seq![original@]);
                }
                let pending = PendingOperation {
                    items,
                    destination: Some(new_path),
                    operation: OperationType::Rename,
                    undo_action: None,
                };
                self.ui_mode = UIMode::PasswordPrompt {
                    prompt: framed("Enter sudo password to rename '", old_name.as_str(), "':"),
                    password: String::new(),
                    pending_operation: pending,
                };
            },
            OpOutcome::Failed(msg) => {
                self.show_status(framed("Error: ", msg.as_str(), ""));
            },
        }
    }

    /// Asks to confirm the delete of the selected paths (see `selected_paths`);
    /// with none nothing changes.
    pub fn delete_selected(&mut self)
        requires
            old(self).wf(),
        ensures
            final(self).wf(),
            final(self).same_nav(old(self)),
            final(self).entries == old(self).entries,
            final(self).undo_stack == old(self).undo_stack,
            old(self).selected_paths().len() == 0 ==> final(self).ui_mode == old(self).ui_mode,
            old(self).selected_paths().len() > 0 ==> final(self).ui_mode is ConfirmDelete
                && paths_view(final(self).ui_mode->items@) == old(self).selected_paths(),
    {
        let items = self.get_selected_paths();
        if items.len() > 0 {
            self.ui_mode = UIMode::ConfirmDelete { items };
        } else {
            proof {
                assert(paths_view(items@).len() == 0);
            }
        }
    }

    /// Plans the delete of `items` at time `timestamp` (seconds) into the
    /// trash, whose entries are named `trash_names`: each goes to a free
    /// trash path, `{timestamp}_{name}` when that is free (see `plan_delete`).
    pub fn perform_delete(&self, items: &Vec<FsPath>, timestamp: u64, trash_names: &Vec<String>) -> (r: Result<Vec<(FsPath, FsPath)>, OpError>)
        requires
            trash_names.len() + items.len() < u64::MAX,
        ensures
            match r {
                Ok(pairs) => {
                    &&& !has_root(paths_view(items@))
                    &&& pairs.len() == items.len()
                    &&& forall|i: int|
                        0 <= i < items.len() ==> (#[trigger] pairs_view(pairs@)[i]).0 == items@[i]@
                            && pairs_view(pairs@)[i].1 == delete_dests(
                            paths_view(items@),
                            self.trash_dir@,
                            timestamp as nat,
                            name_views(trash_names@),
                        )[i]
                    &&& forall|i: int|
                        0 <= i < items.len() ==> (#[trigger] pairs_view(pairs@)[i]).1.drop_last()
                            == self.trash_dir@ && !name_views(trash_names@).contains(
                            pairs_view(pairs@)[i].1.last(),
                        )
                    &&& forall|i: int, j: int|
                        0 <= i < items.len() && 0 <= j < items.len() && i != j ==> pairs_view(
                            pairs@,
                        )[i].1 != pairs_view(pairs@)[j].1
                },
                Err(e) => e == OpError::InvalidFileName && has_root(paths_view(items@)),
            },
    {
        plan_delete(items, &self.trash_dir, timestamp, trash_names)
    }

    /// Settles a delete of `pairs` (original, trash path) carried out with
    /// `outcome`: done, it goes on the undo stack and the selection is
    /// cleared and saved; refused for want of permission, a password is
    /// asked to retry; else the error is shown.
    pub fn complete_delete(&mut self, pairs: Vec<(FsPath, FsPath)>, outcome: OpOutcome)
        requires
            old(self).wf(),
        ensures
            final(self).wf(),
            final(self).entries == old(self).entries,
            match outcome {
                OpOutcome::Done => {
                    &&& final(self).undo_stack@ == old(self).undo_stack@.push(
                        UndoAction::Delete { deleted_files: pairs },
                    )
                    &&& final(self).status_message is Some
                    &&& final(self).status_message->0@ == "Deleted "@ + dec(pairs.len() as nat)
                        + " item(s) (moved to trash)"@
                    &&& final(self).selected_indices@.len() == 0
                    &&& final(self).selection_anchor is None
                    &&& final(self).dir_memory.map_view() == old(
                        self,
                    ).dir_memory.map_view().insert(old(self).current_dir@, final(self).state_now())
                },
                OpOutcome::PermissionDenied => {
                    &&& final(self).undo_stack == old(self).undo_stack
                    &&& final(self).prompts_for(OperationType::Delete)
                    &&& paths_view(final(self).ui_mode->pending_operation.items@) == pairs_view(
                        pairs@,
                    ).map_values(|p: (PathV, PathV)| p.0)
                    &&& final(self).ui_mode->pending_operation.destination is None
                    &&& final(self).ui_mode->pending_operation.undo_action is None
                    &&& final(self).clipboard == old(self).clipboard
                    &&& final(self).same_nav(old(self))
                },
                OpOutcome::Failed(msg) => {
                    &&& final(self).undo_stack == old(self).undo_stack
                    &&& final(self).status_message is Some
                    &&& final(self).status_message->0@ == "Error: "@ + msg@ + ""@
                    &&& final(self).same_nav(old(self))
                },
            },
    {
        match outcome {
            OpOutcome::Done => {
                let n = pairs.len();
                self.undo_stack.push(UndoAction::Delete { deleted_files: pairs });
                self.show_status(count_message("Deleted ", n as u64, " item(s) (moved to trash)"));
                self.selected_indices = Vec::new();
                self.selection_anchor = None;
                self.save_state();
            },
            OpOutcome::PermissionDenied => {
                let items = firsts_of(&pairs);
                proof {
                    assert(paths_view(items@) =~= pairs_view(pairs@).map_values(
                        |p: (PathV, PathV)| p.0,
                    ));
                }
                let pending = PendingOperation {
                    items,
                    destination: None,
                    operation: OperationType::Delete,
                    undo_action: None,
                };
                self.ui_mode = UIMode::PasswordPrompt {
                    prompt: String::from_str("Permission denied. Enter sudo password:"),
                    password: String::new(),
                    pending_operation: pending,
                };
            },
            OpOutcome::Failed(msg) => {
                self.show_status(framed("Error: ", msg.as_str(), ""));
            },
        }
    }

    /// Takes the most recent action off the undo stack, to be reversed (see
    /// `undo_steps`); with none, says there is nothing to undo.
    pub fn undo(&mut self) -> (r: Option<UndoAction>)
        ensures
            old(self).undo_stack.len() == 0 ==> r is None && final(self).undo_stack
                == old(self).undo_stack && final(self).status_message is Some
                && final(self).status_message->0@ == "Nothing to undo"@,
            old(self).undo_stack.len() > 0 ==> r == Some(old(self).undo_stack@.last())
                && final(self).undo_stack@ == old(self).undo_stack@.drop_last()
                && final(self).status_message == old(self).status_message,
            final(self).same_nav(old(self)),
            final(self).entries == old(self).entries,
            final(self).ui_mode == old(self).ui_mode,
            final(self).current_dir == old(self).current_dir,
    {
        if self.undo_stack.len() == 0 {
            self.show_status(String::from_str("Nothing to undo"));
            return None;
        }
        self.undo_stack.pop()
    }

    /// A failure while reversing `action`. For want of permission the action
    /// goes back on the stack unchanged and a password is asked to retry it;
    /// otherwise the action is dropped and the error shown.
    pub fn handle_undo_error(&mut self, action: UndoAction, permission_denied: bool, message: &String)
        ensures
            permission_denied ==> {
                &&& final(self).undo_stack.len() == old(self).undo_stack.len() + 1
                &&& final(self).undo_stack@.drop_last() == old(self).undo_stack@
                &&& final(self).undo_stack@.last().view_action() == action.view_action()
                &&& final(self).prompts_for(OperationType::Undo)
                &&& final(self).ui_mode->pending_operation.undo_action == Some(action)
                &&& final(self).ui_mode->pending_operation.items.len() == 0
                &&& final(self).ui_mode->pending_operation.destination is None
            },
            !permission_denied ==> {
                &&& final(self).undo_stack == old(self).undo_stack
                &&& final(self).status_message is Some
                &&& final(self).status_message->0@ == "Undo error: "@ + message@ + ""@
                &&& final(self).ui_mode == old(self).ui_mode
            },
            final(self).same_nav(old(self)),
            final(self).entries == old(self).entries,
            final(self).clipboard == old(self).clipboard,
    {
        if permission_denied {
            let again = action.duplicate();
            self.undo_stack.push(again);
            proof {
                assert(self.undo_stack@.drop_last() =~= old(self).undo_stack@);
            }
            self.ui_mode = UIMode::PasswordPrompt {
                prompt: String::from_str("Permission denied. Enter sudo password:"),
                password: String::new(),
                pending_operation: PendingOperation {
                    items: Vec::new(),
                    destination: None,
                    operation: OperationType::Undo,
                    undo_action: Some(action),
                },
            };
        } else {
            self.show_status(framed("Undo error: ", message.as_str(), ""));
        }
    }

    /// Settles the reversal of `action`, which reversed `count` items (those
    /// found gone were skipped): done, says what was restored; refused for
    /// want of permission, see `handle_undo_error`; else the error is shown.
    pub fn complete_undo(&mut self, action: UndoAction, count: u64, outcome: OpOutcome)
        ensures
            match outcome {
                OpOutcome::Done => {
                    &&& final(self).undo_stack == old(self).undo_stack
                    &&& final(self).status_message is Some
                    &&& final(self).status_message->0@ == undo_report(
                        action.view_action(),
                        count as nat,
                    )
                    &&& final(self).ui_mode == old(self).ui_mode
                },
                OpOutcome::PermissionDenied => {
                    &&& final(self).undo_stack.len() == old(self).undo_stack.len() + 1
                    &&& final(self).undo_stack@.drop_last() == old(self).undo_stack@
                    &&& final(self).undo_stack@.last().view_action() == action.view_action()
                    &&& final(self).prompts_for(OperationType::Undo)
                    &&& final(self).ui_mode->pending_operation.undo_action == Some(action)
                    &&& final(self).ui_mode->pending_operation.items.len() == 0
                    &&& final(self).ui_mode->pending_operation.destination is None
                },
                OpOutcome::Failed(msg) => {
                    &&& final(self).undo_stack == old(self).undo_stack
                    &&& final(self).status_message is Some
                    &&& final(self).status_message->0@ == "Undo error: "@ + msg@ + ""@
                    &&& final(self).ui_mode == old(self).ui_mode
                },
            },
            final(self).same_nav(old(self)),
            final(self).entries == old(self).entries,
            final(self).clipboard == old(self).clipboard,
    {
        match outcome {
            OpOutcome::Done => {
                let msg = match &action {
                    UndoAction::Copy { .. } => count_message("Undone copy: removed ", count, " item(s)"),
                    UndoAction::Move { .. } => count_message("Undone move: restored ", count, " item(s)"),
                    UndoAction::Delete { .. } => count_message(
                        "Undone delete: restored ",
                        count,
                        " item(s)",
                    ),
                    UndoAction::Rename { original_path, .. } => {
                        if count == 0 {
                            String::from_str("Cannot undo rename: file not found")
                        } else {
                            let name = match original_path.file_name() {
                                Some(n) => n,
                                None => String::new(),
                            };
                            framed("Undone rename: restored to '", name.as_str(), "'")
                        }
                    },
                };
                self.show_status(msg);
            },
            OpOutcome::PermissionDenied => {
                let empty = String::new();
                self.handle_undo_error(action, true, &empty);
            },
            OpOutcome::Failed(msg) => {
                self.handle_undo_error(action, false, &msg);
            },
        }
    }

    /// A free path for `dest_path` in its directory, whose entries are named
    /// `taken`: the path itself when its name is free, else the same
    /// directory with `stem (k)ext` for the least free `k >= 1`.
    pub fn get_unique_path(&self, dest_path: &FsPath, taken: &Vec<String>) -> (r: FsPath)
        requires
            dest_path@.len() > 0,
            taken.len() < u64::MAX,
        ensures
            r@ == unique_path_spec(dest_path@, name_views(taken@)),
            !name_views(taken@).contains(r@.last()),
    {
        let parent = match dest_path.parent() {
            Some(p) => p,
            None => FsPath::root(),
        };
        let name = match dest_path.file_name() {
            Some(n) => n,
            None => String::new(),
        };
        let u = unique_name(&name, taken);
        parent.join(&u)
    }

    /// Takes the typed password and the operation waiting for it out of the
    /// password prompt, back to normal mode; outside the prompt, none.
    pub fn submit_password(&mut self) -> (r: Option<(PendingOperation, String)>)
        ensures
            old(self).ui_mode is PasswordPrompt ==> match r {
                Some((op, pw)) => final(self).ui_mode is Normal && op == old(
                    self,
                ).ui_mode->pending_operation && pw == old(self).ui_mode->password,
                None => false,
            },
            !(old(self).ui_mode is PasswordPrompt) ==> r is None && final(self).ui_mode
                == old(self).ui_mode,
            final(self).same_nav(old(self)),
            final(self).entries == old(self).entries,
            final(self).undo_stack == old(self).undo_stack,
    {
        let mut mode = UIMode::Normal;
        core::mem::swap(&mut mode, &mut self.ui_mode);
        match mode {
            UIMode::PasswordPrompt { pending_operation, password, .. } => Some((pending_operation, password)),
            other => {
                self.ui_mode = other;
                None
            },
        }
    }
}

} // verus!
