use vstd::prelude::*;
use crate::explorer::{Clipboard, ClipboardOp, FileExplorer, OperationType, PendingOperation, UIMode};
use crate::names::{count_message, dec, framed, name_views};
use crate::ops::{
    firsts_of, has_root, plan_transfer, seconds_of, transfer_dests, ActionV, OpError, PathV,
    UndoAction,
};
use crate::path::{pairs_view, paths_view, FsPath};
use crate::selection::strictly_increasing;

verus! {

/// How a filesystem operation carried out outside the library ended.
pub enum OpOutcome {
    Done,
    /// Refused for want of permission; it can be retried with elevated rights.
    PermissionDenied,
    /// Any other failure, with its text.
    Failed(String),
}

/// The indices of the entries whose name is among `names`, in order.
pub open spec fn named_indices(entry_names: Seq<Seq<char>>, names: Seq<Seq<char>>) -> Seq<usize>
    decreases entry_names.len(),
{
    if entry_names.len() == 0 {
        Seq::empty()
    } else {
        let prev = named_indices(entry_names.drop_last(), names);
        if names.contains(entry_names.last()) {
            prev.push((entry_names.len() - 1) as usize)
        } else {
            prev
        }
    }
}

/// The sum of `sizes` at the indices `sel`.
pub open spec fn sum_at(sel: Seq<usize>, sizes: Seq<u64>) -> int
    decreases sel.len(),
{
    if sel.len() == 0 {
        0
    } else {
        sum_at(sel.drop_last(), sizes) + sizes[sel.last() as int]
    }
}

impl FileExplorer {
    /// The names of the entries.
    pub open spec fn entry_names(&self) -> Seq<Seq<char>> {
        self.entries@.map_values(|e: crate::explorer::Entry| e.name@)
    }

    /// What an operation applies to: the selected entries in order, or the
    /// entry under the cursor when nothing is selected.
    pub open spec fn selected_paths(&self) -> Seq<PathV> {
        if self.selected_indices.len() == 0 {
            if self.entries.len() == 0 {
                Seq::empty()
            } else {
                seq![self.entries@[self.cursor_index as int].path@]
            }
        } else {
            self.selected_indices@.map_values(|i: usize| self.entries@[i as int].path@)
        }
    }

    /// The interface asks for a password to retry an operation of `kind`.
    pub open spec fn prompts_for(&self, kind: OperationType) -> bool {
        &&& self.ui_mode is PasswordPrompt
        &&& self.ui_mode->pending_operation.operation == kind
        &&& self.ui_mode->password@.len() == 0
    }

    /// The paths an operation applies to (see `selected_paths`).
    pub fn get_selected_paths(&self) -> (r: Vec<FsPath>)
        requires
            self.wf(),
        ensures
            paths_view(r@) == self.selected_paths(),
    {
        let mut r: Vec<FsPath> = Vec::new();
        if self.selected_indices.len() == 0 {
            if self.entries.len() > 0 {
                r.push(self.entries[self.cursor_index].path.duplicate());
            }
            proof {
                assert(paths_view(r@) =~= self.selected_paths());
            }
            return r;
        }
        let mut i: usize = 0;
        while i < self.selected_indices.len()
            invariant
                self.wf(),
                i <= self.selected_indices.len(),
                r.len() == i,
                forall|j: int|
                    0 <= j < i ==> (#[trigger] r@[j])@ == self.entries@[self.selected_indices@[j] as int].path@,
            decreases self.selected_indices.len() - i,
        {
            let k = self.selected_indices[i];
            r.push(self.entries[k].path.duplicate());
            i = i + 1;
        }
        proof {
            assert(paths_view(r@) =~= self.selected_paths());
        }
        r
    }

    /// The total size of the selected entries, where `sizes[i]` is the size
    /// of entry `i`; it stops at `u64::MAX`.
    pub fn get_selected_total_size(&self, sizes: &Vec<u64>) -> (r: u64)
        requires
            self.wf(),
            sizes.len() == self.entries.len(),
        ensures
            r == (if sum_at(self.selected_indices@, sizes@) < u64::MAX {
                sum_at(self.selected_indices@, sizes@)
            } else {
                u64::MAX as int
            }),
    {
        let mut acc: u64 = 0;
        let mut i: usize = 0;
        while i < self.selected_indices.len()
            invariant
                self.wf(),
                sizes.len() == self.entries.len(),
                i <= self.selected_indices.len(),
                acc == (if sum_at(self.selected_indices@.subrange(0, i as int), sizes@) < u64::MAX {
                    sum_at(self.selected_indices@.subrange(0, i as int), sizes@)
                } else {
                    u64::MAX as int
                }),
                sum_at(self.selected_indices@.subrange(0, i as int), sizes@) >= 0,
            decreases self.selected_indices.len() - i,
        {
            let k = self.selected_indices[i];
            acc = acc.saturating_add(sizes[k]);
            i = i + 1;
            proof {
                let s = self.selected_indices@.subrange(0, i as int);
                assert(s.drop_last() =~= self.selected_indices@.subrange(0, i - 1));
            }
        }
        proof {
            assert(self.selected_indices@.subrange(0, i as int) =~= self.selected_indices@);
        }
        acc
    }

    /// Selects exactly the entries whose name is in `names`, puts the cursor
    /// on the first of them (if any) and saves the state.
    pub fn select_items_by_name(&mut self, names: &Vec<String>)
        requires
            old(self).wf(),
        ensures
            final(self).wf(),
            final(self).selected_indices@ == named_indices(old(self).entry_names(), name_views(names@)),
            final(self).cursor_index == (if final(self).selected_indices.len() > 0 {
                final(self).selected_indices@[0]
            } else {
                old(self).cursor_index
            }),
            final(self).dir_memory.map_view() == old(self).dir_memory.map_view().insert(
                old(self).current_dir@,
                final(self).state_now(),
            ),
            final(self).same_files(old(self)),
    {
        let ghost en = self.entry_names();
        let ghost nv = name_views(names@);
        let mut sel: Vec<usize> = Vec::new();
        let mut i: usize = 0;
        while i < self.entries.len()
            invariant
                i <= self.entries.len(),
                en == self.entry_names(),
                nv == name_views(names@),
                sel@ == named_indices(en.subrange(0, i as int), nv),
                strictly_increasing(sel@),
                forall|k: int| 0 <= k < sel.len() ==> #[trigger] sel@[k] < i,
            decreases self.entries.len() - i,
        {
            if crate::names::contains_name(names, &self.entries[i].name) {
                sel.push(i);
            }
            i = i + 1;
            proof {
                let s = en.subrange(0, i as int);
                assert(s.drop_last() =~= en.subrange(0, i - 1));
                assert(s.last() == self.entries@[i - 1].name@);
            }
        }
        proof {
            assert(en.subrange(0, i as int) =~= en);
        }
        if sel.len() > 0 {
            self.cursor_index = sel[0];
        }
        self.selected_indices = sel;
        self.save_state();
    }

    /// Puts the selected paths (see `selected_paths`) on the clipboard for a
    /// copy, and says how many; with none nothing changes.
    pub fn copy_selected(&mut self)
        requires
            old(self).wf(),
        ensures
            final(self).wf(),
            final(self).same_nav(old(self)),
            final(self).undo_stack == old(self).undo_stack,
            final(self).entries == old(self).entries,
            old(self).selected_paths().len() == 0 ==> final(self).clipboard == old(self).clipboard
                && final(self).status_message == old(self).status_message,
            old(self).selected_paths().len() > 0 ==> {
                &&& final(self).clipboard is Some
                &&& paths_view(final(self).clipboard->0.items@) == old(self).selected_paths()
                &&& final(self).clipboard->0.operation == ClipboardOp::Copy
                &&& final(self).status_message is Some
                &&& final(self).status_message->0@ == "Copied "@ + dec(
                    old(self).selected_paths().len(),
                ) + " item(s)"@
            },
    {
        self.take_selection(ClipboardOp::Copy);
    }

    /// Puts the selected paths on the clipboard for a move, as `copy_selected`.
    pub fn cut_selected(&mut self)
        requires
            old(self).wf(),
        ensures
            final(self).wf(),
            final(self).same_nav(old(self)),
            final(self).undo_stack == old(self).undo_stack,
            final(self).entries == old(self).entries,
            old(self).selected_paths().len() == 0 ==> final(self).clipboard == old(self).clipboard
                && final(self).status_message == old(self).status_message,
            old(self).selected_paths().len() > 0 ==> {
                &&& final(self).clipboard is Some
                &&& paths_view(final(self).clipboard->0.items@) == old(self).selected_paths()
                &&& final(self).clipboard->0.operation == ClipboardOp::Cut
                &&& final(self).status_message is Some
                &&& final(self).status_message->0@ == "Cut "@ + dec(
                    old(self).selected_paths().len(),
                ) + " item(s)"@
            },
    {
        self.take_selection(ClipboardOp::Cut);
    }

    fn take_selection(&mut self, op: ClipboardOp)
        requires
            old(self).wf(),
        ensures
            final(self).wf(),
            final(self).same_nav(old(self)),
            final(self).undo_stack == old(self).undo_stack,
            final(self).entries == old(self).entries,
            old(self).selected_paths().len() == 0 ==> final(self).clipboard == old(self).clipboard
                && final(self).status_message == old(self).status_message,
            old(self).selected_paths().len() > 0 ==> {
                &&& final(self).clipboard is Some
                &&& paths_view(final(self).clipboard->0.items@) == old(self).selected_paths()
                &&& final(self).clipboard->0.operation == op
                &&& final(self).status_message is Some
                &&& final(self).status_message->0@ == (if op == ClipboardOp::Copy {
                    "Copied "@
                } else {
                    "Cut "@
                }) + dec(old(self).selected_paths().len()) + " item(s)"@
            },
    {
        let items = self.get_selected_paths();
        let n = items.len();
        proof {
            assert(paths_view(items@).len() == n);
        }
        if n > 0 {
            self.clipboard = Some(Clipboard { items, operation: op });
            let msg = match op {
                ClipboardOp::Copy => count_message("Copied ", n as u64, " item(s)"),
                ClipboardOp::Cut => count_message("Cut ", n as u64, " item(s)"),
            };
            self.show_status(msg);
        }
    }

    /// Plans the paste of the clipboard into the open directory, whose
    /// entries are named `taken` (see `plan_transfer`); none when the
    /// clipboard is empty.
    pub fn paste(&self, taken: &Vec<String>) -> (r: Option<Result<Vec<(FsPath, FsPath)>, OpError>>)
        requires
            self.clipboard is Some ==> taken.len() + self.clipboard->0.items.len() < u64::MAX,
        ensures
            self.clipboard is None <==> r is None,
            self.clipboard is Some ==> match r->0 {
                Ok(pairs) => {
                    let items = paths_view(self.clipboard->0.items@);
                    &&& !has_root(items)
                    &&& pairs.len() == items.len()
                    &&& forall|i: int|
                        0 <= i < items.len() ==> (#[trigger] pairs_view(pairs@)[i]).0 == items[i]
                            && pairs_view(pairs@)[i].1 == transfer_dests(
                            items,
                            self.current_dir@,
                            name_views(taken@),
                        )[i]
                },
                Err(e) => e == OpError::InvalidFileName && has_root(
                    paths_view(self.clipboard->0.items@),
                ),
            },
    {
        match &self.clipboard {
            None => None,
            Some(c) => Some(plan_transfer(&c.items, &self.current_dir, taken)),
        }
    }

    /// Settles a paste of `pairs` (source, destination) that was carried
    /// out with `outcome`. Done: the undo record goes on the stack, a cut
    /// clipboard is emptied, and the names made are returned to be selected
    /// once the listing is read again. Refused for want of permission: a
    /// password is asked to retry. Else the error is shown.
    pub fn complete_transfer(&mut self, pairs: Vec<(FsPath, FsPath)>, is_move: bool, outcome: OpOutcome) -> (r: Vec<String>)
        requires
            old(self).wf(),
            forall|i: int| 0 <= i < pairs.len() ==> (#[trigger] pairs@[i]).1@.len() > 0,
        ensures
            final(self).wf(),
            final(self).same_nav(old(self)),
            final(self).entries == old(self).entries,
            match outcome {
                OpOutcome::Done => {
                    &&& final(self).undo_stack.len() == old(self).undo_stack.len() + 1
                    &&& final(self).undo_stack@.drop_last() == old(self).undo_stack@
                    &&& final(self).undo_stack@.last().view_action() == if is_move {
                        ActionV::Move(pairs_view(pairs@))
                    } else {
                        ActionV::Copy(pairs_view(pairs@).map_values(|p: (PathV, PathV)| p.1))
                    }
                    &&& is_move ==> final(self).clipboard is None
                    &&& !is_move ==> final(self).clipboard == old(self).clipboard
                    &&& final(self).status_message is Some
                    &&& final(self).status_message->0@ == "Pasted "@ + dec(pairs.len() as nat)
                        + " item(s)"@
                    &&& r.len() == pairs.len()
                    &&& forall|i: int| 0 <= i < pairs.len() ==> (#[trigger] r@[i])@ == pairs@[i].1@.last()
                },
                OpOutcome::PermissionDenied => {
                    &&& final(self).undo_stack == old(self).undo_stack
                    &&& final(self).prompts_for(
                        if is_move {
                            OperationType::Move
                        } else {
                            OperationType::Copy
                        },
                    )
                    &&& paths_view(final(self).ui_mode->pending_operation.items@) == pairs_view(
                        pairs@,
                    ).map_values(|p: (PathV, PathV)| p.0)
                    &&& final(self).ui_mode->pending_operation.destination is Some
                    &&& final(self).ui_mode->pending_operation.destination->0@ == old(
                        self,
                    ).current_dir@
                    &&& final(self).ui_mode->pending_operation.undo_action is None
                    &&& final(self).clipboard == old(self).clipboard
                    &&& r.len() == 0
                },
                OpOutcome::Failed(msg) => {
                    &&& final(self).undo_stack == old(self).undo_stack
                    &&& final(self).clipboard == old(self).clipboard
                    &&& final(self).status_message is Some
                    &&& final(self).status_message->0@ == "Error: "@ + msg@
                    &&& r.len() == 0
                },
            },
    {
        match outcome {
            OpOutcome::Done => {
                let n = pairs.len();
                let mut names: Vec<String> = Vec::new();
                let mut i: usize = 0;
                while i < pairs.len()
                    invariant
                        i <= pairs.len(),
                        names.len() == i,
                        forall|k: int| 0 <= k < pairs.len() ==> (#[trigger] pairs@[k]).1@.len() > 0,
                        forall|k: int| 0 <= k < i ==> (#[trigger] names@[k])@ == pairs@[k].1@.last(),
                    decreases pairs.len() - i,
                {
                    match pairs[i].1.file_name() {
                        Some(nm) => names.push(nm),
                        None => {
                            proof {
                                assert(pairs@[i as int].1@.len() > 0);
                            }
                            names.push(String::new());
                        },
                    }
                    i = i + 1;
                }
                let record = if is_move {
                    let rec = UndoAction::Move { moved_files: pairs };
                    rec
                } else {
                    let dests = seconds_of(&pairs);
                    proof {
                        assert(paths_view(dests@) =~= pairs_view(pairs@).map_values(
                            |p: (PathV, PathV)| p.1,
                        ));
                    }
                    UndoAction::Copy { copied_files: dests }
                };
                self.undo_stack.push(record);
                if is_move {
                    self.clipboard = None;
                }
                self.show_status(count_message("Pasted ", n as u64, " item(s)"));
                proof {
                    assert(self.undo_stack@.drop_last() =~= old(self).undo_stack@);
                }
                names
            },
            OpOutcome::PermissionDenied => {
                let items = firsts_of(&pairs);
                proof {
                    assert(paths_view(items@) =~= pairs_view(pairs@).map_values(
                        |p: (PathV, PathV)| p.0,
                    ));
                }
                let pending = PendingOperation {
                    items,
                    destination: Some(self.current_dir.duplicate()),
                    operation: if is_move {
                        OperationType::Move
                    } else {
                        OperationType::Copy
                    },
                    undo_action: None,
                };
                self.ui_mode = UIMode::PasswordPrompt {
                    prompt: String::from_str("Permission denied. Enter sudo password:"),
                    password: String::new(),
                    pending_operation: pending,
                };
                Vec::new()
            },
            OpOutcome::Failed(msg) => {
                self.show_status(framed("Error: ", msg.as_str(), ""));
                proof {
                    reveal_strlit("");
                    assert("Error: "@ + msg@ + ""@ =~= "Error: "@ + msg@);
                }
                Vec::new()
            },
        }
    }
}

} // verus!
