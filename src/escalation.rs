use vstd::prelude::*;
use crate::explorer::{FileExplorer, OperationType, PendingOperation};
use crate::names::{count_message, dec, framed, name_views};
use crate::ops::{
    delete_dests, has_root, plan_delete, plan_transfer, seconds_of, steps_view, transfer_dests,
    undo_arity, undo_steps, undo_steps_spec, ActionV, FsStep, PathKind, PathV, StepV, UndoAction,
};
use crate::path::{pairs_view, paths_view, FsPath};

verus! {

/// One run of the elevation helper.
pub enum HelperCommand {
    /// Drop any cached elevation and check the credential, touching nothing.
    Validate,
    /// `mv from to`.
    Move { from: FsPath, to: FsPath },
    /// `cp -r from to`.
    Copy { from: FsPath, to: FsPath },
    /// `rm path`, or `rm -rf path` when `recursive`.
    Remove { path: FsPath, recursive: bool },
}

/// A helper command over path views.
pub enum CommandV {
    Validate,
    Move(PathV, PathV),
    Copy(PathV, PathV),
    /// A path, and whether everything below it goes too (`rm -rf`).
    Remove(PathV, bool),
}

impl HelperCommand {
    pub open spec fn view_cmd(&self) -> CommandV {
        match self {
            HelperCommand::Validate => CommandV::Validate,
            HelperCommand::Move { from, to } => CommandV::Move(from@, to@),
            HelperCommand::Copy { from, to } => CommandV::Copy(from@, to@),
            HelperCommand::Remove { path, recursive } => CommandV::Remove(path@, *recursive),
        }
    }
}

/// The helper command that carries out a step.
pub open spec fn command_of(s: StepV) -> CommandV {
    match s {
        StepV::Copy(a, b) => CommandV::Copy(a, b),
        StepV::Rename(a, b) => CommandV::Move(a, b),
        StepV::Remove(p, recursive) => CommandV::Remove(p, recursive),
    }
}

/// The helper runs for `steps`: a validation first, then one per step.
pub open spec fn commands_for(steps: Seq<StepV>) -> Seq<CommandV> {
    seq![CommandV::Validate] + steps.map_values(|s: StepV| command_of(s))
}

pub open spec fn commands_view(v: Seq<HelperCommand>) -> Seq<CommandV> {
    v.map_values(|c: HelperCommand| c.view_cmd())
}

/// The helper runs that carry out `steps`, after a validation of the
/// credential.
pub fn escalation_commands(steps: Vec<FsStep>) -> (r: Vec<HelperCommand>)
    ensures
        commands_view(r@) == commands_for(steps_view(steps@)),
{
    let mut r: Vec<HelperCommand> = Vec::new();
    r.push(HelperCommand::Validate);
    let mut i: usize = 0;
    while i < steps.len()
        invariant
            i <= steps.len(),
            r.len() == i + 1,
            r@[0].view_cmd() == CommandV::Validate,
            forall|j: int| 0 <= j < i ==> (#[trigger] r@[j + 1]).view_cmd() == command_of(steps@[j].view_step()),
        decreases steps.len() - i,
    {
        let c = match &steps[i] {
            FsStep::Copy { from, to } => HelperCommand::Copy { from: from.duplicate(), to: to.duplicate() },
            FsStep::Rename { from, to } => HelperCommand::Move { from: from.duplicate(), to: to.duplicate() },
            FsStep::Remove { path, recursive } => HelperCommand::Remove {
                path: path.duplicate(),
                recursive: *recursive,
            },
        };
        r.push(c);
        i = i + 1;
    }
    proof {
        let a = commands_view(r@);
        let b = commands_for(steps_view(steps@));
        assert forall|j: int| 0 <= j < a.len() implies a[j] == b[j] by {
            if j > 0 {
                assert(r@[(j - 1) + 1].view_cmd() == command_of(steps@[j - 1].view_step()));
            }
        }
        assert(a =~= b);
    }
    r
}

/// What stopped an escalated operation.
pub enum EscalationError {
    /// The validation run failed: nothing else was run.
    IncorrectCredential,
    /// A later run failed, with the helper's diagnostic text.
    CommandFailed(String),
}

/// What to do after a helper run.
pub enum RunnerStep {
    Run(usize),
    Finished,
    Abort(EscalationError),
}

/// The run that follows run `index` of `total`, given whether it succeeded.
pub open spec fn next_index(total: int, index: int, ok: bool) -> Option<int> {
    if ok && index + 1 < total {
        Some(index + 1)
    } else {
        None
    }
}

/// Decides what follows run `index` of `total` helper runs. A failed
/// validation (run 0) aborts as an incorrect credential; a later failure
/// aborts with the helper's text; a success moves on or finishes.
pub fn next_command(total: usize, index: usize, succeeded: bool, diagnostic: String) -> (r: RunnerStep)
    requires
        index < total,
    ensures
        succeeded && index + 1 < total ==> r == RunnerStep::Run((index + 1) as usize),
        succeeded && index + 1 >= total ==> r is Finished,
        !succeeded && index == 0 ==> r == RunnerStep::Abort(EscalationError::IncorrectCredential),
        !succeeded && index > 0 ==> r == RunnerStep::Abort(EscalationError::CommandFailed(diagnostic)),
        match next_index(total as int, index as int, succeeded) {
            Some(j) => r == RunnerStep::Run(j as usize),
            None => !(r is Run),
        },
{
    if succeeded {
        if index + 1 < total {
            RunnerStep::Run(index + 1)
        } else {
            RunnerStep::Finished
        }
    } else if index == 0 {
        RunnerStep::Abort(EscalationError::IncorrectCredential)
    } else {
        RunnerStep::Abort(EscalationError::CommandFailed(diagnostic))
    }
}

/// The runs made, from run `i` on, when run `k` succeeds exactly when `oks[k]`.
pub open spec fn runs_from(total: int, oks: Seq<bool>, i: int) -> Seq<int>
    decreases total - i,
{
    if i < 0 || i >= total {
        Seq::empty()
    } else {
        seq![i] + match next_index(total, i, oks[i]) {
            Some(j) => runs_from(total, oks, j),
            None => Seq::empty(),
        }
    }
}

proof fn lemma_runs_from(total: int, oks: Seq<bool>, i: int)
    requires
        0 <= i < total,
    ensures
        runs_from(total, oks, i).len() >= 1,
        forall|k: int|
            0 <= k < runs_from(total, oks, i).len() ==> #[trigger] runs_from(total, oks, i)[k] == i + k,
        forall|k: int| 0 <= k < runs_from(total, oks, i).len() - 1 ==> oks[#[trigger] (i + k)],
    decreases total - i,
{
    let r = runs_from(total, oks, i);
    match next_index(total, i, oks[i]) {
        Some(j) => {
            lemma_runs_from(total, oks, j);
            let rest = runs_from(total, oks, j);
            assert forall|k: int| 0 <= k < r.len() - 1 implies oks[#[trigger] (i + k)] by {
                if k > 0 {
                    assert(oks[j + (k - 1)]);
                }
            }
        },
        None => {},
    }
}

/// A credential that fails validation is used for nothing else: run 0 is
/// the validation, the only one in the batch, and when it fails no other run
/// follows. Any later run comes only after the validation succeeded.
pub proof fn lemma_validation_gates(steps: Seq<StepV>, oks: Seq<bool>)
    requires
        oks.len() == steps.len() + 1,
    ensures
        commands_for(steps)[0] == CommandV::Validate,
        forall|i: int| 1 <= i < commands_for(steps).len() ==> !(#[trigger] commands_for(steps)[i] is Validate),
        !oks[0] ==> runs_from(commands_for(steps).len() as int, oks, 0) == seq![0int],
        forall|k: int|
            0 <= k < runs_from(commands_for(steps).len() as int, oks, 0).len() && #[trigger] runs_from(
                commands_for(steps).len() as int,
                oks,
                0,
            )[k] > 0 ==> oks[0],
{
    let total = commands_for(steps).len() as int;
    assert forall|i: int| 1 <= i < commands_for(steps).len() implies !(#[trigger] commands_for(steps)[i] is Validate) by {
        assert(commands_for(steps)[i] == command_of(steps[i - 1]));
    }
    lemma_runs_from(total, oks, 0);
    if !oks[0] {
        assert(runs_from(total, oks, 0) =~= seq![0int]);
    }
    assert forall|k: int|
        0 <= k < runs_from(total, oks, 0).len() && #[trigger] runs_from(total, oks, 0)[k] > 0
        implies oks[0] by {
        assert(oks[0int + 0int]);
    }
}

/// The steps of a copy (`is_move` false) or move of pairs.
pub open spec fn transfer_steps(pairs: Seq<(PathV, PathV)>, is_move: bool) -> Seq<StepV> {
    pairs.map_values(
        |p: (PathV, PathV)|
            if is_move {
                StepV::Rename(p.0, p.1)
            } else {
                StepV::Copy(p.0, p.1)
            },
    )
}

fn steps_of_pairs(pairs: &Vec<(FsPath, FsPath)>, is_move: bool) -> (r: Vec<FsStep>)
    ensures
        steps_view(r@) == transfer_steps(pairs_view(pairs@), is_move),
{
    let mut r: Vec<FsStep> = Vec::new();
    let mut i: usize = 0;
    while i < pairs.len()
        invariant
            i <= pairs.len(),
            r.len() == i,
            forall|j: int|
                0 <= j < i ==> (#[trigger] r@[j]).view_step() == (if is_move {
                    StepV::Rename(pairs@[j].0@, pairs@[j].1@)
                } else {
                    StepV::Copy(pairs@[j].0@, pairs@[j].1@)
                }),
        decreases pairs.len() - i,
    {
        let from = pairs[i].0.duplicate();
        let to = pairs[i].1.duplicate();
        if is_move {
            r.push(FsStep::Rename { from, to });
        } else {
            r.push(FsStep::Copy { from, to });
        }
        i = i + 1;
    }
    proof {
        assert(steps_view(r@) =~= transfer_steps(pairs_view(pairs@), is_move));
    }
    r
}

/// The pairs of a copy or move of `items` into `dest`, whose entries are
/// named `taken` (see `plan_transfer`).
pub open spec fn transfer_pairs(items: Seq<PathV>, dest: PathV, taken: Seq<Seq<char>>) -> Seq<(PathV, PathV)> {
    Seq::new(items.len(), |i: int| (items[i], transfer_dests(items, dest, taken)[i]))
}

/// The pairs of a delete of `items` into `trash`, whose entries are named
/// `taken`, at time `ts` (see `plan_delete`).
pub open spec fn delete_pairs(items: Seq<PathV>, trash: PathV, ts: nat, taken: Seq<Seq<char>>) -> Seq<(PathV, PathV)> {
    Seq::new(items.len(), |i: int| (items[i], delete_dests(items, trash, ts, taken)[i]))
}

/// The undo record of a copy or move of `pairs`.
pub open spec fn transfer_record(pairs: Seq<(PathV, PathV)>, is_move: bool) -> ActionV {
    if is_move {
        ActionV::Move(pairs)
    } else {
        ActionV::Copy(pairs.map_values(|p: (PathV, PathV)| p.1))
    }
}

/// A retry with elevated rights: the helper runs, and the undo record to
/// push once they all succeed (none for an undo).
pub struct EscalationPlan {
    pub commands: Vec<HelperCommand>,
    pub record: Option<UndoAction>,
}

/// The escalated copy or move of `pairs`.
pub fn escalate_transfer(pairs: Vec<(FsPath, FsPath)>, is_move: bool) -> (r: EscalationPlan)
    ensures
        commands_view(r.commands@) == commands_for(transfer_steps(pairs_view(pairs@), is_move)),
        r.record is Some,
        r.record->0.view_action() == transfer_record(pairs_view(pairs@), is_move),
{
    let steps = steps_of_pairs(&pairs, is_move);
    let commands = escalation_commands(steps);
    let record = if is_move {
        UndoAction::Move { moved_files: pairs }
    } else {
        let dests = seconds_of(&pairs);
        proof {
            assert(paths_view(dests@) =~= pairs_view(pairs@).map_values(|p: (PathV, PathV)| p.1));
        }
        UndoAction::Copy { copied_files: dests }
    };
    EscalationPlan { commands, record: Some(record) }
}

/// The escalated delete of `pairs` (original, trash path).
pub fn escalate_delete(pairs: Vec<(FsPath, FsPath)>) -> (r: EscalationPlan)
    ensures
        commands_view(r.commands@) == commands_for(transfer_steps(pairs_view(pairs@), true)),
        r.record is Some,
        r.record->0.view_action() == ActionV::Delete(pairs_view(pairs@)),
{
    let steps = steps_of_pairs(&pairs, true);
    let commands = escalation_commands(steps);
    EscalationPlan { commands, record: Some(UndoAction::Delete { deleted_files: pairs }) }
}

/// The escalated rename of `original` to `new_path`.
pub fn escalate_rename(original: FsPath, new_path: FsPath) -> (r: EscalationPlan)
    ensures
        commands_view(r.commands@) == commands_for(seq![StepV::Rename(original@, new_path@)]),
        r.record is Some,
        r.record->0.view_action() == ActionV::Rename(original@, new_path@),
{
    let mut steps: Vec<FsStep> = Vec::new();
    steps.push(FsStep::Rename { from: original.duplicate(), to: new_path.duplicate() });
    proof {
        assert(steps_view(steps@) =~= seq![StepV::Rename(original@, new_path@)]);
    }
    let commands = escalation_commands(steps);
    EscalationPlan {
        commands,
        record: Some(UndoAction::Rename { original_path: original, new_path }),
    }
}

/// The escalated reversal of `action`, given what each path it looks at
/// holds now (see `undo_steps`).
pub fn escalate_undo(action: &UndoAction, kinds: &Vec<PathKind>) -> (r: EscalationPlan)
    requires
        kinds.len() == undo_arity(*action),
    ensures
        commands_view(r.commands@) == commands_for(undo_steps_spec(*action, kinds@)),
        r.record is None,
{
    let steps = undo_steps(action, kinds);
    EscalationPlan { commands: escalation_commands(steps), record: None }
}

/// The retry of `op` with elevated rights (see `EscalationPlan`); none when
/// `op` lacks what its kind needs.
pub open spec fn escalation_spec(
    op: &PendingOperation,
    trash: PathV,
    taken: Seq<Seq<char>>,
    ts: nat,
    kinds: Seq<PathKind>,
) -> Option<(Seq<CommandV>, Option<ActionV>)> {
    let items = paths_view(op.items@);
    match op.operation {
        OperationType::Copy | OperationType::Move => {
            if op.destination is None || has_root(items) {
                None
            } else {
                let is_move = op.operation == OperationType::Move;
                let pairs = transfer_pairs(items, op.destination->0@, taken);
                Some((commands_for(transfer_steps(pairs, is_move)), Some(transfer_record(pairs, is_move))))
            }
        },
        OperationType::Delete => {
            if has_root(items) {
                None
            } else {
                let pairs = delete_pairs(items, trash, ts, taken);
                Some((commands_for(transfer_steps(pairs, true)), Some(ActionV::Delete(pairs))))
            }
        },
        OperationType::Rename => {
            if items.len() == 1 && op.destination is Some {
                Some(
                    (
                        commands_for(seq![StepV::Rename(items[0], op.destination->0@)]),
                        Some(ActionV::Rename(items[0], op.destination->0@)),
                    ),
                )
            } else {
                None
            }
        },
        OperationType::Undo => {
            if op.undo_action is Some && kinds.len() == undo_arity(op.undo_action->0) {
                Some((commands_for(undo_steps_spec(op.undo_action->0, kinds)), None))
            } else {
                None
            }
        },
    }
}

impl FileExplorer {
    /// Plans the retry of `op` with elevated rights, with the same paths as
    /// the direct way: `taken` names the entries of the directory the items
    /// go to (the target of a copy or move, the trash for a delete); a
    /// delete trashes at time `timestamp`; an
    /// undo is given what each path it looks at holds now (`kinds`). The
    /// first run always validates the credential (see `lemma_validation_gates`).
    pub fn plan_escalation(&self, op: &PendingOperation, taken: &Vec<String>, timestamp: u64, kinds: &Vec<PathKind>) -> (r: Option<EscalationPlan>)
        requires
            taken.len() + op.items.len() < u64::MAX,
        ensures
            match escalation_spec(op, self.trash_dir@, name_views(taken@), timestamp as nat, kinds@) {
                Some((cmds, rec)) => r is Some && commands_view(r->0.commands@) == cmds && match rec {
                    Some(a) => r->0.record is Some && r->0.record->0.view_action() == a,
                    None => r->0.record is None,
                },
                None => r is None,
            },
    {
        match op.operation {
            OperationType::Copy | OperationType::Move => {
                let is_move = match op.operation {
                    OperationType::Move => true,
                    _ => false,
                };
                let dest = match &op.destination {
                    Some(d) => d,
                    None => {
                        return None;
                    },
                };
                match plan_transfer(&op.items, dest, taken) {
                    Ok(pairs) => {
                        proof {
                            assert(pairs_view(pairs@) =~= transfer_pairs(
                                paths_view(op.items@),
                                dest@,
                                name_views(taken@),
                            ));
                        }
                        Some(escalate_transfer(pairs, is_move))
                    },
                    Err(_) => None,
                }
            },
            OperationType::Delete => {
                match plan_delete(&op.items, &self.trash_dir, timestamp, taken) {
                    Ok(pairs) => {
                        proof {
                            assert(pairs_view(pairs@) =~= delete_pairs(
                                paths_view(op.items@),
                                self.trash_dir@,
                                timestamp as nat,
                                name_views(taken@),
                            ));
                        }
                        Some(escalate_delete(pairs))
                    },
                    Err(_) => None,
                }
            },
            OperationType::Rename => {
                if op.items.len() != 1 {
                    return None;
                }
                match &op.destination {
                    Some(d) => Some(escalate_rename(op.items[0].duplicate(), d.duplicate())),
                    None => None,
                }
            },
            OperationType::Undo => {
                match &op.undo_action {
                    Some(a) => {
                        if kinds.len() != crate::ops::undo_len(a) {
                            return None;
                        }
                        Some(escalate_undo(a, kinds))
                    },
                    None => None,
                }
            },
        }
    }

    /// Settles a retry with elevated rights of an operation of `kind` whose
    /// runs ended with `result`: the number of runs after the validation, or
    /// what stopped them. Done, the undo record `record` goes on the stack
    /// as on the direct way (for an undo, the action that was put back is
    /// taken off); a wrong credential or a failed run is shown.
    pub fn complete_escalation(&mut self, kind: OperationType, record: Option<UndoAction>, result: Result<u64, EscalationError>)
        requires
            old(self).wf(),
        ensures
            final(self).wf(),
            final(self).same_nav(old(self)),
            final(self).entries == old(self).entries,
            match result {
                Ok(count) => {
                    &&& kind == OperationType::Undo ==> final(self).undo_stack@ == (if old(
                        self,
                    ).undo_stack.len() > 0 {
                        old(self).undo_stack@.drop_last()
                    } else {
                        old(self).undo_stack@
                    })
                    &&& kind != OperationType::Undo ==> final(self).undo_stack@ == match record {
                        Some(a) => old(self).undo_stack@.push(a),
                        None => old(self).undo_stack@,
                    }
                    &&& kind == OperationType::Move ==> final(self).clipboard is None
                    &&& final(self).status_message is Some
                    &&& final(self).status_message->0@ == (if kind == OperationType::Undo {
                        "Undone "@ + dec(count as nat) + " item(s) with sudo"@
                    } else if kind == OperationType::Delete {
                        "Deleted "@ + dec(count as nat) + " item(s) with sudo (moved to trash)"@
                    } else if kind == OperationType::Rename {
                        "Renamed "@ + dec(count as nat) + " item(s) with sudo"@
                    } else {
                        "Pasted "@ + dec(count as nat) + " item(s) with sudo"@
                    })
                },
                Err(EscalationError::IncorrectCredential) => {
                    &&& final(self).undo_stack == old(self).undo_stack
                    &&& final(self).status_message is Some
                    &&& final(self).status_message->0@ == "Incorrect sudo password"@
                },
                Err(EscalationError::CommandFailed(msg)) => {
                    &&& final(self).undo_stack == old(self).undo_stack
                    &&& final(self).status_message is Some
                    &&& final(self).status_message->0@ == "Error: "@ + msg@ + ""@
                },
            },
    {
        match result {
            Ok(count) => {
                match kind {
                    OperationType::Undo => {
                        if self.undo_stack.len() > 0 {
                            self.undo_stack.pop();
                        }
                    },
                    _ => {
                        match record {
                            Some(a) => self.undo_stack.push(a),
                            None => {},
                        }
                    },
                }
                match kind {
                    OperationType::Move => {
                        self.clipboard = None;
                    },
                    _ => {},
                }
                let msg = match kind {
                    OperationType::Undo => count_message("Undone ", count, " item(s) with sudo"),
                    OperationType::Delete => count_message(
                        "Deleted ",
                        count,
                        " item(s) with sudo (moved to trash)",
                    ),
                    OperationType::Rename => count_message("Renamed ", count, " item(s) with sudo"),
                    _ => count_message("Pasted ", count, " item(s) with sudo"),
                };
                self.show_status(msg);
            },
            Err(EscalationError::IncorrectCredential) => {
                self.show_status(String::from_str("Incorrect sudo password"));
            },
            Err(EscalationError::CommandFailed(msg)) => {
                self.show_status(framed("Error: ", msg.as_str(), ""));
            },
        }
    }
}

} // verus!
