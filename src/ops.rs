use vstd::prelude::*;
use crate::names::{dec, decimal, name_views, unique_name, unique_name_spec};
use crate::path::{copy_paths, pairs_view, paths_view, FsPath};

verus! {

/// The view of a path.
pub type PathV = Seq<Seq<char>>;

/// What is needed to reverse one file operation.
pub enum UndoAction {
    /// Copies made; reversing removes them.
    Copy { copied_files: Vec<FsPath> },
    /// `(original, moved_to)` pairs; reversing moves each back.
    Move { moved_files: Vec<(FsPath, FsPath)> },
    /// `(original, trash_path)` pairs; reversing moves each back from the trash.
    Delete { deleted_files: Vec<(FsPath, FsPath)> },
    /// A rename; reversing renames `new_path` back to `original_path`.
    Rename { original_path: FsPath, new_path: FsPath },
}

/// What a path holds at the moment it is looked at.
#[derive(PartialEq, Eq, Structural, Clone, Copy, Debug)]
pub enum PathKind {
    Absent,
    File,
    Dir,
}

/// One filesystem mutation.
pub enum FsStep {
    /// Copy a file or a directory tree to a new path.
    Copy { from: FsPath, to: FsPath },
    /// Rename (move) a path.
    Rename { from: FsPath, to: FsPath },
    /// Remove a path; a directory is removed with everything below it.
    Remove { path: FsPath, recursive: bool },
}

/// A step over path views.
pub enum StepV {
    Copy(PathV, PathV),
    Rename(PathV, PathV),
    /// A path, and whether it is removed with everything below it.
    Remove(PathV, bool),
}

impl FsStep {
    pub open spec fn view_step(&self) -> StepV {
        match self {
            FsStep::Copy { from, to } => StepV::Copy(from@, to@),
            FsStep::Rename { from, to } => StepV::Rename(from@, to@),
            FsStep::Remove { path, recursive } => StepV::Remove(path@, *recursive),
        }
    }
}

pub open spec fn steps_view(v: Seq<FsStep>) -> Seq<StepV> {
    v.map_values(|s: FsStep| s.view_step())
}

/// Why a batch could not be planned.
#[derive(PartialEq, Eq, Structural, Clone, Copy, Debug)]
pub enum OpError {
    /// An item is the root directory, which has no file name.
    InvalidFileName,
}

/// Why a rename is refused.
#[derive(PartialEq, Eq, Structural, Clone, Copy, Debug)]
pub enum RenameError {
    EmptyName,
    /// The path to rename is the root directory.
    InvalidPath,
    Unchanged,
    AlreadyExists,
}

/// Whether some item of the list is the root.
pub open spec fn has_root(items: Seq<PathV>) -> bool {
    exists|i: int| 0 <= i < items.len() && items[i].len() == 0
}

/// The names that a batch of items with the names `srcs` takes in a
/// directory whose names are `taken`: each item gets a free name, and the
/// names given to earlier items count as taken for later ones.
pub open spec fn transfer_names(srcs: Seq<Seq<char>>, taken: Seq<Seq<char>>) -> Seq<Seq<char>>
    decreases srcs.len(),
{
    if srcs.len() == 0 {
        Seq::empty()
    } else {
        let prev = transfer_names(srcs.drop_last(), taken);
        prev.push(unique_name_spec(srcs.last(), taken + prev))
    }
}

pub proof fn lemma_transfer_names(srcs: Seq<Seq<char>>, taken: Seq<Seq<char>>)
    ensures
        transfer_names(srcs, taken).len() == srcs.len(),
        forall|i: int|
            0 <= i < srcs.len() ==> !taken.contains(#[trigger] transfer_names(srcs, taken)[i]),
        transfer_names(srcs, taken).no_duplicates(),
    decreases srcs.len(),
{
    if srcs.len() > 0 {
        let prev = transfer_names(srcs.drop_last(), taken);
        lemma_transfer_names(srcs.drop_last(), taken);
        let u = unique_name_spec(srcs.last(), taken + prev);
        crate::names::lemma_unique_name_free(srcs.last(), taken + prev);
        let r = transfer_names(srcs, taken);
        assert(r == prev.push(u));
        assert forall|i: int| 0 <= i < srcs.len() implies !taken.contains(#[trigger] r[i]) by {
            if i == srcs.len() - 1 {
                if taken.contains(u) {
                    let j = choose|j: int| 0 <= j < taken.len() && taken[j] == u;
                    assert((taken + prev)[j] == u);
                }
            } else {
                assert(r[i] == prev[i]);
            }
        }
        assert forall|i: int, j: int| 0 <= i < r.len() && 0 <= j < r.len() && i != j
            implies r[i] != r[j] by {
            if i == srcs.len() - 1 && j < i {
                assert((taken + prev)[taken.len() + j] == prev[j]);
            } else if j == srcs.len() - 1 && i < j {
                assert((taken + prev)[taken.len() + i] == prev[i]);
            }
        }
    }
}

/// The last components of a list of paths.
pub open spec fn last_names(items: Seq<PathV>) -> Seq<Seq<char>> {
    items.map_values(|p: PathV| p.last())
}

/// The destinations of a copy or move of `items` into `dest`.
pub open spec fn transfer_dests(items: Seq<PathV>, dest: PathV, taken: Seq<Seq<char>>) -> Seq<PathV> {
    transfer_names(last_names(items), taken).map_values(|n: Seq<char>| dest.push(n))
}

/// Plans a copy or move of `items` into the directory `destination`, whose
/// entries are named `taken`: each item is paired with a free path there,
/// its own name when free, else `stem (k)ext` (see `unique_name`).
pub fn plan_transfer(items: &Vec<FsPath>, destination: &FsPath, taken: &Vec<String>) -> (r: Result<
    Vec<(FsPath, FsPath)>,
    OpError,
>)
    requires
        taken.len() + items.len() < u64::MAX,
    ensures
        match r {
            Ok(pairs) => {
                &&& !has_root(paths_view(items@))
                &&& pairs.len() == items.len()
                &&& forall|i: int|
                    0 <= i < items.len() ==> (#[trigger] pairs_view(pairs@)[i]).0 == items@[i]@
                        && pairs_view(pairs@)[i].1 == transfer_dests(
                        paths_view(items@),
                        destination@,
                        name_views(taken@),
                    )[i]
            },
            Err(e) => e == OpError::InvalidFileName && has_root(paths_view(items@)),
        },
{
    let ghost iv = paths_view(items@);
    let ghost tv = name_views(taken@);
    let mut taken_now: Vec<String> = crate::path::copy_strings(taken);
    let mut pairs: Vec<(FsPath, FsPath)> = Vec::new();
    let mut i: usize = 0;
    while i < items.len()
        invariant
            i <= items.len(),
            taken.len() + items.len() < u64::MAX,
            iv == paths_view(items@),
            tv == name_views(taken@),
            pairs.len() == i,
            taken_now.len() == taken.len() + i,
            forall|j: int| 0 <= j < i ==> iv[j].len() > 0,
            name_views(taken_now@) == tv + transfer_names(last_names(iv.subrange(0, i as int)), tv),
            forall|j: int|
                0 <= j < i ==> (#[trigger] pairs_view(pairs@)[j]).0 == iv[j] && pairs_view(pairs@)[j].1
                    == destination@.push(transfer_names(last_names(iv.subrange(0, i as int)), tv)[j]),
        decreases items.len() - i,
    {
        let name = match items[i].file_name() {
            Some(n) => n,
            None => {
                proof {
                    assert(iv[i as int].len() == 0);
                }
                return Err(OpError::InvalidFileName);
            },
        };
        proof {
            lemma_transfer_names(last_names(iv.subrange(0, i as int)), tv);
        }
        let u = unique_name(&name, &taken_now);
        let to = destination.join(&u);
        let from = items[i].duplicate();
        let ghost old_pairs = pairs@;
        let ghost prev = transfer_names(last_names(iv.subrange(0, i as int)), tv);
        let ghost old_taken = taken_now@;
        let ghost uv = u@;
        pairs.push((from, to));
        taken_now.push(u);
        i = i + 1;
        proof {
            let s = last_names(iv.subrange(0, i as int));
            assert(s.drop_last() =~= last_names(iv.subrange(0, i - 1)));
            assert(s.last() == name@);
            assert(transfer_names(s, tv) == prev.push(u@));
            assert(name_views(taken_now@) =~= name_views(old_taken).push(uv));
            assert(name_views(taken_now@) =~= tv + transfer_names(s, tv));
            assert forall|j: int| 0 <= j < i implies (#[trigger] pairs_view(pairs@)[j]).0 == iv[j]
                && pairs_view(pairs@)[j].1 == destination@.push(transfer_names(s, tv)[j]) by {
                if j < i - 1 {
                    assert(pairs@[j] == old_pairs[j]);
                    assert(pairs_view(old_pairs)[j] == pairs_view(pairs@)[j]);
                }
            }
        }
    }
    proof {
        assert(iv.subrange(0, i as int) =~= iv);
        assert forall|j: int| 0 <= j < items.len() implies #[trigger] pairs_view(pairs@)[j].1
            == transfer_dests(iv, destination@, tv)[j] by {
            lemma_transfer_names(last_names(iv), tv);
        }
        if has_root(iv) {
            let j = choose|j: int| 0 <= j < iv.len() && iv[j].len() == 0;
            assert(iv[j].len() > 0);
        }
    }
    Ok(pairs)
}

/// The name under which an item named `name` goes into the trash at time `ts`:
/// `{ts}_{name}`.
pub open spec fn trash_name(ts: nat, name: Seq<char>) -> Seq<char> {
    dec(ts) + seq!['_'] + name
}

/// The names the items would take in the trash at time `ts`: `{ts}_{name}`.
pub open spec fn delete_names(items: Seq<PathV>, ts: nat) -> Seq<Seq<char>> {
    items.map_values(|p: PathV| trash_name(ts, p.last()))
}

/// The trash paths of a delete of `items` at time `ts` into `trash`, whose
/// entries are named `taken`: `{ts}_{name}` when free, else the first free
/// `stem (k)ext` of it; the names given to earlier items count as taken.
pub open spec fn delete_dests(items: Seq<PathV>, trash: PathV, ts: nat, taken: Seq<Seq<char>>) -> Seq<PathV> {
    transfer_names(delete_names(items, ts), taken).map_values(|n: Seq<char>| trash.push(n))
}

/// Plans a delete into `trash_dir`, whose entries are named `taken`: each
/// item is paired with a trash path (see `delete_dests`). The trash paths
/// differ from each other and from every entry already in the trash, so a
/// delete never overwrites anything.
pub fn plan_delete(items: &Vec<FsPath>, trash_dir: &FsPath, timestamp: u64, taken: &Vec<String>) -> (r: Result<
    Vec<(FsPath, FsPath)>,
    OpError,
>)
    requires
        taken.len() + items.len() < u64::MAX,
    ensures
        match r {
            Ok(pairs) => {
                &&& !has_root(paths_view(items@))
                &&& pairs.len() == items.len()
                &&& forall|i: int|
                    0 <= i < items.len() ==> (#[trigger] pairs_view(pairs@)[i]).0 == items@[i]@
                        && pairs_view(pairs@)[i].1 == delete_dests(
                        paths_view(items@),
                        trash_dir@,
                        timestamp as nat,
                        name_views(taken@),
                    )[i]
                &&& forall|i: int|
                    0 <= i < items.len() ==> (#[trigger] pairs_view(pairs@)[i]).1.drop_last()
                        == trash_dir@ && !name_views(taken@).contains(pairs_view(pairs@)[i].1.last())
                &&& forall|i: int, j: int|
                    0 <= i < items.len() && 0 <= j < items.len() && i != j ==> pairs_view(pairs@)[i].1
                        != pairs_view(pairs@)[j].1
            },
            Err(e) => e == OpError::InvalidFileName && has_root(paths_view(items@)),
        },
{
    let ghost iv = paths_view(items@);
    let ghost tv = name_views(taken@);
    let ghost ts = timestamp as nat;
    let mut taken_now: Vec<String> = crate::path::copy_strings(taken);
    let mut pairs: Vec<(FsPath, FsPath)> = Vec::new();
    let mut i: usize = 0;
    while i < items.len()
        invariant
            i <= items.len(),
            taken.len() + items.len() < u64::MAX,
            iv == paths_view(items@),
            tv == name_views(taken@),
            ts == timestamp as nat,
            pairs.len() == i,
            taken_now.len() == taken.len() + i,
            forall|j: int| 0 <= j < i ==> iv[j].len() > 0,
            name_views(taken_now@) == tv + transfer_names(delete_names(iv.subrange(0, i as int), ts), tv),
            forall|j: int|
                0 <= j < i ==> (#[trigger] pairs_view(pairs@)[j]).0 == iv[j] && pairs_view(pairs@)[j].1
                    == trash_dir@.push(transfer_names(delete_names(iv.subrange(0, i as int), ts), tv)[j]),
        decreases items.len() - i,
    {
        let name = match items[i].file_name() {
            Some(n) => n,
            None => {
                proof {
                    assert(iv[i as int].len() == 0);
                }
                return Err(OpError::InvalidFileName);
            },
        };
        let mut t = decimal(timestamp);
        t.append("_");
        t.append(name.as_str());
        proof {
            reveal_strlit("_");
            assert(t@ =~= trash_name(ts, iv[i as int].last()));
            lemma_transfer_names(delete_names(iv.subrange(0, i as int), ts), tv);
        }
        let u = unique_name(&t, &taken_now);
        let to = trash_dir.join(&u);
        let from = items[i].duplicate();
        let ghost old_pairs = pairs@;
        let ghost prev = transfer_names(delete_names(iv.subrange(0, i as int), ts), tv);
        let ghost old_taken = taken_now@;
        let ghost uv = u@;
        pairs.push((from, to));
        taken_now.push(u);
        i = i + 1;
        proof {
            let s = delete_names(iv.subrange(0, i as int), ts);
            assert(s.drop_last() =~= delete_names(iv.subrange(0, i - 1), ts));
            assert(s.last() == t@);
            assert(transfer_names(s, tv) == prev.push(uv));
            assert(name_views(taken_now@) =~= name_views(old_taken).push(uv));
            assert(name_views(taken_now@) =~= tv + transfer_names(s, tv));
            assert forall|j: int| 0 <= j < i implies (#[trigger] pairs_view(pairs@)[j]).0 == iv[j]
                && pairs_view(pairs@)[j].1 == trash_dir@.push(transfer_names(s, tv)[j]) by {
                if j < i - 1 {
                    assert(pairs@[j] == old_pairs[j]);
                    assert(pairs_view(old_pairs)[j] == pairs_view(pairs@)[j]);
                }
            }
        }
    }
    proof {
        assert(iv.subrange(0, i as int) =~= iv);
        let names = transfer_names(delete_names(iv, ts), tv);
        lemma_transfer_names(delete_names(iv, ts), tv);
        let pv = pairs_view(pairs@);
        assert forall|j: int| 0 <= j < items.len() implies (#[trigger] pv[j]).1.drop_last() == trash_dir@
            && !tv.contains(pv[j].1.last()) by {
            assert(pv[j].1 == trash_dir@.push(names[j]));
            assert(pv[j].1.drop_last() =~= trash_dir@);
        }
        assert forall|a: int, b: int| 0 <= a < items.len() && 0 <= b < items.len() && a != b
            implies pv[a].1 != pv[b].1 by {
            assert(pv[a].1.last() == names[a]);
            assert(pv[b].1.last() == names[b]);
        }
        if has_root(iv) {
            let j = choose|j: int| 0 <= j < iv.len() && iv[j].len() == 0;
            assert(iv[j].len() > 0);
        }
    }
    Ok(pairs)
}

/// The outcome of a rename request, over views: the new path, or why not.
pub open spec fn rename_spec(original: PathV, new_name: Seq<char>, siblings: Seq<Seq<char>>) -> Result<
    PathV,
    RenameError,
> {
    if new_name.len() == 0 {
        Err(RenameError::EmptyName)
    } else if original.len() == 0 {
        Err(RenameError::InvalidPath)
    } else if new_name == original.last() {
        Err(RenameError::Unchanged)
    } else if siblings.contains(new_name) {
        Err(RenameError::AlreadyExists)
    } else {
        Ok(original.drop_last().push(new_name))
    }
}

/// Plans a rename of `original` to `new_name` in the same directory, whose
/// entries are named `siblings`. A taken name is refused, never altered.
pub fn plan_rename(original: &FsPath, new_name: &String, siblings: &Vec<String>) -> (r: Result<
    FsPath,
    RenameError,
>)
    ensures
        match r {
            Ok(p) => rename_spec(original@, new_name@, name_views(siblings@)) == Ok::<
                PathV,
                RenameError,
            >(p@),
            Err(e) => rename_spec(original@, new_name@, name_views(siblings@)) == Err::<
                PathV,
                RenameError,
            >(e),
        },
{
    if new_name.as_str().unicode_len() == 0 {
        return Err(RenameError::EmptyName);
    }
    let parent = match original.parent() {
        Some(p) => p,
        None => {
            return Err(RenameError::InvalidPath);
        },
    };
    let old_name = match original.file_name() {
        Some(n) => n,
        None => {
            return Err(RenameError::InvalidPath);
        },
    };
    if old_name == *new_name {
        return Err(RenameError::Unchanged);
    }
    if crate::names::contains_name(siblings, new_name) {
        return Err(RenameError::AlreadyExists);
    }
    Ok(parent.join(new_name))
}

/// The steps that reverse `action`, given what each path that it checks
/// holds now; a path that is gone is skipped.
pub open spec fn undo_steps_spec(action: UndoAction, kinds: Seq<PathKind>) -> Seq<StepV> {
    match action {
        UndoAction::Copy { copied_files } => removals(paths_view(copied_files@), kinds),
        UndoAction::Move { moved_files } => renames_back(pairs_view(moved_files@), kinds),
        UndoAction::Delete { deleted_files } => renames_back(pairs_view(deleted_files@), kinds),
        UndoAction::Rename { original_path, new_path } => renames_back(
            seq![(original_path@, new_path@)],
            kinds,
        ),
    }
}

/// How many paths an undo of `action` looks at.
pub open spec fn undo_arity(action: UndoAction) -> nat {
    match action {
        UndoAction::Copy { copied_files } => copied_files@.len(),
        UndoAction::Move { moved_files } => moved_files@.len(),
        UndoAction::Delete { deleted_files } => deleted_files@.len(),
        UndoAction::Rename { .. } => 1,
    }
}

/// `Remove` of each present path, a directory with everything below it.
pub open spec fn removals(paths: Seq<PathV>, kinds: Seq<PathKind>) -> Seq<StepV>
    decreases paths.len(),
{
    if paths.len() == 0 {
        Seq::empty()
    } else {
        let prev = removals(paths.drop_last(), kinds);
        if kinds[paths.len() - 1] != PathKind::Absent {
            prev.push(StepV::Remove(paths.last(), kinds[paths.len() - 1] == PathKind::Dir))
        } else {
            prev
        }
    }
}

/// For each `(original, moved_to)` pair whose `moved_to` is present, a
/// rename back to `original`.
pub open spec fn renames_back(pairs: Seq<(PathV, PathV)>, kinds: Seq<PathKind>) -> Seq<StepV>
    decreases pairs.len(),
{
    if pairs.len() == 0 {
        Seq::empty()
    } else {
        let prev = renames_back(pairs.drop_last(), kinds);
        if kinds[pairs.len() - 1] != PathKind::Absent {
            prev.push(StepV::Rename(pairs.last().1, pairs.last().0))
        } else {
            prev
        }
    }
}

fn removal_steps(paths: &Vec<FsPath>, kinds: &Vec<PathKind>) -> (r: Vec<FsStep>)
    requires
        kinds.len() == paths.len(),
    ensures
        steps_view(r@) == removals(paths_view(paths@), kinds@),
{
    let mut r: Vec<FsStep> = Vec::new();
    let mut i: usize = 0;
    while i < paths.len()
        invariant
            i <= paths.len() == kinds.len(),
            steps_view(r@) == removals(paths_view(paths@).subrange(0, i as int), kinds@),
        decreases paths.len() - i,
    {
        let ghost before = r@;
        if kinds[i] != PathKind::Absent {
            r.push(FsStep::Remove { path: paths[i].duplicate(), recursive: kinds[i] == PathKind::Dir });
        }
        i = i + 1;
        proof {
            let s = paths_view(paths@).subrange(0, i as int);
            assert(s.drop_last() =~= paths_view(paths@).subrange(0, i - 1));
            assert(steps_view(r@) =~= removals(s, kinds@));
        }
    }
    proof {
        assert(paths_view(paths@).subrange(0, i as int) =~= paths_view(paths@));
    }
    r
}

fn rename_back_steps(pairs: &Vec<(FsPath, FsPath)>, kinds: &Vec<PathKind>) -> (r: Vec<FsStep>)
    requires
        kinds.len() == pairs.len(),
    ensures
        steps_view(r@) == renames_back(pairs_view(pairs@), kinds@),
{
    let mut r: Vec<FsStep> = Vec::new();
    let mut i: usize = 0;
    while i < pairs.len()
        invariant
            i <= pairs.len() == kinds.len(),
            steps_view(r@) == renames_back(pairs_view(pairs@).subrange(0, i as int), kinds@),
        decreases pairs.len() - i,
    {
        if kinds[i] != PathKind::Absent {
            r.push(FsStep::Rename { from: pairs[i].1.duplicate(), to: pairs[i].0.duplicate() });
        }
        i = i + 1;
        proof {
            let s = pairs_view(pairs@).subrange(0, i as int);
            assert(s.drop_last() =~= pairs_view(pairs@).subrange(0, i - 1));
            assert(steps_view(r@) =~= renames_back(s, kinds@));
        }
    }
    proof {
        assert(pairs_view(pairs@).subrange(0, i as int) =~= pairs_view(pairs@));
    }
    r
}

/// The steps that reverse `action`. `kinds[i]` tells what the `i`-th path
/// that the undo looks at holds now: a copy made, a `moved_to` or trash path,
/// or the new name of a rename.
pub fn undo_steps(action: &UndoAction, kinds: &Vec<PathKind>) -> (r: Vec<FsStep>)
    requires
        kinds.len() == undo_arity(*action),
    ensures
        steps_view(r@) == undo_steps_spec(*action, kinds@),
{
    match action {
        UndoAction::Copy { copied_files } => removal_steps(copied_files, kinds),
        UndoAction::Move { moved_files } => rename_back_steps(moved_files, kinds),
        UndoAction::Delete { deleted_files } => rename_back_steps(deleted_files, kinds),
        UndoAction::Rename { original_path, new_path } => {
            let mut pairs: Vec<(FsPath, FsPath)> = Vec::new();
            pairs.push((original_path.duplicate(), new_path.duplicate()));
            proof {
                assert(pairs_view(pairs@) =~= seq![(original_path@, new_path@)]);
            }
            rename_back_steps(&pairs, kinds)
        },
    }
}

/// An undo record over path views.
pub enum ActionV {
    Copy(Seq<PathV>),
    Move(Seq<(PathV, PathV)>),
    Delete(Seq<(PathV, PathV)>),
    Rename(PathV, PathV),
}

impl UndoAction {
    pub open spec fn view_action(&self) -> ActionV {
        match self {
            UndoAction::Copy { copied_files } => ActionV::Copy(paths_view(copied_files@)),
            UndoAction::Move { moved_files } => ActionV::Move(pairs_view(moved_files@)),
            UndoAction::Delete { deleted_files } => ActionV::Delete(pairs_view(deleted_files@)),
            UndoAction::Rename { original_path, new_path } => ActionV::Rename(
                original_path@,
                new_path@,
            ),
        }
    }

    /// A copy of this record.
    pub fn duplicate(&self) -> (r: UndoAction)
        ensures
            r.view_action() == self.view_action(),
            undo_arity(r) == undo_arity(*self),
    {
        match self {
            UndoAction::Copy { copied_files } => UndoAction::Copy {
                copied_files: copy_paths(copied_files),
            },
            UndoAction::Move { moved_files } => UndoAction::Move {
                moved_files: copy_pairs(moved_files),
            },
            UndoAction::Delete { deleted_files } => UndoAction::Delete {
                deleted_files: copy_pairs(deleted_files),
            },
            UndoAction::Rename { original_path, new_path } => UndoAction::Rename {
                original_path: original_path.duplicate(),
                new_path: new_path.duplicate(),
            },
        }
    }
}

/// A copy of a list of path pairs.
pub fn copy_pairs(v: &Vec<(FsPath, FsPath)>) -> (r: Vec<(FsPath, FsPath)>)
    ensures
        r.len() == v.len(),
        pairs_view(r@) == pairs_view(v@),
{
    let mut r: Vec<(FsPath, FsPath)> = Vec::new();
    let mut i: usize = 0;
    while i < v.len()
        invariant
            i <= v.len(),
            r.len() == i,
            forall|j: int| 0 <= j < i ==> (#[trigger] r@[j]).0@ == v@[j].0@ && r@[j].1@ == v@[j].1@,
        decreases v.len() - i,
    {
        r.push((v[i].0.duplicate(), v[i].1.duplicate()));
        i = i + 1;
    }
    proof {
        assert(pairs_view(r@) =~= pairs_view(v@));
    }
    r
}

/// The first paths of a list of pairs.
pub fn firsts_of(v: &Vec<(FsPath, FsPath)>) -> (r: Vec<FsPath>)
    ensures
        r.len() == v.len(),
        forall|j: int| 0 <= j < v.len() ==> (#[trigger] r@[j])@ == v@[j].0@,
{
    let mut r: Vec<FsPath> = Vec::new();
    let mut i: usize = 0;
    while i < v.len()
        invariant
            i <= v.len(),
            r.len() == i,
            forall|j: int| 0 <= j < i ==> (#[trigger] r@[j])@ == v@[j].0@,
        decreases v.len() - i,
    {
        r.push(v[i].0.duplicate());
        i = i + 1;
    }
    r
}

/// The second paths of a list of pairs.
pub fn seconds_of(v: &Vec<(FsPath, FsPath)>) -> (r: Vec<FsPath>)
    ensures
        r.len() == v.len(),
        forall|j: int| 0 <= j < v.len() ==> (#[trigger] r@[j])@ == v@[j].1@,
{
    let mut r: Vec<FsPath> = Vec::new();
    let mut i: usize = 0;
    while i < v.len()
        invariant
            i <= v.len(),
            r.len() == i,
            forall|j: int| 0 <= j < i ==> (#[trigger] r@[j])@ == v@[j].1@,
        decreases v.len() - i,
    {
        r.push(v[i].1.duplicate());
        i = i + 1;
    }
    r
}

/// How many paths an undo of `action` looks at (see `undo_arity`).
pub fn undo_len(action: &UndoAction) -> (r: usize)
    ensures
        r == undo_arity(*action),
{
    match action {
        UndoAction::Copy { copied_files } => copied_files.len(),
        UndoAction::Move { moved_files } => moved_files.len(),
        UndoAction::Delete { deleted_files } => deleted_files.len(),
        UndoAction::Rename { .. } => 1,
    }
}

/// A rename onto a name that is taken is refused, never carried out: it
/// yields no new path, so neither the path to rename nor the entry that holds
/// the name is touched.
pub proof fn lemma_rename_refuses_taken(original: PathV, new_name: Seq<char>, siblings: Seq<Seq<char>>)
    requires
        new_name.len() > 0,
        original.len() > 0,
        new_name != original.last(),
        siblings.contains(new_name),
    ensures
        rename_spec(original, new_name, siblings) == Err::<PathV, RenameError>(RenameError::AlreadyExists),
{
}

} // verus!
