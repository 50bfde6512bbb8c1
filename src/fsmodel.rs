use vstd::prelude::*;
use crate::escalation::transfer_steps;
use crate::ops::{removals, renames_back, seconds_of, undo_arity, undo_steps_spec, PathKind, PathV, StepV, UndoAction};
use crate::path::{copy_paths, pairs_view, paths_view, FsPath};

verus! {

/// A directory tree as a map from each path to what it holds.
pub type Tree = Map<PathV, int>;

/// What a step does to a tree.
pub open spec fn apply_step(fs: Tree, s: StepV) -> Tree {
    match s {
        StepV::Copy(a, b) => fs.insert(b, fs[a]),
        StepV::Rename(a, b) => fs.remove(a).insert(b, fs[a]),
        StepV::Remove(p, _) => fs.remove(p),
    }
}

/// What a sequence of steps, in order, does to a tree.
pub open spec fn apply_steps(fs: Tree, steps: Seq<StepV>) -> Tree
    decreases steps.len(),
{
    if steps.len() == 0 {
        fs
    } else {
        apply_step(apply_steps(fs, steps.drop_last()), steps.last())
    }
}

pub open spec fn seconds(p: Seq<(PathV, PathV)>) -> Seq<PathV> {
    p.map_values(|x: (PathV, PathV)| x.1)
}

pub open spec fn swapped(p: Seq<(PathV, PathV)>) -> Seq<(PathV, PathV)> {
    p.map_values(|x: (PathV, PathV)| (x.1, x.0))
}

/// The sources of `p` exist in `fs`; its destinations are free and distinct.
pub open spec fn fresh_pairs(fs: Tree, p: Seq<(PathV, PathV)>) -> bool {
    &&& forall|i: int| 0 <= i < p.len() ==> fs.contains_key(#[trigger] p[i].0)
    &&& forall|i: int| 0 <= i < p.len() ==> !fs.contains_key(#[trigger] p[i].1)
    &&& forall|i: int, j: int| 0 <= i < p.len() && 0 <= j < p.len() && i != j ==> p[i].1 != p[j].1
}

/// The sources of `p` are distinct.
pub open spec fn distinct_sources(p: Seq<(PathV, PathV)>) -> bool {
    forall|i: int, j: int| 0 <= i < p.len() && 0 <= j < p.len() && i != j ==> p[i].0 != p[j].0
}

/// The source that `p` moves or copies to `k`.
pub open spec fn source_of(p: Seq<(PathV, PathV)>, k: PathV) -> PathV {
    p[choose|j: int| 0 <= j < p.len() && p[j].1 == k].0
}

pub open spec fn is_dest(p: Seq<(PathV, PathV)>, k: PathV) -> bool {
    exists|j: int| 0 <= j < p.len() && p[j].1 == k
}

pub open spec fn is_source(p: Seq<(PathV, PathV)>, k: PathV) -> bool {
    exists|j: int| 0 <= j < p.len() && p[j].0 == k
}

/// `fs` after each pair of `p` is moved.
pub open spec fn moved(fs: Tree, p: Seq<(PathV, PathV)>) -> Tree {
    Map::new(
        |k: PathV| (fs.contains_key(k) && !is_source(p, k)) || is_dest(p, k),
        |k: PathV|
            if is_dest(p, k) {
                fs[source_of(p, k)]
            } else {
                fs[k]
            },
    )
}

/// `fs` after each pair of `p` is copied.
pub open spec fn copied(fs: Tree, p: Seq<(PathV, PathV)>) -> Tree {
    Map::new(
        |k: PathV| fs.contains_key(k) || is_dest(p, k),
        |k: PathV|
            if is_dest(p, k) {
                fs[source_of(p, k)]
            } else {
                fs[k]
            },
    )
}

proof fn lemma_source_of(p: Seq<(PathV, PathV)>, j: int)
    requires
        0 <= j < p.len(),
        forall|a: int, b: int| 0 <= a < p.len() && 0 <= b < p.len() && a != b ==> p[a].1 != p[b].1,
    ensures
        is_dest(p, p[j].1),
        source_of(p, p[j].1) == p[j].0,
{
    let k = p[j].1;
    assert(is_dest(p, k));
    let c = choose|c: int| 0 <= c < p.len() && p[c].1 == k;
    assert(c == j);
}

proof fn lemma_moves(fs: Tree, p: Seq<(PathV, PathV)>)
    requires
        fresh_pairs(fs, p),
        distinct_sources(p),
    ensures
        apply_steps(fs, transfer_steps(p, true)) == moved(fs, p),
    decreases p.len(),
{
    if p.len() == 0 {
        assert(moved(fs, p) =~= fs);
    } else {
        let q = p.drop_last();
        assert(transfer_steps(p, true).drop_last() =~= transfer_steps(q, true));
        lemma_moves(fs, q);
        let g = moved(fs, q);
        let (a, b) = p.last();
        let n = p.len() - 1;
        assert(p[n] == (a, b));
        assert(fs.contains_key(a));
        assert(!is_source(q, a)) by {
            if is_source(q, a) {
                let j = choose|j: int| 0 <= j < q.len() && q[j].0 == a;
                assert(p[j].0 == p[n].0);
            }
        }
        assert(!is_dest(q, a)) by {
            if is_dest(q, a) {
                let j = choose|j: int| 0 <= j < q.len() && q[j].1 == a;
                assert(!fs.contains_key(p[j].1));
            }
        }
        assert(!is_dest(q, b)) by {
            if is_dest(q, b) {
                let j = choose|j: int| 0 <= j < q.len() && q[j].1 == b;
                assert(p[j].1 == p[n].1);
            }
        }
        assert(g.contains_key(a) && g[a] == fs[a]);
        let h = g.remove(a).insert(b, g[a]);
        assert(apply_steps(fs, transfer_steps(p, true)) == h);
        let m = moved(fs, p);
        lemma_source_of(p, n);
        assert forall|k: PathV| #[trigger] h.contains_key(k) == m.contains_key(k) by {
            if is_source(p, k) && k != a {
                let j = choose|j: int| 0 <= j < p.len() && p[j].0 == k;
                assert(q[j].0 == k);
            }
            if is_dest(p, k) && k != b {
                let j = choose|j: int| 0 <= j < p.len() && p[j].1 == k;
                assert(q[j].1 == k);
            }
            if is_source(q, k) {
                let j = choose|j: int| 0 <= j < q.len() && q[j].0 == k;
                assert(p[j].0 == k);
            }
            if is_dest(q, k) {
                let j = choose|j: int| 0 <= j < q.len() && q[j].1 == k;
                assert(p[j].1 == k);
            }
        }
        assert forall|k: PathV| h.contains_key(k) implies #[trigger] h[k] == m[k] by {
            if k != b && is_dest(q, k) {
                let j = choose|j: int| 0 <= j < q.len() && q[j].1 == k;
                assert(p[j] == q[j]);
                lemma_source_of(q, j);
                lemma_source_of(p, j);
            }
            if k != b && !is_dest(q, k) && is_dest(p, k) {
                let j = choose|j: int| 0 <= j < p.len() && p[j].1 == k;
                if j < n {
                    assert(q[j].1 == k);
                }
            }
        }
        assert(h =~= m);
    }
}

proof fn lemma_moved_back(fs: Tree, p: Seq<(PathV, PathV)>)
    requires
        fresh_pairs(fs, p),
        distinct_sources(p),
    ensures
        fresh_pairs(moved(fs, p), swapped(p)),
        distinct_sources(swapped(p)),
        moved(moved(fs, p), swapped(p)) == fs,
{
    let g = moved(fs, p);
    let s = swapped(p);
    assert forall|i: int| 0 <= i < s.len() implies g.contains_key(#[trigger] s[i].0) by {
        assert(s[i].0 == p[i].1);
        assert(is_dest(p, p[i].1));
    }
    assert forall|i: int| 0 <= i < s.len() implies !g.contains_key(#[trigger] s[i].1) by {
        assert(s[i].1 == p[i].0);
        assert(is_source(p, p[i].0));
        if is_dest(p, p[i].0) {
            let j = choose|j: int| 0 <= j < p.len() && p[j].1 == p[i].0;
            assert(!fs.contains_key(p[j].1));
        }
    }
    assert forall|i: int, j: int| 0 <= i < s.len() && 0 <= j < s.len() && i != j implies s[i].1 != s[j].1 by {
        assert(s[i].1 == p[i].0 && s[j].1 == p[j].0);
    }
    assert forall|i: int, j: int| 0 <= i < s.len() && 0 <= j < s.len() && i != j implies s[i].0 != s[j].0 by {
        assert(s[i].0 == p[i].1 && s[j].0 == p[j].1);
    }
    let m = moved(g, s);
    assert forall|k: PathV| #[trigger] m.contains_key(k) == fs.contains_key(k) by {
        if is_dest(s, k) {
            let j = choose|j: int| 0 <= j < s.len() && s[j].1 == k;
            assert(p[j].0 == k);
        }
        if is_source(s, k) {
            let j = choose|j: int| 0 <= j < s.len() && s[j].0 == k;
            assert(p[j].1 == k);
            assert(!fs.contains_key(p[j].1));
        }
        if fs.contains_key(k) && is_source(p, k) {
            let j = choose|j: int| 0 <= j < p.len() && p[j].0 == k;
            assert(s[j].1 == k);
        }
        if is_dest(p, k) {
            let j = choose|j: int| 0 <= j < p.len() && p[j].1 == k;
            assert(s[j].0 == k);
        }
    }
    assert forall|k: PathV| m.contains_key(k) implies #[trigger] m[k] == fs[k] by {
        if is_dest(s, k) {
            let j = choose|j: int| 0 <= j < s.len() && s[j].1 == k;
            lemma_source_of(s, j);
            assert(s[j].0 == p[j].1);
            lemma_source_of(p, j);
            assert(p[j].0 == k);
        } else {
            if is_dest(p, k) {
                let j = choose|j: int| 0 <= j < p.len() && p[j].1 == k;
                assert(s[j].0 == k);
                assert(is_source(s, k));
            }
        }
    }
    assert(m =~= fs);
}

/// What each path holds in `fs`, as an undo looks at it.
pub open spec fn kinds_in(fs: Tree, paths: Seq<PathV>) -> Seq<PathKind> {
    paths.map_values(
        |q: PathV|
            if fs.contains_key(q) {
                PathKind::File
            } else {
                PathKind::Absent
            },
    )
}

proof fn lemma_renames_back_all(p: Seq<(PathV, PathV)>, kinds: Seq<PathKind>)
    requires
        kinds.len() >= p.len(),
        forall|i: int| 0 <= i < p.len() ==> kinds[i] != PathKind::Absent,
    ensures
        renames_back(p, kinds) == transfer_steps(swapped(p), true),
    decreases p.len(),
{
    if p.len() > 0 {
        lemma_renames_back_all(p.drop_last(), kinds);
        assert(swapped(p.drop_last()) =~= swapped(p).drop_last());
        assert(transfer_steps(swapped(p), true) =~= transfer_steps(swapped(p).drop_last(), true).push(
            StepV::Rename(p.last().1, p.last().0),
        ));
    } else {
        assert(transfer_steps(swapped(p), true) =~= Seq::<StepV>::empty());
    }
}

proof fn lemma_copies(fs: Tree, p: Seq<(PathV, PathV)>)
    requires
        fresh_pairs(fs, p),
    ensures
        apply_steps(fs, transfer_steps(p, false)) == copied(fs, p),
    decreases p.len(),
{
    if p.len() == 0 {
        assert(copied(fs, p) =~= fs);
    } else {
        let q = p.drop_last();
        assert(transfer_steps(p, false).drop_last() =~= transfer_steps(q, false));
        lemma_copies(fs, q);
        let g = copied(fs, q);
        let (a, b) = p.last();
        let n = p.len() - 1;
        assert(p[n] == (a, b));
        assert(!is_dest(q, a)) by {
            if is_dest(q, a) {
                let j = choose|j: int| 0 <= j < q.len() && q[j].1 == a;
                assert(!fs.contains_key(p[j].1));
            }
        }
        assert(g[a] == fs[a]);
        let h = g.insert(b, g[a]);
        let m = copied(fs, p);
        lemma_source_of(p, n);
        assert forall|k: PathV| #[trigger] h.contains_key(k) == m.contains_key(k) by {
            if is_dest(p, k) && k != b {
                let j = choose|j: int| 0 <= j < p.len() && p[j].1 == k;
                assert(q[j].1 == k);
            }
            if is_dest(q, k) {
                let j = choose|j: int| 0 <= j < q.len() && q[j].1 == k;
                assert(p[j].1 == k);
            }
        }
        assert forall|k: PathV| h.contains_key(k) implies #[trigger] h[k] == m[k] by {
            if k != b && is_dest(q, k) {
                let j = choose|j: int| 0 <= j < q.len() && q[j].1 == k;
                lemma_source_of(q, j);
                lemma_source_of(p, j);
            }
            if k != b && !is_dest(q, k) && is_dest(p, k) {
                let j = choose|j: int| 0 <= j < p.len() && p[j].1 == k;
                if j < n {
                    assert(q[j].1 == k);
                }
            }
        }
        assert(h =~= m);
    }
}

proof fn lemma_removals_all(paths: Seq<PathV>, kinds: Seq<PathKind>, g: Tree)
    requires
        kinds.len() >= paths.len(),
        forall|i: int| 0 <= i < paths.len() ==> kinds[i] != PathKind::Absent,
    ensures
        apply_steps(g, removals(paths, kinds)) == g.remove_keys(paths.to_set()),
    decreases paths.len(),
{
    if paths.len() == 0 {
        assert(g.remove_keys(paths.to_set()) =~= g);
    } else {
        lemma_removals_all(paths.drop_last(), kinds, g);
        let r = removals(paths, kinds);
        assert(r.drop_last() == removals(paths.drop_last(), kinds));
        assert(g.remove_keys(paths.drop_last().to_set()).remove(paths.last()) =~= g.remove_keys(
            paths.to_set(),
        )) by {
            assert forall|k: PathV| paths.to_set().contains(k) <==> paths.drop_last().to_set().contains(k)
                || k == paths.last() by {
                if paths.to_set().contains(k) {
                    let j = choose|j: int| 0 <= j < paths.len() && paths[j] == k;
                    if j < paths.len() - 1 {
                        assert(paths.drop_last()[j] == k);
                    }
                }
                if paths.drop_last().to_set().contains(k) {
                    let j = choose|j: int| 0 <= j < paths.len() - 1 && paths.drop_last()[j] == k;
                    assert(paths[j] == k);
                }
            }
        }
    }
}

/// The steps an action was made of, given the sources of a copy.
pub open spec fn done_steps(action: UndoAction, sources: Seq<PathV>) -> Seq<StepV> {
    match action {
        UndoAction::Copy { copied_files } => transfer_steps(
            zip(sources, paths_view(copied_files@)),
            false,
        ),
        UndoAction::Move { moved_files } => transfer_steps(pairs_view(moved_files@), true),
        UndoAction::Delete { deleted_files } => transfer_steps(pairs_view(deleted_files@), true),
        UndoAction::Rename { original_path, new_path } => seq![
            StepV::Rename(original_path@, new_path@),
        ],
    }
}

/// The paths that an undo of `action` looks at.
pub open spec fn checked_paths(action: UndoAction) -> Seq<PathV> {
    match action {
        UndoAction::Copy { copied_files } => paths_view(copied_files@),
        UndoAction::Move { moved_files } => seconds(pairs_view(moved_files@)),
        UndoAction::Delete { deleted_files } => seconds(pairs_view(deleted_files@)),
        UndoAction::Rename { new_path, .. } => seq![new_path@],
    }
}

pub open spec fn zip(a: Seq<PathV>, b: Seq<PathV>) -> Seq<(PathV, PathV)> {
    Seq::new(b.len(), |i: int| (a[i], b[i]))
}

/// The action could be carried out on `fs`: its sources exist (and differ,
/// for what is moved), and its destinations are free and distinct.
pub open spec fn valid_in(fs: Tree, action: UndoAction, sources: Seq<PathV>) -> bool {
    match action {
        UndoAction::Copy { copied_files } => sources.len() == copied_files.len() && fresh_pairs(
            fs,
            zip(sources, paths_view(copied_files@)),
        ),
        UndoAction::Move { moved_files } => fresh_pairs(fs, pairs_view(moved_files@))
            && distinct_sources(pairs_view(moved_files@)),
        UndoAction::Delete { deleted_files } => fresh_pairs(fs, pairs_view(deleted_files@))
            && distinct_sources(pairs_view(deleted_files@)),
        UndoAction::Rename { original_path, new_path } => fs.contains_key(original_path@)
            && !fs.contains_key(new_path@),
    }
}

proof fn lemma_undo_moves(fs: Tree, p: Seq<(PathV, PathV)>)
    requires
        fresh_pairs(fs, p),
        distinct_sources(p),
    ensures
        ({
            let after = apply_steps(fs, transfer_steps(p, true));
            apply_steps(after, renames_back(p, kinds_in(after, seconds(p)))) == fs
        }),
{
    lemma_moves(fs, p);
    let after = moved(fs, p);
    lemma_moved_back(fs, p);
    let kinds = kinds_in(after, seconds(p));
    assert forall|i: int| 0 <= i < p.len() implies kinds[i] != PathKind::Absent by {
        assert(is_dest(p, p[i].1));
        assert(seconds(p)[i] == p[i].1);
    }
    lemma_renames_back_all(p, kinds);
    lemma_moves(after, swapped(p));
}

/// Undoing an action right after it was carried out gives the tree back:
/// with every destination found where the action put it, the undo steps
/// restore each path and what it held, and remove what the action made.
pub proof fn lemma_undo_restores(fs: Tree, action: UndoAction, sources: Seq<PathV>)
    requires
        valid_in(fs, action, sources),
    ensures
        ({
            let after = apply_steps(fs, done_steps(action, sources));
            apply_steps(after, undo_steps_spec(action, kinds_in(after, checked_paths(action)))) == fs
        }),
{
    match action {
        UndoAction::Copy { copied_files } => {
            let p = zip(sources, paths_view(copied_files@));
            lemma_copies(fs, p);
            let after = copied(fs, p);
            let dests = paths_view(copied_files@);
            let kinds = kinds_in(after, dests);
            assert forall|i: int| 0 <= i < dests.len() implies kinds[i] != PathKind::Absent by {
                assert(p[i].1 == dests[i]);
                assert(is_dest(p, p[i].1));
            }
            lemma_removals_all(dests, kinds, after);
            assert forall|k: PathV| #[trigger] after.remove_keys(dests.to_set()).contains_key(k)
                == fs.contains_key(k) by {
                if is_dest(p, k) {
                    let j = choose|j: int| 0 <= j < p.len() && p[j].1 == k;
                    assert(dests[j] == k);
                    assert(dests.to_set().contains(k));
                }
                if dests.to_set().contains(k) {
                    let j = choose|j: int| 0 <= j < dests.len() && dests[j] == k;
                    assert(p[j].1 == k);
                }
            }
            assert(after.remove_keys(dests.to_set()) =~= fs);
        },
        UndoAction::Move { moved_files } => {
            lemma_undo_moves(fs, pairs_view(moved_files@));
        },
        UndoAction::Delete { deleted_files } => {
            lemma_undo_moves(fs, pairs_view(deleted_files@));
        },
        UndoAction::Rename { original_path, new_path } => {
            let p = seq![(original_path@, new_path@)];
            assert(transfer_steps(p, true) =~= seq![StepV::Rename(original_path@, new_path@)]);
            assert(seconds(p) =~= seq![new_path@]);
            lemma_undo_moves(fs, p);
        },
    }
}

/// The tree after an undo of `action` on `g`: each path it looks at is
/// checked in `g`, and what is gone is skipped.
pub open spec fn undo_one(g: Tree, action: UndoAction) -> Tree {
    apply_steps(g, undo_steps_spec(action, kinds_in(g, checked_paths(action))))
}

/// The tree after the actions of `ops` (each with the sources of a copy), in order.
pub open spec fn run_all(fs: Tree, ops: Seq<(UndoAction, Seq<PathV>)>) -> Tree
    decreases ops.len(),
{
    if ops.len() == 0 {
        fs
    } else {
        apply_steps(run_all(fs, ops.drop_last()), done_steps(ops.last().0, ops.last().1))
    }
}

/// Each action of `ops` could be carried out on the tree that the ones
/// before it left.
pub open spec fn all_valid(fs: Tree, ops: Seq<(UndoAction, Seq<PathV>)>) -> bool
    decreases ops.len(),
{
    if ops.len() == 0 {
        true
    } else {
        all_valid(fs, ops.drop_last()) && valid_in(
            run_all(fs, ops.drop_last()),
            ops.last().0,
            ops.last().1,
        )
    }
}

/// The tree after undoing the actions of `ops` on `g`, the last one first.
pub open spec fn undo_all(g: Tree, ops: Seq<(UndoAction, Seq<PathV>)>) -> Tree
    decreases ops.len(),
{
    if ops.len() == 0 {
        g
    } else {
        undo_all(undo_one(g, ops.last().0), ops.drop_last())
    }
}

/// Any sequence of copies, moves, deletes and renames, followed by as many
/// undos, gives the tree back.
pub proof fn lemma_undo_sequence_restores(fs: Tree, ops: Seq<(UndoAction, Seq<PathV>)>)
    requires
        all_valid(fs, ops),
    ensures
        undo_all(run_all(fs, ops), ops) == fs,
    decreases ops.len(),
{
    if ops.len() > 0 {
        let before = run_all(fs, ops.drop_last());
        lemma_undo_restores(before, ops.last().0, ops.last().1);
        lemma_undo_sequence_restores(fs, ops.drop_last());
    }
}

/// The paths an undo of `action` looks at, in the order of `undo_steps`'s kinds.
pub fn checked_paths_of(action: &UndoAction) -> (r: Vec<FsPath>)
    ensures
        paths_view(r@) == checked_paths(*action),
        r.len() == undo_arity(*action),
{
    match action {
        UndoAction::Copy { copied_files } => copy_paths(copied_files),
        UndoAction::Move { moved_files } => {
            let r = seconds_of(moved_files);
            proof {
                assert(paths_view(r@) =~= seconds(pairs_view(moved_files@)));
            }
            r
        },
        UndoAction::Delete { deleted_files } => {
            let r = seconds_of(deleted_files);
            proof {
                assert(paths_view(r@) =~= seconds(pairs_view(deleted_files@)));
            }
            r
        },
        UndoAction::Rename { new_path, .. } => {
            let mut r: Vec<FsPath> = Vec::new();
            r.push(new_path.duplicate());
            proof {
                assert(paths_view(r@) =~= seq![new_path@]);
            }
            r
        },
    }
}

} // verus!
