use vstd::prelude::*;
use crate::ops::PathV;
use crate::path::FsPath;
use crate::selection::{copy_indices, strictly_increasing};

verus! {

/// Cursor, selection and scroll of one directory.
pub struct DirState {
    pub cursor_index: usize,
    pub selected_indices: Vec<usize>,
    pub scroll_offset: usize,
}

/// A directory state over plain values.
pub struct StateV {
    pub cursor: usize,
    pub selected: Seq<usize>,
    pub scroll: usize,
}

impl DirState {
    pub open spec fn state_view(&self) -> StateV {
        StateV {
            cursor: self.cursor_index,
            selected: self.selected_indices@,
            scroll: self.scroll_offset,
        }
    }

    /// A copy of this state.
    pub fn duplicate(&self) -> (r: DirState)
        ensures
            r.state_view() == self.state_view(),
    {
        DirState {
            cursor_index: self.cursor_index,
            selected_indices: copy_indices(&self.selected_indices),
            scroll_offset: self.scroll_offset,
        }
    }
}

/// The remembered state of each directory visited, by path.
pub struct DirMemory {
    pub slots: Vec<(FsPath, DirState)>,
}

impl DirMemory {
    /// No path is remembered twice, and each selection is in order.
    pub open spec fn wf(&self) -> bool {
        &&& forall|i: int, j: int|
            0 <= i < self.slots.len() && 0 <= j < self.slots.len() && i != j ==> (
            #[trigger] self.slots@[i]).0@ != (#[trigger] self.slots@[j]).0@
        &&& forall|i: int|
            0 <= i < self.slots.len() ==> strictly_increasing(
                (#[trigger] self.slots@[i]).1.selected_indices@,
            )
    }

    pub open spec fn has(&self, k: PathV) -> bool {
        exists|i: int| 0 <= i < self.slots.len() && (#[trigger] self.slots@[i]).0@ == k
    }

    /// The memory as a map from directory to state.
    pub open spec fn map_view(&self) -> Map<PathV, StateV> {
        Map::new(
            |k: PathV| self.has(k),
            |k: PathV|
                self.slots@[choose|i: int|
                    0 <= i < self.slots.len() && (#[trigger] self.slots@[i]).0@ == k].1.state_view(),
        )
    }

    /// An empty memory.
    pub fn new() -> (r: DirMemory)
        ensures
            r.wf(),
            r.map_view() == Map::<PathV, StateV>::empty(),
    {
        let r = DirMemory { slots: Vec::new() };
        proof {
            assert(r.map_view() =~= Map::<PathV, StateV>::empty());
        }
        r
    }

    fn find(&self, key: &FsPath) -> (r: Option<usize>)
        ensures
            match r {
                Some(i) => i < self.slots.len() && self.slots@[i as int].0@ == key@,
                None => !self.has(key@),
            },
    {
        let mut i: usize = 0;
        while i < self.slots.len()
            invariant
                i <= self.slots.len(),
                forall|j: int| 0 <= j < i ==> (#[trigger] self.slots@[j]).0@ != key@,
            decreases self.slots.len() - i,
        {
            if self.slots[i].0.same_as(key) {
                return Some(i);
            }
            i = i + 1;
        }
        None
    }

    /// The state remembered for `key`, if any.
    pub fn get(&self, key: &FsPath) -> (r: Option<&DirState>)
        requires
            self.wf(),
        ensures
            match r {
                Some(s) => self.map_view().contains_key(key@) && self.map_view()[key@]
                    == s.state_view() && strictly_increasing(s.selected_indices@),
                None => !self.map_view().contains_key(key@),
            },
    {
        match self.find(key) {
            Some(i) => {
                proof {
                    let j = choose|j: int|
                        0 <= j < self.slots.len() && (#[trigger] self.slots@[j]).0@ == key@;
                    assert(j == i);
                }
                Some(&self.slots[i].1)
            },
            None => None,
        }
    }

    /// Remembers `st` for `key`, replacing what was remembered for it.
    pub fn insert(&mut self, key: FsPath, st: DirState)
        requires
            old(self).wf(),
            strictly_increasing(st.selected_indices@),
        ensures
            final(self).wf(),
            final(self).map_view() == old(self).map_view().insert(key@, st.state_view()),
    {
        let ghost kv = key@;
        let ghost sv = st.state_view();
        match self.find(&key) {
            Some(i) => {
                self.slots.set(i, (key, st));
                proof {
                    let o = old(self).map_view();
                    let n = self.map_view();
                    assert forall|k: PathV| #[trigger] n.contains_key(k) == o.insert(kv, sv).contains_key(k) by {
                        if o.contains_key(k) {
                            let j = choose|j: int| 0 <= j < old(self).slots.len() && (#[trigger] old(self).slots@[j]).0@ == k;
                            assert(self.slots@[j].0@ == k);
                        }
                        if n.contains_key(k) && k != kv {
                            let j = choose|j: int| 0 <= j < self.slots.len() && (#[trigger] self.slots@[j]).0@ == k;
                            assert(old(self).slots@[j].0@ == k);
                        }
                    }
                    assert forall|k: PathV| #[trigger] n.contains_key(k) implies n[k] == o.insert(kv, sv)[k] by {
                        let j = choose|j: int| 0 <= j < self.slots.len() && (#[trigger] self.slots@[j]).0@ == k;
                        if k == kv {
                            assert(j == i);
                        } else {
                            assert(old(self).slots@[j].0@ == k);
                            let j2 = choose|j2: int| 0 <= j2 < old(self).slots.len() && (#[trigger] old(self).slots@[j2]).0@ == k;
                            assert(j2 == j);
                        }
                    }
                    assert(n =~= o.insert(kv, sv));
                }
            },
            None => {
                self.slots.push((key, st));
                proof {
                    let o = old(self).map_view();
                    let n = self.map_view();
                    let last = old(self).slots.len() as int;
                    assert forall|k: PathV| #[trigger] n.contains_key(k) == o.insert(kv, sv).contains_key(k) by {
                        if o.contains_key(k) {
                            let j = choose|j: int| 0 <= j < old(self).slots.len() && (#[trigger] old(self).slots@[j]).0@ == k;
                            assert(self.slots@[j].0@ == k);
                        }
                        if k == kv {
                            assert(self.slots@[last].0@ == k);
                        }
                        if n.contains_key(k) && k != kv {
                            let j = choose|j: int| 0 <= j < self.slots.len() && (#[trigger] self.slots@[j]).0@ == k;
                            assert(old(self).slots@[j].0@ == k);
                        }
                    }
                    assert forall|k: PathV| #[trigger] n.contains_key(k) implies n[k] == o.insert(kv, sv)[k] by {
                        let j = choose|j: int| 0 <= j < self.slots.len() && (#[trigger] self.slots@[j]).0@ == k;
                        if k == kv {
                            assert(self.slots@[last].0@ == k);
                            assert(j == last);
                        } else {
                            assert(old(self).slots@[j].0@ == k);
                            let j2 = choose|j2: int| 0 <= j2 < old(self).slots.len() && (#[trigger] old(self).slots@[j2]).0@ == k;
                            assert(j2 == j);
                        }
                    }
                    assert(n =~= o.insert(kv, sv));
                }
            },
        }
    }
}

} // verus!
