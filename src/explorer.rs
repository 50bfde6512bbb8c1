use vstd::prelude::*;
use crate::memory::{DirMemory, DirState, StateV};
use crate::ops::{PathV, UndoAction};
use crate::path::FsPath;
use crate::selection::{below, keep_below, range_between, range_of, strictly_increasing, toggled, toggled_spec};

verus! {

/// How a listing is ordered (the listing itself comes sorted).
#[derive(PartialEq, Eq, Structural, Clone, Copy, Debug)]
pub enum SortMode {
    Name,
    Date,
}

/// One entry of the open directory.
pub struct Entry {
    pub path: FsPath,
    pub name: String,
    pub is_dir: bool,
    /// Seconds since the Unix epoch; none for a time before it.
    pub modified: Option<u64>,
}

#[derive(PartialEq, Eq, Structural, Clone, Copy, Debug)]
pub enum ClipboardOp {
    Copy,
    Cut,
}

/// Paths taken by a copy or a cut, waiting for a paste.
pub struct Clipboard {
    pub items: Vec<FsPath>,
    pub operation: ClipboardOp,
}

#[derive(PartialEq, Eq, Structural, Clone, Copy, Debug)]
pub enum CreationType {
    File,
    Directory,
}

#[derive(PartialEq, Eq, Structural, Clone, Copy, Debug)]
pub enum OperationType {
    Copy,
    Move,
    Delete,
    Rename,
    Undo,
}

/// An operation that was refused for want of permission, kept to be retried
/// with elevated rights.
pub struct PendingOperation {
    pub items: Vec<FsPath>,
    /// For a copy or move the target directory; for a rename the new path.
    pub destination: Option<FsPath>,
    pub operation: OperationType,
    pub undo_action: Option<UndoAction>,
}

/// The mode of the interface, each with what it needs.
pub enum UIMode {
    Normal,
    PasswordPrompt { prompt: String, password: String, pending_operation: PendingOperation },
    StatusMessage { message: String },
    ConfirmDelete { items: Vec<FsPath> },
    CreateNew { creation_type: Option<CreationType>, name: String },
    /// `cursor_pos` and `selection_start` count characters of `new_name`.
    RenameItem {
        original_path: FsPath,
        new_name: String,
        cursor_pos: usize,
        selection_start: Option<usize>,
    },
    Help,
}

/// The state of the file manager.
pub struct FileExplorer {
    pub current_dir: FsPath,
    pub entries: Vec<Entry>,
    pub cursor_index: usize,
    pub selected_indices: Vec<usize>,
    pub selection_anchor: Option<usize>,
    pub scroll_offset: usize,
    pub dir_memory: DirMemory,
    pub clipboard: Option<Clipboard>,
    pub ui_mode: UIMode,
    pub undo_stack: Vec<UndoAction>,
    pub trash_dir: FsPath,
    pub drag_selection: Option<usize>,
    pub current_item_size: Option<u64>,
    pub sort_mode: SortMode,
    pub terminal_width: usize,
    pub show_hidden: bool,
    pub status_message: Option<String>,
}

/// The state restored for a directory with `len` entries: what memory holds
/// for it, the cursor clamped and the selection cut to the listing; else the top.
pub open spec fn restored(mem: Map<PathV, StateV>, dir: PathV, len: usize) -> StateV {
    if mem.contains_key(dir) {
        let s = mem[dir];
        StateV {
            cursor: if len == 0 {
                0
            } else if s.cursor < len {
                s.cursor
            } else {
                (len - 1) as usize
            },
            selected: below(s.selected, len),
            scroll: s.scroll,
        }
    } else {
        StateV { cursor: 0, selected: Seq::empty(), scroll: 0 }
    }
}

/// The scroll offset after the cursor moved to line `c` of `total` lines, in
/// a window of `height` lines that keeps one line of margin.
pub open spec fn scroll_for(c: int, s: int, height: int, total: int) -> int {
    if height == 0 {
        s
    } else {
        let s1 = if c <= s {
            if c >= 1 {
                c - 1
            } else {
                0
            }
        } else if c - s >= height - 1 {
            c + 2 - (if height <= total {
                height
            } else {
                total
            })
        } else {
            s
        };
        let cap = if total >= height {
            total - height
        } else {
            0
        };
        if s1 <= cap {
            s1
        } else {
            cap
        }
    }
}

proof fn lemma_below_all(v: Seq<usize>, n: usize)
    requires
        forall|k: int| 0 <= k < v.len() ==> v[k] < n,
    ensures
        below(v, n) == v,
    decreases v.len(),
{
    reveal(Seq::filter);
    if v.len() > 0 {
        lemma_below_all(v.drop_last(), n);
        assert(v.drop_last().push(v.last()) =~= v);
    }
}

/// Directory memory round trip: a state saved for directory `a` (its cursor
/// and selection on its entries), then another saved for a different
/// directory `b`, gives `a` back its state exactly when it is loaded again
/// with as many entries.
pub proof fn lemma_memory_round_trip(
    mem: Map<PathV, StateV>,
    a: PathV,
    b: PathV,
    sa: StateV,
    sb: StateV,
    len: usize,
)
    requires
        a != b,
        sa.cursor < len,
        forall|k: int| 0 <= k < sa.selected.len() ==> sa.selected[k] < len,
    ensures
        restored(mem.insert(a, sa).insert(b, sb), a, len) == sa,
{
    let m = mem.insert(a, sa).insert(b, sb);
    assert(m.contains_key(a) && m[a] == sa);
    lemma_below_all(sa.selected, len);
}

impl FileExplorer {
    /// The cursor is on an entry (or at 0 when there is none), the selection
    /// holds entries in order, and the anchor is on an entry.
    pub open spec fn wf(&self) -> bool {
        &&& self.dir_memory.wf()
        &&& strictly_increasing(self.selected_indices@)
        &&& forall|k: int|
            0 <= k < self.selected_indices.len() ==> #[trigger] self.selected_indices@[k]
                < self.entries.len()
        &&& if self.entries.len() == 0 {
            self.cursor_index == 0
        } else {
            self.cursor_index < self.entries.len()
        }
        &&& match self.selection_anchor {
            Some(a) => a < self.entries.len(),
            None => true,
        }
    }

    /// The navigation state as it is saved in memory.
    pub open spec fn state_now(&self) -> StateV {
        StateV {
            cursor: self.cursor_index,
            selected: self.selected_indices@,
            scroll: self.scroll_offset,
        }
    }

    /// Everything but the navigation state is as in `o`.
    pub open spec fn same_files(&self, o: &FileExplorer) -> bool {
        &&& self.current_dir == o.current_dir
        &&& self.entries == o.entries
        &&& self.clipboard == o.clipboard
        &&& self.ui_mode == o.ui_mode
        &&& self.undo_stack == o.undo_stack
        &&& self.trash_dir == o.trash_dir
        &&& self.drag_selection == o.drag_selection
        &&& self.current_item_size == o.current_item_size
        &&& self.sort_mode == o.sort_mode
        &&& self.terminal_width == o.terminal_width
        &&& self.show_hidden == o.show_hidden
        &&& self.status_message == o.status_message
    }

    /// The navigation state is as in `o`.
    pub open spec fn same_nav(&self, o: &FileExplorer) -> bool {
        &&& self.cursor_index == o.cursor_index
        &&& self.selected_indices == o.selected_indices
        &&& self.selection_anchor == o.selection_anchor
        &&& self.scroll_offset == o.scroll_offset
        &&& self.dir_memory == o.dir_memory
    }

    /// Lines of the tree: the ancestors from the root down to the open
    /// directory, then its entries.
    pub open spec fn tree_len(&self) -> int {
        self.current_dir@.len() + 1 + self.entries.len()
    }

    /// A file manager opened on `current_dir`, trashing into `trash_dir`,
    /// with no listing read yet.
    pub fn new(current_dir: FsPath, trash_dir: FsPath) -> (r: FileExplorer)
        ensures
            r.wf(),
            r.current_dir@ == current_dir@,
            r.trash_dir@ == trash_dir@,
            r.entries.len() == 0,
            r.cursor_index == 0,
            r.selected_indices@.len() == 0,
            r.selection_anchor is None,
            r.scroll_offset == 0,
            r.drag_selection is None,
            r.current_item_size is None,
            r.undo_stack.len() == 0,
            r.clipboard is None,
            r.ui_mode is Normal,
            r.dir_memory.map_view() == Map::<PathV, StateV>::empty(),
            r.sort_mode == SortMode::Name,
            !r.show_hidden,
            r.status_message is None,
    {
        FileExplorer {
            current_dir,
            entries: Vec::new(),
            cursor_index: 0,
            selected_indices: Vec::new(),
            selection_anchor: None,
            scroll_offset: 0,
            dir_memory: DirMemory::new(),
            clipboard: None,
            ui_mode: UIMode::Normal,
            undo_stack: Vec::new(),
            trash_dir,
            drag_selection: None,
            current_item_size: None,
            sort_mode: SortMode::Name,
            terminal_width: 100,
            show_hidden: false,
            status_message: None,
        }
    }

    /// Takes a fresh listing of the open directory, and restores the state
    /// remembered for it (see `restored`); the range anchor is dropped.
    pub fn load_directory(&mut self, entries: Vec<Entry>)
        requires
            old(self).wf(),
        ensures
            final(self).wf(),
            final(self).entries == entries,
            final(self).state_now() == restored(
                old(self).dir_memory.map_view(),
                old(self).current_dir@,
                entries.len(),
            ),
            final(self).selection_anchor is None,
            final(self).dir_memory == old(self).dir_memory,
            final(self).current_dir == old(self).current_dir,
            final(self).undo_stack == old(self).undo_stack,
            final(self).clipboard == old(self).clipboard,
            final(self).ui_mode == old(self).ui_mode,
            final(self).status_message == old(self).status_message,
            final(self).trash_dir == old(self).trash_dir,
    {
        let len = entries.len();
        self.entries = entries;
        match self.dir_memory.get(&self.current_dir) {
            Some(st) => {
                self.cursor_index = if len == 0 {
                    0
                } else if st.cursor_index < len {
                    st.cursor_index
                } else {
                    len - 1
                };
                let kept = keep_below(&st.selected_indices, len);
                proof {
                    assert forall|k: int| 0 <= k < kept.len() implies #[trigger] kept@[k] < len by {
                        st.selected_indices@.lemma_filter_pred(
                            crate::selection::keep_pred(crate::selection::Keep::Below, len),
                            k,
                        );
                    }
                }
                self.selected_indices = kept;
                self.scroll_offset = st.scroll_offset;
            },
            None => {
                self.cursor_index = 0;
                self.selected_indices = Vec::new();
                self.scroll_offset = 0;
            },
        }
        self.selection_anchor = None;
        self.current_item_size = None;
    }

    /// Remembers the cursor, selection and scroll of the open directory.
    pub fn save_state(&mut self)
        requires
            old(self).wf(),
        ensures
            final(self).wf(),
            final(self).dir_memory.map_view() == old(self).dir_memory.map_view().insert(
                old(self).current_dir@,
                old(self).state_now(),
            ),
            final(self).same_files(old(self)),
            final(self).cursor_index == old(self).cursor_index,
            final(self).selected_indices == old(self).selected_indices,
            final(self).selection_anchor == old(self).selection_anchor,
            final(self).scroll_offset == old(self).scroll_offset,
    {
        let st = DirState {
            cursor_index: self.cursor_index,
            selected_indices: crate::selection::copy_indices(&self.selected_indices),
            scroll_offset: self.scroll_offset,
        };
        let key = self.current_dir.duplicate();
        self.dir_memory.insert(key, st);
    }

    /// With an anchor set, selects exactly the entries between the anchor
    /// and the cursor, both included.
    pub fn update_selection_range(&mut self)
        requires
            old(self).wf(),
        ensures
            final(self).wf(),
            final(self).same_files(old(self)),
            final(self).selected_indices@ == match old(self).selection_anchor {
                Some(a) => range_between(a, old(self).cursor_index),
                None => old(self).selected_indices@,
            },
            final(self).cursor_index == old(self).cursor_index,
            final(self).selection_anchor == old(self).selection_anchor,
            final(self).scroll_offset == old(self).scroll_offset,
            final(self).dir_memory == old(self).dir_memory,
    {
        if let Some(anchor) = self.selection_anchor {
            let r = range_of(anchor, self.cursor_index);
            proof {
                assert forall|k: int| 0 <= k < r.len() implies #[trigger] r@[k] < self.entries.len() by {
                }
            }
            self.selected_indices = r;
        }
    }

    /// Moves the cursor one entry up. With `shift` the selection becomes the
    /// range from the anchor (set here on first use) to the cursor; without,
    /// the selection and the anchor are cleared. The state is then saved.
    /// At the top nothing changes.
    pub fn move_up(&mut self, shift: bool)
        requires
            old(self).wf(),
        ensures
            final(self).wf(),
            final(self).same_files(old(self)),
            old(self).cursor_index == 0 ==> final(self).same_nav(old(self)),
            old(self).cursor_index > 0 ==> {
                let a = match old(self).selection_anchor {
                    Some(a) => a,
                    None => old(self).cursor_index,
                };
                &&& final(self).cursor_index == old(self).cursor_index - 1
                &&& shift ==> final(self).selection_anchor == Some(a)
                    && final(self).selected_indices@ == range_between(a, final(self).cursor_index)
                &&& !shift ==> final(self).selection_anchor is None
                    && final(self).selected_indices@.len() == 0
                &&& final(self).scroll_offset == old(self).scroll_offset
                &&& final(self).dir_memory.map_view() == old(self).dir_memory.map_view().insert(
                    old(self).current_dir@,
                    final(self).state_now(),
                )
            },
    {
        if self.cursor_index > 0 {
            if shift {
                if self.selection_anchor.is_none() {
                    self.selection_anchor = Some(self.cursor_index);
                }
            } else {
                self.selected_indices = Vec::new();
                self.selection_anchor = None;
            }
            self.cursor_index = self.cursor_index - 1;
            if shift {
                self.update_selection_range();
            }
            self.save_state();
        }
    }

    /// Moves the cursor one entry down; as `move_up` otherwise. At the last
    /// entry nothing changes.
    pub fn move_down(&mut self, shift: bool)
        requires
            old(self).wf(),
        ensures
            final(self).wf(),
            final(self).same_files(old(self)),
            old(self).cursor_index + 1 >= old(self).entries.len() ==> final(self).same_nav(old(self)),
            old(self).cursor_index + 1 < old(self).entries.len() ==> {
                let a = match old(self).selection_anchor {
                    Some(a) => a,
                    None => old(self).cursor_index,
                };
                &&& final(self).cursor_index == old(self).cursor_index + 1
                &&& shift ==> final(self).selection_anchor == Some(a)
                    && final(self).selected_indices@ == range_between(a, final(self).cursor_index)
                &&& !shift ==> final(self).selection_anchor is None
                    && final(self).selected_indices@.len() == 0
                &&& final(self).scroll_offset == old(self).scroll_offset
                &&& final(self).dir_memory.map_view() == old(self).dir_memory.map_view().insert(
                    old(self).current_dir@,
                    final(self).state_now(),
                )
            },
    {
        if self.entries.len() > 0 && self.cursor_index < self.entries.len() - 1 {
            if shift {
                if self.selection_anchor.is_none() {
                    self.selection_anchor = Some(self.cursor_index);
                }
            } else {
                self.selected_indices = Vec::new();
                self.selection_anchor = None;
            }
            self.cursor_index = self.cursor_index + 1;
            if shift {
                self.update_selection_range();
            }
            self.save_state();
        }
    }

    /// Adds the entry under the cursor to the selection, or takes it out;
    /// clears the anchor and saves the state. Nothing happens in an empty
    /// directory.
    pub fn toggle_selection(&mut self)
        requires
            old(self).wf(),
        ensures
            final(self).wf(),
            final(self).same_files(old(self)),
            old(self).entries.len() == 0 ==> final(self).same_nav(old(self)),
            old(self).entries.len() > 0 ==> {
                &&& final(self).selected_indices@ == toggled_spec(
                    old(self).selected_indices@,
                    old(self).cursor_index,
                )
                &&& forall|z: usize| #[trigger]
                    final(self).selected_indices@.contains(z) <==> if old(
                        self,
                    ).selected_indices@.contains(old(self).cursor_index) {
                        old(self).selected_indices@.contains(z) && z != old(self).cursor_index
                    } else {
                        old(self).selected_indices@.contains(z) || z == old(self).cursor_index
                    }
                &&& final(self).selection_anchor is None
                &&& final(self).cursor_index == old(self).cursor_index
                &&& final(self).scroll_offset == old(self).scroll_offset
                &&& final(self).dir_memory.map_view() == old(self).dir_memory.map_view().insert(
                    old(self).current_dir@,
                    final(self).state_now(),
                )
            },
    {
        if self.entries.len() == 0 {
            return;
        }
        let t = toggled(&self.selected_indices, self.cursor_index);
        proof {
            assert forall|k: int| 0 <= k < t.len() implies #[trigger] t@[k] < self.entries.len() by {
                assert(t@.contains(t@[k]));
                if t@[k] != self.cursor_index {
                    let j = choose|j: int| 0 <= j < self.selected_indices.len() && self.selected_indices@[j] == t@[k];
                }
            }
        }
        self.selected_indices = t;
        self.selection_anchor = None;
        self.save_state();
    }

    /// Steps into the directory under the cursor: saves the state of the one
    /// left and opens the new one with no listing yet (load it next). Returns
    /// whether it did; a file under the cursor, or none, changes nothing.
    pub fn enter_directory(&mut self) -> (r: bool)
        requires
            old(self).wf(),
        ensures
            final(self).wf(),
            r == (old(self).entries.len() > 0 && old(self).entries@[old(
                self,
            ).cursor_index as int].is_dir),
            r ==> {
                &&& final(self).current_dir@ == old(self).entries@[old(
                    self,
                ).cursor_index as int].path@
                &&& final(self).entries.len() == 0
                &&& final(self).cursor_index == 0
                &&& final(self).selected_indices@.len() == 0
                &&& final(self).selection_anchor is None
                &&& final(self).scroll_offset == 0
                &&& final(self).dir_memory.map_view() == old(self).dir_memory.map_view().insert(
                    old(self).current_dir@,
                    old(self).state_now(),
                )
            },
            !r ==> final(self).same_files(old(self)) && final(self).same_nav(old(self)),
            final(self).undo_stack == old(self).undo_stack,
            final(self).clipboard == old(self).clipboard,
            final(self).trash_dir == old(self).trash_dir,
    {
        if self.entries.len() == 0 || !self.entries[self.cursor_index].is_dir {
            return false;
        }
        let target = self.entries[self.cursor_index].path.duplicate();
        self.save_state();
        self.open_dir(target);
        true
    }

    /// Opens `dir` with an empty listing and a cleared navigation state.
    fn open_dir(&mut self, dir: FsPath)
        requires
            old(self).wf(),
        ensures
            final(self).wf(),
            final(self).current_dir@ == dir@,
            final(self).entries.len() == 0,
            final(self).cursor_index == 0,
            final(self).selected_indices@.len() == 0,
            final(self).selection_anchor is None,
            final(self).scroll_offset == 0,
            final(self).dir_memory == old(self).dir_memory,
            final(self).undo_stack == old(self).undo_stack,
            final(self).clipboard == old(self).clipboard,
            final(self).trash_dir == old(self).trash_dir,
            final(self).ui_mode == old(self).ui_mode,
            final(self).status_message == old(self).status_message,
    {
        self.current_dir = dir;
        self.entries = Vec::new();
        self.cursor_index = 0;
        self.selected_indices = Vec::new();
        self.selection_anchor = None;
        self.scroll_offset = 0;
    }

    /// Enters the directory under the cursor (see `enter_directory`), or
    /// names the file under it to be opened.
    pub fn open_or_enter(&mut self) -> (r: Option<FsPath>)
        requires
            old(self).wf(),
        ensures
            final(self).wf(),
            old(self).entries.len() == 0 ==> r is None && final(self).same_files(old(self))
                && final(self).same_nav(old(self)),
            old(self).entries.len() > 0 && old(self).entries@[old(self).cursor_index as int].is_dir
                ==> r is None && final(self).current_dir@ == old(self).entries@[old(
                self,
            ).cursor_index as int].path@ && final(self).entries.len() == 0,
            old(self).entries.len() > 0 && !old(self).entries@[old(self).cursor_index as int].is_dir
                ==> r is Some && r->0@ == old(self).entries@[old(self).cursor_index as int].path@
                && final(self).same_files(old(self)) && final(self).same_nav(old(self)),
            final(self).undo_stack == old(self).undo_stack,
    {
        if self.entries.len() == 0 {
            return None;
        }
        if self.entries[self.cursor_index].is_dir {
            self.enter_directory();
            None
        } else {
            Some(self.entries[self.cursor_index].path.duplicate())
        }
    }

    /// Goes up to the parent directory: saves the state of the one left and
    /// opens the parent with no listing yet. Returns the name of the
    /// directory left, to be put under the cursor once the parent is loaded
    /// (see `focus_entry_named`). At the root nothing changes.
    pub fn go_to_parent(&mut self) -> (r: Option<String>)
        requires
            old(self).wf(),
        ensures
            final(self).wf(),
            match r {
                Some(name) => {
                    &&& old(self).current_dir@.len() > 0
                    &&& name@ == old(self).current_dir@.last()
                    &&& final(self).current_dir@ == old(self).current_dir@.drop_last()
                    &&& final(self).entries.len() == 0
                    &&& final(self).cursor_index == 0
                    &&& final(self).selected_indices@.len() == 0
                    &&& final(self).selection_anchor is None
                    &&& final(self).scroll_offset == 0
                    &&& final(self).dir_memory.map_view() == old(
                        self,
                    ).dir_memory.map_view().insert(old(self).current_dir@, old(self).state_now())
                },
                None => old(self).current_dir@.len() == 0 && final(self).same_files(old(self))
                    && final(self).same_nav(old(self)),
            },
            final(self).undo_stack == old(self).undo_stack,
            final(self).clipboard == old(self).clipboard,
            final(self).trash_dir == old(self).trash_dir,
    {
        let parent = match self.current_dir.parent() {
            Some(p) => p,
            None => {
                return None;
            },
        };
        let name = match self.current_dir.file_name() {
            Some(n) => n,
            None => {
                return None;
            },
        };
        self.save_state();
        self.open_dir(parent);
        Some(name)
    }

    /// Puts the cursor on the first entry named `name` and saves the state;
    /// with no such entry nothing changes.
    pub fn focus_entry_named(&mut self, name: &String)
        requires
            old(self).wf(),
        ensures
            final(self).wf(),
            final(self).same_files(old(self)),
            (forall|i: int| 0 <= i < old(self).entries.len() ==> (#[trigger] old(self).entries@[i]).name@ != name@)
                ==> final(self).same_nav(old(self)),
            forall|i: int|
                0 <= i < old(self).entries.len() && (#[trigger] old(self).entries@[i]).name@
                    == name@ && (forall|j: int| 0 <= j < i ==> old(self).entries@[j].name@ != name@)
                    ==> {
                    &&& final(self).cursor_index == i
                    &&& final(self).selected_indices == old(self).selected_indices
                    &&& final(self).dir_memory.map_view() == old(
                        self,
                    ).dir_memory.map_view().insert(old(self).current_dir@, final(self).state_now())
                },
    {
        let mut i: usize = 0;
        while i < self.entries.len()
            invariant
                i <= self.entries.len(),
                *self == *old(self),
                self.wf(),
                forall|j: int| 0 <= j < i ==> self.entries@[j].name@ != name@,
            decreases self.entries.len() - i,
        {
            if self.entries[i].name == *name {
                self.cursor_index = i;
                self.save_state();
                return;
            }
            i = i + 1;
        }
    }

    /// The directories from the root down to the open one.
    pub fn get_ancestors(&self) -> (r: Vec<FsPath>)
        ensures
            r.len() == self.current_dir@.len() + 1,
            forall|i: int| 0 <= i < r.len() ==> (#[trigger] r@[i])@ == self.current_dir@.subrange(0, i),
    {
        let mut r: Vec<FsPath> = Vec::new();
        let mut p = FsPath::root();
        let n = self.current_dir.comps.len();
        let mut i: usize = 0;
        loop
            invariant
                i <= n == self.current_dir@.len(),
                p@ == self.current_dir@.subrange(0, i as int),
                r.len() == i,
                forall|j: int| 0 <= j < i ==> (#[trigger] r@[j])@ == self.current_dir@.subrange(0, j),
            decreases n - i,
        {
            let q = p.duplicate();
            r.push(q);
            if i == n {
                return r;
            }
            p = p.join(&self.current_dir.comps[i]);
            proof {
                assert(p@ =~= self.current_dir@.subrange(0, i + 1));
            }
            i = i + 1;
        }
    }

    /// The line of the tree that shows the cursor; 0 when the directory is empty.
    pub fn get_cursor_line_index(&self) -> (r: usize)
        requires
            self.wf(),
            self.tree_len() < usize::MAX,
        ensures
            r == if self.entries.len() == 0 {
                0
            } else {
                self.current_dir@.len() + 1 + self.cursor_index
            },
    {
        if self.entries.len() == 0 {
            0
        } else {
            self.current_dir.comps.len() + 1 + self.cursor_index
        }
    }

    /// The entry shown on line `line` of the tree, if any.
    pub open spec fn line_entry(&self, line: int) -> Option<usize> {
        if self.current_dir@.len() + 1 <= line < self.tree_len() {
            Some((line - self.current_dir@.len() - 1) as usize)
        } else {
            None::<usize>
        }
    }

    /// Computes `line_entry`.
    pub fn entry_at_line(&self, line: usize) -> (r: Option<usize>)
        requires
            self.tree_len() < usize::MAX,
        ensures
            r == self.line_entry(line as int),
    {
        let first = self.current_dir.comps.len() + 1;
        if line >= first && line - first < self.entries.len() {
            Some(line - first)
        } else {
            None
        }
    }

    /// Scrolls so that the cursor line stays in a window of `visible_height`
    /// lines with one line of margin (see `scroll_for`).
    pub fn calculate_scroll_offset(&mut self, visible_height: usize)
        requires
            old(self).wf(),
            old(self).tree_len() < usize::MAX,
        ensures
            final(self).wf(),
            final(self).same_files(old(self)),
            final(self).scroll_offset == scroll_for(
                (if old(self).entries.len() == 0 {
                    0
                } else {
                    old(self).current_dir@.len() + 1 + old(self).cursor_index
                }),
                old(self).scroll_offset as int,
                visible_height as int,
                old(self).tree_len(),
            ),
            final(self).cursor_index == old(self).cursor_index,
            final(self).selected_indices == old(self).selected_indices,
            final(self).selection_anchor == old(self).selection_anchor,
            final(self).dir_memory == old(self).dir_memory,
    {
        if visible_height == 0 {
            return;
        }
        let total = self.current_dir.comps.len() + 1 + self.entries.len();
        let c = self.get_cursor_line_index();
        let s = self.scroll_offset;
        let s1 = if c <= s {
            if c >= 1 {
                c - 1
            } else {
                0
            }
        } else if c - s >= visible_height - 1 {
            let m = if visible_height <= total {
                visible_height
            } else {
                total
            };
            (c + 1 - m) + 1
        } else {
            s
        };
        let cap = if total >= visible_height {
            total - visible_height
        } else {
            0
        };
        self.scroll_offset = if s1 <= cap {
            s1
        } else {
            cap
        };
    }

    /// The line of the tree under screen row `row`, for a tree drawn from
    /// row `area_top + 1` on and scrolled by the scroll offset.
    pub open spec fn line_at_row(&self, row: u16, area_top: u16) -> int {
        let over = if row as int >= area_top as int + 1 {
            row as int - area_top as int - 1
        } else {
            0
        };
        if over + self.scroll_offset > usize::MAX {
            usize::MAX as int
        } else {
            over + self.scroll_offset
        }
    }

    fn row_to_line(&self, row: u16, area_top: u16) -> (r: usize)
        ensures
            r == self.line_at_row(row, area_top),
    {
        let over = (row as usize).saturating_sub(area_top as usize + 1);
        over.saturating_add(self.scroll_offset)
    }

    /// A click on screen row `row`. With `ctrl` the entry there is put under
    /// the cursor and toggled; else it becomes the cursor, the whole
    /// selection, the anchor and the start of a drag. Rows that show no
    /// entry change nothing.
    pub fn handle_mouse_down(&mut self, row: u16, area_top: u16, ctrl: bool)
        requires
            old(self).wf(),
            old(self).tree_len() < usize::MAX,
        ensures
            final(self).wf(),
            final(self).current_dir == old(self).current_dir,
            final(self).entries == old(self).entries,
            final(self).undo_stack == old(self).undo_stack,
            match old(self).line_entry(old(self).line_at_row(row, area_top)) {
                Some(e) => {
                    &&& final(self).cursor_index == e
                    &&& ctrl ==> final(self).selection_anchor is None
                        && final(self).selected_indices@ == toggled_spec(
                        old(self).selected_indices@,
                        e,
                    )
                    &&& !ctrl ==> final(self).selection_anchor == Some(e)
                        && final(self).drag_selection == Some(e)
                        && final(self).selected_indices@ == seq![e]
                    &&& final(self).dir_memory.map_view() == old(
                        self,
                    ).dir_memory.map_view().insert(old(self).current_dir@, final(self).state_now())
                },
                None => final(self).same_files(old(self)) && final(self).same_nav(old(self)),
            },
    {
        let line = self.row_to_line(row, area_top);
        match self.entry_at_line(line) {
            Some(e) => {
                if ctrl {
                    self.cursor_index = e;
                    self.toggle_selection();
                } else {
                    self.cursor_index = e;
                    self.drag_selection = Some(e);
                    let mut sel: Vec<usize> = Vec::new();
                    sel.push(e);
                    self.selected_indices = sel;
                    self.selection_anchor = Some(e);
                    self.save_state();
                }
            },
            None => {},
        }
    }

    /// A drag to screen row `row` while a drag is on: the entry there
    /// becomes the cursor and the selection the range from the anchor.
    pub fn handle_mouse_drag(&mut self, row: u16, area_top: u16)
        requires
            old(self).wf(),
            old(self).tree_len() < usize::MAX,
        ensures
            final(self).wf(),
            final(self).same_files(old(self)),
            match (old(self).drag_selection, old(self).line_entry(old(self).line_at_row(row, area_top))) {
                (Some(_), Some(e)) => {
                    &&& final(self).cursor_index == e
                    &&& final(self).selected_indices@ == match old(self).selection_anchor {
                        Some(a) => range_between(a, e),
                        None => old(self).selected_indices@,
                    }
                    &&& final(self).dir_memory.map_view() == old(
                        self,
                    ).dir_memory.map_view().insert(old(self).current_dir@, final(self).state_now())
                },
                _ => final(self).same_nav(old(self)),
            },
    {
        if self.drag_selection.is_none() {
            return;
        }
        let line = self.row_to_line(row, area_top);
        match self.entry_at_line(line) {
            Some(e) => {
                self.cursor_index = e;
                self.update_selection_range();
                self.save_state();
            },
            None => {},
        }
    }

    /// Ends a drag.
    pub fn handle_mouse_up(&mut self)
        ensures
            final(self).drag_selection is None,
            final(self).same_nav(old(self)),
            final(self).entries == old(self).entries,
            final(self).current_dir == old(self).current_dir,
            final(self).ui_mode == old(self).ui_mode,
            final(self).undo_stack == old(self).undo_stack,
    {
        self.drag_selection = None;
    }

    /// Shows `message` in the status bar.
    pub fn show_status(&mut self, message: String)
        ensures
            final(self).status_message == Some(message),
            final(self).sort_mode == old(self).sort_mode,
            final(self).show_hidden == old(self).show_hidden,
            final(self).trash_dir == old(self).trash_dir,
            final(self).drag_selection == old(self).drag_selection,
            final(self).same_nav(old(self)),
            final(self).entries == old(self).entries,
            final(self).current_dir == old(self).current_dir,
            final(self).ui_mode == old(self).ui_mode,
            final(self).undo_stack == old(self).undo_stack,
            final(self).clipboard == old(self).clipboard,
    {
        self.status_message = Some(message);
    }

    /// Clears the status bar, and leaves a status-message mode for normal.
    pub fn clear_status(&mut self)
        ensures
            final(self).status_message is None,
            old(self).ui_mode is StatusMessage ==> final(self).ui_mode is Normal,
            !(old(self).ui_mode is StatusMessage) ==> final(self).ui_mode == old(self).ui_mode,
            final(self).same_nav(old(self)),
            final(self).entries == old(self).entries,
            final(self).undo_stack == old(self).undo_stack,
    {
        self.status_message = None;
        if let UIMode::StatusMessage { .. } = self.ui_mode {
            self.ui_mode = UIMode::Normal;
        }
    }

    /// Opens the help, or closes it when it is open.
    pub fn toggle_help(&mut self)
        ensures
            old(self).ui_mode is Help ==> final(self).ui_mode is Normal,
            !(old(self).ui_mode is Help) ==> final(self).ui_mode is Help,
            final(self).same_nav(old(self)),
            final(self).entries == old(self).entries,
            final(self).undo_stack == old(self).undo_stack,
            final(self).status_message == old(self).status_message,
    {
        if let UIMode::Help = self.ui_mode {
            self.ui_mode = UIMode::Normal;
        } else {
            self.ui_mode = UIMode::Help;
        }
    }

    /// Switches between ordering by name and by date, and says so; the
    /// listing is to be read again in the new order.
    pub fn toggle_sort_mode(&mut self)
        ensures
            final(self).sort_mode == (if old(self).sort_mode == SortMode::Name {
                SortMode::Date
            } else {
                SortMode::Name
            }),
            final(self).status_message is Some,
            final(self).status_message->0@ == (if final(self).sort_mode == SortMode::Name {
                "Sorting by: Name"@
            } else {
                "Sorting by: Date Modified"@
            }),
            final(self).same_nav(old(self)),
            final(self).entries == old(self).entries,
            final(self).undo_stack == old(self).undo_stack,
            final(self).show_hidden == old(self).show_hidden,
    {
        self.sort_mode = match self.sort_mode {
            SortMode::Name => SortMode::Date,
            SortMode::Date => SortMode::Name,
        };
        let msg = match self.sort_mode {
            SortMode::Name => String::from_str("Sorting by: Name"),
            SortMode::Date => String::from_str("Sorting by: Date Modified"),
        };
        self.show_status(msg);
    }

    /// Shows or hides entries whose name starts with `.`, and says so; the
    /// listing is to be read again.
    pub fn toggle_hidden(&mut self)
        ensures
            final(self).show_hidden == !old(self).show_hidden,
            final(self).status_message is Some,
            final(self).status_message->0@ == (if final(self).show_hidden {
                "Showing hidden files"@
            } else {
                "Hiding hidden files"@
            }),
            final(self).same_nav(old(self)),
            final(self).entries == old(self).entries,
            final(self).undo_stack == old(self).undo_stack,
            final(self).sort_mode == old(self).sort_mode,
    {
        self.show_hidden = !self.show_hidden;
        let msg = if self.show_hidden {
            String::from_str("Showing hidden files")
        } else {
            String::from_str("Hiding hidden files")
        };
        self.show_status(msg);
    }

    /// Records the size of the entry under the cursor; none in an empty
    /// directory.
    pub fn update_current_item_size(&mut self, size: u64)
        ensures
            final(self).current_item_size == (if old(self).entries.len() == 0 {
                None
            } else {
                Some(size)
            }),
            final(self).same_nav(old(self)),
            final(self).entries == old(self).entries,
            final(self).undo_stack == old(self).undo_stack,
            final(self).ui_mode == old(self).ui_mode,
    {
        if self.entries.len() == 0 {
            self.current_item_size = None;
        } else {
            self.current_item_size = Some(size);
        }
    }

}

} // verus!
