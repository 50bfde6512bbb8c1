use vstd::prelude::*;
use crate::explorer::{FileExplorer, UIMode};

verus! {

/// A one-line text being edited: positions count characters.
pub struct TextField {
    pub text: String,
    pub cursor: usize,
    /// Where a selection started; it runs to the cursor.
    pub anchor: Option<usize>,
}

/// An editing key.
pub enum EditKey {
    /// Type or paste a text over the selection.
    Insert(String),
    Backspace,
    Delete,
    Left { shift: bool },
    Right { shift: bool },
    Home { shift: bool },
    End { shift: bool },
    SelectAll,
    /// Take the selected text out; it is handed back.
    Cut,
    /// Hand back the selected text.
    Copy,
}

/// A text field over plain values.
pub struct FieldV {
    pub text: Seq<char>,
    pub cursor: int,
    pub anchor: Option<int>,
}

pub open spec fn lo_of(c: int, a: int) -> int {
    if a <= c {
        a
    } else {
        c
    }
}

pub open spec fn hi_of(c: int, a: int) -> int {
    if a <= c {
        c
    } else {
        a
    }
}

/// The field with its selection, if any, taken out.
pub open spec fn without_selection(f: FieldV) -> FieldV {
    match f.anchor {
        Some(a) => FieldV {
            text: f.text.subrange(0, lo_of(f.cursor, a)) + f.text.subrange(
                hi_of(f.cursor, a),
                f.text.len() as int,
            ),
            cursor: lo_of(f.cursor, a),
            anchor: None,
        },
        None => f,
    }
}

/// The selected text; empty when nothing is selected.
pub open spec fn selected_text(f: FieldV) -> Seq<char> {
    match f.anchor {
        Some(a) => f.text.subrange(lo_of(f.cursor, a), hi_of(f.cursor, a)),
        None => Seq::empty(),
    }
}

/// The anchor after a move: kept or set at the cursor with shift, dropped without.
pub open spec fn anchor_after(f: FieldV, shift: bool) -> Option<int> {
    if shift {
        match f.anchor {
            Some(a) => Some(a),
            None => Some(f.cursor),
        }
    } else {
        None
    }
}

/// What an editing key does to a field.
pub open spec fn edited(f: FieldV, key: EditKey) -> FieldV {
    match key {
        EditKey::Insert(s) => {
            let g = without_selection(f);
            FieldV {
                text: g.text.subrange(0, g.cursor) + s@ + g.text.subrange(g.cursor, g.text.len() as int),
                cursor: g.cursor + s@.len(),
                anchor: None,
            }
        },
        EditKey::Backspace => if f.anchor is Some {
            without_selection(f)
        } else if f.cursor > 0 {
            FieldV {
                text: f.text.subrange(0, f.cursor - 1) + f.text.subrange(f.cursor, f.text.len() as int),
                cursor: f.cursor - 1,
                anchor: None,
            }
        } else {
            f
        },
        EditKey::Delete => if f.anchor is Some {
            without_selection(f)
        } else if f.cursor < f.text.len() {
            FieldV {
                text: f.text.subrange(0, f.cursor) + f.text.subrange(f.cursor + 1, f.text.len() as int),
                cursor: f.cursor,
                anchor: None,
            }
        } else {
            f
        },
        EditKey::Left { shift } => FieldV {
            text: f.text,
            cursor: if f.cursor > 0 {
                f.cursor - 1
            } else {
                0
            },
            anchor: anchor_after(f, shift),
        },
        EditKey::Right { shift } => FieldV {
            text: f.text,
            cursor: if f.cursor < f.text.len() {
                f.cursor + 1
            } else {
                f.cursor
            },
            anchor: anchor_after(f, shift),
        },
        EditKey::Home { shift } => FieldV { text: f.text, cursor: 0, anchor: anchor_after(f, shift) },
        EditKey::End { shift } => FieldV {
            text: f.text,
            cursor: f.text.len() as int,
            anchor: anchor_after(f, shift),
        },
        EditKey::SelectAll => FieldV { text: f.text, cursor: f.text.len() as int, anchor: Some(0) },
        EditKey::Cut => if selected_text(f).len() > 0 {
            without_selection(f)
        } else {
            f
        },
        EditKey::Copy => f,
    }
}

impl TextField {
    pub open spec fn field_view(&self) -> FieldV {
        FieldV {
            text: self.text@,
            cursor: self.cursor as int,
            anchor: match self.anchor {
                Some(a) => Some(a as int),
                None => None,
            },
        }
    }

    /// The cursor and the anchor lie within the text.
    pub open spec fn wf(&self) -> bool {
        &&& self.cursor <= self.text@.len()
        &&& match self.anchor {
            Some(a) => a <= self.text@.len(),
            None => true,
        }
    }

    fn take_selection(&mut self)
        requires
            old(self).wf(),
        ensures
            final(self).wf(),
            final(self).field_view() == without_selection(old(self).field_view()),
    {
        if let Some(a) = self.anchor {
            let lo = if a <= self.cursor {
                a
            } else {
                self.cursor
            };
            let hi = if a <= self.cursor {
                self.cursor
            } else {
                a
            };
            let n = self.text.as_str().unicode_len();
            let mut t = String::from_str(self.text.as_str().substring_char(0, lo));
            t.append(self.text.as_str().substring_char(hi, n));
            self.text = t;
            self.cursor = lo;
            self.anchor = None;
        }
    }

    fn selection(&self) -> (r: String)
        requires
            self.wf(),
        ensures
            r@ == selected_text(self.field_view()),
    {
        match self.anchor {
            Some(a) => {
                let lo = if a <= self.cursor {
                    a
                } else {
                    self.cursor
                };
                let hi = if a <= self.cursor {
                    self.cursor
                } else {
                    a
                };
                String::from_str(self.text.as_str().substring_char(lo, hi))
            },
            None => String::new(),
        }
    }

    /// Applies an editing key (see `edited`); a cut or a copy hands back
    /// the selected text when there is one.
    pub fn apply(&mut self, key: EditKey) -> (r: Option<String>)
        requires
            old(self).wf(),
            old(self).text@.len() + 1 < usize::MAX,
            key is Insert ==> old(self).text@.len() + key->Insert_0@.len() < usize::MAX,
        ensures
            final(self).wf(),
            final(self).field_view() == edited(old(self).field_view(), key),
            match key {
                EditKey::Cut | EditKey::Copy => if selected_text(old(self).field_view()).len() > 0 {
                    r is Some && r->0@ == selected_text(old(self).field_view())
                } else {
                    r is None
                },
                _ => r is None,
            },
    {
        let n = self.text.as_str().unicode_len();
        match key {
            EditKey::Insert(s) => {
                self.take_selection();
                let m = self.text.as_str().unicode_len();
                let c = self.cursor;
                let mut t = String::from_str(self.text.as_str().substring_char(0, c));
                t.append(s.as_str());
                t.append(self.text.as_str().substring_char(c, m));
                let k = s.as_str().unicode_len();
                self.text = t;
                self.cursor = c + k;
                self.anchor = None;
                None
            },
            EditKey::Backspace => {
                if self.anchor.is_some() {
                    self.take_selection();
                } else if self.cursor > 0 {
                    let c = self.cursor;
                    let mut t = String::from_str(self.text.as_str().substring_char(0, c - 1));
                    t.append(self.text.as_str().substring_char(c, n));
                    self.text = t;
                    self.cursor = c - 1;
                }
                None
            },
            EditKey::Delete => {
                if self.anchor.is_some() {
                    self.take_selection();
                } else if self.cursor < n {
                    let c = self.cursor;
                    let mut t = String::from_str(self.text.as_str().substring_char(0, c));
                    t.append(self.text.as_str().substring_char(c + 1, n));
                    self.text = t;
                }
                None
            },
            EditKey::Left { shift } => {
                self.move_anchor(shift);
                if self.cursor > 0 {
                    self.cursor = self.cursor - 1;
                }
                None
            },
            EditKey::Right { shift } => {
                self.move_anchor(shift);
                if self.cursor < n {
                    self.cursor = self.cursor + 1;
                }
                None
            },
            EditKey::Home { shift } => {
                self.move_anchor(shift);
                self.cursor = 0;
                None
            },
            EditKey::End { shift } => {
                self.move_anchor(shift);
                self.cursor = n;
                None
            },
            EditKey::SelectAll => {
                self.anchor = Some(0);
                self.cursor = n;
                None
            },
            EditKey::Cut => {
                let s = self.selection();
                if s.as_str().unicode_len() > 0 {
                    self.take_selection();
                    Some(s)
                } else {
                    None
                }
            },
            EditKey::Copy => {
                let s = self.selection();
                if s.as_str().unicode_len() > 0 {
                    Some(s)
                } else {
                    None
                }
            },
        }
    }

    fn move_anchor(&mut self, shift: bool)
        requires
            old(self).wf(),
        ensures
            final(self).wf(),
            final(self).text == old(self).text,
            final(self).cursor == old(self).cursor,
            final(self).field_view().anchor == anchor_after(old(self).field_view(), shift),
    {
        if shift {
            if self.anchor.is_none() {
                self.anchor = Some(self.cursor);
            }
        } else {
            self.anchor = None;
        }
    }
}

/// The rename prompt's text as a field.
pub open spec fn rename_field(m: UIMode) -> FieldV {
    FieldV {
        text: m->new_name@,
        cursor: m->cursor_pos as int,
        anchor: match m->selection_start {
            Some(a) => Some(a as int),
            None => None,
        },
    }
}

pub open spec fn rename_field_ok(m: UIMode) -> bool {
    &&& m is RenameItem
    &&& m->cursor_pos <= m->new_name@.len()
    &&& match m->selection_start {
        Some(a) => a <= m->new_name@.len(),
        None => true,
    }
    &&& m->new_name@.len() < usize::MAX / 2
}

impl FileExplorer {
    /// Applies an editing key to the name typed in the rename prompt (see
    /// `edited`); a cut or copy hands back the selected text. Outside the
    /// prompt nothing changes.
    pub fn edit_rename(&mut self, key: EditKey) -> (r: Option<String>)
        requires
            key is Insert ==> key->Insert_0@.len() < usize::MAX / 2,
        ensures
            rename_field_ok(old(self).ui_mode) ==> {
                &&& final(self).ui_mode is RenameItem
                &&& final(self).ui_mode->original_path == old(self).ui_mode->original_path
                &&& rename_field(final(self).ui_mode) == edited(rename_field(old(self).ui_mode), key)
            },
            !rename_field_ok(old(self).ui_mode) ==> final(self).ui_mode == old(self).ui_mode && r is None,
            final(self).same_nav(old(self)),
            final(self).entries == old(self).entries,
            final(self).undo_stack == old(self).undo_stack,
    {
        let mut mode = UIMode::Normal;
        core::mem::swap(&mut mode, &mut self.ui_mode);
        match mode {
            UIMode::RenameItem { original_path, new_name, cursor_pos, selection_start } => {
                let n = new_name.as_str().unicode_len();
                let ok_anchor = match selection_start {
                    Some(a) => a <= n,
                    None => true,
                };
                if cursor_pos <= n && ok_anchor && n < usize::MAX / 2 {
                    let mut field = TextField { text: new_name, cursor: cursor_pos, anchor: selection_start };
                    let r = field.apply(key);
                    self.ui_mode = UIMode::RenameItem {
                        original_path,
                        new_name: field.text,
                        cursor_pos: field.cursor,
                        selection_start: field.anchor,
                    };
                    r
                } else {
                    self.ui_mode = UIMode::RenameItem { original_path, new_name, cursor_pos, selection_start };
                    None
                }
            },
            other => {
                self.ui_mode = other;
                None
            },
        }
    }
}

} // verus!
