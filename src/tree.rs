use vstd::prelude::*;
use crate::dates::shown_date;
use crate::explorer::FileExplorer;
use crate::ops::PathV;
use crate::selection::has_index;

verus! {

/// One row of the tree view.
pub struct TreeLine {
    /// Indentation, branch and icon, drawn dimly.
    pub tree_prefix: String,
    pub text: String,
    pub timestamp: Option<String>,
    pub entry_index: Option<usize>,
    pub is_selected: bool,
    pub is_cursor: bool,
    pub is_dir: bool,
    pub is_current_dir: bool,
    pub is_hidden: bool,
}

/// Width of a `YYYY-MM-DD HH:mm` date.
pub const DATE_WIDTH: usize = 16;

/// Space kept between a name and its date.
pub const NAME_GAP: usize = 3;

pub open spec fn spaces(k: nat) -> Seq<char> {
    Seq::new(k, |i: int| ' ')
}

pub open spec fn floor0(x: int) -> int {
    if x < 0 {
        0
    } else {
        x
    }
}

/// How an ancestor is labelled: its name, or `/` for the root.
pub open spec fn dir_label(p: PathV) -> Seq<char> {
    if p.len() == 0 {
        "/"@
    } else {
        p.last()
    }
}

/// The branch drawn before ancestor `d` of `count`.
pub open spec fn ancestor_marker(d: int, count: int) -> Seq<char> {
    if d == count - 1 || d > 0 {
        "\u{2514}\u{2500}"@
    } else {
        "\u{2500} "@
    }
}

/// The columns before an entry's name at depth `depth`: indent, branch and icon.
pub open spec fn entry_prefix_len(depth: int) -> int {
    2 * depth + 2 + 2 + 2
}

/// The room for an entry's name at depth `depth` in a terminal `width` wide.
pub open spec fn name_room(width: int, depth: int) -> int {
    floor0(width - (entry_prefix_len(depth) + DATE_WIDTH + NAME_GAP))
}

/// An entry's name as shown: cut, with `...`, when longer than the room.
pub open spec fn shown_name(name: Seq<char>, room: int) -> Seq<char> {
    if name.len() > room {
        name.subrange(0, floor0(room - 3)) + "..."@
    } else {
        name
    }
}

/// The text of an entry's row: its shown name, padded so the date that
/// follows ends at the right edge.
pub open spec fn entry_text(name: Seq<char>, width: int, depth: int) -> Seq<char> {
    let shown = shown_name(name, name_room(width, depth));
    shown + spaces(floor0(width - (entry_prefix_len(depth) + shown.len() + DATE_WIDTH)) as nat)
}

pub open spec fn entry_tree_prefix(depth: int, last: bool, is_dir: bool) -> Seq<char> {
    spaces((2 * depth + 2) as nat) + (if last {
        "\u{2514}\u{2500}"@
    } else {
        "\u{251c}\u{2500}"@
    }) + " "@ + (if is_dir {
        "\u{f07b}"@
    } else {
        "\u{f15b}"@
    }) + " "@
}

fn push_spaces(out: &mut String, k: usize)
    ensures
        final(out)@ == old(out)@ + spaces(k as nat),
{
    let mut i: usize = 0;
    while i < k
        invariant
            i <= k,
            out@ == old(out)@ + spaces(i as nat),
        decreases k - i,
    {
        out.append(" ");
        proof {
            reveal_strlit(" ");
        }
        i = i + 1;
        proof {
            assert(out@ =~= old(out)@ + spaces(i as nat));
        }
    }
}

impl FileExplorer {
    /// The rows of the tree view for a terminal `terminal_width` columns
    /// wide: one per ancestor from the root down to the open directory,
    /// then one per entry of the open directory.
    pub fn build_tree_lines(&self, terminal_width: usize) -> (r: Vec<TreeLine>)
        requires
            self.wf(),
            2 * self.current_dir@.len() + 64 < usize::MAX,
        ensures
            r.len() == self.current_dir@.len() + 1 + self.entries.len(),
            forall|d: int|
                0 <= d <= self.current_dir@.len() ==> {
                    let line = #[trigger] r@[d];
                    &&& line.tree_prefix@ == spaces((2 * d) as nat) + ancestor_marker(
                        d,
                        self.current_dir@.len() + 1 as int,
                    )
                    &&& line.text@ == dir_label(self.current_dir@.subrange(0, d))
                    &&& line.timestamp is None
                    &&& line.entry_index is None
                    &&& !line.is_selected && !line.is_cursor && line.is_dir && !line.is_hidden
                    &&& line.is_current_dir == (d == self.current_dir@.len())
                },
            forall|i: int|
                0 <= i < self.entries.len() ==> {
                    let line = #[trigger] r@[self.current_dir@.len() + 1 + i];
                    let e = self.entries@[i];
                    let depth = self.current_dir@.len() as int;
                    &&& line.tree_prefix@ == entry_tree_prefix(
                        depth,
                        i == self.entries.len() - 1,
                        e.is_dir,
                    )
                    &&& line.text@ == entry_text(e.name@, terminal_width as int, depth)
                    &&& line.timestamp is Some
                    &&& line.timestamp->0@ == shown_date(e.modified)
                    &&& line.entry_index == Some(i as usize)
                    &&& line.is_selected == self.selected_indices@.contains(i as usize)
                    &&& line.is_cursor == (i == self.cursor_index)
                    &&& line.is_dir == e.is_dir
                    &&& !line.is_current_dir
                    &&& line.is_hidden == (e.name@.len() > 0 && e.name@[0] == '.')
                },
    {
        let mut lines: Vec<TreeLine> = Vec::new();
        let ancestors = self.get_ancestors();
        let count = ancestors.len();
        let mut d: usize = 0;
        while d < count
            invariant
                count == self.current_dir@.len() + 1,
                ancestors.len() == count,
                forall|j: int| 0 <= j < count ==> (#[trigger] ancestors@[j])@ == self.current_dir@.subrange(0, j),
                2 * self.current_dir@.len() + 64 < usize::MAX,
                d <= count,
                lines.len() == d,
                forall|j: int|
                    0 <= j < d ==> {
                        let line = #[trigger] lines@[j];
                        &&& line.tree_prefix@ == spaces((2 * j) as nat) + ancestor_marker(j, count as int)
                        &&& line.text@ == dir_label(self.current_dir@.subrange(0, j))
                        &&& line.timestamp is None
                        &&& line.entry_index is None
                        &&& !line.is_selected && !line.is_cursor && line.is_dir && !line.is_hidden
                        &&& line.is_current_dir == (j == self.current_dir@.len())
                    },
            decreases count - d,
        {
            let mut prefix = String::new();
            push_spaces(&mut prefix, 2 * d);
            let marker = if d == count - 1 || d > 0 {
                "\u{2514}\u{2500}"
            } else {
                "\u{2500} "
            };
            prefix.append(marker);
            let text = match ancestors[d].file_name() {
                Some(n) => n,
                None => String::from_str("/"),
            };
            proof {
                assert(prefix@ =~= spaces((2 * d) as nat) + ancestor_marker(d as int, count as int));
            }
            lines.push(TreeLine {
                tree_prefix: prefix,
                text,
                timestamp: None,
                entry_index: None,
                is_selected: false,
                is_cursor: false,
                is_dir: true,
                is_current_dir: d == count - 1,
                is_hidden: false,
            });
            d = d + 1;
        }
        let depth = count - 1;
        let n = self.entries.len();
        let prefix_len = 2 * depth + 6;
        let room = terminal_width.saturating_sub(prefix_len + DATE_WIDTH + NAME_GAP);
        let mut i: usize = 0;
        while i < n
            invariant
                n == self.entries.len(),
                self.wf(),
                count == self.current_dir@.len() + 1,
                depth == self.current_dir@.len(),
                prefix_len == entry_prefix_len(depth as int),
                room == name_room(terminal_width as int, depth as int),
                2 * self.current_dir@.len() + 64 < usize::MAX,
                i <= n,
                lines.len() == count + i,
                forall|j: int|
                    0 <= j < count ==> {
                        let line = #[trigger] lines@[j];
                        &&& line.tree_prefix@ == spaces((2 * j) as nat) + ancestor_marker(j, count as int)
                        &&& line.text@ == dir_label(self.current_dir@.subrange(0, j))
                        &&& line.timestamp is None
                        &&& line.entry_index is None
                        &&& !line.is_selected && !line.is_cursor && line.is_dir && !line.is_hidden
                        &&& line.is_current_dir == (j == self.current_dir@.len())
                    },
                forall|j: int|
                    0 <= j < i ==> {
                        let line = #[trigger] lines@[count + j];
                        let e = self.entries@[j];
                        &&& line.tree_prefix@ == entry_tree_prefix(depth as int, j == n - 1, e.is_dir)
                        &&& line.text@ == entry_text(e.name@, terminal_width as int, depth as int)
                        &&& line.timestamp is Some
                        &&& line.timestamp->0@ == shown_date(e.modified)
                        &&& line.entry_index == Some(j as usize)
                        &&& line.is_selected == self.selected_indices@.contains(j as usize)
                        &&& line.is_cursor == (j == self.cursor_index)
                        &&& line.is_dir == e.is_dir
                        &&& !line.is_current_dir
                        &&& line.is_hidden == (e.name@.len() > 0 && e.name@[0] == '.')
                    },
            decreases n - i,
        {
            let e = &self.entries[i];
            let mut prefix = String::new();
            push_spaces(&mut prefix, 2 * depth + 2);
            prefix.append(if i == n - 1 {
                "\u{2514}\u{2500}"
            } else {
                "\u{251c}\u{2500}"
            });
            prefix.append(" ");
            prefix.append(if e.is_dir {
                "\u{f07b}"
            } else {
                "\u{f15b}"
            });
            prefix.append(" ");
            let name = e.name.as_str();
            let name_len = name.unicode_len();
            let mut text = if name_len > room {
                let mut t = String::from_str(name.substring_char(0, room.saturating_sub(3)));
                t.append("...");
                t
            } else {
                String::from_str(name)
            };
            let shown_len = text.as_str().unicode_len();
            let pad = terminal_width.saturating_sub(prefix_len.saturating_add(shown_len).saturating_add(DATE_WIDTH));
            proof {
                assert(text@ == shown_name(e.name@, room as int));
            }
            push_spaces(&mut text, pad);
            let hidden = name_len > 0 && name.get_char(0) == '.';
            let stamp = FileExplorer::format_date(e.modified);
            let selected = has_index(&self.selected_indices, i);
            let ghost before = lines@;
            lines.push(TreeLine {
                tree_prefix: prefix,
                text,
                timestamp: Some(stamp),
                entry_index: Some(i),
                is_selected: selected,
                is_cursor: i == self.cursor_index,
                is_dir: e.is_dir,
                is_current_dir: false,
                is_hidden: hidden,
            });
            proof {
                assert(lines@[count + i as int] == lines@[lines.len() - 1]);
                assert forall|j: int| 0 <= j < count implies #[trigger] lines@[j] == before[j] by {}
                assert forall|j: int| 0 <= j < i implies #[trigger] lines@[count + j] == before[count + j] by {}
            }
            i = i + 1;
        }
        lines
    }
}

} // verus!
