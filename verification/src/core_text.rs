//! Character-level text storage with a cursor, a monotonically increasing
//! change-version counter, and a dirty-from watermark that records the first
//! row touched by an edit since the last render synchronisation.
use vstd::prelude::*;

verus! {

/// A position in the text: row and column, both zero-indexed. `col` may equal
/// the line length, denoting the position just past the last character.
#[derive(Clone, Copy, PartialEq, Eq, Structural, Debug)]
pub struct Cursor {
    pub row: usize,
    pub col: usize,
}

/// `a` is at or before `b` in reading order.
pub open spec fn cursor_le(a: Cursor, b: Cursor) -> bool {
    a.row < b.row || (a.row == b.row && a.col <= b.col)
}

/// An inclusive range of cursor positions, in reading order.
#[derive(Clone, Copy, PartialEq, Eq, Structural, Debug)]
pub struct CursorRange {
    pub start: Cursor,
    pub end: Cursor,
}

impl CursorRange {
    /// The range holds `c`, start and end inclusive.
    pub open spec fn spec_contains(self, c: Cursor) -> bool {
        cursor_le(self.start, c) && cursor_le(c, self.end)
    }

    /// Whether `c` lies between `start` and `end`, both inclusive.
    pub fn contains(&self, c: Cursor) -> (r: bool)
        ensures
            r == self.spec_contains(c),
    {
        let after_start = self.start.row < c.row || (self.start.row == c.row
            && self.start.col <= c.col);
        let before_end = c.row < self.end.row || (c.row == self.end.row && c.col <= self.end.col);
        after_start && before_end
    }
}

/// The per-line views of a sequence of lines.
pub open spec fn lines_view(v: Seq<Vec<char>>) -> Seq<Seq<char>> {
    Seq::new(v.len(), |i: int| v[i]@)
}

/// Mathematical state of a `TextCore`.
#[verifier::ext_equal]
pub struct CoreView {
    pub lines: Seq<Seq<char>>,
    pub row: nat,
    pub col: nat,
    pub version: nat,
    pub dirty_from: nat,
}

impl CoreView {
    /// The structural invariant: at least one line, the cursor inside the
    /// text, and the watermark at most the line count.
    pub open spec fn wf(self) -> bool {
        &&& self.lines.len() >= 1
        &&& self.row < self.lines.len()
        &&& self.col <= self.lines[self.row as int].len()
        &&& self.dirty_from <= self.lines.len()
    }
}

/// Insertion of an ordinary character at the cursor.
pub open spec fn insert_char_view(v: CoreView, c: char) -> CoreView {
    CoreView {
        lines: v.lines.update(v.row as int, v.lines[v.row as int].insert(v.col as int, c)),
        row: v.row,
        col: (v.col + 1) as nat,
        version: (v.version + 1) as nat,
        dirty_from: if v.row < v.dirty_from {
            v.row
        } else {
            v.dirty_from
        },
    }
}

/// Insertion of a line break at the cursor: the current line is split, the
/// cursor moves to the start of the new line.
pub open spec fn insert_newline_view(v: CoreView) -> CoreView {
    let line = v.lines[v.row as int];
    let head = line.subrange(0, v.col as int);
    let tail = line.subrange(v.col as int, line.len() as int);
    CoreView {
        lines: v.lines.update(v.row as int, head).insert(v.row as int + 1, tail),
        row: (v.row + 1) as nat,
        col: 0,
        version: (v.version + 1) as nat,
        dirty_from: if v.row < v.dirty_from {
            v.row
        } else {
            v.dirty_from
        },
    }
}

/// Deletion of the character under the cursor; at the end of a line the line
/// break is deleted instead, joining the next line on. At the very end of the
/// text there is nothing to delete and the state is unchanged.
pub open spec fn delete_at_view(v: CoreView) -> CoreView {
    let line = v.lines[v.row as int];
    if v.col < line.len() {
        CoreView {
            lines: v.lines.update(v.row as int, line.remove(v.col as int)),
            row: v.row,
            col: v.col,
            version: (v.version + 1) as nat,
            dirty_from: if v.row < v.dirty_from {
                v.row
            } else {
                v.dirty_from
            },
        }
    } else if v.row + 1 < v.lines.len() {
        CoreView {
            lines: v.lines.update(v.row as int, line + v.lines[v.row as int + 1]).remove(
                v.row as int + 1,
            ),
            row: v.row,
            col: v.col,
            version: (v.version + 1) as nat,
            dirty_from: if v.row < v.dirty_from {
                v.row
            } else {
                v.dirty_from
            },
        }
    } else {
        v
    }
}

/// Indentation of the cursor's line: `width` spaces are prepended as one
/// committed edit and the cursor keeps its place in the text.
pub open spec fn indent_view(v: CoreView, width: nat) -> CoreView {
    let spaces = Seq::new(width, |k: int| ' ');
    CoreView {
        lines: v.lines.update(v.row as int, spaces + v.lines[v.row as int]),
        row: v.row,
        col: (v.col + width) as nat,
        version: (v.version + 1) as nat,
        dirty_from: if v.row < v.dirty_from {
            v.row
        } else {
            v.dirty_from
        },
    }
}

/// Text storage: a non-empty sequence of lines of characters.
///
/// Every committed edit increments `version` exactly once, and lowers
/// `dirty_from` to the first row whose rendering the edit can have changed.
pub struct TextCore {
    lines: Vec<Vec<char>>,
    cursor: Cursor,
    version: u64,
    dirty_from: usize,
}

impl View for TextCore {
    type V = CoreView;

    closed spec fn view(&self) -> CoreView {
        CoreView {
            lines: lines_view(self.lines@),
            row: self.cursor.row as nat,
            col: self.cursor.col as nat,
            version: self.version as nat,
            dirty_from: self.dirty_from as nat,
        }
    }
}

impl TextCore {
    /// The structural invariant of the storage.
    pub open spec fn wf(self) -> bool {
        self@.wf()
    }

    /// An empty text: one empty line, version zero, everything dirty.
    pub fn new() -> (r: Self)
        ensures
            r.wf(),
            r@.lines =~= seq![Seq::<char>::empty()],
            r@.row == 0,
            r@.col == 0,
            r@.version == 0,
            r@.dirty_from == 0,
    {
        let mut lines: Vec<Vec<char>> = Vec::new();
        lines.push(Vec::new());
        TextCore { lines, cursor: Cursor { row: 0, col: 0 }, version: 0, dirty_from: 0 }
    }

    /// Number of lines; at least one.
    pub fn len_lines(&self) -> (r: usize)
        ensures
            r == self@.lines.len(),
    {
        self.lines.len()
    }

    /// The characters of line `row`.
    pub fn line_at(&self, row: usize) -> (r: &Vec<char>)
        requires
            row < self@.lines.len(),
        ensures
            r@ == self@.lines[row as int],
    {
        &self.lines[row]
    }

    /// Length of line `row`.
    pub fn line_len(&self, row: usize) -> (r: usize)
        requires
            row < self@.lines.len(),
        ensures
            r == self@.lines[row as int].len(),
    {
        self.lines[row].len()
    }

    /// The current cursor position.
    pub fn cursor(&self) -> (r: Cursor)
        ensures
            r.row == self@.row,
            r.col == self@.col,
    {
        self.cursor
    }

    /// The change-version counter: increases by exactly one on each
    /// committed edit, never decreases.
    pub fn buffer_changed(&self) -> (r: u64)
        ensures
            r == self@.version,
    {
        self.version
    }

    /// The dirty-from watermark: the first row an edit may have restyled
    /// since the last call to `reset_dirty`.
    pub fn dirty_from(&self) -> (r: usize)
        ensures
            r == self@.dirty_from,
    {
        self.dirty_from
    }

    /// Marks the whole text as synchronised: no row is dirty.
    pub fn reset_dirty(&mut self)
        requires
            old(self).wf(),
        ensures
            final(self).wf(),
            final(self)@ == (CoreView { dirty_from: old(self)@.lines.len(), ..old(self)@ }),
    {
        self.dirty_from = self.lines.len();
    }

    /// Moves the cursor one column left, stopping at the line start.
    pub fn cursor_left(&mut self)
        requires
            old(self).wf(),
        ensures
            final(self).wf(),
            final(self)@ == (CoreView {
                col: if old(self)@.col > 0 {
                    (old(self)@.col - 1) as nat
                } else {
                    0
                },
                ..old(self)@
            }),
    {
        if self.cursor.col > 0 {
            self.cursor.col -= 1;
        }
    }

    /// Moves the cursor one column right, stopping just past the line end.
    pub fn cursor_right(&mut self)
        requires
            old(self).wf(),
        ensures
            final(self).wf(),
            final(self)@ == (CoreView {
                col: if old(self)@.col < old(self)@.lines[old(self)@.row as int].len() {
                    (old(self)@.col + 1) as nat
                } else {
                    old(self)@.col
                },
                ..old(self)@
            }),
    {
        if self.cursor.col < self.lines[self.cursor.row].len() {
            self.cursor.col += 1;
        }
    }

    /// Moves the cursor one row up, clamping the column to the new line.
    pub fn cursor_up(&mut self)
        requires
            old(self).wf(),
        ensures
            final(self).wf(),
            final(self)@.lines == old(self)@.lines,
            final(self)@.version == old(self)@.version,
            final(self)@.dirty_from == old(self)@.dirty_from,
            final(self)@.row == if old(self)@.row > 0 {
                (old(self)@.row - 1) as nat
            } else {
                0
            },
            final(self)@.col == vstd::math::min(old(self)@.col as int, final(self)@.lines[final(self)@.row as int].len() as int),
    {
        if self.cursor.row > 0 {
            self.cursor.row -= 1;
        }
        let len = self.lines[self.cursor.row].len();
        if self.cursor.col > len {
            self.cursor.col = len;
        }
    }

    /// Moves the cursor one row down, clamping the column to the new line.
    pub fn cursor_down(&mut self)
        requires
            old(self).wf(),
        ensures
            final(self).wf(),
            final(self)@.lines == old(self)@.lines,
            final(self)@.version == old(self)@.version,
            final(self)@.dirty_from == old(self)@.dirty_from,
            final(self)@.row == if old(self)@.row + 1 < old(self)@.lines.len() {
                (old(self)@.row + 1) as nat
            } else {
                old(self)@.row
            },
            final(self)@.col == vstd::math::min(old(self)@.col as int, final(self)@.lines[final(self)@.row as int].len() as int),
    {
        let n = self.lines.len();
        if self.cursor.row < n - 1 {
            self.cursor.row += 1;
        }
        let len = self.lines[self.cursor.row].len();
        if self.cursor.col > len {
            self.cursor.col = len;
        }
    }

    /// Inserts `c` at the cursor as one committed edit. A `'\n'` splits the
    /// line; anything else is inserted into the line. The version increases
    /// by one and the watermark drops to the edited row.
    pub fn insert_char(&mut self, c: char)
        requires
            old(self).wf(),
            old(self)@.version < u64::MAX,
            old(self)@.lines[old(self)@.row as int].len() < usize::MAX,
            old(self)@.lines.len() < usize::MAX,
        ensures
            final(self).wf(),
            final(self)@ == if c == '\n' {
                insert_newline_view(old(self)@)
            } else {
                insert_char_view(old(self)@, c)
            },
    {
        let row = self.cursor.row;
        let col = self.cursor.col;
        if c == '\n' {
            let tail = self.lines[row].split_off(col);
            self.lines.insert(row + 1, tail);
            self.cursor = Cursor { row: row + 1, col: 0 };
            proof {
                assert(self@.lines =~= insert_newline_view(old(self)@).lines);
            }
        } else {
            self.lines[row].insert(col, c);
            self.cursor = Cursor { row, col: col + 1 };
            proof {
                assert(self@.lines =~= insert_char_view(old(self)@, c).lines);
            }
        }
        self.version = self.version + 1;
        if row < self.dirty_from {
            self.dirty_from = row;
        }
    }

    /// Deletes the character under the cursor as one committed edit; at a
    /// line end the following line is joined on. At the very end of the text
    /// nothing happens and the version does not change.
    pub fn delete_at_cursor(&mut self)
        requires
            old(self).wf(),
            old(self)@.version < u64::MAX,
            old(self)@.row + 1 < old(self)@.lines.len() ==> old(self)@.lines[old(self)@.row as int].len()
                + old(self)@.lines[old(self)@.row as int + 1].len() < usize::MAX,
        ensures
            final(self).wf(),
            final(self)@ == delete_at_view(old(self)@),
    {
        let row = self.cursor.row;
        let col = self.cursor.col;
        if col < self.lines[row].len() {
            self.lines[row].remove(col);
            self.version = self.version + 1;
            if row < self.dirty_from {
                self.dirty_from = row;
            }
            proof {
                assert(self@.lines =~= delete_at_view(old(self)@).lines);
            }
        } else if row < self.lines.len() - 1 {
            let mut next = self.lines.remove(row + 1);
            self.lines[row].append(&mut next);
            self.version = self.version + 1;
            if row < self.dirty_from {
                self.dirty_from = row;
            }
            proof {
                assert(self@.lines =~= delete_at_view(old(self)@).lines);
            }
        }
    }

    /// Prepends `width` spaces to the cursor's line as one committed edit.
    pub fn indent(&mut self, width: usize)
        requires
            old(self).wf(),
            old(self)@.version < u64::MAX,
            old(self)@.lines[old(self)@.row as int].len() + width <= usize::MAX,
            old(self)@.col + width <= usize::MAX,
        ensures
            final(self).wf(),
            final(self)@ == indent_view(old(self)@, width as nat),
    {
        let row = self.cursor.row;
        let mut line: Vec<char> = Vec::new();
        let mut k: usize = 0;
        while k < width
            invariant
                0 <= k <= width,
                line@ == Seq::new(k as nat, |q: int| ' '),
            decreases width - k,
        {
            line.push(' ');
            proof {
                assert(line@ =~= Seq::new(k as nat + 1, |q: int| ' '));
            }
            k += 1;
        }
        let mut old_line = self.lines.remove(row);
        line.append(&mut old_line);
        self.lines.insert(row, line);
        self.cursor = Cursor { row, col: self.cursor.col + width };
        self.version = self.version + 1;
        if row < self.dirty_from {
            self.dirty_from = row;
        }
        proof {
            assert(self@.lines =~= indent_view(old(self)@, width as nat).lines);
        }
    }

    /// Replaces the whole text as one committed edit: cursor to the origin,
    /// watermark to zero.
    pub fn set_content(&mut self, lines: Vec<Vec<char>>)
        requires
            old(self).wf(),
            old(self)@.version < u64::MAX,
            lines@.len() >= 1,
        ensures
            final(self).wf(),
            final(self)@.lines == lines_view(lines@),
            final(self)@.row == 0,
            final(self)@.col == 0,
            final(self)@.version == old(self)@.version + 1,
            final(self)@.dirty_from == 0,
    {
        self.lines = lines;
        self.cursor = Cursor { row: 0, col: 0 };
        self.version = self.version + 1;
        self.dirty_from = 0;
    }
}

} // verus!
