//! The text buffer: an ordered, never-empty sequence of lines, each line an
//! ordered sequence of characters. Mutation primitives are `insert`,
//! `delete_before` (backspace, which joins lines at column zero) and
//! `split` (the Enter key). Loading text splits it into lines, treating
//! either of the two line-terminator characters as a break.

use vstd::prelude::*;

verus! {

/// A well-formed buffer always holds at least one (possibly empty) line.
pub open spec fn lines_wf(lines: Seq<Seq<char>>) -> bool {
    lines.len() >= 1
}

/// Length of `lines[row]`; rows out of range count as empty.
pub open spec fn line_len_spec(lines: Seq<Seq<char>>, row: int) -> nat {
    if 0 <= row < lines.len() {
        lines[row].len()
    } else {
        0
    }
}

/// The lines after inserting `ch` before column `col` of line `row`.
pub open spec fn insert_spec(lines: Seq<Seq<char>>, row: int, col: int, ch: char) -> Seq<
    Seq<char>,
> {
    lines.update(row, lines[row].insert(col, ch))
}

/// The lines after a backspace at `(row, col)`: with `col > 0` the
/// character at `col - 1` goes; at column zero of a later line, that line
/// is joined onto the end of the one above; at `(0, 0)` nothing changes.
pub open spec fn delete_before_lines_spec(lines: Seq<Seq<char>>, row: int, col: int) -> Seq<
    Seq<char>,
> {
    if col > 0 {
        lines.update(row, lines[row].remove(col - 1))
    } else if row > 0 {
        lines.update(row - 1, lines[row - 1] + lines[row]).remove(row)
    } else {
        lines
    }
}

/// Where the cursor stands after a backspace at `(row, col)`.
pub open spec fn delete_before_cursor_spec(lines: Seq<Seq<char>>, row: int, col: int) -> (
    int,
    int,
) {
    if col > 0 {
        (row, col - 1)
    } else if row > 0 {
        (row - 1, lines[row - 1].len() as int)
    } else {
        (row, col)
    }
}

/// The lines after splitting line `row` at column `col`: the suffix from
/// `col` becomes a new line immediately below `row`.
pub open spec fn split_spec(lines: Seq<Seq<char>>, row: int, col: int) -> Seq<Seq<char>> {
    lines.update(row, lines[row].take(col)).insert(row + 1, lines[row].skip(col))
}

/// Whether `c` ends a line when text is split into lines.
pub open spec fn is_line_break(c: char) -> bool {
    c == '\n' || c == '\r'
}

/// The lines that a flat piece of text splits into. Every break character
/// opens a new line, so a two-character terminator sequence yields an
/// extra blank line.
pub open spec fn split_lines_spec(s: Seq<char>) -> Seq<Seq<char>>
    decreases s.len(),
{
    if s.len() == 0 {
        seq![Seq::<char>::empty()]
    } else {
        let prev = split_lines_spec(s.drop_last());
        if is_line_break(s.last()) {
            prev.push(Seq::<char>::empty())
        } else {
            prev.update(prev.len() - 1, prev.last().push(s.last()))
        }
    }
}

/// Splitting text always yields at least one line.
pub proof fn lemma_split_lines_wf(s: Seq<char>)
    ensures
        lines_wf(split_lines_spec(s)),
    decreases s.len(),
{
    if s.len() > 0 {
        lemma_split_lines_wf(s.drop_last());
    }
}

/// An in-memory text buffer: the ordered lines being edited.
pub struct TextBuffer {
    lines: Vec<Vec<char>>,
}

impl View for TextBuffer {
    type V = Seq<Seq<char>>;

    closed spec fn view(&self) -> Seq<Seq<char>> {
        self.lines.deep_view()
    }
}

impl TextBuffer {
    /// A fresh buffer: one empty line.
    pub fn new() -> (tb: Self)
        ensures
            tb@ =~~= seq![Seq::<char>::empty()],
            lines_wf(tb@),
    {
        let mut lines: Vec<Vec<char>> = Vec::new();
        lines.push(Vec::new());
        TextBuffer { lines }
    }

    /// Builds a buffer from flat text, breaking lines at either
    /// line-terminator character.
    pub fn from_text(chars: &Vec<char>) -> (tb: Self)
        ensures
            tb@ =~~= split_lines_spec(chars@),
            lines_wf(tb@),
    {
        let mut lines: Vec<Vec<char>> = Vec::new();
        lines.push(Vec::new());
        let mut i: usize = 0;
        proof {
            assert(chars@.take(0) =~= Seq::<char>::empty());
        }
        while i < chars.len()
            invariant
                i <= chars.len(),
                lines.deep_view() =~~= split_lines_spec(chars@.take(i as int)),
                lines.len() >= 1,
            decreases chars.len() - i,
        {
            proof {
                assert(chars@.take(i + 1).drop_last() =~= chars@.take(i as int));
                assert(chars@.take(i + 1).last() == chars@[i as int]);
            }
            let c = chars[i];
            if c == '\n' || c == '\r' {
                lines.push(Vec::new());
            } else {
                let n = lines.len();
                let mut last = lines.remove(n - 1);
                last.push(c);
                lines.push(last);
                proof {
                    assert(lines.deep_view() =~~= split_lines_spec(chars@.take(i + 1)));
                }
            }
            i = i + 1;
        }
        proof {
            assert(chars@.take(chars@.len() as int) =~= chars@);
            lemma_split_lines_wf(chars@);
        }
        TextBuffer { lines }
    }

    /// How many lines the buffer holds.
    pub fn line_count(&self) -> (n: usize)
        ensures
            n == self@.len(),
    {
        self.lines.len()
    }

    /// The length of line `row`; rows out of range count as empty.
    pub fn line_length(&self, row: usize) -> (n: usize)
        ensures
            n == line_len_spec(self@, row as int),
    {
        if row < self.lines.len() {
            self.lines[row].len()
        } else {
            0
        }
    }

    /// Borrows line `row`.
    pub fn line(&self, row: usize) -> (l: &Vec<char>)
        requires
            row < self@.len(),
        ensures
            l.deep_view() == self@[row as int],
    {
        &self.lines[row]
    }

    /// The character at `(row, col)`.
    pub fn char_at(&self, row: usize, col: usize) -> (c: char)
        requires
            row < self@.len(),
            col < self@[row as int].len(),
        ensures
            c == self@[row as int][col as int],
    {
        self.lines[row][col]
    }

    /// Inserts `ch` before column `col` of line `row`.
    pub fn insert(&mut self, row: usize, col: usize, ch: char)
        requires
            row < old(self)@.len(),
            col <= old(self)@[row as int].len(),
        ensures
            final(self)@ =~~= insert_spec(old(self)@, row as int, col as int, ch),
            final(self)@.len() >= 1,
            old(self)@[row as int].len() < usize::MAX,
    {
        let mut line = self.lines.remove(row);
        line.insert(col, ch);
        let grown = line.len();
        assert(grown == old(self)@[row as int].len() + 1);
        self.lines.insert(row, line);
    }

    /// Backspace at `(row, col)`: removes the character before the cursor,
    /// or joins line `row` onto the line above when `col` is zero. Returns
    /// the cursor position after the edit.
    pub fn delete_before(&mut self, row: usize, col: usize) -> (rc: (usize, usize))
        requires
            row < old(self)@.len(),
            col <= old(self)@[row as int].len(),
        ensures
            final(self)@ =~~= delete_before_lines_spec(old(self)@, row as int, col as int),
            (rc.0 as int, rc.1 as int) == delete_before_cursor_spec(
                old(self)@,
                row as int,
                col as int,
            ),
            final(self)@.len() >= 1,
            rc.0 < final(self)@.len(),
            rc.1 <= final(self)@[rc.0 as int].len(),
    {
        if col > 0 {
            let mut line = self.lines.remove(row);
            line.remove(col - 1);
            self.lines.insert(row, line);
            (row, col - 1)
        } else if row > 0 {
            let mut line = self.lines.remove(row);
            let mut prev = self.lines.remove(row - 1);
            let prev_len = prev.len();
            prev.append(&mut line);
            self.lines.insert(row - 1, prev);
            (row - 1, prev_len)
        } else {
            (row, col)
        }
    }

    /// The Enter key: moves the suffix of line `row` from `col` on into a
    /// new line immediately below. Returns the cursor position after the
    /// edit, the start of the new line.
    pub fn split(&mut self, row: usize, col: usize) -> (rc: (usize, usize))
        requires
            row < old(self)@.len(),
            col <= old(self)@[row as int].len(),
        ensures
            final(self)@ =~~= split_spec(old(self)@, row as int, col as int),
            (rc.0 as int, rc.1 as int) == (row + 1, 0int),
            final(self)@.len() == old(self)@.len() + 1,
            final(self)@.len() >= 1,
    {
        let n = self.lines.len();
        assert(row < n);
        let mut line = self.lines.remove(row);
        let suffix = line.split_off(col);
        self.lines.insert(row, line);
        self.lines.insert(row + 1, suffix);
        (row + 1, 0)
    }
}

/// Inserting a character and then pressing backspace at the resulting
/// column restores the lines exactly, and the cursor returns to where the
/// insertion happened.
pub proof fn lemma_insert_delete_roundtrip(lines: Seq<Seq<char>>, row: int, col: int, ch: char)
    requires
        lines_wf(lines),
        0 <= row < lines.len(),
        0 <= col <= lines[row].len(),
    ensures
        delete_before_lines_spec(insert_spec(lines, row, col, ch), row, col + 1) =~~= lines,
        delete_before_cursor_spec(insert_spec(lines, row, col, ch), row, col + 1) == (row, col),
{
    let inserted = insert_spec(lines, row, col, ch);
    assert(inserted[row].remove(col) =~= lines[row]);
    assert(delete_before_lines_spec(inserted, row, col + 1) =~~= lines);
}

/// Splitting a line and then pressing backspace at the start of the new
/// line restores the lines exactly, and the cursor returns to the split
/// point.
pub proof fn lemma_split_join_roundtrip(lines: Seq<Seq<char>>, row: int, col: int)
    requires
        lines_wf(lines),
        0 <= row < lines.len(),
        0 <= col <= lines[row].len(),
    ensures
        delete_before_lines_spec(split_spec(lines, row, col), row + 1, 0) =~~= lines,
        delete_before_cursor_spec(split_spec(lines, row, col), row + 1, 0) == (row, col),
{
    let split = split_spec(lines, row, col);
    assert(split[row] + split[row + 1] =~= lines[row]);
    assert(delete_before_lines_spec(split, row + 1, 0) =~~= lines);
}

} // verus!
