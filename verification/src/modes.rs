//! The modal input state machine. An editor owns a text buffer, a cursor
//! in buffer coordinates, the active mode and a quit flag; every key event
//! maps to one step of the transition function `step_spec`. Movement keys
//! behave identically in all modes and never touch the buffer; editing
//! keys act only in Insert and Replace mode; only key releases are acted
//! upon.

use vstd::prelude::*;
use crate::terminal::{Key, KeyCode, KeyEventKind};
use crate::text::{
    TextBuffer, lines_wf, line_len_spec, insert_spec, delete_before_lines_spec,
    delete_before_cursor_spec, split_spec,
};

verus! {

/// The active input interpretation state; exactly one at a time.
#[derive(Clone, Copy, PartialEq, Eq, Structural, Debug)]
pub enum Mode {
    Normal,
    Insert,
    Replace,
}

/// The cursor in buffer coordinates. The column may equal the line
/// length, denoting "after the last character".
#[derive(Clone, Copy, PartialEq, Eq, Structural, Debug)]
pub struct Cursor {
    pub col: usize,
    pub row: usize,
}

/// A mathematical snapshot of the editor: the lines, the cursor, the mode
/// and whether the session is over.
#[verifier::ext_equal]
pub ghost struct EdView {
    pub lines: Seq<Seq<char>>,
    pub col: int,
    pub row: int,
    pub mode: Mode,
    pub quit: bool,
}

/// The editor invariant: at least one line, the cursor row inside the
/// buffer, the cursor column at most the current line's length.
pub open spec fn ed_wf(v: EdView) -> bool {
    &&& lines_wf(v.lines)
    &&& 0 <= v.row < v.lines.len()
    &&& 0 <= v.col <= v.lines[v.row].len()
}

/// Whether a key moves the cursor; such keys work the same in every mode.
pub open spec fn is_movement(code: KeyCode) -> bool {
    ||| code is Left
    ||| code is Right
    ||| code is Up
    ||| code is Down
    ||| code is Home
    ||| code is End
}

/// The smaller of a column and a line length, used to clamp the column
/// when the cursor changes row.
pub open spec fn clamped_col(v: EdView, col: int, row: int) -> int {
    if col <= line_len_spec(v.lines, row) {
        col
    } else {
        line_len_spec(v.lines, row) as int
    }
}

/// Where the cursor stands after a movement key: left and right clamp the
/// column to `[0, line length]`, up and down clamp the row to
/// `[0, line count - 1]` and re-clamp the column to the new line, Home and
/// End jump to the ends of the line. The lines themselves never change.
pub open spec fn move_spec(v: EdView, code: KeyCode) -> EdView {
    match code {
        KeyCode::Left => EdView { col: if v.col > 0 { v.col - 1 } else { 0 }, ..v },
        KeyCode::Right => EdView { col: clamped_col(v, v.col + 1, v.row), ..v },
        KeyCode::Up => {
            let row = if v.row > 0 { v.row - 1 } else { 0 };
            EdView { row, col: clamped_col(v, v.col, row), ..v }
        },
        KeyCode::Down => {
            let row = if v.row + 1 < v.lines.len() { v.row + 1 } else { v.row };
            EdView { row, col: clamped_col(v, v.col, row), ..v }
        },
        KeyCode::Home => EdView { col: 0, ..v },
        KeyCode::End => EdView { col: line_len_spec(v.lines, v.row) as int, ..v },
        _ => v,
    }
}

/// A line after overtyping `c` at `col`: overwrite when a character
/// stands there, append otherwise. The line never gets shorter.
pub open spec fn overtype_line_spec(line: Seq<char>, col: int, c: char) -> Seq<char> {
    if col < line.len() {
        line.update(col, c)
    } else {
        line.push(c)
    }
}

/// Keys in Normal mode: `i` or the Insert key enter Insert mode, `q` ends
/// the session; everything else is ignored.
pub open spec fn normal_spec(v: EdView, code: KeyCode) -> EdView {
    match code {
        KeyCode::Char(c) => {
            if c == 'i' {
                EdView { mode: Mode::Insert, ..v }
            } else if c == 'q' {
                EdView { quit: true, ..v }
            } else {
                v
            }
        },
        KeyCode::Insert => EdView { mode: Mode::Insert, ..v },
        _ => v,
    }
}

/// Keys in Insert and Replace mode. The Insert key toggles between the
/// two modes, escape returns to Normal mode, Enter splits the line,
/// Backspace deletes before the cursor (joining lines at column zero) and
/// a character key inserts, or in Replace mode overtypes.
pub open spec fn edit_spec(v: EdView, code: KeyCode, replace: bool) -> EdView {
    match code {
        KeyCode::Insert => EdView {
            mode: if replace {
                Mode::Insert
            } else {
                Mode::Replace
            },
            ..v
        },
        KeyCode::Esc => EdView { mode: Mode::Normal, ..v },
        KeyCode::Enter => EdView {
            lines: split_spec(v.lines, v.row, v.col),
            row: v.row + 1,
            col: 0,
            ..v
        },
        KeyCode::Backspace => {
            let rc = delete_before_cursor_spec(v.lines, v.row, v.col);
            EdView {
                lines: delete_before_lines_spec(v.lines, v.row, v.col),
                row: rc.0,
                col: rc.1,
                ..v
            }
        },
        KeyCode::Char(c) => {
            if replace {
                EdView {
                    lines: v.lines.update(v.row, overtype_line_spec(v.lines[v.row], v.col, c)),
                    col: v.col + 1,
                    ..v
                }
            } else {
                EdView { lines: insert_spec(v.lines, v.row, v.col, c), col: v.col + 1, ..v }
            }
        },
        _ => v,
    }
}

/// One step of the editor for one key event. Only key releases are acted
/// upon; presses and autorepeats leave the editor unchanged.
pub open spec fn step_spec(v: EdView, k: Key) -> EdView {
    if !(k.kind is Release) {
        v
    } else if is_movement(k.key) {
        move_spec(v, k.key)
    } else {
        match v.mode {
            Mode::Normal => normal_spec(v, k.key),
            Mode::Insert => edit_spec(v, k.key, false),
            Mode::Replace => edit_spec(v, k.key, true),
        }
    }
}

/// Movement keys never move the cursor outside
/// `[0, line count - 1] x [0, line length]`, and never change the lines,
/// the mode or the quit flag.
pub proof fn lemma_movement_in_bounds(v: EdView, code: KeyCode)
    requires
        ed_wf(v),
        is_movement(code),
    ensures
        move_spec(v, code).lines == v.lines,
        move_spec(v, code).mode == v.mode,
        move_spec(v, code).quit == v.quit,
        0 <= move_spec(v, code).row < v.lines.len(),
        0 <= move_spec(v, code).col <= v.lines[move_spec(v, code).row].len(),
{
}

/// Every step keeps the editor well formed: the buffer never drops below
/// one line and the cursor stays inside it.
pub proof fn lemma_step_preserves_wf(v: EdView, k: Key)
    requires
        ed_wf(v),
    ensures
        ed_wf(step_spec(v, k)),
        step_spec(v, k).lines.len() >= 1,
{
}

/// The editing core: buffer, cursor, mode and quit flag, driven one key
/// event at a time.
pub struct Editor {
    pub buffer: TextBuffer,
    pub cursor: Cursor,
    pub mode: Mode,
    pub quit: bool,
}

impl View for Editor {
    type V = EdView;

    open spec fn view(&self) -> EdView {
        EdView {
            lines: self.buffer@,
            col: self.cursor.col as int,
            row: self.cursor.row as int,
            mode: self.mode,
            quit: self.quit,
        }
    }
}

impl Editor {
    /// A fresh editor: one empty line, cursor at the origin, Normal mode.
    pub fn new() -> (ed: Self)
        ensures
            ed@.lines =~~= seq![Seq::<char>::empty()],
            ed@.col == 0,
            ed@.row == 0,
            ed@.mode == Mode::Normal,
            !ed@.quit,
            ed_wf(ed@),
    {
        Editor { buffer: TextBuffer::new(), cursor: Cursor { col: 0, row: 0 }, mode: Mode::Normal, quit: false }
    }

    /// An editor over loaded text, cursor at the origin, Normal mode.
    pub fn with_buffer(buffer: TextBuffer) -> (ed: Self)
        requires
            lines_wf(buffer@),
        ensures
            ed@.lines == buffer@,
            ed@.col == 0,
            ed@.row == 0,
            ed@.mode == Mode::Normal,
            !ed@.quit,
            ed_wf(ed@),
    {
        Editor { buffer, cursor: Cursor { col: 0, row: 0 }, mode: Mode::Normal, quit: false }
    }

    /// Applies one movement key.
    fn apply_move(&mut self, code: KeyCode)
        requires
            ed_wf(old(self)@),
        ensures
            final(self)@ =~~= move_spec(old(self)@, code),
    {
        match code {
            KeyCode::Left => {
                if self.cursor.col > 0 {
                    self.cursor.col = self.cursor.col - 1;
                }
            },
            KeyCode::Right => {
                let len = self.buffer.line_length(self.cursor.row);
                if self.cursor.col < len {
                    self.cursor.col = self.cursor.col + 1;
                } else {
                    self.cursor.col = len;
                }
            },
            KeyCode::Up => {
                if self.cursor.row > 0 {
                    self.cursor.row = self.cursor.row - 1;
                }
                let len = self.buffer.line_length(self.cursor.row);
                if self.cursor.col > len {
                    self.cursor.col = len;
                }
            },
            KeyCode::Down => {
                let count = self.buffer.line_count();
                if self.cursor.row + 1 < count {
                    self.cursor.row = self.cursor.row + 1;
                }
                let len = self.buffer.line_length(self.cursor.row);
                if self.cursor.col > len {
                    self.cursor.col = len;
                }
            },
            KeyCode::Home => {
                self.cursor.col = 0;
            },
            KeyCode::End => {
                self.cursor.col = self.buffer.line_length(self.cursor.row);
            },
            _ => {},
        }
    }

    /// Overtype for Replace mode, derived from the buffer primitives:
    /// insert the character, then, when a character already stood at the
    /// cursor, delete the one that moved one past the insertion point.
    fn overtype(&mut self, c: char)
        requires
            ed_wf(old(self)@),
        ensures
            final(self)@.lines =~~= old(self)@.lines.update(
                old(self)@.row,
                overtype_line_spec(old(self)@.lines[old(self)@.row], old(self)@.col, c),
            ),
            final(self)@.col == old(self)@.col + 1,
            final(self)@.row == old(self)@.row,
            final(self)@.mode == old(self)@.mode,
            final(self)@.quit == old(self)@.quit,
    {
        let row = self.cursor.row;
        let col = self.cursor.col;
        let pre_len = self.buffer.line_length(row);
        self.buffer.insert(row, col, c);
        if pre_len > col {
            // the character that stood at the cursor is now at col + 1
            let _ = self.buffer.delete_before(row, col + 2);
            proof {
                let line = old(self)@.lines[row as int];
                assert(line.insert(col as int, c).remove(col + 1) =~= line.update(col as int, c));
            }
        } else {
            proof {
                let line = old(self)@.lines[row as int];
                assert(line.insert(col as int, c) =~= line.push(c));
            }
        }
        self.cursor.col = col + 1;
    }

    /// Handles one key event: one step of the editor's state machine.
    pub fn handle_key(&mut self, k: Key)
        requires
            ed_wf(old(self)@),
        ensures
            final(self)@ =~~= step_spec(old(self)@, k),
            ed_wf(final(self)@),
    {
        if k.kind != KeyEventKind::Release {
            return ;
        }
        match k.key {
            KeyCode::Left | KeyCode::Right | KeyCode::Up | KeyCode::Down | KeyCode::Home
                | KeyCode::End => {
                self.apply_move(k.key);
            },
            _ => {
                match self.mode {
                    Mode::Normal => {
                        match k.key {
                            KeyCode::Char(c) => {
                                if c == 'i' {
                                    self.mode = Mode::Insert;
                                } else if c == 'q' {
                                    self.quit = true;
                                }
                            },
                            KeyCode::Insert => {
                                self.mode = Mode::Insert;
                            },
                            _ => {},
                        }
                    },
                    Mode::Insert => {
                        match k.key {
                            KeyCode::Insert => {
                                self.mode = Mode::Replace;
                            },
                            KeyCode::Esc => {
                                self.mode = Mode::Normal;
                            },
                            KeyCode::Enter => {
                                let rc = self.buffer.split(self.cursor.row, self.cursor.col);
                                self.cursor.row = rc.0;
                                self.cursor.col = rc.1;
                            },
                            KeyCode::Backspace => {
                                let rc = self.buffer.delete_before(
                                    self.cursor.row,
                                    self.cursor.col,
                                );
                                self.cursor.row = rc.0;
                                self.cursor.col = rc.1;
                            },
                            KeyCode::Char(c) => {
                                self.buffer.insert(self.cursor.row, self.cursor.col, c);
                                self.cursor.col = self.cursor.col + 1;
                            },
                            _ => {},
                        }
                    },
                    Mode::Replace => {
                        match k.key {
                            KeyCode::Insert => {
                                self.mode = Mode::Insert;
                            },
                            KeyCode::Esc => {
                                self.mode = Mode::Normal;
                            },
                            KeyCode::Enter => {
                                let rc = self.buffer.split(self.cursor.row, self.cursor.col);
                                self.cursor.row = rc.0;
                                self.cursor.col = rc.1;
                            },
                            KeyCode::Backspace => {
                                let rc = self.buffer.delete_before(
                                    self.cursor.row,
                                    self.cursor.col,
                                );
                                self.cursor.row = rc.0;
                                self.cursor.col = rc.1;
                            },
                            KeyCode::Char(c) => {
                                self.overtype(c);
                            },
                            _ => {},
                        }
                    },
                }
            },
        }
        proof {
            lemma_step_preserves_wf(old(self)@, k);
        }
    }
}

} // verus!
