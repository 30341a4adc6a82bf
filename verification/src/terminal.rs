//! Plain data types shared with the terminal layer: screen positions,
//! key events, cursor shapes and colors. The terminal layer translates
//! these to and from its own representations; the core only ever reads
//! and compares them, so they are ordinary verified datatypes.

use vstd::prelude::*;

verus! {

/// A position in terminal cells. The terminal addresses at most 16 bits
/// per axis, hence the field type.
#[derive(PartialEq, Eq, Structural, Debug)]
pub struct Pos {
    pub x: u16,
    pub y: u16,
}

impl Pos {
    pub fn from(x: u16, y: u16) -> (p: Self)
        ensures
            p == (Pos { x, y }),
    {
        Pos { x, y }
    }

    pub fn from_tuple(xy: (u16, u16)) -> (p: Self)
        ensures
            p == (Pos { x: xy.0, y: xy.1 }),
    {
        Self::from(xy.0, xy.1)
    }

    pub fn to_tuple(&self) -> (t: (u16, u16))
        ensures
            t == (self.x, self.y),
    {
        (self.x, self.y)
    }

    pub fn set(&mut self, pos: Self)
        ensures
            *final(self) == pos,
    {
        self.x = pos.x;
        self.y = pos.y;
    }

    pub fn clone(&self) -> (p: Self)
        ensures
            p == *self,
    {
        Pos { x: self.x, y: self.y }
    }
}

/// A foreground or background color, as the terminal layer names them.
#[derive(Clone, Copy, PartialEq, Eq, Structural, Debug)]
pub enum Color {
    Reset,
    Black,
    DarkGrey,
    Red,
    DarkRed,
    Green,
    DarkGreen,
    Yellow,
    DarkYellow,
    Blue,
    DarkBlue,
    Magenta,
    DarkMagenta,
    Cyan,
    DarkCyan,
    White,
    Grey,
    Rgb { r: u8, g: u8, b: u8 },
    AnsiValue(u8),
}

/// Whether a key event reports a press, an autorepeat, or a release.
#[derive(Clone, Copy, PartialEq, Eq, Structural, Debug)]
pub enum KeyEventKind {
    Press,
    Repeat,
    Release,
}

/// The key a key event is about. Keys the editor does not interpret
/// arrive as `Other`.
#[derive(Clone, Copy, PartialEq, Eq, Structural, Debug)]
pub enum KeyCode {
    Char(char),
    Backspace,
    Enter,
    Left,
    Right,
    Up,
    Down,
    Home,
    End,
    Esc,
    Insert,
    Other,
}

/// One key event: which key, and whether it was pressed or released.
#[derive(Clone, Copy, PartialEq, Eq, Structural, Debug)]
pub struct Key {
    pub kind: KeyEventKind,
    pub key: KeyCode,
}

impl Key {
    /// Drops the event when its kind equals `filter`, keeps it otherwise.
    pub fn filter(&self, filter: KeyEventKind) -> (r: Option<&Self>)
        ensures
            self.kind == filter ==> r is None,
            self.kind != filter ==> (r matches Some(k) && *k == *self),
    {
        if self.kind == filter {
            None
        } else {
            Some(self)
        }
    }

    /// Keeps the event only when its kind equals `filter`.
    pub fn only(&self, filter: KeyEventKind) -> (r: Option<&Self>)
        ensures
            self.kind == filter ==> (r matches Some(k) && *k == *self),
            self.kind != filter ==> r is None,
    {
        if self.kind == filter {
            Some(self)
        } else {
            None
        }
    }
}

/// The cursor shapes the terminal layer can select.
#[derive(Clone, Copy, PartialEq, Eq, Structural, Debug)]
pub enum CursorStyle {
    DefaultUserShape,
    BlinkingBlock,
    SteadyBlock,
    BlinkingUnderScore,
    SteadyUnderScore,
    BlinkingBar,
    SteadyBar,
}

} // verus!
