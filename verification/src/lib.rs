//! Core of a modal terminal text editor: an in-memory text buffer, the
//! Normal/Insert/Replace input state machine, a viewport controller, a
//! highlight adapter that validates externally supplied per-character
//! colors, and a renderer that compresses cells into color runs.
//!
//! Terminal input and output themselves live outside this crate; the
//! library works on plain values (lines of characters, key codes, colors)
//! and every function here is verified against its contract.

pub mod highlight;
pub mod modes;
pub mod render;
pub mod terminal;
pub mod text;
pub mod viewport;
