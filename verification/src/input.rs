use vstd::prelude::*;

verus! {

/// A key press, reduced to what the application state machines read.
///
/// The embedding terminal host translates its native key events into this
/// type; nothing beyond the key's identity is consulted by the state
/// machines in this crate.
#[derive(Clone, Copy, PartialEq, Eq, Structural, Debug)]
pub enum KeyCode {
    /// A printable character.
    Char(char),
    /// The left arrow key.
    Left,
    /// The right arrow key.
    Right,
    /// The up arrow key.
    Up,
    /// The down arrow key.
    Down,
    /// The escape key.
    Esc,
    /// The enter key.
    Enter,
    /// The backspace key.
    Backspace,
    /// Any key the state machines do not react to.
    Other,
}

} // verus!
