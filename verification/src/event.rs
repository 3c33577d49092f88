//! The input events the shell routes.

use vstd::prelude::*;

verus! {

/// A key press, reduced to what the shell's routing and the built-in
/// windows inspect. Keys the runtime never distinguishes fall under
/// `Other`.
#[derive(Debug, Clone, Copy)]
pub enum KeyInput {
    /// The escape key: leaves Insert and Search mode.
    Esc,
    /// The backspace key.
    Backspace,
    /// The insert key.
    Insert,
    /// A function key, by its number (`F(1)` for F1).
    F(u8),
    /// A printable character.
    Char(char),
    /// Any other key.
    Other,
}

/// An input event delivered to the shell: a key press, a terminal
/// resize notification, or anything else. Non-key events are ignored by
/// the shell's own routing but still reach the focused window where the
/// mode forwards events.
#[derive(Debug, Clone, Copy)]
pub enum InputEvent {
    /// A key press.
    Key(KeyInput),
    /// The terminal was resized; always forces a redraw.
    Resize,
    /// Any other event.
    Other,
}

} // verus!
