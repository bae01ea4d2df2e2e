//! Input events observed by the widget during one frame.

use vstd::prelude::*;

verus! {

/// A keyboard key the widget may react to.  Keys the widget does not handle
/// are delivered all the same and ignored.
#[derive(Clone, Copy, Debug, PartialEq, Eq, Structural)]
pub enum Key {
    Backspace,
    Delete,
    Down,
    End,
    Enter,
    Escape,
    Home,
    Insert,
    Left,
    PageDown,
    PageUp,
    Right,
    Tab,
    Up,
}

/// One input event delivered to the widget.  The widget only ever sees the
/// events of the current frame and never retains them.
#[derive(Debug)]
pub enum Event {
    /// Copy the current text to the clipboard output.
    Copy,
    /// Cut behaves as copy: the text is copied and not deleted.
    Cut,
    /// Committed text input, to be inserted at the cursor.
    Text(String),
    /// A key went down (`pressed`) or up.
    Key { key: Key, pressed: bool },
}

} // verus!
