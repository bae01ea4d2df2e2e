//! Core logic of an immediate-mode editable text widget.
//!
//! The widget itself lives for a single frame: each frame it is handed the
//! text buffer, the frame's input events and the interaction state, and it
//! decides how the text and the cursor change, who holds keyboard focus, and
//! what must be repainted.  Everything that survives a frame is a single
//! cursor offset, kept in a store keyed by widget identity.
//!
//! All positions are counts of Unicode scalar values, never bytes.

pub mod editing;
pub mod events;
pub mod focus;
pub mod frame;
pub mod interpreter;
pub mod lines;
pub mod store;
