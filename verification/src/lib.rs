//! An interactive multi-select checkbox widget for character terminals.
//!
//! The widget renders one line per entry, moves a cursor with the arrow (or
//! `j`/`k`) keys, toggles selections with the space bar, and ends the session
//! on enter (confirm) or escape (cancel). Entry 0 is a synthetic "select all"
//! row kept in sync with the rest: it is true exactly when every real entry
//! is selected, and toggling it fans its new value out to every real entry.
//!
//! The terminal itself (writing lines, reading keys, erasing lines) is the
//! caller's business: the library exposes the session state machine — key
//! events in, rendered frames and the final selection out.

pub mod checkbox;
pub mod laws;

pub use checkbox::Checkbox;
pub use checkbox::KeyEvent;
pub use checkbox::Session;
