//! A retained-mode view-composition engine for an append-only transcript of
//! "prompt, then terminal session" entries.
//!
//! The crate holds the rules of the composition and none of the host's
//! machinery: a view draws by appending commands to a [`surface::Surface`]
//! that the host replays, and whatever the host must do next (schedule a
//! redraw, grant a tick, build a terminal) is handed to it as a value.

pub mod key;
pub mod layout;
pub mod log;
pub mod surface;
pub mod task;
pub mod view;
