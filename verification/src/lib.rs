//! Core of a floating window manager: the window registry and its lifecycle,
//! the drag-interaction state machine, key/mouse binding resolution, and the
//! event dispatch loop with its self-event suppression queue.
//!
//! All decisions are made here, on plain values; the process around this
//! library talks to the display server, feeds events in, and carries the
//! requested actions out.

pub mod bindings;
pub mod buffer;
pub mod events;
pub mod floating;
pub mod input;
pub mod keymap;
pub mod layout;
