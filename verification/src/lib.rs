//! Core of a mouse-button remapper: logical buttons, binding tables, raw-event
//! classification, the device-multiplexer state machine, and the planning of
//! injected key chords for the virtual-keyboard and X11 backends.
//!
//! All decision logic lives here with verified contracts; the surrounding
//! process (device I/O, the X11 connection, config files) supplies plain
//! values and carries out the plans this library computes.

pub mod buttons;
pub mod config;
pub mod classify;
pub mod dispatch;
pub mod multiplexer;
pub mod executor;
pub mod keysym;
