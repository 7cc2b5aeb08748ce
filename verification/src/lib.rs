//! Decisions and texts of a MIDI input monitor: which input port a session
//! listens to, what it tells the user, and how a received message is shown.
//!
//! Nothing here talks to a MIDI driver or to the console. The caller does
//! that work and hands back what came of it.

pub mod chars;
pub mod cmd;
pub mod common;
pub mod decimal;
pub mod trim;
