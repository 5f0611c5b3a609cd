//! danger-write: a writing session that erases your words if you stop typing.
//!
//! The library holds the rules of a session, the wrapping of text into rows, the
//! command line, the clipboard protocol and the drawing of every screen. It owns no
//! clock, no terminal and no process: readings of the clock, keystrokes and the
//! outcome of outside work come in as plain values.

pub mod browser;
pub mod canvas;
pub mod cli;
pub mod cli_laws;
pub mod clipboard;
pub mod dissolve;
pub mod screen;
pub mod screen_laws;
pub mod session;
pub mod session_laws;
pub mod text;
pub mod theme;
pub mod time;
pub mod wrap;
pub mod wrap_laws;
