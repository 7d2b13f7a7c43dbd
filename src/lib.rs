//! The interpreter and control core of a terminal emulator: decoding of
//! text attributes, the escape-sequence interpreter that drives a display
//! buffer, the producer handle of a session's control channel, and the
//! decisions of the session loop.

pub mod attr;
pub mod control;
pub mod interpreter;
pub mod message;
pub mod notifier;
pub mod session;
pub mod text;
pub mod xcolor;
