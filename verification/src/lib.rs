//! The logic of an interactive serial terminal: turning a raw byte stream into
//! lines, a bounded scrollable transcript, a line editor with command history,
//! and the session state machine that ties them together.

pub mod assembler;
pub mod baud;
pub mod editor;
pub mod layout;
pub mod port;
pub mod session;
pub mod text;
pub mod transcript;
