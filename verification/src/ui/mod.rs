//! The popup's terminal.

pub mod switch_log;
pub mod terminal;
pub mod terminal_log;
