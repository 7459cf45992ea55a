//! The block that this program owns in the startup files of Bash and Zsh.

pub mod block;
pub mod hooks;
pub mod transaction;
