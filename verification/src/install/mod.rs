//! The block that this program owns in a host tmux configuration.

pub mod binding_laws;
pub mod block;
pub mod discover;
pub mod failure;
pub mod host;
pub mod laws;
pub mod perform;
pub mod plan;
pub mod reload;
pub mod shape;
pub mod status;
pub mod status_laws;
pub mod syntax;
