//! Exact-target tmux requests and the reading of tmux replies.

pub mod action_laws;
pub mod actions;
pub mod format_laws;
pub mod inventory;
pub mod name_laws;
pub mod options;
pub mod owned_names;
pub mod pane_laws;
pub mod probe_laws;
pub mod probe_port;
pub mod quote;
pub mod runner;
pub mod smart_left;
pub mod start_log;
