//! Ownership of one setting in the configuration of Codex.

pub mod document;
pub mod format_log;
pub mod integration;
pub mod owned;
pub mod owned_laws;
pub mod owned_log;
pub mod owned_replay;
pub mod title;
pub mod title_laws;
pub mod transaction;
