//! Which process a terminal pane runs, as Linux procfs tells it.

pub mod command;
pub mod command_laws;
pub mod evidence;
pub mod evidence_laws;
pub mod identity;
pub mod identity_log;
pub mod inspector;
pub mod inspector_laws;
pub mod proc_log;
pub mod replay;
pub mod stat_laws;
