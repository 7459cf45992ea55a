//! Generated pane names: which pane belongs to which conversation, what of a
//! conversation is read, and when a name is due.

pub mod conversation;
pub mod descriptor_laws;
pub mod descriptors;
pub mod diagnostics;
pub mod event_log;
pub mod history;
pub mod history_laws;
pub mod host_log;
pub mod lane;
pub mod lane_laws;
pub mod lane_port;
pub mod lane_replay;
pub mod lanes;
pub mod messages;
pub mod names;
pub mod naming_laws;
pub mod netlink_log;
pub mod process_store;
pub mod process_laws;
pub mod processes;
pub mod rollout;
pub mod rollout_laws;
pub mod rollout_replay;
pub mod rollout_store;
pub mod session_log;
pub mod shell_snapshot;
pub mod snapshot_log;
pub mod snapshot_replay;
pub mod sockets;
pub mod store_laws;
pub mod store_replay;
pub mod target;
pub mod target_laws;
pub mod thread;
pub mod title;
pub mod transcript;
pub mod tree_log;
pub mod worker;
