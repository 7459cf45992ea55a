//! The commands of the program: what each of them decides, and in what order it
//! acts.

pub mod choice_laws;
pub mod context;
pub mod context_laws;
pub mod cycle;
pub mod daemon;
pub mod daemon_log;
pub mod daemon_loop;
pub mod desk;
pub mod interactive;
pub mod names;
pub mod places;
pub mod popup_laws;
pub mod popup_log;
pub mod preference;
pub mod process;
pub mod process_log;
pub mod published;
pub mod reloader;
pub mod report;
pub mod report_laws;
pub mod search;
pub mod search_laws;
pub mod search_log;
pub mod setup;
pub mod setup_laws;
pub mod setup_log;
pub mod targets;
pub mod threads;
pub mod worker_laws;
