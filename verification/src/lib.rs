//! Decision logic of a tmux popup that lists, starts, names and switches
//! between Codex panes.
#![verifier::loop_isolation(false)]

pub mod app;
pub mod cli;
pub mod codex_config;
pub mod config;
pub mod config_laws;
pub mod domain;
pub mod error;
pub mod files;
pub mod install;
pub mod json;
pub mod launch;
pub mod linux_process;
pub mod markers;
pub mod number;
pub mod one_line;
pub mod order;
pub mod path;
pub mod path_laws;
pub mod pattern;
pub mod replace;
pub mod scan;
pub mod settings;
pub mod settings_laws;
pub mod settings_port;
pub mod shell_integration;
pub mod smart_naming;
pub mod step_log;
pub mod text;
pub mod theme;
pub mod tmux;
pub mod ui;
