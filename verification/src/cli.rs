//! The command line, once it has been read.

use vstd::prelude::*;
use crate::config::MatchScope;
use crate::path::UnixPath;

verus! {

/// Everything that the command line can say.
#[derive(Clone, Debug)]
pub struct Cli {
    /// Codex executable for pane discovery and launches alike.
    pub codex: Option<UnixPath>,
    /// Executable that only launches Codex and its app-server.
    pub launch_executable: Option<UnixPath>,
    /// Executables or interpreted scripts accepted during discovery.
    pub match_executable: Vec<UnixPath>,
    /// Pane commands accepted by Smart Left.
    pub pane_command: Vec<String>,
    /// Processes looked at during discovery.
    pub match_scope: Option<MatchScope>,
    /// Expressions for the arguments of a process.
    pub match_command_regex: Vec<String>,
    /// Expressions for pane commands.
    pub pane_command_regex: Vec<String>,
    /// Tmux client that opened the popup.
    pub client: Option<String>,
    /// Pane from which the popup was opened.
    pub invoking_pane: Option<String>,
    /// Session in which new windows are created.
    pub invoking_session: Option<String>,
    /// Window after which new windows are created.
    pub invoking_window: Option<String>,
    /// Working directory of the invoking pane.
    pub invoking_path: Option<UnixPath>,
    /// Without a command the popup runs.
    pub command: Option<Command>,
}

/// What is done instead of running the popup.
#[derive(Clone, Debug)]
pub enum Command {
    /// Installs a release.
    Update(UpdateArgs),
    /// Configures tmux, Bash and Zsh.
    Setup(SetupArgs),
    /// Takes the managed blocks out again.
    Remove(RemoveArgs),
    /// Manages the tmux binding alone.
    Tmux(TmuxArgs),
    /// Entry point of the Smart Left binding.
    SmartLeft,
    /// Opens the popup for the invoking client.
    OpenPopup,
    /// The naming worker of one tmux server.
    SmartNamingWorker,
    /// Starts that worker.
    SmartNamingStart,
    /// Stops that worker.
    SmartNamingStop,
    /// Names two conversations with the signed-in account.
    AuthenticatedNamingJourney,
}

/// A release to install.
#[derive(Clone, Debug)]
pub struct UpdateArgs {
    /// The latest stable release where none is given.
    pub version: Option<String>,
}

/// The key of the binding, and files other than the usual ones.
#[derive(Clone, Debug)]
pub struct SetupArgs {
    pub key: String,
    pub tmux_config: Option<UnixPath>,
    pub bash_config: Option<UnixPath>,
    pub zsh_config: Option<UnixPath>,
}

/// Files other than the usual ones.
#[derive(Clone, Debug)]
pub struct RemoveArgs {
    pub tmux_config: Option<UnixPath>,
    pub bash_config: Option<UnixPath>,
    pub zsh_config: Option<UnixPath>,
}

#[derive(Clone, Debug)]
pub struct TmuxArgs {
    pub command: TmuxCommand,
}

/// An operation on the managed tmux block.
#[derive(Clone, Debug)]
pub enum TmuxCommand {
    Install(InstallArgs),
    Status(ConfigPathArgs),
    Uninstall(ConfigPathArgs),
}

#[derive(Clone, Debug)]
pub struct InstallArgs {
    pub key: String,
    /// Whether Left opens the popup where it cannot move the cursor.
    pub smart_left: bool,
    pub config: Option<UnixPath>,
}

#[derive(Clone, Debug)]
pub struct ConfigPathArgs {
    pub config: Option<UnixPath>,
}

} // verus!
