//! Stable domain values and the boundaries to tmux and the process table.

use vstd::prelude::*;
use crate::error::{ErrorModel, MuxError, invalid_value};
use crate::path;
use crate::path::UnixPath;
use crate::scan;
use crate::scan::{blank, trim};
use crate::text;
use crate::text::text_equal;

verus! {

/// Stable tmux pane identity used for targeting.
#[derive(Debug, PartialEq, Eq, PartialOrd, Ord, Hash)]
pub struct PaneId {
    value: String,
}

impl View for PaneId {
    type V = Seq<char>;

    closed spec fn view(&self) -> Seq<char> {
        self.value@
    }
}

impl Clone for PaneId {
    fn clone(&self) -> (r: Self)
        ensures
            r@ == self@,
    {
        PaneId { value: self.value.clone() }
    }
}

impl PaneId {
    /// Accepts any text that is not blank.
    pub fn new(value: &str) -> (r: Result<PaneId, MuxError>)
        ensures
            match r {
                Ok(id) => !scan::is_blank(value@) && id@ == value@,
                Err(e) => scan::is_blank(value@) && e@ == (ErrorModel::InvalidValue {
                    field: "pane ID"@,
                    message: "must not be empty"@,
                }),
            },
    {
        if blank(value) {
            return Err(invalid_value("pane ID", "must not be empty"));
        }
        Ok(PaneId { value: value.to_owned() })
    }

    pub fn as_str(&self) -> (r: &str)
        ensures
            r@ == self@,
    {
        self.value.as_str()
    }

    pub fn same_as(&self, other: &PaneId) -> (r: bool)
        ensures
            r == (self@ == other@),
    {
        text_equal(&self.value, &other.value)
    }
}

/// Exact tmux client identity that invoked the popup.
#[derive(Debug, PartialEq, Eq, PartialOrd, Ord, Hash)]
pub struct ClientId {
    value: String,
}

impl View for ClientId {
    type V = Seq<char>;

    closed spec fn view(&self) -> Seq<char> {
        self.value@
    }
}

impl Clone for ClientId {
    fn clone(&self) -> (r: Self)
        ensures
            r@ == self@,
    {
        ClientId { value: self.value.clone() }
    }
}

impl ClientId {
    /// Accepts any text that is not blank.
    pub fn new(value: &str) -> (r: Result<ClientId, MuxError>)
        ensures
            match r {
                Ok(id) => !scan::is_blank(value@) && id@ == value@,
                Err(e) => scan::is_blank(value@) && e@ == (ErrorModel::InvalidValue {
                    field: "client ID"@,
                    message: "must not be empty"@,
                }),
            },
    {
        if blank(value) {
            return Err(invalid_value("client ID", "must not be empty"));
        }
        Ok(ClientId { value: value.to_owned() })
    }

    pub fn as_str(&self) -> (r: &str)
        ensures
            r@ == self@,
    {
        self.value.as_str()
    }

    pub fn same_as(&self, other: &ClientId) -> (r: bool)
        ensures
            r == (self@ == other@),
    {
        text_equal(&self.value, &other.value)
    }
}

/// Stable tmux session identity used for new windows.
#[derive(Debug, PartialEq, Eq, PartialOrd, Ord, Hash)]
pub struct SessionId {
    value: String,
}

impl View for SessionId {
    type V = Seq<char>;

    closed spec fn view(&self) -> Seq<char> {
        self.value@
    }
}

impl Clone for SessionId {
    fn clone(&self) -> (r: Self)
        ensures
            r@ == self@,
    {
        SessionId { value: self.value.clone() }
    }
}

impl SessionId {
    /// Accepts any text that is not blank.
    pub fn new(value: &str) -> (r: Result<SessionId, MuxError>)
        ensures
            match r {
                Ok(id) => !scan::is_blank(value@) && id@ == value@,
                Err(e) => scan::is_blank(value@) && e@ == (ErrorModel::InvalidValue {
                    field: "session ID"@,
                    message: "must not be empty"@,
                }),
            },
    {
        if blank(value) {
            return Err(invalid_value("session ID", "must not be empty"));
        }
        Ok(SessionId { value: value.to_owned() })
    }

    pub fn as_str(&self) -> (r: &str)
        ensures
            r@ == self@,
    {
        self.value.as_str()
    }

    pub fn same_as(&self, other: &SessionId) -> (r: bool)
        ensures
            r == (self@ == other@),
    {
        text_equal(&self.value, &other.value)
    }
}

/// Stable tmux window identity used for adjacent window creation.
#[derive(Debug, PartialEq, Eq, PartialOrd, Ord, Hash)]
pub struct WindowId {
    value: String,
}

impl View for WindowId {
    type V = Seq<char>;

    closed spec fn view(&self) -> Seq<char> {
        self.value@
    }
}

impl Clone for WindowId {
    fn clone(&self) -> (r: Self)
        ensures
            r@ == self@,
    {
        WindowId { value: self.value.clone() }
    }
}

impl WindowId {
    /// Accepts any text that is not blank.
    pub fn new(value: &str) -> (r: Result<WindowId, MuxError>)
        ensures
            match r {
                Ok(id) => !scan::is_blank(value@) && id@ == value@,
                Err(e) => scan::is_blank(value@) && e@ == (ErrorModel::InvalidValue {
                    field: "window ID"@,
                    message: "must not be empty"@,
                }),
            },
    {
        if blank(value) {
            return Err(invalid_value("window ID", "must not be empty"));
        }
        Ok(WindowId { value: value.to_owned() })
    }

    pub fn as_str(&self) -> (r: &str)
        ensures
            r@ == self@,
    {
        self.value.as_str()
    }

    pub fn same_as(&self, other: &WindowId) -> (r: bool)
        ensures
            r == (self@ == other@),
    {
        text_equal(&self.value, &other.value)
    }
}

/// The session inside an optional session identity.
pub open spec fn session_view(o: Option<SessionId>) -> Option<Seq<char>> {
    match o {
        Some(id) => Some(id@),
        None => None,
    }
}

/// An absolute executable path used for Codex discovery and launches.
#[derive(Debug, PartialEq, Eq)]
pub struct CodexExecutable {
    location: UnixPath,
}

impl View for CodexExecutable {
    type V = Seq<u8>;

    closed spec fn view(&self) -> Seq<u8> {
        self.location@
    }
}

impl Clone for CodexExecutable {
    fn clone(&self) -> (r: Self)
        ensures
            r@ == self@,
    {
        CodexExecutable { location: self.location.clone() }
    }
}

impl CodexExecutable {
    /// Accepts any absolute path.
    pub fn new(location: UnixPath) -> (r: Result<CodexExecutable, MuxError>)
        ensures
            match r {
                Ok(executable) => path::is_absolute(location@) && executable@ == location@,
                Err(e) => !path::is_absolute(location@) && e@ == (ErrorModel::InvalidValue {
                    field: "Codex executable"@,
                    message: "must be an absolute path"@,
                }),
            },
    {
        if location.is_empty() || !location.is_absolute() {
            return Err(invalid_value("Codex executable", "must be an absolute path"));
        }
        Ok(CodexExecutable { location })
    }

    pub fn as_path(&self) -> (r: &UnixPath)
        ensures
            r@ == self@,
    {
        &self.location
    }
}

/// Progress of an explicit automatic-name request.
#[derive(Clone, Copy, Debug, PartialEq, Eq, Structural)]
pub enum AutoNameStatus {
    RecoveringIdentity,
    Queued,
    Generating,
    Succeeded,
}

/// A discoverable Codex pane and the data allowed in the visible row.
#[derive(Debug)]
pub struct Pane {
    /// Stable target, never rendered as row text.
    pub id: PaneId,
    /// Session that owns this pane.
    pub session_id: SessionId,
    /// Codex thread title exposed through the tmux pane title.
    pub title: Option<String>,
    /// Generated title, when the tmux ownership marker is valid.
    pub generated_title: Option<String>,
    /// Exact thread identity that owns the generated title metadata.
    pub generated_thread_id: Option<String>,
    /// Whether the live Codex title itself proves that thread identity.
    pub generated_source_stable: bool,
    /// Unix time of the last successful title generation.
    pub generated_at_unix: Option<u64>,
    /// A pane-local request to refresh the generated title at once.
    pub immediate_naming: bool,
    /// A user-owned pane title that generated names never replace.
    pub manual_name: bool,
    /// Codex thread title retained while a pane is manually named.
    pub manual_name_source: Option<String>,
    /// Pane leader captured when the manual name was saved.
    pub manual_name_pid: Option<u32>,
    /// Exact pane-local PID metadata, kept for stale-action guards.
    pub manual_name_pid_raw: String,
    /// Session captured when the manual name was saved.
    pub manual_name_session: Option<SessionId>,
    /// Exact pane-local session metadata, kept for stale-action guards.
    pub manual_name_session_raw: String,
    /// A source-less unpin that waits for a changed thread title.
    pub unpin_waiting: bool,
    /// Manual title captured before a source-less unpin.
    pub unpin_waiting_title: Option<String>,
    /// Pane leader captured before a source-less unpin.
    pub unpin_waiting_pid: Option<u32>,
    /// Session captured before a source-less unpin.
    pub unpin_waiting_session: Option<SessionId>,
    /// Stage of an explicit automatic-name request.
    pub auto_name_status: Option<AutoNameStatus>,
    /// Unix time in nanoseconds at which that request started.
    pub auto_name_started_at_unix_nanos: Option<u64>,
    /// Token that tells that request from superseded ones.
    pub auto_name_token: Option<String>,
    /// Live pane leader, used to reject stale actions.
    pub pane_pid: u32,
    /// Current working directory exposed by tmux.
    pub current_path: UnixPath,
}

/// The visible title of a pane: its generated title, else its thread title,
/// trimmed; where that is empty, the name of its directory; else `unnamed`.
pub open spec fn visible_title(
    generated: Option<Seq<char>>,
    title: Option<Seq<char>>,
    directory: Seq<u8>,
) -> Seq<char> {
    let chosen = if generated is Some {
        generated
    } else {
        title
    };
    if chosen is Some && !scan::is_blank(chosen->0) {
        scan::trimmed(chosen->0)
    } else {
        match path::file_name(directory) {
            Some(name) => text::lossy_text(name),
            None => "unnamed"@,
        }
    }
}

impl Pane {
    pub fn display_title(&self) -> (r: String)
        ensures
            r@ == visible_title(
                text::option_view(self.generated_title),
                text::option_view(self.title),
                self.current_path@,
            ),
    {
        let chosen: Option<String> = match &self.generated_title {
            Some(title) => Some(title.clone()),
            None => text::clone_option_text(&self.title),
        };
        if let Some(title) = &chosen {
            if !blank(title) {
                return trim(title);
            }
        }
        match self.current_path.file_name() {
            Some(name) => text::utf8_lossy(&name),
            None => "unnamed".to_owned(),
        }
    }
}

/// Context supplied by the tmux binding for client-scoped operations.
#[derive(Clone, Debug)]
pub struct InvocationContext {
    /// Exact invoking tmux client.
    pub client_id: ClientId,
    /// Pane from which the popup was opened.
    pub pane_id: PaneId,
    /// Session in which new windows are created.
    pub session_id: SessionId,
    /// Window after which new windows are inserted.
    pub window_id: WindowId,
    /// Working directory where no pane is selected.
    pub current_path: UnixPath,
}

/// Tmux evidence used to select candidate processes for a pane.
#[derive(Debug)]
pub struct PaneProcess {
    pub pid: u32,
    pub tty: UnixPath,
}

/// Stable identity of the exact process that satisfied a pane match.
#[derive(Clone, Copy, Debug, PartialEq, Eq, Structural)]
pub struct ProcessMatchIdentity {
    pub pid: u32,
    /// Kernel start time, which tells a reused PID apart.
    pub start_time: u64,
}

/// Terminal dimensions used to select a layout.
#[derive(Clone, Copy, Debug, PartialEq, Eq, Structural)]
pub struct TerminalSize {
    pub width: u16,
    pub height: u16,
}

impl TerminalSize {
    pub open spec fn compact(self) -> bool {
        self.width < 90 || self.height < 28
    }

    /// Whether the popup takes the whole screen.
    pub fn is_compact(self) -> (r: bool)
        ensures
            r == self.compact(),
    {
        self.width < 90 || self.height < 28
    }
}

/// Built-in visual profile.
#[derive(Clone, Copy, Debug, PartialEq, Eq, Structural)]
pub enum ThemeId {
    AdaptiveCyan,
    BlueCommandPalette,
    AmberOperator,
    EmberOrange,
    Monochrome,
}

impl Default for ThemeId {
    fn default() -> (r: ThemeId)
        ensures
            r == ThemeId::AdaptiveCyan,
    {
        ThemeId::AdaptiveCyan
    }
}

impl ThemeId {
    /// All themes in picker order.
    pub const ALL: [ThemeId; 5] = [
        ThemeId::AdaptiveCyan,
        ThemeId::BlueCommandPalette,
        ThemeId::AmberOperator,
        ThemeId::EmberOrange,
        ThemeId::Monochrome,
    ];

    /// Stable configuration name.
    pub open spec fn name(self) -> Seq<char> {
        match self {
            ThemeId::AdaptiveCyan => "adaptive-cyan"@,
            ThemeId::BlueCommandPalette => "blue-command-palette"@,
            ThemeId::AmberOperator => "amber-operator"@,
            ThemeId::EmberOrange => "ember-orange"@,
            ThemeId::Monochrome => "monochrome"@,
        }
    }

    pub fn as_str(self) -> (r: &'static str)
        ensures
            r@ == self.name(),
    {
        match self {
            ThemeId::AdaptiveCyan => "adaptive-cyan",
            ThemeId::BlueCommandPalette => "blue-command-palette",
            ThemeId::AmberOperator => "amber-operator",
            ThemeId::EmberOrange => "ember-orange",
            ThemeId::Monochrome => "monochrome",
        }
    }

    /// The theme with a given configuration name.
    pub fn from_str(value: &str) -> (r: Result<ThemeId, MuxError>)
        ensures
            match r {
                Ok(theme) => theme.name() == value@,
                Err(e) => (forall|theme: ThemeId| #[trigger] theme.name() != value@) && e@ == (
                ErrorModel::InvalidValue {
                    field: "theme"@,
                    message: "unknown profile "@ + text::debug_text(value@),
                }),
            },
    {
        if text_equal(value, "adaptive-cyan") {
            Ok(ThemeId::AdaptiveCyan)
        } else if text_equal(value, "blue-command-palette") {
            Ok(ThemeId::BlueCommandPalette)
        } else if text_equal(value, "amber-operator") {
            Ok(ThemeId::AmberOperator)
        } else if text_equal(value, "ember-orange") {
            Ok(ThemeId::EmberOrange)
        } else if text_equal(value, "monochrome") {
            Ok(ThemeId::Monochrome)
        } else {
            let mut message = "unknown profile ".to_owned();
            message.append(&text::debug_quoted(value));
            Err(invalid_value("theme", &message))
        }
    }
}

/// Two themes with the same name are the same theme, so reading the name of a
/// theme gives that theme back.
pub proof fn theme_names_are_distinct(a: ThemeId, b: ThemeId)
    ensures
        a.name() == b.name() ==> a == b,
{
    reveal_strlit("adaptive-cyan");
    reveal_strlit("blue-command-palette");
    reveal_strlit("amber-operator");
    reveal_strlit("ember-orange");
    reveal_strlit("monochrome");
    if a.name() == b.name() {
        assert(a.name().len() == b.name().len());
        assert(a.name()[0] == b.name()[0]);
    }
}

impl std::str::FromStr for ThemeId {
    type Err = MuxError;

    fn from_str(value: &str) -> Result<ThemeId, MuxError> {
        ThemeId::from_str(value)
    }
}

// ---------------------------------------------------------------------------
// Boundaries
// ---------------------------------------------------------------------------

/// Raw output from an executed tmux command.
#[derive(Clone, Debug, PartialEq, Eq)]
pub struct CommandOutput {
    pub stdout: Vec<u8>,
    pub stderr: Vec<u8>,
    /// Exit code, or `None` when terminated by a signal.
    pub status: Option<i32>,
}

/// What a finished command left behind.
#[verifier::ext_equal]
pub struct OutputModel {
    pub stdout: Seq<u8>,
    pub stderr: Seq<u8>,
    pub status: Option<i32>,
}

impl View for CommandOutput {
    type V = OutputModel;

    open spec fn view(&self) -> OutputModel {
        OutputModel { stdout: self.stdout@, stderr: self.stderr@, status: self.status }
    }
}

/// One request to tmux and its reply.
#[verifier::ext_equal]
pub struct Exchange {
    pub request: Seq<Seq<u8>>,
    pub reply: Result<OutputModel, ErrorModel>,
}

pub open spec fn reply_model(r: Result<CommandOutput, MuxError>) -> Result<
    OutputModel,
    ErrorModel,
> {
    match r {
        Ok(output) => Ok(output@),
        Err(e) => Err(e@),
    }
}

/// Boundary for invoking tmux without shell interpolation.
pub trait TmuxCommandRunner {
    /// Executes tmux with an argument vector.
    fn run(&mut self, arguments: &Vec<Vec<u8>>) -> Result<CommandOutput, MuxError>;
}

/// A runner together with everything that went through it.
pub struct LoggedRunner<R> {
    inner: R,
    log: Ghost<Seq<Exchange>>,
}

impl<R: TmuxCommandRunner> LoggedRunner<R> {
    pub closed spec fn wrapped(&self) -> R {
        self.inner
    }

    /// What is wrapped.
    pub fn inner(&self) -> (r: &R)
        ensures
            *r == self.wrapped(),
    {
        &self.inner
    }

    /// Every request made through this runner so far, with its reply.
    pub closed spec fn history(&self) -> Seq<Exchange> {
        self.log@
    }

    pub fn new(inner: R) -> (r: Self)
        ensures
            r.wrapped() == inner,
            r.history() == Seq::<Exchange>::empty(),
    {
        LoggedRunner { inner, log: Ghost(Seq::empty()) }
    }

    /// Executes tmux with an argument vector.
    pub fn run(&mut self, arguments: &Vec<Vec<u8>>) -> (r: Result<CommandOutput, MuxError>)
        ensures
            final(self).history() == old(self).history().push(
                Exchange { request: text::words(arguments@), reply: reply_model(r) },
            ),
    {
        let r = self.inner.run(arguments);
        self.log = Ghost(
            self.log@.push(Exchange { request: text::words(arguments@), reply: reply_model(r) }),
        );
        r
    }
}

/// What the process table answered.
pub enum Inspection {
    /// The foreground executable of each pane leader, where one was found.
    Foreground { pids: Seq<u32>, found: Seq<Option<Seq<u8>>> },
    /// Each path with its symbolic links resolved, where it resolves.
    Canonical { paths: Seq<Seq<u8>>, resolved: Seq<Option<Seq<u8>>> },
}

/// The path inside an optional path.
pub open spec fn path_view(o: Option<UnixPath>) -> Option<Seq<u8>> {
    match o {
        Some(p) => Some(p@),
        None => None,
    }
}

pub open spec fn paths_view(v: Seq<Option<UnixPath>>) -> Seq<Option<Seq<u8>>> {
    Seq::new(v.len(), |i: int| path_view(v[i]))
}

pub open spec fn path_list(v: Seq<UnixPath>) -> Seq<Seq<u8>> {
    Seq::new(v.len(), |i: int| v[i]@)
}

/// Boundary for foreground-process discovery.
pub trait ProcessInspector {
    /// Resolves the foreground executable of each pane leader, `None` for one
    /// that has none or cannot be inspected.
    fn foreground_executables(&mut self, pane_pids: &Vec<u32>) -> Vec<Option<UnixPath>>;

    /// Resolves the symbolic links of each path, `None` for one that does not
    /// resolve.
    fn canonical_paths(&mut self, paths: &Vec<UnixPath>) -> Vec<Option<UnixPath>>;
}

/// An inspector together with everything that it answered.
pub struct LoggedInspector<I> {
    inner: I,
    log: Ghost<Seq<Inspection>>,
}

impl<I: ProcessInspector> LoggedInspector<I> {
    pub closed spec fn wrapped(&self) -> I {
        self.inner
    }

    /// What is wrapped.
    pub fn inner(&self) -> (r: &I)
        ensures
            *r == self.wrapped(),
    {
        &self.inner
    }

    /// Everything this inspector has answered so far.
    pub closed spec fn answers(&self) -> Seq<Inspection> {
        self.log@
    }

    pub fn new(inner: I) -> (r: Self)
        ensures
            r.wrapped() == inner,
            r.answers() == Seq::<Inspection>::empty(),
    {
        LoggedInspector { inner, log: Ghost(Seq::empty()) }
    }

    pub fn foreground_executables(&mut self, pane_pids: &Vec<u32>) -> (r: Vec<Option<UnixPath>>)
        ensures
            final(self).answers() == old(self).answers().push(
                Inspection::Foreground { pids: pane_pids@, found: paths_view(r@) },
            ),
    {
        let r = self.inner.foreground_executables(pane_pids);
        self.log = Ghost(
            self.log@.push(Inspection::Foreground { pids: pane_pids@, found: paths_view(r@) }),
        );
        r
    }

    pub fn canonical_paths(&mut self, paths: &Vec<UnixPath>) -> (r: Vec<Option<UnixPath>>)
        ensures
            final(self).answers() == old(self).answers().push(
                Inspection::Canonical { paths: path_list(paths@), resolved: paths_view(r@) },
            ),
    {
        let r = self.inner.canonical_paths(paths);
        self.log = Ghost(
            self.log@.push(
                Inspection::Canonical { paths: path_list(paths@), resolved: paths_view(r@) },
            ),
        );
        r
    }
}

/// Read and write boundary for the saved theme preference.
pub trait ThemeStore {
    /// Loads a saved theme, `None` when no preference exists.
    fn load(&mut self) -> Result<Option<ThemeId>, MuxError>;

    /// Persists a selected theme.
    fn save(&mut self, theme: ThemeId) -> Result<(), MuxError>;
}

} // verus!
