//! What can go wrong while host files are managed. Every failure leaves them as they
//! were, but for those that are described otherwise.

use vstd::prelude::*;
use crate::path::UnixPath;
use crate::text;

verus! {

#[derive(Debug)]
pub enum InstallError {
    /// Discovery did not produce one unambiguous user file.
    Discovery(String),
    /// The selected path is not a safe writable regular file.
    UnsafePath { path: UnixPath, reason: String },
    /// The marker structure is partial, duplicated, nested or malformed.
    Markers(String),
    /// A value cannot be represented safely. Where the field is the rollback of the shell
    /// configuration, startup files were changed and not all of them could be restored.
    InvalidValue { field: &'static str, reason: String },
    /// A filesystem operation failed at a known path.
    Filesystem { path: UnixPath, source: String },
    /// The running tmux server could not be asked or prepared, and nothing was written.
    ServerFailed { path: UnixPath, message: String },
    /// The file was written, but the running tmux server was not synchronized.
    ReloadFailed { path: UnixPath, message: String },
    /// The file was written, but not durably, and could not be put back: what it was to
    /// hold is still in place.
    NotRestored { path: UnixPath, source: String, rollback: String },
}

/// What a failure says.
#[verifier::ext_equal]
pub enum FailureModel {
    Discovery(Seq<char>),
    UnsafePath { path: Seq<u8>, reason: Seq<char> },
    Markers(Seq<char>),
    InvalidValue { field: Seq<char>, reason: Seq<char> },
    Filesystem { path: Seq<u8>, source: Seq<char> },
    ServerFailed { path: Seq<u8>, message: Seq<char> },
    ReloadFailed { path: Seq<u8>, message: Seq<char> },
    NotRestored { path: Seq<u8>, source: Seq<char>, rollback: Seq<char> },
}

impl View for InstallError {
    type V = FailureModel;

    open spec fn view(&self) -> FailureModel {
        match self {
            InstallError::Discovery(detail) => FailureModel::Discovery(detail@),
            InstallError::UnsafePath { path, reason } => FailureModel::UnsafePath {
                path: path@,
                reason: reason@,
            },
            InstallError::Markers(detail) => FailureModel::Markers(detail@),
            InstallError::InvalidValue { field, reason } => FailureModel::InvalidValue {
                field: field@,
                reason: reason@,
            },
            InstallError::Filesystem { path, source } => FailureModel::Filesystem {
                path: path@,
                source: source@,
            },
            InstallError::ServerFailed { path, message } => FailureModel::ServerFailed {
                path: path@,
                message: message@,
            },
            InstallError::ReloadFailed { path, message } => FailureModel::ReloadFailed {
                path: path@,
                message: message@,
            },
            InstallError::NotRestored { path, source, rollback } => FailureModel::NotRestored {
                path: path@,
                source: source@,
                rollback: rollback@,
            },
        }
    }
}

/// The text shown for a failure.
pub open spec fn failure_text(e: FailureModel) -> Seq<char> {
    match e {
        FailureModel::Discovery(detail) => "configuration discovery failed: "@ + detail,
        FailureModel::UnsafePath { path, reason } => "unsafe configuration "@ + text::lossy_text(
            path,
        ) + ": "@ + reason,
        FailureModel::Markers(detail) => "malformed codex-mux marker block: "@ + detail,
        FailureModel::InvalidValue { field, reason } => "invalid "@ + field + ": "@ + reason,
        FailureModel::Filesystem { path, source } => "filesystem operation failed for "@
            + text::lossy_text(path) + ": "@ + source,
        FailureModel::ServerFailed { path, message } => "could not synchronize running tmux with "@
            + text::lossy_text(path) + ": "@ + message,
        FailureModel::ReloadFailed { path, message } => "could not synchronize running tmux with "@
            + text::lossy_text(path) + ": "@ + message,
        FailureModel::NotRestored { path, source, rollback } => text::lossy_text(path)
            + " was changed and could not be restored: "@ + source + "; "@ + rollback,
    }
}

impl InstallError {
    /// The text shown to the user.
    pub fn to_text(&self) -> (r: String)
        ensures
            r@ == failure_text(self@),
    {
        match self {
            InstallError::Discovery(detail) => {
                let mut s = "configuration discovery failed: ".to_owned();
                s.append(detail);
                s
            },
            InstallError::UnsafePath { path, reason } => {
                let mut s = "unsafe configuration ".to_owned();
                s.append(&path.display());
                s.append(": ");
                s.append(reason);
                s
            },
            InstallError::Markers(detail) => {
                let mut s = "malformed codex-mux marker block: ".to_owned();
                s.append(detail);
                s
            },
            InstallError::InvalidValue { field, reason } => {
                let mut s = "invalid ".to_owned();
                s.append(field);
                s.append(": ");
                s.append(reason);
                s
            },
            InstallError::Filesystem { path, source } => {
                let mut s = "filesystem operation failed for ".to_owned();
                s.append(&path.display());
                s.append(": ");
                s.append(source);
                s
            },
            InstallError::ServerFailed { path, message } => {
                let mut s = "could not synchronize running tmux with ".to_owned();
                s.append(&path.display());
                s.append(": ");
                s.append(message);
                s
            },
            InstallError::ReloadFailed { path, message } => {
                let mut s = "could not synchronize running tmux with ".to_owned();
                s.append(&path.display());
                s.append(": ");
                s.append(message);
                s
            },
            InstallError::NotRestored { path, source, rollback } => {
                let mut s = path.display();
                s.append(" was changed and could not be restored: ");
                s.append(source);
                s.append("; ");
                s.append(rollback);
                s
            },
        }
    }
}

pub open spec fn is_reload_failure(e: FailureModel) -> bool {
    e is ReloadFailed
}

/// A failure that says that the file was written.
pub open spec fn says_written(e: FailureModel) -> bool {
    e is ReloadFailed || e is NotRestored
}

/// A failure of one operation on a file: it is never taken for one that says what the
/// whole change came to.
pub open spec fn of_the_file(e: FailureModel) -> FailureModel {
    match e {
        FailureModel::ReloadFailed { path, message } => FailureModel::Filesystem {
            path,
            source: message,
        },
        FailureModel::NotRestored { path, source, .. } => FailureModel::Filesystem {
            path,
            source,
        },
        _ => e,
    }
}

pub fn file_failure(e: InstallError) -> (r: InstallError)
    ensures
        r@ == of_the_file(e@),
{
    match e {
        InstallError::ReloadFailed { path, message } => InstallError::Filesystem {
            path,
            source: message,
        },
        InstallError::NotRestored { path, source, .. } => InstallError::Filesystem {
            path,
            source,
        },
        other => other,
    }
}

pub fn marker_failure(detail: &str) -> (r: InstallError)
    ensures
        r@ == FailureModel::Markers(detail@),
{
    InstallError::Markers(detail.to_owned())
}

pub fn value_failure(field: &'static str, reason: &str) -> (r: InstallError)
    ensures
        r@ == (FailureModel::InvalidValue { field: field@, reason: reason@ }),
{
    InstallError::InvalidValue { field, reason: reason.to_owned() }
}

pub fn unsafe_path(path: &UnixPath, reason: &str) -> (r: InstallError)
    ensures
        r@ == (FailureModel::UnsafePath { path: path@, reason: reason@ }),
{
    InstallError::UnsafePath { path: path.clone(), reason: reason.to_owned() }
}

/// A result as contracts speak of it: the failure by what it says.
pub open spec fn outcome<T>(r: Result<T, InstallError>) -> Result<T, FailureModel> {
    match r {
        Ok(value) => Ok(value),
        Err(e) => Err(e@),
    }
}

/// What the file system said of a host path, symbolic links not followed.
#[derive(Debug)]
pub enum PathFacts {
    /// Its metadata could not be read, and why.
    Unreadable(String),
    Symlink,
    /// Neither a regular file nor a symbolic link.
    Other,
    Regular { mode: u32 },
}

/// Why a host file is not touched.
pub open spec fn path_problem(path: Seq<u8>, facts: PathFacts) -> Option<FailureModel> {
    match facts {
        PathFacts::Unreadable(source) => Some(
            FailureModel::UnsafePath { path, reason: source@ },
        ),
        PathFacts::Symlink => Some(
            FailureModel::UnsafePath { path, reason: "symbolic links are refused"@ },
        ),
        PathFacts::Other => Some(
            FailureModel::UnsafePath { path, reason: "not a regular file"@ },
        ),
        PathFacts::Regular { mode } => if mode & 0x80 == 0 {
            Some(FailureModel::UnsafePath { path, reason: "owner write bit is not set"@ })
        } else {
            None
        },
    }
}

/// Accepts a regular file that its owner may write; the result is its mode.
pub fn validate_regular_writable(path: &UnixPath, facts: &PathFacts) -> (r: Result<
    u32,
    InstallError,
>)
    ensures
        match r {
            Ok(mode) => path_problem(path@, *facts) is None && *facts == (PathFacts::Regular {
                mode,
            }),
            Err(e) => path_problem(path@, *facts) == Some(e@),
        },
{
    match facts {
        PathFacts::Unreadable(source) => Err(unsafe_path(path, source)),
        PathFacts::Symlink => Err(unsafe_path(path, "symbolic links are refused")),
        PathFacts::Other => Err(unsafe_path(path, "not a regular file")),
        PathFacts::Regular { mode } => if *mode & 0x80 == 0 {
            Err(unsafe_path(path, "owner write bit is not set"))
        } else {
            Ok(*mode)
        },
    }
}

/// A replacement that failed, and whether the new bytes were already in place.
#[derive(Debug)]
pub struct AtomicReplaceFailure {
    error: InstallError,
    committed: bool,
}

impl AtomicReplaceFailure {
    pub closed spec fn is_committed(&self) -> bool {
        self.committed
    }

    pub closed spec fn cause(&self) -> FailureModel {
        self.error@
    }

    pub fn new(error: InstallError, committed: bool) -> (r: Self)
        ensures
            r.is_committed() == committed,
            r.cause() == error@,
    {
        AtomicReplaceFailure { error, committed }
    }

    pub fn committed(&self) -> (r: bool)
        ensures
            r == self.is_committed(),
    {
        self.committed
    }

    pub fn into_error(self) -> (r: InstallError)
        ensures
            r@ == self.cause(),
    {
        self.error
    }
}

} // verus!
