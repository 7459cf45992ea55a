//! Shared error values.

use vstd::prelude::*;
use crate::path::UnixPath;
use crate::text;

verus! {

/// Errors produced by domain rules and by the adapters around them.
#[derive(Debug)]
pub enum MuxError {
    /// A required identifier or path did not satisfy a domain invariant.
    InvalidValue { field: &'static str, message: String },
    /// A filesystem operation failed for a known path.
    Filesystem { path: UnixPath, source: String },
    /// A child process could not be launched or completed unsuccessfully.
    Command(String),
    /// A launch committed, but the invoking tmux client could not be selected.
    CreatedPaneNotSelected { pane: String, detail: String },
    /// Cooperative cancellation interrupted an in-flight operation.
    Cancelled,
    /// The requested surface exists in the command line but is not wired.
    Unavailable(&'static str),
}

/// What an error says.
#[verifier::ext_equal]
pub enum ErrorModel {
    InvalidValue { field: Seq<char>, message: Seq<char> },
    Filesystem { path: Seq<u8>, source: Seq<char> },
    Command(Seq<char>),
    CreatedPaneNotSelected { pane: Seq<char>, detail: Seq<char> },
    Cancelled,
    Unavailable(Seq<char>),
}

impl View for MuxError {
    type V = ErrorModel;

    open spec fn view(&self) -> ErrorModel {
        match self {
            MuxError::InvalidValue { field, message } => ErrorModel::InvalidValue {
                field: field@,
                message: message@,
            },
            MuxError::Filesystem { path, source } => ErrorModel::Filesystem {
                path: path@,
                source: source@,
            },
            MuxError::Command(text) => ErrorModel::Command(text@),
            MuxError::CreatedPaneNotSelected { pane, detail } => {
                ErrorModel::CreatedPaneNotSelected { pane: pane@, detail: detail@ }
            },
            MuxError::Cancelled => ErrorModel::Cancelled,
            MuxError::Unavailable(text) => ErrorModel::Unavailable(text@),
        }
    }
}

/// The text shown for an error.
pub open spec fn error_text(e: ErrorModel) -> Seq<char> {
    match e {
        ErrorModel::InvalidValue { field, message } => "invalid "@ + field + ": "@ + message,
        ErrorModel::Filesystem { path, source } => "filesystem operation failed for "@ + text::lossy_text(
            path,
        ) + ": "@ + source,
        ErrorModel::Command(detail) => "command failed: "@ + detail,
        ErrorModel::CreatedPaneNotSelected { pane, detail } => "created Codex pane "@ + pane
            + ", but could not select it: "@ + detail,
        ErrorModel::Cancelled => "operation cancelled"@,
        ErrorModel::Unavailable(name) => name + " is not available in this bootstrap build"@,
    }
}

impl MuxError {
    /// The text shown to the user.
    pub fn to_text(&self) -> (r: String)
        ensures
            r@ == error_text(self@),
    {
        match self {
            MuxError::InvalidValue { field, message } => {
                let mut s = "invalid ".to_owned();
                s.append(field);
                s.append(": ");
                s.append(message);
                s
            },
            MuxError::Filesystem { path, source } => {
                let mut s = "filesystem operation failed for ".to_owned();
                s.append(&path.display());
                s.append(": ");
                s.append(source);
                s
            },
            MuxError::Command(text) => {
                let mut s = "command failed: ".to_owned();
                s.append(text);
                s
            },
            MuxError::CreatedPaneNotSelected { pane, detail } => {
                let mut s = "created Codex pane ".to_owned();
                s.append(pane);
                s.append(", but could not select it: ");
                s.append(detail);
                s
            },
            MuxError::Cancelled => "operation cancelled".to_owned(),
            MuxError::Unavailable(text) => {
                let mut s = (*text).to_owned();
                s.append(" is not available in this bootstrap build");
                s
            },
        }
    }
}

pub fn command_error(message: &str) -> (r: MuxError)
    ensures
        r@ == ErrorModel::Command(message@),
{
    MuxError::Command(message.to_owned())
}

pub fn invalid_value(field: &'static str, message: &str) -> (r: MuxError)
    ensures
        r@ == (ErrorModel::InvalidValue { field: field@, message: message@ }),
{
    MuxError::InvalidValue { field, message: message.to_owned() }
}

/// A result as contracts speak of it: the error by what it says.
pub open spec fn outcome<T>(r: Result<T, MuxError>) -> Result<T, ErrorModel> {
    match r {
        Ok(value) => Ok(value),
        Err(error) => Err(error@),
    }
}

} // verus!
