//! Writing host files so that a failure never leaves half of one: the new bytes go
//! to a file of their own, which then takes the place of the old one in one step.
//!
//! Each operation on the file system is one call of the boundary. The record of the
//! calls and their answers decides what an operation comes to.

use vstd::prelude::*;
use crate::config;
use crate::config::XdgThemeStore;
use crate::error;
use crate::error::{command_error, invalid_value, ErrorModel, MuxError};
use crate::files::HostFiles;
use crate::install::discover;
use crate::install::discover::{backup_path, backup_refused, BACKUP_ATTEMPTS};
use crate::install::failure::{
    unsafe_path, AtomicReplaceFailure, FailureModel, InstallError,
};
use crate::path;
use crate::path::UnixPath;
use crate::step_log::LoggedSteps;
use crate::text;

verus! {

/// The mode that a new file is opened with where its mode is set afterwards.
pub const NEW_FILE_MODE: u32 = 0o666;

/// The mode of the saved settings.
pub const SETTINGS_MODE: u32 = 0o600;

/// What came of creating a file that must not be there yet.
#[derive(Debug)]
pub enum Creation {
    Created,
    /// The name is taken; the text of the failure.
    Exists(String),
    Failed(String),
}

#[verifier::ext_equal]
pub enum CreationModel {
    Created,
    Exists(Seq<char>),
    Failed(Seq<char>),
}

impl View for Creation {
    type V = CreationModel;

    open spec fn view(&self) -> CreationModel {
        match self {
            Creation::Created => CreationModel::Created,
            Creation::Exists(detail) => CreationModel::Exists(detail@),
            Creation::Failed(detail) => CreationModel::Failed(detail@),
        }
    }
}

/// What came of deleting a file.
#[derive(Debug)]
pub enum Removal {
    Removed,
    Missing,
    Failed(String),
}

#[verifier::ext_equal]
pub enum RemovalModel {
    Removed,
    Missing,
    Failed(Seq<char>),
}

impl View for Removal {
    type V = RemovalModel;

    open spec fn view(&self) -> RemovalModel {
        match self {
            Removal::Removed => RemovalModel::Removed,
            Removal::Missing => RemovalModel::Missing,
            Removal::Failed(detail) => RemovalModel::Failed(detail@),
        }
    }
}

/// Boundary for single operations on the file system. A failure is the text of it.
pub trait FileSteps {
    /// A text that no other temporary file of this moment carries.
    fn nonce(&mut self) -> String;

    /// Creates a directory and those above it.
    fn make_directories(&mut self, path: &UnixPath) -> Result<(), String>;

    /// Creates a file that is not there yet, and keeps it open for writing.
    fn create(&mut self, path: &UnixPath, mode: u32) -> Creation;

    /// Sets the permissions of the open file.
    fn set_mode(&mut self, mode: u32) -> Result<(), String>;

    /// Writes to the open file.
    fn write(&mut self, bytes: &Vec<u8>) -> Result<(), String>;

    /// Brings the open file to the disk.
    fn sync(&mut self) -> Result<(), String>;

    /// Gives a file another name, in place of what has that name.
    fn rename(&mut self, from: &UnixPath, to: &UnixPath) -> Result<(), String>;

    /// Brings a directory to the disk.
    fn sync_directory(&mut self, path: &UnixPath) -> Result<(), String>;

    /// Deletes a file.
    fn remove(&mut self, path: &UnixPath) -> Removal;
}

/// One operation and its answer.
#[verifier::ext_equal]
pub enum StepEvent {
    Nonce(Seq<char>),
    Directories { path: Seq<u8>, reply: Result<(), Seq<char>> },
    Create { path: Seq<u8>, mode: u32, reply: CreationModel },
    SetMode { mode: u32, reply: Result<(), Seq<char>> },
    Write { bytes: Seq<u8>, reply: Result<(), Seq<char>> },
    Sync(Result<(), Seq<char>>),
    Rename { from: Seq<u8>, to: Seq<u8>, reply: Result<(), Seq<char>> },
    SyncDirectory { path: Seq<u8>, reply: Result<(), Seq<char>> },
    Remove { path: Seq<u8>, reply: RemovalModel },
}

/// An answer as contracts speak of it.
pub open spec fn said(r: Result<(), String>) -> Result<(), Seq<char>> {
    match r {
        Ok(_) => Ok(()),
        Err(detail) => Err(detail@),
    }
}

/// A record begins with another.
pub open spec fn agrees(w: Seq<StepEvent>, log: Seq<StepEvent>) -> bool {
    &&& log.len() <= w.len()
    &&& forall|i: int| 0 <= i < log.len() ==> #[trigger] w[i] == log[i]
}

// ---------------------------------------------------------------------------
// What a record says from a place on: the result, and the place behind it
// ---------------------------------------------------------------------------

pub open spec fn nonce_at(w: Seq<StepEvent>, k: int) -> Option<(Seq<char>, int)> {
    if 0 <= k < w.len() {
        match w[k] {
            StepEvent::Nonce(nonce) => Some((nonce, k + 1)),
            _ => None,
        }
    } else {
        None
    }
}

pub open spec fn directories_at(w: Seq<StepEvent>, k: int, p: Seq<u8>) -> Option<
    (Result<(), Seq<char>>, int),
> {
    if 0 <= k < w.len() {
        match w[k] {
            StepEvent::Directories { path, reply } => if path == p {
                Some((reply, k + 1))
            } else {
                None
            },
            _ => None,
        }
    } else {
        None
    }
}

pub open spec fn create_at(w: Seq<StepEvent>, k: int, p: Seq<u8>, m: u32) -> Option<
    (CreationModel, int),
> {
    if 0 <= k < w.len() {
        match w[k] {
            StepEvent::Create { path, mode, reply } => if path == p && mode == m {
                Some((reply, k + 1))
            } else {
                None
            },
            _ => None,
        }
    } else {
        None
    }
}

pub open spec fn mode_at(w: Seq<StepEvent>, k: int, m: u32) -> Option<
    (Result<(), Seq<char>>, int),
> {
    if 0 <= k < w.len() {
        match w[k] {
            StepEvent::SetMode { mode, reply } => if mode == m {
                Some((reply, k + 1))
            } else {
                None
            },
            _ => None,
        }
    } else {
        None
    }
}

pub open spec fn write_at(w: Seq<StepEvent>, k: int, b: Seq<u8>) -> Option<
    (Result<(), Seq<char>>, int),
> {
    if 0 <= k < w.len() {
        match w[k] {
            StepEvent::Write { bytes, reply } => if bytes == b {
                Some((reply, k + 1))
            } else {
                None
            },
            _ => None,
        }
    } else {
        None
    }
}

pub open spec fn sync_at(w: Seq<StepEvent>, k: int) -> Option<(Result<(), Seq<char>>, int)> {
    if 0 <= k < w.len() {
        match w[k] {
            StepEvent::Sync(reply) => Some((reply, k + 1)),
            _ => None,
        }
    } else {
        None
    }
}

pub open spec fn rename_at(w: Seq<StepEvent>, k: int, f: Seq<u8>, t: Seq<u8>) -> Option<
    (Result<(), Seq<char>>, int),
> {
    if 0 <= k < w.len() {
        match w[k] {
            StepEvent::Rename { from, to, reply } => if from == f && to == t {
                Some((reply, k + 1))
            } else {
                None
            },
            _ => None,
        }
    } else {
        None
    }
}

pub open spec fn directory_sync_at(w: Seq<StepEvent>, k: int, p: Seq<u8>) -> Option<
    (Result<(), Seq<char>>, int),
> {
    if 0 <= k < w.len() {
        match w[k] {
            StepEvent::SyncDirectory { path, reply } => if path == p {
                Some((reply, k + 1))
            } else {
                None
            },
            _ => None,
        }
    } else {
        None
    }
}

pub open spec fn remove_at(w: Seq<StepEvent>, k: int, p: Seq<u8>) -> Option<(RemovalModel, int)> {
    if 0 <= k < w.len() {
        match w[k] {
            StepEvent::Remove { path, reply } => if path == p {
                Some((reply, k + 1))
            } else {
                None
            },
            _ => None,
        }
    } else {
        None
    }
}

/// Bytes written to the open file and brought to the disk.
pub open spec fn put_at(w: Seq<StepEvent>, k: int, bytes: Seq<u8>) -> Option<
    (Result<(), Seq<char>>, int),
> {
    match write_at(w, k, bytes) {
        None => None,
        Some((Err(detail), k)) => Some((Err(detail), k)),
        Some((Ok(_), k)) => sync_at(w, k),
    }
}

/// The open file given its permissions and its bytes.
pub open spec fn filled_at(w: Seq<StepEvent>, k: int, bytes: Seq<u8>, mode: u32) -> Option<
    (Result<(), Seq<char>>, int),
> {
    match mode_at(w, k, mode & 0o7777) {
        None => None,
        Some((Err(detail), k)) => Some((Err(detail), k)),
        Some((Ok(_), k)) => put_at(w, k, bytes),
    }
}

/// A failure and whether the new bytes were in place by then.
#[verifier::ext_equal]
pub struct ReplaceFailure {
    pub error: FailureModel,
    pub committed: bool,
}

pub open spec fn replace_outcome(r: Result<(), AtomicReplaceFailure>) -> Result<
    (),
    ReplaceFailure,
> {
    match r {
        Ok(_) => Ok(()),
        Err(failure) => Err(
            ReplaceFailure { error: failure.cause(), committed: failure.is_committed() },
        ),
    }
}

/// The file that takes the place of another one.
pub open spec fn replacement(parent: Seq<u8>, name: Seq<u8>, nonce: Seq<char>) -> Seq<u8> {
    path::joined(
        parent,
        text::utf8("."@ + text::lossy_text(name) + ".codex-mux."@ + nonce + ".tmp"@),
    )
}

/// What is left to do once the temporary file has been created.
pub open spec fn committed_at(
    w: Seq<StepEvent>,
    k: int,
    temporary: Seq<u8>,
    p: Seq<u8>,
    parent: Seq<u8>,
    bytes: Seq<u8>,
    mode: u32,
) -> Option<(Result<(), (Seq<char>, bool)>, int)> {
    match filled_at(w, k, bytes, mode) {
        None => None,
        Some((Err(detail), k)) => Some((Err((detail, false)), k)),
        Some((Ok(_), k)) => match rename_at(w, k, temporary, p) {
            None => None,
            Some((Err(detail), k)) => Some((Err((detail, false)), k)),
            Some((Ok(_), k)) => match directory_sync_at(w, k, parent) {
                None => None,
                Some((Err(detail), k)) => Some((Err((detail, true)), k)),
                Some((Ok(_), k)) => Some((Ok(()), k)),
            },
        },
    }
}

/// Bytes put in place of a file. After a failure the temporary file is deleted; what
/// comes of that changes nothing.
pub open spec fn replaced_at(w: Seq<StepEvent>, k: int, p: Seq<u8>, bytes: Seq<u8>, mode: u32) -> Option<
    (Result<(), ReplaceFailure>, int),
> {
    match path::parent(p) {
        None => Some(
            (
                Err(
                    ReplaceFailure {
                        error: FailureModel::UnsafePath {
                            path: p,
                            reason: "path has no parent directory"@,
                        },
                        committed: false,
                    },
                ),
                k,
            ),
        ),
        Some(parent) => match path::file_name(p) {
            None => Some(
                (
                    Err(
                        ReplaceFailure {
                            error: FailureModel::UnsafePath {
                                path: p,
                                reason: "path has no file name"@,
                            },
                            committed: false,
                        },
                    ),
                    k,
                ),
            ),
            Some(name) => match nonce_at(w, k) {
                None => None,
                Some((nonce, k)) => {
                    let temporary = replacement(parent, name, nonce);
                    match create_at(w, k, temporary, NEW_FILE_MODE) {
                        None => None,
                        Some((CreationModel::Exists(detail), k)) => Some(
                            (Err(not_replaced(p, detail, false)), k),
                        ),
                        Some((CreationModel::Failed(detail), k)) => Some(
                            (Err(not_replaced(p, detail, false)), k),
                        ),
                        Some((CreationModel::Created, k)) => match committed_at(
                            w,
                            k,
                            temporary,
                            p,
                            parent,
                            bytes,
                            mode,
                        ) {
                            None => None,
                            Some((Ok(_), k)) => Some((Ok(()), k)),
                            Some((Err((detail, committed)), k)) => match remove_at(
                                w,
                                k,
                                temporary,
                            ) {
                                None => None,
                                Some((_, k)) => Some(
                                    (Err(not_replaced(p, detail, committed)), k),
                                ),
                            },
                        },
                    }
                },
            },
        },
    }
}

pub open spec fn not_replaced(p: Seq<u8>, detail: Seq<char>, committed: bool) -> ReplaceFailure {
    ReplaceFailure { error: FailureModel::Filesystem { path: p, source: detail }, committed }
}

/// Bytes copied aside, from one of the names on: the first name that is not taken.
pub open spec fn copied_at(
    w: Seq<StepEvent>,
    k: int,
    p: Seq<u8>,
    bytes: Seq<u8>,
    mode: u32,
    attempt: nat,
) -> Option<(Result<Seq<u8>, FailureModel>, int)>
    decreases BACKUP_ATTEMPTS - attempt,
{
    if attempt >= BACKUP_ATTEMPTS {
        Some(
            (
                Err(
                    FailureModel::Discovery("could not allocate a collision-safe backup name"@),
                ),
                k,
            ),
        )
    } else {
        let copy = path::with_extension(p, text::utf8(discover::backup_extension(attempt)));
        match create_at(w, k, copy, NEW_FILE_MODE) {
            None => None,
            Some((CreationModel::Exists(_), k)) => copied_at(w, k, p, bytes, mode, attempt + 1),
            Some((CreationModel::Failed(detail), k)) => Some(
                (Err(FailureModel::Filesystem { path: copy, source: detail }), k),
            ),
            Some((CreationModel::Created, k)) => match filled_at(w, k, bytes, mode) {
                None => None,
                Some((Ok(_), k)) => Some((Ok(copy), k)),
                Some((Err(detail), k)) => Some(
                    (Err(FailureModel::Filesystem { path: copy, source: detail }), k),
                ),
            },
        }
    }
}

/// A file deleted; one that is not there counts as deleted.
pub open spec fn deleted_at(w: Seq<StepEvent>, k: int, p: Seq<u8>) -> Option<
    (Result<(), FailureModel>, int),
> {
    match remove_at(w, k, p) {
        None => None,
        Some((RemovalModel::Missing, k)) => Some((Ok(()), k)),
        Some((RemovalModel::Failed(detail), k)) => Some(
            (Err(FailureModel::Filesystem { path: p, source: detail }), k),
        ),
        Some((RemovalModel::Removed, k)) => match path::parent(p) {
            None => Some(
                (
                    Err(
                        FailureModel::UnsafePath {
                            path: p,
                            reason: "path has no parent directory"@,
                        },
                    ),
                    k,
                ),
            ),
            Some(parent) => match directory_sync_at(w, k, parent) {
                None => None,
                Some((Ok(_), k)) => Some((Ok(()), k)),
                Some((Err(detail), k)) => Some(
                    (Err(FailureModel::Filesystem { path: parent, source: detail }), k),
                ),
            },
        },
    }
}

/// The temporary file of one save of the settings.
pub open spec fn settings_temporary(p: Seq<u8>, parent: Seq<u8>, process: u32, count: u64) -> Seq<
    u8,
> {
    match path::file_name(p) {
        Some(name) => path::joined(
            parent,
            text::utf8(config::temporary_name(text::utf8_decoded(name), process, count)),
        ),
        None => path::joined(p, text::utf8(config::temporary_name(None, process, count))),
    }
}

/// The settings written to the temporary file and moved into place.
pub open spec fn settings_put_at(
    w: Seq<StepEvent>,
    k: int,
    temporary: Seq<u8>,
    p: Seq<u8>,
    contents: Seq<char>,
) -> Option<(Result<(), ErrorModel>, int)> {
    match create_at(w, k, temporary, SETTINGS_MODE) {
        None => None,
        Some((CreationModel::Exists(detail), k)) => Some(
            (Err(ErrorModel::Filesystem { path: temporary, source: detail }), k),
        ),
        Some((CreationModel::Failed(detail), k)) => Some(
            (Err(ErrorModel::Filesystem { path: temporary, source: detail }), k),
        ),
        Some((CreationModel::Created, k)) => match put_at(w, k, text::utf8(contents)) {
            None => None,
            Some((Err(detail), k)) => Some(
                (Err(ErrorModel::Filesystem { path: temporary, source: detail }), k),
            ),
            Some((Ok(_), k)) => match rename_at(w, k, temporary, p) {
                None => None,
                Some((Err(detail), k)) => Some(
                    (Err(ErrorModel::Filesystem { path: p, source: detail }), k),
                ),
                Some((Ok(_), k)) => Some((Ok(()), k)),
            },
        },
    }
}

/// The settings saved. Whether the directory reached the disk, and whether a temporary
/// file could be deleted after a failure, changes nothing.
pub open spec fn saved_at(
    w: Seq<StepEvent>,
    k: int,
    p: Seq<u8>,
    contents: Result<Seq<char>, Seq<char>>,
    process: u32,
    count: u64,
) -> Option<(Result<(), ErrorModel>, int)> {
    match path::parent(p) {
        None => Some(
            (
                Err(
                    ErrorModel::InvalidValue {
                        field: "theme configuration path"@,
                        message: "must have a parent directory"@,
                    },
                ),
                k,
            ),
        ),
        Some(parent) => match directories_at(w, k, parent) {
            None => None,
            Some((Err(detail), k)) => Some(
                (Err(ErrorModel::Filesystem { path: parent, source: detail }), k),
            ),
            Some((Ok(_), k)) => match contents {
                Err(detail) => Some(
                    (
                        Err(ErrorModel::Command("could not serialize configuration: "@ + detail)),
                        k,
                    ),
                ),
                Ok(contents) => {
                    let temporary = settings_temporary(p, parent, process, count);
                    match settings_put_at(w, k, temporary, p, contents) {
                        None => None,
                        Some((Ok(_), k)) => match directory_sync_at(w, k, parent) {
                            None => None,
                            Some((_, k)) => Some((Ok(()), k)),
                        },
                        Some((Err(e), k)) => match remove_at(w, k, temporary) {
                            None => None,
                            Some((_, k)) => Some((Err(e), k)),
                        },
                    }
                },
            },
        },
    }
}

pub open spec fn rendered(contents: Result<String, String>) -> Result<Seq<char>, Seq<char>> {
    match contents {
        Ok(contents) => Ok(contents@),
        Err(detail) => Err(detail@),
    }
}

pub open spec fn copy_outcome(r: Result<UnixPath, InstallError>) -> Result<
    Seq<u8>,
    FailureModel,
> {
    match r {
        Ok(copy) => Ok(copy@),
        Err(e) => Err(e@),
    }
}

pub open spec fn delete_outcome(r: Result<(), InstallError>) -> Result<(), FailureModel> {
    match r {
        Ok(_) => Ok(()),
        Err(e) => Err(e@),
    }
}

pub open spec fn commit_outcome(r: Result<(), (String, bool)>) -> Result<(), (Seq<char>, bool)> {
    match r {
        Ok(_) => Ok(()),
        Err((detail, committed)) => Err((detail@, committed)),
    }
}

// ---------------------------------------------------------------------------
// Laws
// ---------------------------------------------------------------------------

/// A step of a record moves a file onto a path.
pub open spec fn moves_onto(e: StepEvent, p: Seq<u8>) -> bool {
    e matches StepEvent::Rename { to, reply, .. } && to == p && reply is Ok
}

/// A replacement says that it was not committed exactly where nothing was moved onto
/// the file: the old bytes are still there.
pub proof fn a_failed_replacement_keeps_the_file(
    w: Seq<StepEvent>,
    k: int,
    p: Seq<u8>,
    bytes: Seq<u8>,
    mode: u32,
)
    requires
        0 <= k,
        replaced_at(w, k, p, bytes, mode) is Some,
    ensures
        ({
            let (r, next) = replaced_at(w, k, p, bytes, mode)->0;
            (r matches Err(failure) && !failure.committed) <==> forall|i: int|
                k <= i < next ==> !#[trigger] moves_onto(w[i], p)
        }),
{
    let (r, next) = replaced_at(w, k, p, bytes, mode)->0;
    if !(r matches Err(failure) && !failure.committed) {
        assert(moves_onto(w[k + 5], p));
    }
}

/// A file is moved into place only after all of the new bytes have reached the disk
/// under the temporary name.
pub proof fn a_replacement_is_whole_before_it_is_visible(
    w: Seq<StepEvent>,
    k: int,
    p: Seq<u8>,
    bytes: Seq<u8>,
    mode: u32,
    i: int,
)
    requires
        0 <= k <= i,
        replaced_at(w, k, p, bytes, mode) is Some,
        i < (replaced_at(w, k, p, bytes, mode)->0).1,
        moves_onto(w[i], p),
    ensures
        i == k + 5,
        w[k + 1] == (StepEvent::Create {
            path: w[i]->from,
            mode: NEW_FILE_MODE,
            reply: CreationModel::Created,
        }),
        w[k + 2] matches StepEvent::SetMode { mode: m, reply: Ok(_) } && m == mode & 0o7777,
        w[k + 3] matches StepEvent::Write { bytes: b, reply: Ok(_) } && b == bytes,
        w[k + 4] matches StepEvent::Sync(Ok(_)),
{
}

/// A replacement that fails after its temporary file was created ends by deleting it.
pub proof fn a_failed_replacement_deletes_its_temporary_file(
    w: Seq<StepEvent>,
    k: int,
    p: Seq<u8>,
    bytes: Seq<u8>,
    mode: u32,
    i: int,
)
    requires
        0 <= k <= i,
        replaced_at(w, k, p, bytes, mode) is Some,
        i < (replaced_at(w, k, p, bytes, mode)->0).1,
        (replaced_at(w, k, p, bytes, mode)->0).0 is Err,
        w[i] matches StepEvent::Create { reply: CreationModel::Created, .. },
    ensures
        w[(replaced_at(w, k, p, bytes, mode)->0).1 - 1] matches StepEvent::Remove { path, .. }
            && path == w[i]->Create_path,
{
}

/// Saved settings are moved into place only after all of them have reached the disk,
/// and a save that fails moves nothing.
pub proof fn a_failed_save_keeps_the_settings(
    w: Seq<StepEvent>,
    k: int,
    p: Seq<u8>,
    contents: Result<Seq<char>, Seq<char>>,
    process: u32,
    count: u64,
)
    requires
        0 <= k,
        saved_at(w, k, p, contents, process, count) is Some,
    ensures
        ({
            let (r, next) = saved_at(w, k, p, contents, process, count)->0;
            &&& r is Err <==> forall|i: int| k <= i < next ==> !#[trigger] moves_onto(w[i], p)
            &&& r is Ok ==> {
                &&& contents is Ok
                &&& w[k + 2] matches StepEvent::Write { bytes, reply: Ok(_) }
                &&& bytes == text::utf8(contents->Ok_0)
                &&& w[k + 3] matches StepEvent::Sync(Ok(_))
                &&& moves_onto(w[k + 4], p)
            }
        }),
{
    let (r, next) = saved_at(w, k, p, contents, process, count)->0;
    if r is Ok {
        assert(moves_onto(w[k + 4], p));
    }
}

// ---------------------------------------------------------------------------
// The operations
// ---------------------------------------------------------------------------

impl<S: FileSteps> LoggedSteps<S> {
    /// Writes to the open file and brings it to the disk.
    fn put(&mut self, bytes: &Vec<u8>) -> (r: Result<(), String>)
        ensures
            agrees(final(self).events(), old(self).events()),
            forall|w: Seq<StepEvent>|
                agrees(w, final(self).events()) ==> #[trigger] put_at(
                    w,
                    old(self).events().len() as int,
                    bytes@,
                ) == Some((said(r), final(self).events().len() as int)),
    {
        let written = self.write(bytes);
        if written.is_err() {
            return written;
        }
        self.sync()
    }

    /// Gives the open file its permissions and its bytes.
    fn fill(&mut self, bytes: &Vec<u8>, mode: u32) -> (r: Result<(), String>)
        ensures
            agrees(final(self).events(), old(self).events()),
            forall|w: Seq<StepEvent>|
                agrees(w, final(self).events()) ==> #[trigger] filled_at(
                    w,
                    old(self).events().len() as int,
                    bytes@,
                    mode,
                ) == Some((said(r), final(self).events().len() as int)),
    {
        let set = self.set_mode(mode & 0o7777);
        if set.is_err() {
            return set;
        }
        self.put(bytes)
    }

    fn commit(
        &mut self,
        temporary: &UnixPath,
        p: &UnixPath,
        parent: &UnixPath,
        bytes: &Vec<u8>,
        mode: u32,
    ) -> (r: Result<(), (String, bool)>)
        ensures
            agrees(final(self).events(), old(self).events()),
            forall|w: Seq<StepEvent>|
                agrees(w, final(self).events()) ==> #[trigger] committed_at(
                    w,
                    old(self).events().len() as int,
                    temporary@,
                    p@,
                    parent@,
                    bytes@,
                    mode,
                ) == Some((commit_outcome(r), final(self).events().len() as int)),
    {
        match self.fill(bytes, mode) {
            Err(detail) => return Err((detail, false)),
            Ok(_) => {},
        }
        match self.rename(temporary, p) {
            Err(detail) => return Err((detail, false)),
            Ok(_) => {},
        }
        match self.sync_directory(parent) {
            Err(detail) => Err((detail, true)),
            Ok(_) => Ok(()),
        }
    }

    /// Puts bytes in place of a file in one step. A failure says whether the new bytes
    /// were in place by then.
    pub fn atomic_replace_with(&mut self, p: &UnixPath, bytes: &Vec<u8>, mode: u32) -> (r: Result<
        (),
        AtomicReplaceFailure,
    >)
        ensures
            agrees(final(self).events(), old(self).events()),
            forall|w: Seq<StepEvent>|
                agrees(w, final(self).events()) ==> #[trigger] replaced_at(
                    w,
                    old(self).events().len() as int,
                    p@,
                    bytes@,
                    mode,
                ) == Some((replace_outcome(r), final(self).events().len() as int)),
    {
        let parent = match p.parent() {
            Some(parent) => parent,
            None => {
                return Err(
                    AtomicReplaceFailure::new(
                        unsafe_path(p, "path has no parent directory"),
                        false,
                    ),
                );
            },
        };
        let name = match p.file_name() {
            Some(name) => name,
            None => {
                return Err(
                    AtomicReplaceFailure::new(unsafe_path(p, "path has no file name"), false),
                );
            },
        };
        let mut leaf = ".".to_owned();
        leaf.append(&text::utf8_lossy(&name));
        leaf.append(".codex-mux.");
        leaf.append(&self.nonce());
        leaf.append(".tmp");
        let temporary = parent.join(&UnixPath::new(&leaf));
        match self.create(&temporary, NEW_FILE_MODE) {
            Creation::Created => {},
            Creation::Exists(source) => {
                return Err(
                    AtomicReplaceFailure::new(
                        InstallError::Filesystem { path: p.clone(), source },
                        false,
                    ),
                );
            },
            Creation::Failed(source) => {
                return Err(
                    AtomicReplaceFailure::new(
                        InstallError::Filesystem { path: p.clone(), source },
                        false,
                    ),
                );
            },
        }
        match self.commit(&temporary, p, &parent, bytes, mode) {
            Ok(_) => Ok(()),
            Err((source, committed)) => {
                let ghost failed = self.events();
                let _ = self.delete(&temporary);
                assert(agrees(self.events(), failed));
                Err(
                    AtomicReplaceFailure::new(
                        InstallError::Filesystem { path: p.clone(), source },
                        committed,
                    ),
                )
            },
        }
    }

    /// Copies bytes aside under the first name that is not taken.
    pub fn copy_aside(&mut self, p: &UnixPath, bytes: &Vec<u8>, mode: u32) -> (r: Result<
        UnixPath,
        InstallError,
    >)
        ensures
            agrees(final(self).events(), old(self).events()),
            forall|w: Seq<StepEvent>|
                agrees(w, final(self).events()) ==> #[trigger] copied_at(
                    w,
                    old(self).events().len() as int,
                    p@,
                    bytes@,
                    mode,
                    0,
                ) == Some((copy_outcome(r), final(self).events().len() as int)),
    {
        let ghost start = self.events();
        let mut attempt: u64 = 0;
        while attempt < BACKUP_ATTEMPTS
            invariant
                attempt <= BACKUP_ATTEMPTS,
                start == old(self).events(),
                agrees(self.events(), start),
                forall|w: Seq<StepEvent>|
                    agrees(w, self.events()) ==> #[trigger] copied_at(
                        w,
                        start.len() as int,
                        p@,
                        bytes@,
                        mode,
                        0,
                    ) == copied_at(
                        w,
                        self.events().len() as int,
                        p@,
                        bytes@,
                        mode,
                        attempt as nat,
                    ),
            decreases BACKUP_ATTEMPTS - attempt,
        {
            let ghost before = self.events();
            let copy = backup_path(p, attempt);
            match self.create(&copy, NEW_FILE_MODE) {
                Creation::Created => {
                    let filled = self.fill(bytes, mode);
                    assert(agrees(self.events(), before));
                    match filled {
                        Ok(_) => return Ok(copy),
                        Err(source) => {
                            return Err(InstallError::Filesystem { path: copy, source });
                        },
                    }
                },
                Creation::Exists(_) => {
                    assert(agrees(self.events(), before));
                },
                Creation::Failed(source) => {
                    assert(agrees(self.events(), before));
                    return Err(InstallError::Filesystem { path: copy, source });
                },
            }
            attempt += 1;
        }
        Err(backup_refused())
    }

    /// Deletes a file and brings its directory to the disk.
    pub fn delete_durably(&mut self, p: &UnixPath) -> (r: Result<(), InstallError>)
        ensures
            agrees(final(self).events(), old(self).events()),
            forall|w: Seq<StepEvent>|
                agrees(w, final(self).events()) ==> #[trigger] deleted_at(
                    w,
                    old(self).events().len() as int,
                    p@,
                ) == Some((delete_outcome(r), final(self).events().len() as int)),
    {
        match self.delete(p) {
            Removal::Missing => Ok(()),
            Removal::Failed(source) => Err(InstallError::Filesystem { path: p.clone(), source }),
            Removal::Removed => {
                let parent = match p.parent() {
                    Some(parent) => parent,
                    None => {
                        return Err(unsafe_path(p, "path has no parent directory"));
                    },
                };
                match self.sync_directory(&parent) {
                    Ok(_) => Ok(()),
                    Err(source) => Err(InstallError::Filesystem { path: parent, source }),
                }
            },
        }
    }

    fn put_settings(&mut self, temporary: &UnixPath, p: &UnixPath, contents: &String) -> (r: Result<
        (),
        MuxError,
    >)
        ensures
            agrees(final(self).events(), old(self).events()),
            forall|w: Seq<StepEvent>|
                agrees(w, final(self).events()) ==> #[trigger] settings_put_at(
                    w,
                    old(self).events().len() as int,
                    temporary@,
                    p@,
                    contents@,
                ) == Some((error::outcome(r), final(self).events().len() as int)),
    {
        match self.create(temporary, SETTINGS_MODE) {
            Creation::Created => {},
            Creation::Exists(source) => {
                return Err(MuxError::Filesystem { path: temporary.clone(), source });
            },
            Creation::Failed(source) => {
                return Err(MuxError::Filesystem { path: temporary.clone(), source });
            },
        }
        match self.put(&text::bytes_of(contents)) {
            Ok(_) => {},
            Err(source) => {
                return Err(MuxError::Filesystem { path: temporary.clone(), source });
            },
        }
        match self.rename(temporary, p) {
            Ok(_) => Ok(()),
            Err(source) => Err(MuxError::Filesystem { path: p.clone(), source }),
        }
    }

    /// Saves the settings of a store. The contents are those of the whole file, or why
    /// they could not be written down.
    pub fn save_atomic(
        &mut self,
        store: &XdgThemeStore,
        contents: &Result<String, String>,
        process: u32,
        count: u64,
    ) -> (r: Result<(), MuxError>)
        ensures
            agrees(final(self).events(), old(self).events()),
            forall|w: Seq<StepEvent>|
                agrees(w, final(self).events()) ==> #[trigger] saved_at(
                    w,
                    old(self).events().len() as int,
                    store@,
                    rendered(*contents),
                    process,
                    count,
                ) == Some((error::outcome(r), final(self).events().len() as int)),
    {
        let p = store.path();
        let parent = match p.parent() {
            Some(parent) => parent,
            None => {
                return Err(
                    invalid_value("theme configuration path", "must have a parent directory"),
                );
            },
        };
        match self.make_directories(&parent) {
            Ok(_) => {},
            Err(source) => return Err(MuxError::Filesystem { path: parent, source }),
        }
        let contents = match contents {
            Ok(contents) => contents,
            Err(detail) => {
                let mut message = "could not serialize configuration: ".to_owned();
                message.append(detail);
                return Err(command_error(&message));
            },
        };
        let leaf = UnixPath::new(&store.temporary_file(process, count));
        let temporary = match p.file_name() {
            Some(_) => parent.join(&leaf),
            None => p.join(&leaf),
        };
        let written = self.put_settings(&temporary, p, contents);
        let ghost put = self.events();
        match written {
            Ok(_) => {
                let _ = self.sync_directory(&parent);
                assert(agrees(self.events(), put));
                Ok(())
            },
            Err(e) => {
                let _ = self.delete(&temporary);
                assert(agrees(self.events(), put));
                Err(e)
            },
        }
    }
}


impl<S: FileSteps> HostFiles for LoggedSteps<S> {
    fn create_backup(&mut self, path: &UnixPath, bytes: &Vec<u8>, mode: u32) -> (r: Result<
        UnixPath,
        InstallError,
    >)
        ensures
            forall|w: Seq<StepEvent>|
                agrees(w, final(self).events()) ==> #[trigger] copied_at(
                    w,
                    old(self).events().len() as int,
                    path@,
                    bytes@,
                    mode,
                    0,
                ) == Some((copy_outcome(r), final(self).events().len() as int)),
    {
        self.copy_aside(path, bytes, mode)
    }

    fn atomic_replace(&mut self, path: &UnixPath, bytes: &Vec<u8>, mode: u32) -> (r: Result<
        (),
        AtomicReplaceFailure,
    >)
        ensures
            forall|w: Seq<StepEvent>|
                agrees(w, final(self).events()) ==> #[trigger] replaced_at(
                    w,
                    old(self).events().len() as int,
                    path@,
                    bytes@,
                    mode,
                ) == Some((replace_outcome(r), final(self).events().len() as int)),
    {
        self.atomic_replace_with(path, bytes, mode)
    }

    fn remove(&mut self, path: &UnixPath) -> (r: Result<(), InstallError>)
        ensures
            forall|w: Seq<StepEvent>|
                agrees(w, final(self).events()) ==> #[trigger] deleted_at(
                    w,
                    old(self).events().len() as int,
                    path@,
                ) == Some((delete_outcome(r), final(self).events().len() as int)),
    {
        self.delete_durably(path)
    }
}

} // verus!
