//! Changing host files through a boundary that keeps a record.

use vstd::prelude::*;
use crate::install::failure::{AtomicReplaceFailure, FailureModel, InstallError};
use crate::path::UnixPath;

verus! {

/// A change of a host file.
#[verifier::ext_equal]
pub enum FileRequest {
    /// Copy the bytes aside, under a name that is not taken.
    Backup { path: Seq<u8>, bytes: Seq<u8>, mode: u32 },
    /// Put the bytes in place of the file in one step.
    Replace { path: Seq<u8>, bytes: Seq<u8>, mode: u32 },
    /// Delete the file; a file that is not there counts as deleted.
    Remove { path: Seq<u8> },
}

/// What came of a change. A failure says whether the change was in place by then.
#[verifier::ext_equal]
pub enum FileReply {
    /// The copy that was made.
    Copied(Seq<u8>),
    Done,
    Failed { error: FailureModel, committed: bool },
}

#[verifier::ext_equal]
pub struct FileExchange {
    pub request: FileRequest,
    pub reply: FileReply,
}

pub open spec fn backup_reply(r: Result<UnixPath, InstallError>) -> FileReply {
    match r {
        Ok(copy) => FileReply::Copied(copy@),
        Err(e) => FileReply::Failed { error: e@, committed: false },
    }
}

pub open spec fn replace_reply(r: Result<(), AtomicReplaceFailure>) -> FileReply {
    match r {
        Ok(_) => FileReply::Done,
        Err(failure) => FileReply::Failed {
            error: failure.cause(),
            committed: failure.is_committed(),
        },
    }
}

pub open spec fn remove_reply(r: Result<(), InstallError>) -> FileReply {
    match r {
        Ok(_) => FileReply::Done,
        Err(e) => FileReply::Failed { error: e@, committed: false },
    }
}

/// Boundary for changing host files.
pub trait HostFiles {
    /// Copies bytes aside and returns the name of the copy.
    fn create_backup(&mut self, path: &UnixPath, bytes: &Vec<u8>, mode: u32) -> Result<
        UnixPath,
        InstallError,
    >;

    /// Replaces a file in one step.
    fn atomic_replace(&mut self, path: &UnixPath, bytes: &Vec<u8>, mode: u32) -> Result<
        (),
        AtomicReplaceFailure,
    >;

    /// Deletes a file.
    fn remove(&mut self, path: &UnixPath) -> Result<(), InstallError>;
}

/// A boundary together with everything that went through it.
pub struct LoggedFiles<F> {
    inner: F,
    log: Ghost<Seq<FileExchange>>,
}

impl<F: HostFiles> LoggedFiles<F> {
    pub closed spec fn wrapped(&self) -> F {
        self.inner
    }

    /// Every change so far and what came of it.
    pub closed spec fn history(&self) -> Seq<FileExchange> {
        self.log@
    }

    pub fn new(inner: F) -> (r: Self)
        ensures
            r.wrapped() == inner,
            r.history() == Seq::<FileExchange>::empty(),
    {
        LoggedFiles { inner, log: Ghost(Seq::empty()) }
    }

    /// What is wrapped.
    pub fn inner(&self) -> (r: &F)
        ensures
            *r == self.wrapped(),
    {
        &self.inner
    }

    pub fn create_backup(&mut self, path: &UnixPath, bytes: &Vec<u8>, mode: u32) -> (r: Result<
        UnixPath,
        InstallError,
    >)
        ensures
            final(self).history() == old(self).history().push(
                FileExchange {
                    request: FileRequest::Backup { path: path@, bytes: bytes@, mode },
                    reply: backup_reply(r),
                },
            ),
    {
        let r = self.inner.create_backup(path, bytes, mode);
        self.log = Ghost(
            self.log@.push(
                FileExchange {
                    request: FileRequest::Backup { path: path@, bytes: bytes@, mode },
                    reply: backup_reply(r),
                },
            ),
        );
        r
    }

    pub fn atomic_replace(&mut self, path: &UnixPath, bytes: &Vec<u8>, mode: u32) -> (r: Result<
        (),
        AtomicReplaceFailure,
    >)
        ensures
            final(self).history() == old(self).history().push(
                FileExchange {
                    request: FileRequest::Replace { path: path@, bytes: bytes@, mode },
                    reply: replace_reply(r),
                },
            ),
    {
        let r = self.inner.atomic_replace(path, bytes, mode);
        self.log = Ghost(
            self.log@.push(
                FileExchange {
                    request: FileRequest::Replace { path: path@, bytes: bytes@, mode },
                    reply: replace_reply(r),
                },
            ),
        );
        r
    }

    pub fn remove(&mut self, path: &UnixPath) -> (r: Result<(), InstallError>)
        ensures
            final(self).history() == old(self).history().push(
                FileExchange {
                    request: FileRequest::Remove { path: path@ },
                    reply: remove_reply(r),
                },
            ),
    {
        let r = self.inner.remove(path);
        self.log = Ghost(
            self.log@.push(
                FileExchange {
                    request: FileRequest::Remove { path: path@ },
                    reply: remove_reply(r),
                },
            ),
        );
        r
    }
}

} // verus!
