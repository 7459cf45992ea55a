//! The host file and the running tmux server, with one record of what was done to
//! either.
//!
//! Nothing outside this module can add to the record, and neither side can be reached
//! without adding to it.

use vstd::prelude::*;
use crate::files;
use crate::files::{FileExchange, FileRequest, HostFiles};
use crate::install::failure;
use crate::install::failure::{AtomicReplaceFailure, InstallError};
use crate::install::reload;
use crate::install::reload::{ServerExchange, ServerRequest, TmuxReloader};
use crate::path::UnixPath;

verus! {

/// Something that was done, and what came of it.
#[verifier::ext_equal]
pub enum Deed {
    File(FileExchange),
    Server(ServerExchange),
}

/// Files and a server whose exchanges are recorded.
pub struct InstallHost<F, R> {
    files: F,
    server: R,
    log: Ghost<Seq<Deed>>,
}

impl<F: HostFiles, R: TmuxReloader> InstallHost<F, R> {
    /// Everything that was done so far, in order.
    pub closed spec fn deeds(&self) -> Seq<Deed> {
        self.log@
    }

    pub closed spec fn file_model(&self) -> F {
        self.files
    }

    pub closed spec fn server_model(&self) -> R {
        self.server
    }

    pub fn new(files: F, server: R) -> (r: Self)
        ensures
            r.file_model() == files,
            r.server_model() == server,
            r.deeds() == Seq::<Deed>::empty(),
    {
        InstallHost { files, server, log: Ghost(Seq::empty()) }
    }

    pub fn files(&self) -> (r: &F)
        ensures
            *r == self.file_model(),
    {
        &self.files
    }

    pub fn server(&self) -> (r: &R)
        ensures
            *r == self.server_model(),
    {
        &self.server
    }

    /// Copies bytes aside and returns the name of the copy. What fails is a failure of
    /// the file.
    pub fn create_backup(&mut self, path: &UnixPath, bytes: &Vec<u8>, mode: u32) -> (r: Result<
        UnixPath,
        InstallError,
    >)
        ensures
            final(self).deeds() == old(self).deeds().push(
                Deed::File(
                    FileExchange {
                        request: FileRequest::Backup { path: path@, bytes: bytes@, mode },
                        reply: files::backup_reply(r),
                    },
                ),
            ),
            r matches Err(e) ==> !failure::says_written(e@),
    {
        let r = match self.files.create_backup(path, bytes, mode) {
            Ok(place) => Ok(place),
            Err(e) => Err(failure::file_failure(e)),
        };
        proof {
            self.log@ = self.log@.push(
                Deed::File(
                    FileExchange {
                        request: FileRequest::Backup { path: path@, bytes: bytes@, mode },
                        reply: files::backup_reply(r),
                    },
                ),
            );
        }
        r
    }

    /// Replaces a file in one step. What fails is a failure of the file.
    pub fn atomic_replace(&mut self, path: &UnixPath, bytes: &Vec<u8>, mode: u32) -> (r: Result<
        (),
        AtomicReplaceFailure,
    >)
        ensures
            final(self).deeds() == old(self).deeds().push(
                Deed::File(
                    FileExchange {
                        request: FileRequest::Replace { path: path@, bytes: bytes@, mode },
                        reply: files::replace_reply(r),
                    },
                ),
            ),
            r matches Err(f) ==> !failure::says_written(f.cause()),
    {
        let r = match self.files.atomic_replace(path, bytes, mode) {
            Ok(()) => Ok(()),
            Err(f) => {
                let committed = f.committed();
                Err(AtomicReplaceFailure::new(failure::file_failure(f.into_error()), committed))
            },
        };
        proof {
            self.log@ = self.log@.push(
                Deed::File(
                    FileExchange {
                        request: FileRequest::Replace { path: path@, bytes: bytes@, mode },
                        reply: files::replace_reply(r),
                    },
                ),
            );
        }
        r
    }

    /// Whether a server runs.
    pub fn is_running(&mut self) -> (r: bool)
        ensures
            final(self).deeds() == old(self).deeds().push(
                Deed::Server(
                    ServerExchange { request: ServerRequest::IsRunning, reply: Ok(r) },
                ),
            ),
    {
        let r = self.server.is_running();
        proof {
            self.log@ = self.log@.push(
                Deed::Server(
                    ServerExchange { request: ServerRequest::IsRunning, reply: Ok(r) },
                ),
            );
        }
        r
    }

    /// Whether the live root table binds Left.
    pub fn root_left_bound(&mut self) -> (r: Result<bool, String>)
        ensures
            final(self).deeds() == old(self).deeds().push(
                Deed::Server(
                    ServerExchange {
                        request: ServerRequest::RootLeftBound,
                        reply: reload::flag_reply(r),
                    },
                ),
            ),
    {
        let r = self.server.root_left_bound();
        proof {
            self.log@ = self.log@.push(
                Deed::Server(
                    ServerExchange {
                        request: ServerRequest::RootLeftBound,
                        reply: reload::flag_reply(r),
                    },
                ),
            );
        }
        r
    }

    /// Removes a live prefix-table binding.
    pub fn unbind(&mut self, key: &str) -> (r: Result<(), String>)
        ensures
            final(self).deeds() == old(self).deeds().push(
                Deed::Server(
                    ServerExchange {
                        request: ServerRequest::Unbind(key@),
                        reply: reload::done_reply(r),
                    },
                ),
            ),
    {
        let r = self.server.unbind(key);
        proof {
            self.log@ = self.log@.push(
                Deed::Server(
                    ServerExchange {
                        request: ServerRequest::Unbind(key@),
                        reply: reload::done_reply(r),
                    },
                ),
            );
        }
        r
    }

    /// Removes the live root-table binding of Left that the given program owns.
    pub fn unbind_root_left(&mut self, expected_mux: &UnixPath) -> (r: Result<(), String>)
        ensures
            final(self).deeds() == old(self).deeds().push(
                Deed::Server(
                    ServerExchange {
                        request: ServerRequest::UnbindRootLeft(expected_mux@),
                        reply: reload::done_reply(r),
                    },
                ),
            ),
    {
        let r = self.server.unbind_root_left(expected_mux);
        proof {
            self.log@ = self.log@.push(
                Deed::Server(
                    ServerExchange {
                        request: ServerRequest::UnbindRootLeft(expected_mux@),
                        reply: reload::done_reply(r),
                    },
                ),
            );
        }
        r
    }

    /// Has the server read the configuration.
    pub fn reload(&mut self, path: &UnixPath) -> (r: Result<(), String>)
        ensures
            final(self).deeds() == old(self).deeds().push(
                Deed::Server(
                    ServerExchange {
                        request: ServerRequest::Reload(path@),
                        reply: reload::done_reply(r),
                    },
                ),
            ),
    {
        let r = self.server.reload(path);
        proof {
            self.log@ = self.log@.push(
                Deed::Server(
                    ServerExchange {
                        request: ServerRequest::Reload(path@),
                        reply: reload::done_reply(r),
                    },
                ),
            );
        }
        r
    }
}

} // verus!
