//! The files that identify a process with a record of every look at them.

use vstd::prelude::*;
use crate::domain;
use crate::linux_process::identity::{IdentityEvent, IdentityFiles};
use crate::path::UnixPath;

verus! {

/// The files of a process together with everything they showed.
pub struct LoggedIdentity<F> {
    inner: F,
    log: Ghost<Seq<IdentityEvent>>,
}

impl<F: IdentityFiles> LoggedIdentity<F> {
    pub closed spec fn events(&self) -> Seq<IdentityEvent> {
        self.log@
    }

    pub fn new(inner: F) -> (r: Self)
        ensures
            r.events() == Seq::<IdentityEvent>::empty(),
    {
        LoggedIdentity { inner, log: Ghost(Seq::empty()) }
    }

    pub fn executable(&mut self) -> (r: Option<UnixPath>)
        ensures
            final(self).events() == old(self).events().push(
                IdentityEvent::Executable(domain::path_view(r)),
            ),
    {
        let r = self.inner.executable();
        self.log = Ghost(self.log@.push(IdentityEvent::Executable(domain::path_view(r))));
        r
    }

    pub fn executable_identity(&mut self) -> (r: Option<(u64, u64)>)
        ensures
            final(self).events() == old(self).events().push(IdentityEvent::Identity(r)),
    {
        let r = self.inner.executable_identity();
        self.log = Ghost(self.log@.push(IdentityEvent::Identity(r)));
        r
    }

    pub fn is_trusted_interpreter(&mut self, executable: &UnixPath) -> (r: bool)
        ensures
            final(self).events() == old(self).events().push(
                IdentityEvent::Trusted { path: executable@, reply: r },
            ),
    {
        let r = self.inner.is_trusted_interpreter(executable);
        self.log = Ghost(
            self.log@.push(IdentityEvent::Trusted { path: executable@, reply: r }),
        );
        r
    }

    pub fn command_line(&mut self, limit: u64) -> (r: (bool, Vec<u8>))
        ensures
            final(self).events() == old(self).events().push(
                IdentityEvent::CommandLine { limit, read: r.0, bytes: r.1@ },
            ),
    {
        let r = self.inner.command_line(limit);
        self.log = Ghost(
            self.log@.push(IdentityEvent::CommandLine { limit, read: r.0, bytes: r.1@ }),
        );
        r
    }

    pub fn file_identity(&mut self, path: &UnixPath) -> (r: Option<(u64, u64)>)
        ensures
            final(self).events() == old(self).events().push(
                IdentityEvent::File { path: path@, reply: r },
            ),
    {
        let r = self.inner.file_identity(path);
        self.log = Ghost(self.log@.push(IdentityEvent::File { path: path@, reply: r }));
        r
    }
}

} // verus!
