//! The files of the configuration with a record of every operation on them.

use vstd::prelude::*;
use crate::codex_config::owned;
use crate::codex_config::owned::{FileSnapshot, OwnedEvent, OwnedFiles};
use crate::error;
use crate::error::MuxError;
use crate::path::UnixPath;

verus! {

/// A file system together with everything it did.
pub struct LoggedOwned<F> {
    inner: F,
    log: Ghost<Seq<OwnedEvent>>,
}

impl<F: OwnedFiles> LoggedOwned<F> {
    pub closed spec fn events(&self) -> Seq<OwnedEvent> {
        self.log@
    }

    pub fn new(inner: F) -> (r: Self)
        ensures
            r.events() == Seq::<OwnedEvent>::empty(),
    {
        LoggedOwned { inner, log: Ghost(Seq::empty()) }
    }

    pub fn inner(&self) -> (r: &F) {
        &self.inner
    }

    pub fn make_directory(&mut self, p: &UnixPath) -> (r: Result<(), MuxError>)
        ensures
            final(self).events() == old(self).events().push(
                OwnedEvent::Directory { path: p@, reply: error::outcome(r) },
            ),
    {
        let r = self.inner.make_directory(p);
        self.log = Ghost(
            self.log@.push(OwnedEvent::Directory { path: p@, reply: error::outcome(r) }),
        );
        r
    }

    pub fn nonce(&mut self) -> (r: String)
        ensures
            final(self).events() == old(self).events().push(OwnedEvent::Nonce(r@)),
    {
        let r = self.inner.nonce();
        self.log = Ghost(self.log@.push(OwnedEvent::Nonce(r@)));
        r
    }

    pub fn create(&mut self, p: &UnixPath, bytes: &Vec<u8>, mode: u32) -> (r: Result<
        FileSnapshot,
        MuxError,
    >)
        ensures
            final(self).events() == old(self).events().push(
                OwnedEvent::Create { path: p@, bytes: bytes@, mode, reply: owned::created_outcome(r) },
            ),
    {
        let r = self.inner.create(p, bytes, mode);
        self.log = Ghost(
            self.log@.push(
                OwnedEvent::Create { path: p@, bytes: bytes@, mode, reply: owned::created_outcome(r) },
            ),
        );
        r
    }

    pub fn create_empty(&mut self, p: &UnixPath) -> (r: Result<FileSnapshot, MuxError>)
        ensures
            final(self).events() == old(self).events().push(
                OwnedEvent::CreateEmpty { path: p@, reply: owned::created_outcome(r) },
            ),
    {
        let r = self.inner.create_empty(p);
        self.log = Ghost(
            self.log@.push(OwnedEvent::CreateEmpty { path: p@, reply: owned::created_outcome(r) }),
        );
        r
    }

    pub fn snapshot(&mut self, p: &UnixPath) -> (r: Result<Option<FileSnapshot>, MuxError>)
        ensures
            final(self).events() == old(self).events().push(
                OwnedEvent::Look { path: p@, reply: owned::snapshot_outcome(r) },
            ),
    {
        let r = self.inner.snapshot(p);
        self.log = Ghost(
            self.log@.push(OwnedEvent::Look { path: p@, reply: owned::snapshot_outcome(r) }),
        );
        r
    }

    pub fn exchange(&mut self, a: &UnixPath, b: &UnixPath) -> (r: Result<(), MuxError>)
        ensures
            final(self).events() == old(self).events().push(
                OwnedEvent::Exchange { a: a@, b: b@, reply: error::outcome(r) },
            ),
    {
        let r = self.inner.exchange(a, b);
        self.log = Ghost(
            self.log@.push(OwnedEvent::Exchange { a: a@, b: b@, reply: error::outcome(r) }),
        );
        r
    }

    pub fn move_new(&mut self, from: &UnixPath, to: &UnixPath) -> (r: Result<(), MuxError>)
        ensures
            final(self).events() == old(self).events().push(
                OwnedEvent::Move { from: from@, to: to@, reply: error::outcome(r) },
            ),
    {
        let r = self.inner.move_new(from, to);
        self.log = Ghost(
            self.log@.push(OwnedEvent::Move { from: from@, to: to@, reply: error::outcome(r) }),
        );
        r
    }

    pub fn remove(&mut self, p: &UnixPath) -> (r: Result<(), MuxError>)
        ensures
            final(self).events() == old(self).events().push(
                OwnedEvent::Remove { path: p@, reply: error::outcome(r) },
            ),
    {
        let r = self.inner.remove(p);
        self.log = Ghost(
            self.log@.push(OwnedEvent::Remove { path: p@, reply: error::outcome(r) }),
        );
        r
    }

    pub fn sync_directory(&mut self, p: &UnixPath) -> (r: Result<(), MuxError>)
        ensures
            final(self).events() == old(self).events().push(
                OwnedEvent::Sync { path: p@, reply: error::outcome(r) },
            ),
    {
        let r = self.inner.sync_directory(p);
        self.log = Ghost(
            self.log@.push(OwnedEvent::Sync { path: p@, reply: error::outcome(r) }),
        );
        r
    }
}

} // verus!
