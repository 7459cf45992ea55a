//! The steps of a replacement with a record of all of them.

use vstd::prelude::*;
use crate::path::UnixPath;
use crate::replace;
use crate::replace::{Creation, FileSteps, Removal, StepEvent};

verus! {

/// A boundary together with everything that went through it.
pub struct LoggedSteps<S> {
    inner: S,
    log: Ghost<Seq<StepEvent>>,
}

impl<S: FileSteps> LoggedSteps<S> {
    pub closed spec fn wrapped(&self) -> S {
        self.inner
    }

    /// Every operation so far and its answer.
    pub closed spec fn events(&self) -> Seq<StepEvent> {
        self.log@
    }

    pub fn new(inner: S) -> (r: Self)
        ensures
            r.wrapped() == inner,
            r.events() == Seq::<StepEvent>::empty(),
    {
        LoggedSteps { inner, log: Ghost(Seq::empty()) }
    }

    /// What is wrapped.
    pub fn inner(&self) -> (r: &S)
        ensures
            *r == self.wrapped(),
    {
        &self.inner
    }

    pub fn nonce(&mut self) -> (r: String)
        ensures
            final(self).events() == old(self).events().push(StepEvent::Nonce(r@)),
    {
        let r = self.inner.nonce();
        self.log = Ghost(self.log@.push(StepEvent::Nonce(r@)));
        r
    }

    /// Creates a directory and those above it.
    pub fn make_directories(&mut self, p: &UnixPath) -> (r: Result<(), String>)
        ensures
            final(self).events() == old(self).events().push(
                StepEvent::Directories { path: p@, reply: replace::said(r) },
            ),
    {
        let r = self.inner.make_directories(p);
        self.log = Ghost(
            self.log@.push(StepEvent::Directories { path: p@, reply: replace::said(r) }),
        );
        r
    }

    pub fn create(&mut self, p: &UnixPath, mode: u32) -> (r: Creation)
        ensures
            final(self).events() == old(self).events().push(
                StepEvent::Create { path: p@, mode, reply: r@ },
            ),
    {
        let r = self.inner.create(p, mode);
        self.log = Ghost(self.log@.push(StepEvent::Create { path: p@, mode, reply: r@ }));
        r
    }

    pub fn set_mode(&mut self, mode: u32) -> (r: Result<(), String>)
        ensures
            final(self).events() == old(self).events().push(
                StepEvent::SetMode { mode, reply: replace::said(r) },
            ),
    {
        let r = self.inner.set_mode(mode);
        self.log = Ghost(self.log@.push(StepEvent::SetMode { mode, reply: replace::said(r) }));
        r
    }

    pub fn write(&mut self, bytes: &Vec<u8>) -> (r: Result<(), String>)
        ensures
            final(self).events() == old(self).events().push(
                StepEvent::Write { bytes: bytes@, reply: replace::said(r) },
            ),
    {
        let r = self.inner.write(bytes);
        self.log = Ghost(self.log@.push(StepEvent::Write { bytes: bytes@, reply: replace::said(r) }));
        r
    }

    pub fn sync(&mut self) -> (r: Result<(), String>)
        ensures
            final(self).events() == old(self).events().push(StepEvent::Sync(replace::said(r))),
    {
        let r = self.inner.sync();
        self.log = Ghost(self.log@.push(StepEvent::Sync(replace::said(r))));
        r
    }

    pub fn rename(&mut self, from: &UnixPath, to: &UnixPath) -> (r: Result<(), String>)
        ensures
            final(self).events() == old(self).events().push(
                StepEvent::Rename { from: from@, to: to@, reply: replace::said(r) },
            ),
    {
        let r = self.inner.rename(from, to);
        self.log = Ghost(
            self.log@.push(StepEvent::Rename { from: from@, to: to@, reply: replace::said(r) }),
        );
        r
    }

    pub fn sync_directory(&mut self, p: &UnixPath) -> (r: Result<(), String>)
        ensures
            final(self).events() == old(self).events().push(
                StepEvent::SyncDirectory { path: p@, reply: replace::said(r) },
            ),
    {
        let r = self.inner.sync_directory(p);
        self.log = Ghost(
            self.log@.push(StepEvent::SyncDirectory { path: p@, reply: replace::said(r) }),
        );
        r
    }

    /// Deletes a file.
    pub fn delete(&mut self, p: &UnixPath) -> (r: Removal)
        ensures
            final(self).events() == old(self).events().push(
                StepEvent::Remove { path: p@, reply: r@ },
            ),
    {
        let r = self.inner.remove(p);
        self.log = Ghost(self.log@.push(StepEvent::Remove { path: p@, reply: r@ }));
        r
    }
}

} // verus!
