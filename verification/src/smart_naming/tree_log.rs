//! The tree of rollouts, with a record of what was asked and answered.
//!
//! Nothing outside this module can add to the record or reach the tree without adding
//! to it.

use vstd::prelude::*;
use crate::error;
use crate::error::MuxError;
use crate::path::UnixPath;
use crate::smart_naming::rollout::EntryFacts;
use crate::smart_naming::rollout_replay::TreeEvent;
use crate::smart_naming::rollout_store;
use crate::smart_naming::rollout_store::{RolloutFiles, TreeEntry};

verus! {

/// Files whose answers are recorded.
pub struct LoggedTree<T> {
    inner: T,
    log: Ghost<Seq<TreeEvent>>,
}

impl<T> LoggedTree<T> {
    /// What was asked and answered, in order.
    pub closed spec fn events(&self) -> Seq<TreeEvent> {
        self.log@
    }

    pub closed spec fn wrapped(&self) -> T {
        self.inner
    }
}

impl<T: RolloutFiles> LoggedTree<T> {
    pub fn new(inner: T) -> (r: Self)
        ensures
            r.wrapped() == inner,
            r.events() == Seq::<TreeEvent>::empty(),
    {
        LoggedTree { inner, log: Ghost(Seq::empty()) }
    }

    pub fn inner(&self) -> (r: &T)
        ensures
            *r == self.wrapped(),
    {
        &self.inner
    }

    pub fn is_cancelled(&mut self) -> (r: bool)
        ensures
            final(self).events() == old(self).events().push(
                TreeEvent::Cancelled(r),
            ),
    {
        let r = self.inner.is_cancelled();
        proof {
            self.log@ = self.log@.push(
                TreeEvent::Cancelled(r),
            );
        }
        r
    }

    pub fn user(&mut self) -> (r: u32)
        ensures
            final(self).events() == old(self).events().push(
                TreeEvent::User(r),
            ),
    {
        let r = self.inner.user();
        proof {
            self.log@ = self.log@.push(
                TreeEvent::User(r),
            );
        }
        r
    }

    pub fn open_root(&mut self, root: &UnixPath) -> (r: Result<Option<EntryFacts>, MuxError>)
        ensures
            final(self).events() == old(self).events().push(
                TreeEvent::Root { path: root@, reply: error::outcome(r) },
            ),
    {
        let r = self.inner.open_root(root);
        proof {
            self.log@ = self.log@.push(
                TreeEvent::Root { path: root@, reply: error::outcome(r) },
            );
        }
        r
    }

    pub fn open_directory(&mut self, directory: &UnixPath) -> (r: Result<EntryFacts, MuxError>)
        ensures
            final(self).events() == old(self).events().push(
                TreeEvent::Directory { path: directory@, reply: error::outcome(r) },
            ),
    {
        let r = self.inner.open_directory(directory);
        proof {
            self.log@ = self.log@.push(
                TreeEvent::Directory { path: directory@, reply: error::outcome(r) },
            );
        }
        r
    }

    pub fn entries(&mut self, directory: &UnixPath) -> (r: Result<Vec<Result<TreeEntry, MuxError>>, MuxError>)
        ensures
            final(self).events() == old(self).events().push(
                TreeEvent::Entries { path: directory@, reply: rollout_store::entries_outcome(r) },
            ),
    {
        let r = self.inner.entries(directory);
        proof {
            self.log@ = self.log@.push(
                TreeEvent::Entries { path: directory@, reply: rollout_store::entries_outcome(r) },
            );
        }
        r
    }

    pub fn open_file(&mut self, file: &UnixPath) -> (r: Result<EntryFacts, MuxError>)
        ensures
            final(self).events() == old(self).events().push(
                TreeEvent::File { path: file@, reply: error::outcome(r) },
            ),
    {
        let r = self.inner.open_file(file);
        proof {
            self.log@ = self.log@.push(
                TreeEvent::File { path: file@, reply: error::outcome(r) },
            );
        }
        r
    }

    pub fn read(&mut self, file: &UnixPath, from: u64, limit: u64) -> (r: Result<Vec<u8>, MuxError>)
        ensures
            final(self).events() == old(self).events().push(
                TreeEvent::Read { path: file@, from, limit, reply: rollout_store::bytes_outcome(r) },
            ),
    {
        let r = self.inner.read(file, from, limit);
        proof {
            self.log@ = self.log@.push(
                TreeEvent::Read { path: file@, from, limit, reply: rollout_store::bytes_outcome(r) },
            );
        }
        r
    }
}

} // verus!
