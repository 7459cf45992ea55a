//! What the sources of session identities are asked, with a record of the answers.
//!
//! Nothing outside this module can add to the records or ask the sources without adding
//! to them.

use vstd::prelude::*;
use crate::error;
use crate::error::MuxError;
use crate::path::UnixPath;
use crate::smart_naming::process_store;
use crate::smart_naming::process_store::ProcEntry;
use crate::smart_naming::rollout::EntryFacts;
use crate::smart_naming::rollout_store;
use crate::smart_naming::rollout_store::TreeEntry;
use crate::smart_naming::shell_snapshot;
use crate::smart_naming::shell_snapshot::{EnvironmentHost, SnapshotFiles};
use crate::smart_naming::snapshot_replay::SnapshotEvent;

verus! {

/// Snapshot files whose answers are recorded.
pub struct LoggedSnapshots<T> {
    inner: T,
    log: Ghost<Seq<SnapshotEvent>>,
}

impl<T: SnapshotFiles> LoggedSnapshots<T> {
    /// What was asked and answered, in order.
    pub closed spec fn events(&self) -> Seq<SnapshotEvent> {
        self.log@
    }

    pub closed spec fn wrapped(&self) -> T {
        self.inner
    }

    pub fn new(inner: T) -> (r: Self)
        ensures
            r.wrapped() == inner,
            r.events() == Seq::<SnapshotEvent>::empty(),
    {
        LoggedSnapshots { inner, log: Ghost(Seq::empty()) }
    }

    pub fn inner(&self) -> (r: &T)
        ensures
            *r == self.wrapped(),
    {
        &self.inner
    }

    pub fn user(&mut self) -> (r: u32)
        ensures
            final(self).events() == old(self).events().push(
                SnapshotEvent::User(r),
            ),
    {
        let r = self.inner.user();
        proof {
            self.log@ = self.log@.push(
                SnapshotEvent::User(r),
            );
        }
        r
    }

    pub fn started(&mut self, pid: u32) -> (r: Result<u64, MuxError>)
        ensures
            final(self).events() == old(self).events().push(
                SnapshotEvent::Started { pid, reply: error::outcome(r) },
            ),
    {
        let r = self.inner.started(pid);
        proof {
            self.log@ = self.log@.push(
                SnapshotEvent::Started { pid, reply: error::outcome(r) },
            );
        }
        r
    }

    pub fn open_root(&mut self, root: &UnixPath) -> (r: Result<Option<EntryFacts>, MuxError>)
        ensures
            final(self).events() == old(self).events().push(
                SnapshotEvent::Root { path: root@, reply: error::outcome(r) },
            ),
    {
        let r = self.inner.open_root(root);
        proof {
            self.log@ = self.log@.push(
                SnapshotEvent::Root { path: root@, reply: error::outcome(r) },
            );
        }
        r
    }

    pub fn entries(&mut self, root: &UnixPath) -> (r: Result<Vec<Result<TreeEntry, MuxError>>, MuxError>)
        ensures
            final(self).events() == old(self).events().push(
                SnapshotEvent::Entries { path: root@, reply: rollout_store::entries_outcome(r) },
            ),
    {
        let r = self.inner.entries(root);
        proof {
            self.log@ = self.log@.push(
                SnapshotEvent::Entries { path: root@, reply: rollout_store::entries_outcome(r) },
            );
        }
        r
    }

    pub fn open_file(&mut self, name: &Vec<u8>) -> (r: Result<(EntryFacts, i64), MuxError>)
        ensures
            final(self).events() == old(self).events().push(
                SnapshotEvent::File { name: name@, reply: error::outcome(r) },
            ),
    {
        let r = self.inner.open_file(name);
        proof {
            self.log@ = self.log@.push(
                SnapshotEvent::File { name: name@, reply: error::outcome(r) },
            );
        }
        r
    }

    pub fn lines(&mut self, name: &Vec<u8>) -> (r: Result<Vec<String>, MuxError>)
        ensures
            final(self).events() == old(self).events().push(
                SnapshotEvent::Lines { name: name@, reply: shell_snapshot::lines_outcome(r) },
            ),
    {
        let r = self.inner.lines(name);
        proof {
            self.log@ = self.log@.push(
                SnapshotEvent::Lines { name: name@, reply: shell_snapshot::lines_outcome(r) },
            );
        }
        r
    }
}

/// Process environments whose answers are recorded.
pub struct LoggedEnvironments<T> {
    inner: T,
    log: Ghost<Seq<SnapshotEvent>>,
}

impl<T: EnvironmentHost> LoggedEnvironments<T> {
    /// What was asked and answered, in order.
    pub closed spec fn events(&self) -> Seq<SnapshotEvent> {
        self.log@
    }

    pub closed spec fn wrapped(&self) -> T {
        self.inner
    }

    pub fn new(inner: T) -> (r: Self)
        ensures
            r.wrapped() == inner,
            r.events() == Seq::<SnapshotEvent>::empty(),
    {
        LoggedEnvironments { inner, log: Ghost(Seq::empty()) }
    }

    pub fn inner(&self) -> (r: &T)
        ensures
            *r == self.wrapped(),
    {
        &self.inner
    }

    pub fn process_entries(&mut self) -> (r: Result<Vec<ProcEntry>, MuxError>)
        ensures
            final(self).events() == old(self).events().push(
                SnapshotEvent::Processes(process_store::listed(r)),
            ),
    {
        let r = self.inner.process_entries();
        proof {
            self.log@ = self.log@.push(
                SnapshotEvent::Processes(process_store::listed(r)),
            );
        }
        r
    }

    pub fn environment(&mut self, pid: u32) -> (r: Result<Option<Vec<u8>>, MuxError>)
        ensures
            final(self).events() == old(self).events().push(
                SnapshotEvent::Environment { pid, reply: shell_snapshot::environment_outcome(r) },
            ),
    {
        let r = self.inner.environment(pid);
        proof {
            self.log@ = self.log@.push(
                SnapshotEvent::Environment { pid, reply: shell_snapshot::environment_outcome(r) },
            );
        }
        r
    }

    pub fn identity(&mut self, pid: u32) -> (r: Option<(u32, u64)>)
        ensures
            final(self).events() == old(self).events().push(
                SnapshotEvent::Identity { pid, reply: r },
            ),
    {
        let r = self.inner.identity(pid);
        proof {
            self.log@ = self.log@.push(
                SnapshotEvent::Identity { pid, reply: r },
            );
        }
        r
    }
}

} // verus!
