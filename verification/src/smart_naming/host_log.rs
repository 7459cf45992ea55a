//! What the system says of processes, with a record of what was asked and answered.
//!
//! Nothing outside this module can add to the record or ask the system without adding
//! to it.

use vstd::prelude::*;
use crate::error::MuxError;
use crate::path::UnixPath;
use crate::smart_naming::descriptors;
use crate::smart_naming::descriptors::{
    RolloutDescriptor, ServerFacts, SocketDescriptor, SocketFacts,
};
use crate::smart_naming::process_store;
use crate::smart_naming::process_store::{ProcEntry, ProcessHost};
use crate::smart_naming::rollout::EntryFacts;
use crate::smart_naming::sockets::UnixSocketDiagnostics;
use crate::smart_naming::store_replay::HostEvent;

verus! {

/// A system whose answers are recorded.
pub struct LoggedHost<T> {
    inner: T,
    log: Ghost<Seq<HostEvent>>,
}

impl<T: ProcessHost> LoggedHost<T> {
    /// What was asked and answered, in order.
    pub closed spec fn events(&self) -> Seq<HostEvent> {
        self.log@
    }

    pub closed spec fn wrapped(&self) -> T {
        self.inner
    }

    pub fn new(inner: T) -> (r: Self)
        ensures
            r.wrapped() == inner,
            r.events() == Seq::<HostEvent>::empty(),
    {
        LoggedHost { inner, log: Ghost(Seq::empty()) }
    }

    pub fn inner(&self) -> (r: &T)
        ensures
            *r == self.wrapped(),
    {
        &self.inner
    }

    pub fn is_cancelled(&mut self) -> (r: bool)
        ensures
            final(self).events() == old(self).events().push(
                HostEvent::Cancelled(r),
            ),
    {
        let r = self.inner.is_cancelled();
        proof {
            self.log@ = self.log@.push(
                HostEvent::Cancelled(r),
            );
        }
        r
    }

    pub fn user(&mut self) -> (r: u32)
        ensures
            final(self).events() == old(self).events().push(
                HostEvent::User(r),
            ),
    {
        let r = self.inner.user();
        proof {
            self.log@ = self.log@.push(
                HostEvent::User(r),
            );
        }
        r
    }

    pub fn identity(&mut self, pid: u32) -> (r: Option<(u32, u64)>)
        ensures
            final(self).events() == old(self).events().push(
                HostEvent::Identity { pid, reply: r },
            ),
    {
        let r = self.inner.identity(pid);
        proof {
            self.log@ = self.log@.push(
                HostEvent::Identity { pid, reply: r },
            );
        }
        r
    }

    pub fn executable(&mut self, pid: u32) -> (r: Option<(u64, u64)>)
        ensures
            final(self).events() == old(self).events().push(
                HostEvent::Program { pid, reply: r },
            ),
    {
        let r = self.inner.executable(pid);
        proof {
            self.log@ = self.log@.push(
                HostEvent::Program { pid, reply: r },
            );
        }
        r
    }

    pub fn socket_descriptors(&mut self, pid: u32) -> (r: Result<Vec<SocketDescriptor>, MuxError>)
        ensures
            final(self).events() == old(self).events().push(
                HostEvent::Sockets { pid, reply: process_store::listed(r) },
            ),
    {
        let r = self.inner.socket_descriptors(pid);
        proof {
            self.log@ = self.log@.push(
                HostEvent::Sockets { pid, reply: process_store::listed(r) },
            );
        }
        r
    }

    pub fn descriptor_targets(&mut self, pid: u32) -> (r: Option<Vec<Option<Vec<u8>>>>)
        ensures
            final(self).events() == old(self).events().push(
                HostEvent::Targets { pid, reply: process_store::targets_view(r) },
            ),
    {
        let r = self.inner.descriptor_targets(pid);
        proof {
            self.log@ = self.log@.push(
                HostEvent::Targets { pid, reply: process_store::targets_view(r) },
            );
        }
        r
    }

    pub fn rollout_descriptors(&mut self, pid: u32, root: &UnixPath) -> (r: Result<Vec<RolloutDescriptor>, MuxError>)
        ensures
            final(self).events() == old(self).events().push(
                HostEvent::Rollouts { pid, root: root@, reply: process_store::listed(r) },
            ),
    {
        let r = self.inner.rollout_descriptors(pid, root);
        proof {
            self.log@ = self.log@.push(
                HostEvent::Rollouts { pid, root: root@, reply: process_store::listed(r) },
            );
        }
        r
    }

    pub fn server(&mut self, pid: u32) -> (r: ServerFacts)
        ensures
            final(self).events() == old(self).events().push(
                HostEvent::Server { pid, reply: r },
            ),
    {
        let r = self.inner.server(pid);
        proof {
            self.log@ = self.log@.push(
                HostEvent::Server { pid, reply: r },
            );
        }
        r
    }

    pub fn socket(&mut self, path: &UnixPath) -> (r: Option<SocketFacts>)
        ensures
            final(self).events() == old(self).events().push(
                HostEvent::Socket { path: path@, reply: r },
            ),
    {
        let r = self.inner.socket(path);
        proof {
            self.log@ = self.log@.push(
                HostEvent::Socket { path: path@, reply: r },
            );
        }
        r
    }

    pub fn directories(&mut self, paths: &Vec<UnixPath>) -> (r: Vec<Option<EntryFacts>>)
        ensures
            final(self).events() == old(self).events().push(
                HostEvent::Directories { paths: descriptors::paths_of(paths@), reply: r@ },
            ),
    {
        let r = self.inner.directories(paths);
        proof {
            self.log@ = self.log@.push(
                HostEvent::Directories { paths: descriptors::paths_of(paths@), reply: r@ },
            );
        }
        r
    }

    pub fn process_entries(&mut self) -> (r: Result<Vec<ProcEntry>, MuxError>)
        ensures
            final(self).events() == old(self).events().push(
                HostEvent::Entries(process_store::listed(r)),
            ),
    {
        let r = self.inner.process_entries();
        proof {
            self.log@ = self.log@.push(
                HostEvent::Entries(process_store::listed(r)),
            );
        }
        r
    }

    pub fn unix_sockets(&mut self) -> (r: Result<UnixSocketDiagnostics, MuxError>)
        ensures
            final(self).events() == old(self).events().push(
                HostEvent::Diagnostics(process_store::diagnosed(r)),
            ),
    {
        let r = self.inner.unix_sockets();
        proof {
            self.log@ = self.log@.push(
                HostEvent::Diagnostics(process_store::diagnosed(r)),
            );
        }
        r
    }

    pub fn unix_list(&mut self) -> (r: Result<Vec<u8>, MuxError>)
        ensures
            final(self).events() == old(self).events().push(
                HostEvent::UnixList(process_store::listed(r)),
            ),
    {
        let r = self.inner.unix_list();
        proof {
            self.log@ = self.log@.push(
                HostEvent::UnixList(process_store::listed(r)),
            );
        }
        r
    }
}

} // verus!
