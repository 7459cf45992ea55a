//! Procfs, with a record of what was asked and what it answered.
//!
//! Nothing outside this module can add to the record or read procfs without adding to
//! it.

use vstd::prelude::*;
use crate::domain;
use crate::linux_process::evidence;
use crate::linux_process::evidence::{EvidenceModel, ProcReads};
use crate::linux_process::inspector;
use crate::linux_process::inspector::ProcFiles;
use crate::linux_process::replay;
use crate::linux_process::replay::ProcEvent;
use crate::path::UnixPath;

verus! {

/// Process files whose answers are recorded.
pub struct LoggedProc<P> {
    inner: P,
    log: Ghost<Seq<ProcEvent>>,
}

impl<P: ProcFiles> LoggedProc<P> {
    /// Every question that was asked so far, with its answer.
    pub closed spec fn events(&self) -> Seq<ProcEvent> {
        self.log@
    }

    /// Every process that was seen so far, in order.
    pub open spec fn sightings(&self) -> Seq<EvidenceModel> {
        replay::seen_in(self.events())
    }

    pub closed spec fn wrapped(&self) -> P {
        self.inner
    }

    pub fn new(inner: P) -> (r: Self)
        ensures
            r.wrapped() == inner,
            r.events() == Seq::<ProcEvent>::empty(),
    {
        LoggedProc { inner, log: Ghost(Seq::empty()) }
    }

    /// Reads the files of one process.
    pub fn read_process(&mut self, pid: u32) -> (r: ProcReads)
        ensures
            final(self).events() == old(self).events().push(
                ProcEvent::Read { pid, reply: evidence::assembled(pid, r) },
            ),
            final(self).sightings() == match evidence::assembled(pid, r) {
                Ok(Some(e)) => old(self).sightings().push(e),
                _ => old(self).sightings(),
            },
    {
        let r = self.inner.read_process(pid);
        proof {
            let e = ProcEvent::Read { pid, reply: evidence::assembled(pid, r) };
            replay::seen_with_one_more(self.log@, e);
            self.log@ = self.log@.push(e);
        }
        r
    }

    /// The names of the entries of procfs.
    pub fn process_entries(&mut self) -> (r: Result<Vec<Vec<u8>>, String>)
        ensures
            final(self).events() == old(self).events().push(
                ProcEvent::Entries(inspector::entries_view(r)),
            ),
            final(self).sightings() == old(self).sightings(),
    {
        let r = self.inner.process_entries();
        proof {
            let e = ProcEvent::Entries(inspector::entries_view(r));
            replay::seen_with_one_more(self.log@, e);
            self.log@ = self.log@.push(e);
        }
        r
    }

    /// A path with its symbolic links resolved.
    pub fn canonical(&mut self, p: &UnixPath) -> (r: Option<UnixPath>)
        ensures
            final(self).events() == old(self).events().push(
                ProcEvent::Canonical { path: p@, reply: domain::path_view(r) },
            ),
            final(self).sightings() == old(self).sightings(),
    {
        let r = self.inner.canonical(p);
        proof {
            let e = ProcEvent::Canonical { path: p@, reply: domain::path_view(r) };
            replay::seen_with_one_more(self.log@, e);
            self.log@ = self.log@.push(e);
        }
        r
    }

    pub fn is_file(&mut self, p: &UnixPath) -> (r: bool)
        ensures
            final(self).events() == old(self).events().push(
                ProcEvent::IsFile { path: p@, reply: r },
            ),
            final(self).sightings() == old(self).sightings(),
    {
        let r = self.inner.is_file(p);
        proof {
            let e = ProcEvent::IsFile { path: p@, reply: r };
            replay::seen_with_one_more(self.log@, e);
            self.log@ = self.log@.push(e);
        }
        r
    }

    /// The directories in which programs are searched.
    pub fn search_path(&mut self) -> (r: Vec<UnixPath>)
        ensures
            final(self).events() == old(self).events().push(
                ProcEvent::Search(domain::path_list(r@)),
            ),
            final(self).sightings() == old(self).sightings(),
    {
        let r = self.inner.search_path();
        proof {
            let e = ProcEvent::Search(domain::path_list(r@));
            replay::seen_with_one_more(self.log@, e);
            self.log@ = self.log@.push(e);
        }
        r
    }

    /// The device number of a character device.
    pub fn device(&mut self, p: &UnixPath) -> (r: Option<u64>)
        ensures
            final(self).events() == old(self).events().push(
                ProcEvent::Device { path: p@, reply: r },
            ),
            final(self).sightings() == old(self).sightings(),
    {
        let r = self.inner.device(p);
        proof {
            let e = ProcEvent::Device { path: p@, reply: r };
            replay::seen_with_one_more(self.log@, e);
            self.log@ = self.log@.push(e);
        }
        r
    }
}

} // verus!
