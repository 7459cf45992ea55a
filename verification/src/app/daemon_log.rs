//! The host of the naming daemon with a record of everything asked of it.

use vstd::prelude::*;
use crate::app::daemon;
use crate::app::daemon::{DaemonHost, LockState, StopEvent};
use crate::app::process;
use crate::error;
use crate::error::MuxError;
use crate::smart_naming::process_store::ProcEntry;

verus! {

/// A host together with everything it did.
pub struct LoggedDaemon<H> {
    inner: H,
    log: Ghost<Seq<StopEvent>>,
}

impl<H: DaemonHost> LoggedDaemon<H> {
    pub closed spec fn events(&self) -> Seq<StopEvent> {
        self.log@
    }

    pub fn new(inner: H) -> (r: Self)
        ensures
            r.events() == Seq::<StopEvent>::empty(),
    {
        LoggedDaemon { inner, log: Ghost(Seq::empty()) }
    }

    pub fn inner(&self) -> (r: &H) {
        &self.inner
    }

    pub fn try_lock(&mut self) -> (r: LockState)
        ensures
            final(self).events() == old(self).events().push(StopEvent::TryLock(r)),
    {
        let r = self.inner.try_lock();
        self.log = Ghost(self.log@.push(StopEvent::TryLock(r)));
        r
    }

    pub fn read_record(&mut self) -> (r: Result<String, MuxError>)
        ensures
            final(self).events() == old(self).events().push(
                StopEvent::ReadRecord(process::text_outcome(r)),
            ),
    {
        let r = self.inner.read_record();
        self.log = Ghost(self.log@.push(StopEvent::ReadRecord(process::text_outcome(r))));
        r
    }

    pub fn lock_owner(&mut self) -> (r: Result<u32, MuxError>)
        ensures
            final(self).events() == old(self).events().push(
                StopEvent::LockOwner(error::outcome(r)),
            ),
    {
        let r = self.inner.lock_owner();
        self.log = Ghost(self.log@.push(StopEvent::LockOwner(error::outcome(r))));
        r
    }

    pub fn bind(&mut self, pid: u32) -> (r: Result<(), String>)
        ensures
            final(self).events() == old(self).events().push(StopEvent::Bind(pid, daemon::said(r))),
    {
        let r = self.inner.bind(pid);
        self.log = Ghost(self.log@.push(StopEvent::Bind(pid, daemon::said(r))));
        r
    }

    pub fn start_time(&mut self, pid: u32) -> (r: Result<u64, MuxError>)
        ensures
            final(self).events() == old(self).events().push(
                StopEvent::StartTime(pid, error::outcome(r)),
            ),
    {
        let r = self.inner.start_time(pid);
        self.log = Ghost(self.log@.push(StopEvent::StartTime(pid, error::outcome(r))));
        r
    }

    pub fn suspend(&mut self) -> (r: Result<(), String>)
        ensures
            final(self).events() == old(self).events().push(StopEvent::Suspend(daemon::said(r))),
    {
        let r = self.inner.suspend();
        self.log = Ghost(self.log@.push(StopEvent::Suspend(daemon::said(r))));
        r
    }

    pub fn process_entries(&mut self) -> (r: Vec<ProcEntry>)
        ensures
            final(self).events() == old(self).events().push(StopEvent::Entries(r@)),
    {
        let r = self.inner.process_entries();
        self.log = Ghost(self.log@.push(StopEvent::Entries(r@)));
        r
    }

    pub fn hold(&mut self, pid: u32) -> (r: bool)
        ensures
            final(self).events() == old(self).events().push(StopEvent::Hold(pid, r)),
    {
        let r = self.inner.hold(pid);
        self.log = Ghost(self.log@.push(StopEvent::Hold(pid, r)));
        r
    }

    pub fn release(&mut self)
        ensures
            final(self).events() == old(self).events().push(StopEvent::Release),
    {
        self.inner.release();
        self.log = Ghost(self.log@.push(StopEvent::Release));
    }

    pub fn kill_held(&mut self)
        ensures
            final(self).events() == old(self).events().push(StopEvent::KillHeld),
    {
        self.inner.kill_held();
        self.log = Ghost(self.log@.push(StopEvent::KillHeld));
    }

    pub fn kill(&mut self) -> (r: Result<(), String>)
        ensures
            final(self).events() == old(self).events().push(StopEvent::Kill(daemon::said(r))),
    {
        let r = self.inner.kill();
        self.log = Ghost(self.log@.push(StopEvent::Kill(daemon::said(r))));
        r
    }
}

} // verus!
