//! The programs of a process configuration with a record of every look at them.

use vstd::prelude::*;
use crate::app::process;
use crate::app::process::{Look, ProcessFiles};
use crate::config::FileProbe;
use crate::error::MuxError;
use crate::path::UnixPath;

verus! {

/// A file system together with everything it was asked.
pub struct LoggedProcessFiles<F> {
    inner: F,
    log: Ghost<Seq<Look>>,
}

impl<F: ProcessFiles> LoggedProcessFiles<F> {
    /// Every question so far with its answer.
    pub closed spec fn looks(&self) -> Seq<Look> {
        self.log@
    }

    pub fn new(inner: F) -> (r: Self)
        ensures
            r.looks() == Seq::<Look>::empty(),
    {
        LoggedProcessFiles { inner, log: Ghost(Seq::empty()) }
    }

    pub fn discover_codex(&mut self) -> (r: Result<UnixPath, MuxError>)
        ensures
            final(self).looks() == old(self).looks().push(
                Look::Discovered(process::path_outcome(r)),
            ),
    {
        let r = self.inner.discover_codex();
        self.log = Ghost(
            self.log@.push(
                Look::Discovered(process::path_outcome(r)),
            ),
        );
        r
    }

    pub fn probe(&mut self, location: &UnixPath) -> (r: FileProbe)
        ensures
            final(self).looks() == old(self).looks().push(
                Look::Probed { path: location@, probe: r },
            ),
    {
        let r = self.inner.probe(location);
        self.log = Ghost(self.log@.push(Look::Probed { path: location@, probe: r }));
        r
    }
}

} // verus!
