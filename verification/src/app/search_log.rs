//! The search path with a record of everything asked of it.

use vstd::prelude::*;
use crate::app::search;
use crate::app::search::{SearchEvent, SearchHost};
use crate::domain;
use crate::path::UnixPath;

verus! {

/// A boundary together with everything it was asked.
pub struct LoggedSearch<H> {
    inner: H,
    log: Ghost<Seq<SearchEvent>>,
}

impl<H: SearchHost> LoggedSearch<H> {
    /// Every question so far with its answer.
    pub closed spec fn events(&self) -> Seq<SearchEvent> {
        self.log@
    }

    pub fn new(inner: H) -> (r: Self)
        ensures
            r.events() == Seq::<SearchEvent>::empty(),
    {
        LoggedSearch { inner, log: Ghost(Seq::empty()) }
    }

    pub fn directories(&mut self) -> (r: Vec<UnixPath>)
        ensures
            final(self).events() == old(self).events().push(
                SearchEvent::Directories(domain::path_list(r@)),
            ),
    {
        let r = self.inner.directories();
        self.log = Ghost(self.log@.push(SearchEvent::Directories(domain::path_list(r@))));
        r
    }

    pub fn is_file(&mut self, p: &UnixPath) -> (r: bool)
        ensures
            final(self).events() == old(self).events().push(
                SearchEvent::IsFile { path: p@, reply: r },
            ),
    {
        let r = self.inner.is_file(p);
        self.log = Ghost(self.log@.push(SearchEvent::IsFile { path: p@, reply: r }));
        r
    }

    pub fn canonical(&mut self, p: &UnixPath) -> (r: Result<UnixPath, String>)
        ensures
            final(self).events() == old(self).events().push(
                SearchEvent::Canonical { path: p@, reply: search::canonical_reply(r) },
            ),
    {
        let r = self.inner.canonical(p);
        self.log = Ghost(
            self.log@.push(SearchEvent::Canonical { path: p@, reply: search::canonical_reply(r) }),
        );
        r
    }
}

} // verus!
