//! The switches of a terminal with a record of every setting.

use vstd::prelude::*;
use crate::error;
use crate::error::MuxError;
use crate::ui::terminal::{Switch, Switchboard, Switched};

verus! {

/// A terminal whose switches can be set, together with every setting so far.
pub struct LoggedSwitches<W> {
    inner: W,
    log: Ghost<Seq<Switched>>,
}

impl<W> LoggedSwitches<W> {
    /// The switches that were set so far, and what came of each.
    pub closed spec fn events(&self) -> Seq<Switched> {
        self.log@
    }

    pub closed spec fn wrapped(&self) -> W {
        self.inner
    }

    pub fn new(inner: W) -> (r: Self)
        ensures
            r.wrapped() == inner,
            r.events() == Seq::<Switched>::empty(),
    {
        LoggedSwitches { inner, log: Ghost(Seq::empty()) }
    }

    pub fn inner(&self) -> (r: &W)
        ensures
            *r == self.wrapped(),
    {
        &self.inner
    }
}

impl<W: Switchboard> LoggedSwitches<W> {
    pub fn set(&mut self, switch: Switch) -> (r: Result<(), MuxError>)
        ensures
            final(self).events() == old(self).events().push(
                (Switched { switch, reply: error::outcome(r) }),
            ),
    {
        let r = self.inner.set(switch);
        self.log = Ghost(self.log@.push(Switched { switch, reply: error::outcome(r) }));
        r
    }
}

} // verus!
