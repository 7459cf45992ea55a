//! A terminal, with a record of when it was entered, used and left.
//!
//! Nothing outside this module can add to the record, and the terminal cannot be
//! reached without adding to it.

use vstd::prelude::*;
use crate::error;
use crate::error::MuxError;
use crate::ui::terminal::{TerminalControl, TerminalEvent};

verus! {

/// An operation returned something, given some terminal.
pub open spec fn returned<C, T, E, F: FnOnce(&mut C) -> Result<T, E>>(
    operation: F,
    r: Result<T, E>,
) -> bool {
    exists|c: &mut C| #[trigger] call_ensures(operation, (c,), r)
}

/// A terminal whose use is recorded.
pub struct LoggedTerminal<C> {
    inner: C,
    log: Ghost<Seq<TerminalEvent>>,
}

impl<C: TerminalControl> LoggedTerminal<C> {
    /// What was done with the terminal so far, in order.
    pub closed spec fn events(&self) -> Seq<TerminalEvent> {
        self.log@
    }

    /// The terminal is in the application's mode: entering it was the last thing done.
    pub open spec fn is_entered(&self) -> bool {
        self.events().len() > 0 && (self.events().last() matches TerminalEvent::Enter(Ok(_)))
    }

    pub fn new(inner: C) -> (r: Self)
        ensures
            r.events() == Seq::<TerminalEvent>::empty(),
    {
        LoggedTerminal { inner, log: Ghost(Seq::empty()) }
    }

    pub fn inner(&self) -> (r: &C) {
        &self.inner
    }

    /// Enters the application's terminal mode.
    pub fn enter(&mut self) -> (r: Result<(), MuxError>)
        ensures
            final(self).events() == old(self).events().push(
                TerminalEvent::Enter(error::outcome(r)),
            ),
    {
        let r = self.inner.enter();
        proof {
            self.log@ = self.log@.push(TerminalEvent::Enter(error::outcome(r)));
        }
        r
    }

    /// Runs an operation on a terminal that was entered.
    pub fn run<T, E, F: FnOnce(&mut C) -> Result<T, E>>(&mut self, operation: F) -> (r: Result<
        T,
        E,
    >)
        requires
            old(self).is_entered(),
            forall|c: &mut C| #[trigger] call_requires(operation, (c,)),
        ensures
            final(self).events() == old(self).events().push(TerminalEvent::Run),
            returned::<C, T, E, F>(operation, r),
    {
        let r = operation(&mut self.inner);
        proof {
            self.log@ = self.log@.push(TerminalEvent::Run);
        }
        r
    }

    /// Restores the terminal to its caller-owned mode.
    pub fn leave(&mut self) -> (r: Result<(), MuxError>)
        ensures
            final(self).events() == old(self).events().push(
                TerminalEvent::Leave(error::outcome(r)),
            ),
    {
        let r = self.inner.leave();
        proof {
            self.log@ = self.log@.push(TerminalEvent::Leave(error::outcome(r)));
        }
        r
    }
}

} // verus!
