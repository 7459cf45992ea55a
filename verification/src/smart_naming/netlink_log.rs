//! The netlink socket, with a record of what it was asked and what it answered.
//!
//! Nothing outside this module can add to the record or read the socket without adding
//! to it.

use vstd::prelude::*;
use crate::error::MuxError;
use crate::smart_naming::sockets;
use crate::smart_naming::sockets::{NetlinkEvent, NetlinkSource};

verus! {

/// A netlink socket whose answers are recorded.
pub struct LoggedNetlink<N> {
    inner: N,
    log: Ghost<Seq<NetlinkEvent>>,
}

impl<N: NetlinkSource> LoggedNetlink<N> {
    /// What was asked and answered, in order.
    pub closed spec fn events(&self) -> Seq<NetlinkEvent> {
        self.log@
    }

    pub closed spec fn wrapped(&self) -> N {
        self.inner
    }

    pub fn new(inner: N) -> (r: Self)
        ensures
            r.wrapped() == inner,
            r.events() == Seq::<NetlinkEvent>::empty(),
    {
        LoggedNetlink { inner, log: Ghost(Seq::empty()) }
    }

    /// Whether the caller gave up.
    pub fn is_cancelled(&mut self) -> (r: bool)
        ensures
            final(self).events() == old(self).events().push(NetlinkEvent::Cancelled(r)),
    {
        let r = self.inner.is_cancelled();
        proof {
            self.log@ = self.log@.push(NetlinkEvent::Cancelled(r));
        }
        r
    }

    /// The next datagram.
    pub fn receive(&mut self) -> (r: Result<Vec<u8>, MuxError>)
        ensures
            final(self).events() == old(self).events().push(
                NetlinkEvent::Datagram(sockets::datagram_outcome(r)),
            ),
    {
        let r = self.inner.receive();
        proof {
            self.log@ = self.log@.push(NetlinkEvent::Datagram(sockets::datagram_outcome(r)));
        }
        r
    }
}

} // verus!
