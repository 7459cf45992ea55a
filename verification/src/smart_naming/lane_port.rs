//! The provider and the host of a naming lane, with a record of every exchange.
//!
//! Nothing outside this module can add to the record or reach the two sides without
//! adding to it.

use vstd::prelude::*;
use crate::error::MuxError;
use crate::smart_naming::conversation::NamingConversation;
use crate::smart_naming::lane;
use crate::smart_naming::lane::{
    CommandSignal, ConversationNamer, DiscoveryPhase, LaneHost, PublishedName,
};
use crate::smart_naming::lane_replay::WorkEvent;
use crate::smart_naming::target::NamingTarget;
use crate::smart_naming::worker;

verus! {

/// A provider and a host whose exchanges are recorded.
pub struct LanePort<N, H> {
    namer: N,
    host: H,
    log: Ghost<Seq<WorkEvent>>,
}

impl<N: ConversationNamer, H: LaneHost> LanePort<N, H> {
    /// What was asked and answered, and what was done, in order.
    pub closed spec fn events(&self) -> Seq<WorkEvent> {
        self.log@
    }

    pub closed spec fn namer_model(&self) -> N {
        self.namer
    }

    pub closed spec fn host_model(&self) -> H {
        self.host
    }

    pub fn new(namer: N, host: H) -> (r: Self)
        ensures
            r.namer_model() == namer,
            r.host_model() == host,
            r.events() == Seq::<WorkEvent>::empty(),
    {
        LanePort { namer, host, log: Ghost(Seq::empty()) }
    }

    /// The provider.
    pub fn namer(&self) -> (r: &N)
        ensures
            *r == self.namer_model(),
    {
        &self.namer
    }

    /// The host.
    pub fn host(&self) -> (r: &H)
        ensures
            *r == self.host_model(),
    {
        &self.host
    }

    /// The order that waits.
    pub fn signal(&mut self) -> (r: CommandSignal)
        ensures
            final(self).events() == old(self).events().push(WorkEvent::Signal(r)),
    {
        let r = self.host.signal();
        proof {
            self.log@ = self.log@.push(WorkEvent::Signal(r));
        }
        r
    }

    /// The time.
    pub fn unix_seconds(&mut self) -> (r: u64)
        ensures
            final(self).events() == old(self).events().push(WorkEvent::Unix(r)),
    {
        let r = self.host.unix_seconds();
        proof {
            self.log@ = self.log@.push(WorkEvent::Unix(r));
        }
        r
    }

    /// The time of a clock that never goes back.
    pub fn millis(&mut self) -> (r: u64)
        ensures
            final(self).events() == old(self).events().push(WorkEvent::Millis(r)),
    {
        let r = self.host.millis();
        proof {
            self.log@ = self.log@.push(WorkEvent::Millis(r));
        }
        r
    }

    /// What a conversation says.
    pub fn read(&mut self, t: &NamingTarget) -> (r: Result<NamingConversation, MuxError>)
        ensures
            final(self).events() == old(self).events().push(
                WorkEvent::Read { target: t@, reply: worker::conversation_view(r) },
            ),
    {
        let r = self.namer.read(t);
        proof {
            self.log@ = self.log@.push(
                WorkEvent::Read { target: t@, reply: worker::conversation_view(r) },
            );
        }
        r
    }

    /// A new name for a conversation.
    pub fn name(&mut self, conversation: &NamingConversation) -> (r: Result<String, MuxError>)
        ensures
            final(self).events() == old(self).events().push(
                WorkEvent::Name {
                    thread: conversation.thread_id@,
                    transcript: conversation.transcript@,
                    reply: worker::reply_view(r),
                },
            ),
    {
        let r = self.namer.name(conversation);
        proof {
            self.log@ = self.log@.push(
                WorkEvent::Name {
                    thread: conversation.thread_id@,
                    transcript: conversation.transcript@,
                    reply: worker::reply_view(r),
                },
            );
        }
        r
    }

    /// The thread of a target.
    pub fn resolve(&mut self, t: &NamingTarget) -> (r: Result<String, MuxError>)
        ensures
            final(self).events() == old(self).events().push(
                WorkEvent::Resolve { target: t@, reply: worker::reply_view(r) },
            ),
    {
        let r = self.namer.resolve(t);
        proof {
            self.log@ = self.log@.push(
                WorkEvent::Resolve { target: t@, reply: worker::reply_view(r) },
            );
        }
        r
    }

    /// Whether the provider can serve another request.
    pub fn is_healthy(&mut self) -> (r: bool)
        ensures
            final(self).events() == old(self).events().push(WorkEvent::Healthy(r)),
    {
        let r = self.namer.is_healthy();
        proof {
            self.log@ = self.log@.push(WorkEvent::Healthy(r));
        }
        r
    }

    /// The panes that can be named.
    pub fn discover(&mut self, phase: DiscoveryPhase) -> (r: Result<Vec<NamingTarget>, MuxError>)
        ensures
            final(self).events() == old(self).events().push(
                WorkEvent::Discover { phase, reply: worker::discovered_view(r) },
            ),
    {
        let r = self.host.discover(phase);
        proof {
            self.log@ = self.log@.push(
                WorkEvent::Discover { phase, reply: worker::discovered_view(r) },
            );
        }
        r
    }

    /// Waits for a command.
    pub fn wait(&mut self, span: u64) -> (r: bool)
        ensures
            final(self).events() == old(self).events().push(WorkEvent::Wait { span, reply: r }),
    {
        let r = self.host.wait(span);
        proof {
            self.log@ = self.log@.push(WorkEvent::Wait { span, reply: r });
        }
        r
    }

    /// Logs a reason code.
    pub fn log(&mut self, code: &'static str)
        ensures
            final(self).events() == old(self).events().push(WorkEvent::Logged(code@)),
    {
        self.host.log(code);
        proof {
            self.log@ = self.log@.push(WorkEvent::Logged(code@));
        }
    }

    /// Waits for the order to stop.
    pub fn cool_down(&mut self, span: u64)
        ensures
            final(self).events() == old(self).events().push(WorkEvent::Cooled(span)),
    {
        self.host.cool_down(span);
        proof {
            self.log@ = self.log@.push(WorkEvent::Cooled(span));
        }
    }

    /// Shares the published names.
    pub fn share(&mut self, names: &Vec<PublishedName>)
        ensures
            final(self).events() == old(self).events().push(
                WorkEvent::Shared(lane::names_view(names@)),
            ),
    {
        self.host.share(names);
        proof {
            self.log@ = self.log@.push(WorkEvent::Shared(lane::names_view(names@)));
        }
    }
}

} // verus!
