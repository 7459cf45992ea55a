//! The names in tmux, the expiry of requests for them and the proofs of their threads,
//! with one record of all three.
//!
//! Nothing outside this module can add to the record, and none of them can be reached
//! through the desk without adding to it.

use vstd::prelude::*;
use crate::app::names;
use crate::app::names::Answer;
use crate::app::threads::ThreadVerifier;
use crate::domain::{Exchange, Pane, PaneId, TmuxCommandRunner};
use crate::scan;
use crate::smart_naming::process_store::ProcessHost;
use crate::text;
use crate::tmux::actions;
use crate::tmux::owned_names;
use crate::tmux::owned_names::{NamedPane, OwnedTmuxNames};

verus! {

/// What ends explicit requests for a name that have waited too long.
pub trait RequestExpiry {
    /// Ends such requests of some panes.
    fn expire_auto_name_requests(&mut self, panes: &Vec<Pane>, now_unix_nanos: u64);
}

/// Something that was done: an exchange with tmux, a question about threads, or the
/// expiry of requests at some time.
#[verifier::ext_equal]
pub enum Deed {
    Tmux(Exchange),
    Asked(Answer),
    Expired { panes: Seq<Pane>, now: u64 },
}

/// Exchanges with tmux, as deeds.
pub open spec fn exchanges(trace: Seq<Exchange>) -> Seq<Deed> {
    Seq::new(trace.len(), |i: int| Deed::Tmux(trace[i]))
}

/// The names in tmux, the expiry of requests for them and the proofs of their threads.
pub struct NamingDesk<R, H, E> {
    owned: OwnedTmuxNames<R>,
    verifier: ThreadVerifier<H>,
    expiry: E,
    deeds: Ghost<Seq<Deed>>,
}

impl<R: TmuxCommandRunner, H: ProcessHost, E: RequestExpiry> NamingDesk<R, H, E> {
    /// Everything that was done so far, in order.
    pub closed spec fn deeds(&self) -> Seq<Deed> {
        self.deeds@
    }

    /// What was exchanged with tmux so far.
    pub closed spec fn history(&self) -> Seq<Exchange> {
        self.owned.runner.history()
    }

    /// What is known of threads.
    pub closed spec fn threads(&self) -> ThreadVerifier<H> {
        self.verifier
    }

    /// What was exchanged with tmux since is all that was done since.
    pub open spec fn talked_since(&self, before: &Self) -> bool {
        &&& self.threads() == before.threads()
        &&& before.history().is_prefix_of(self.history())
        &&& self.deeds() == before.deeds() + exchanges(
            actions::exchanged(before.history(), self.history()),
        )
    }

    pub fn new(owned: OwnedTmuxNames<R>, verifier: ThreadVerifier<H>, expiry: E) -> (r: Self)
        ensures
            r.history() == owned.runner.history(),
            r.threads() == verifier,
            r.deeds() == Seq::<Deed>::empty(),
    {
        NamingDesk { owned, verifier, expiry, deeds: Ghost(Seq::empty()) }
    }

    /// The names in tmux.
    pub fn owned(&self) -> (r: &OwnedTmuxNames<R>)
        ensures
            r.runner.history() == self.history(),
    {
        &self.owned
    }

    /// What ends requests.
    pub fn expiry(&self) -> (r: &E) {
        &self.expiry
    }

    /// Ends explicit requests of some panes that have waited too long.
    pub fn expire_auto_name_requests(&mut self, panes: &Vec<Pane>, now_unix_nanos: u64)
        ensures
            final(self).history() == old(self).history(),
            final(self).threads() == old(self).threads(),
            final(self).deeds() == old(self).deeds().push(
                Deed::Expired { panes: panes@, now: now_unix_nanos },
            ),
    {
        self.expiry.expire_auto_name_requests(panes, now_unix_nanos);
        proof {
            self.deeds@ = self.deeds@.push(
                Deed::Expired { panes: panes@, now: now_unix_nanos },
            );
        }
    }

    /// Takes the generated name of every pane away.
    pub fn clear_all(&mut self)
        ensures
            final(self).talked_since(old(self)),
            owned_names::listed_then(
                owned_names::pane_query(),
                actions::exchanged(old(self).history(), final(self).history()),
                |lines: Seq<Seq<char>>| owned_names::planned_unsets(lines),
            ),
    {
        self.owned.clear_all();
        proof {
            self.deeds@ = self.deeds@ + exchanges(
                actions::exchanged(old(self).history(), self.history()),
            );
        }
    }

    /// Takes generated names away.
    pub fn clear_generated(&mut self, panes: &Vec<NamedPane>)
        ensures
            final(self).talked_since(old(self)),
            owned_names::requests_of(
                actions::exchanged(old(self).history(), final(self).history()),
            ) == owned_names::planned_clears(panes@),
    {
        self.owned.clear_generated(panes);
        proof {
            self.deeds@ = self.deeds@ + exchanges(
                actions::exchanged(old(self).history(), self.history()),
            );
        }
    }

    /// Moves explicit requests for a name on.
    pub fn mark_auto_name_generating(&mut self, panes: &Vec<Pane>)
        ensures
            final(self).talked_since(old(self)),
            owned_names::requests_of(
                actions::exchanged(old(self).history(), final(self).history()),
            ) == owned_names::planned_advances(panes@),
    {
        self.owned.mark_auto_name_generating(panes);
        proof {
            self.deeds@ = self.deeds@ + exchanges(
                actions::exchanged(old(self).history(), self.history()),
            );
        }
    }

    /// Reconciles names, also those whose pane was verified by other means, with the
    /// live state of their panes; whether some pane waits to be named.
    pub fn reconcile(&mut self, names: &Vec<NamedPane>, verified: &Vec<PaneId>) -> (r: bool)
        ensures
            final(self).talked_since(old(self)),
            owned_names::listed_then(
                owned_names::state_query(),
                actions::exchanged(old(self).history(), final(self).history()),
                |lines: Seq<Seq<char>>|
                    owned_names::planned_updates(
                        names@,
                        owned_names::id_list(verified@),
                        owned_names::state_rows(lines),
                    ),
            ),
            r == match owned_names::accepted(
                actions::exchanged(old(self).history(), final(self).history())[0].reply,
            ) {
                Some(output) => owned_names::name_pending(
                    owned_names::state_rows(scan::lines(text::lossy_text(output.stdout))),
                ),
                None => false,
            },
    {
        let r = self.owned.reconcile_with_verified_volatile(names, verified);
        proof {
            self.deeds@ = self.deeds@ + exchanges(
                actions::exchanged(old(self).history(), self.history()),
            );
        }
        r
    }

    /// Looks for the threads of some panes.
    pub fn resolve(&mut self, leaders: &Vec<u32>) -> (r: Option<Vec<Option<String>>>)
        ensures
            final(self).history() == old(self).history(),
            final(self).threads().learned_since(&old(self).threads()),
            final(self).threads().answers() == old(self).threads().answers().push(
                Answer { leaders: leaders@, found: names::answer_view(r) },
            ),
            final(self).deeds() == old(self).deeds().push(
                Deed::Asked(Answer { leaders: leaders@, found: names::answer_view(r) }),
            ),
            r matches Some(found) ==> found@.len() == leaders@.len() && forall|i: int|
                0 <= i < leaders@.len() ==> (#[trigger] found@[i] matches Some(id)
                    ==> final(self).threads().has_proof(leaders@[i], id@)),
    {
        let r = self.verifier.resolve(leaders);
        proof {
            self.deeds@ = self.deeds@.push(
                Deed::Asked(Answer { leaders: leaders@, found: names::answer_view(r) }),
            );
        }
        r
    }
}

} // verus!
