//! Proofs of the threads of panes, with every answer that was given.

use vstd::prelude::*;
use crate::app::names;
use crate::app::names::Answer;
use crate::error::MuxError;
use crate::smart_naming::process_store;
use crate::smart_naming::process_store::{ProcessHost, ProcessRolloutStore};
use crate::smart_naming::store_replay;

verus! {

/// Proves the threads of panes, as far as that is possible at all.
pub struct ThreadVerifier<H> {
    store: Option<ProcessRolloutStore<H>>,
    answers: Ghost<Seq<Answer>>,
}

impl<H: ProcessHost> ThreadVerifier<H> {
    /// Every answer so far.
    pub closed spec fn answers(&self) -> Seq<Answer> {
        self.answers@
    }

    /// The store that is asked, where there is one.
    pub closed spec fn store(&self) -> Option<ProcessRolloutStore<H>> {
        self.store
    }

    pub fn new(store: Option<ProcessRolloutStore<H>>) -> (r: Self)
        ensures
            r.store() == store,
            r.answers() == Seq::<Answer>::empty(),
    {
        ThreadVerifier { store, answers: Ghost(Seq::empty()) }
    }

    /// What proves the thread of a pane has been seen.
    pub open spec fn has_proof(&self, leader: u32, thread: Seq<char>) -> bool {
        self.store() is Some && process_store::is_proven_somewhere(
            self.store()->0.seen(),
            leader,
            self.store()->0.executables@,
            thread,
        )
    }

    /// Nothing was forgotten since, and every new answer is one of the store.
    pub open spec fn learned_since(&self, before: &Self) -> bool {
        &&& before.answers().is_prefix_of(self.answers())
        &&& before.store() is Some <==> self.store() is Some
        &&& before.store() is Some ==> self.store()->0.same_store(&before.store()->0)
            && process_store::extends(self.store()->0.seen(), before.store()->0.seen())
        &&& names::answers_hold(self.store(), self.answers(), before.answers().len() as int)
    }

    /// Looks for the threads of some panes; without a store nothing is found, and
    /// a store that cannot answer is a failure.
    pub fn resolve_or_fail(&mut self, leaders: &Vec<u32>) -> (r: Result<
        Option<Vec<Option<String>>>,
        MuxError,
    >)
        ensures
            final(self).learned_since(old(self)),
            final(self).answers() == old(self).answers().push(
                Answer {
                    leaders: leaders@,
                    found: match r {
                        Ok(found) => names::answer_view(found),
                        Err(_) => None,
                    },
                },
            ),
            old(self).store() is None <==> r == Ok::<Option<Vec<Option<String>>>, MuxError>(None),
            names::answer_outcome(r) == names::store_answer(old(self).store(), final(self).store(), leaders@),
            r matches Ok(Some(found)) ==> found@.len() == leaders@.len() && forall|i: int|
                0 <= i < leaders@.len() ==> (#[trigger] found@[i] matches Some(id)
                    ==> final(self).has_proof(leaders@[i], id@)),
    {
        let r = match &mut self.store {
            Some(known) => match known.resolve_panes(leaders) {
                Ok(found) => Ok(Some(found)),
                Err(e) => Err(e),
            },
            None => Ok(None),
        };
        proof {
            if old(self).store is Some {
                let now = self.store->0;
                assert(store_replay::agrees(now.host.events(), now.host.events()));
                assert(store_replay::panes_at(
                    now.host.events(),
                    old(self).store->0.host.events().len() as int,
                    leaders@,
                    old(self).store->0.settings(),
                ) is Some);
                if r is Ok {
                    assert(names::threads_view(r->Ok_0->0@) =~= process_store::panes_view(r->Ok_0->0@));
                }
            }
        }
        let ghost found = if r is Ok {
            names::answer_view(r->Ok_0)
        } else {
            None
        };
        let ghost answer = Answer { leaders: leaders@, found };
        self.answers = Ghost(self.answers@.push(answer));
        proof {
            reveal(names::answers_hold);
            let asked = old(self).answers@;
            assert(self.answers@.subrange(0, asked.len() as int) =~= asked);
            if old(self).store is Some {
                let now = self.store->0;
                let k = old(self).store->0.host.events().len() as int;
                assert(names::answered(now.host.events(), now.settings(), answer, k));
            }
        }
        r
    }

    /// Looks for the threads of some panes.
    pub fn resolve(&mut self, leaders: &Vec<u32>) -> (r: Option<Vec<Option<String>>>)
        ensures
            final(self).learned_since(old(self)),
            final(self).answers() == old(self).answers().push(
                Answer { leaders: leaders@, found: names::answer_view(r) },
            ),
            names::answer_view(r) == names::lenient(
                names::store_answer(old(self).store(), final(self).store(), leaders@),
            ),
            r matches Some(found) ==> found@.len() == leaders@.len() && forall|i: int|
                0 <= i < leaders@.len() ==> (#[trigger] found@[i] matches Some(id)
                    ==> final(self).has_proof(leaders@[i], id@)),
    {
        match self.resolve_or_fail(leaders) {
            Ok(found) => found,
            Err(_) => None,
        }
    }
}

} // verus!
