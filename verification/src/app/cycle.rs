//! One round of the naming worker: which names it stores in tmux, which it takes
//! away again, and in what order.

use vstd::prelude::*;
use crate::app::desk;
use crate::app::desk::{Deed, NamingDesk, RequestExpiry};
use crate::app::names;
use crate::app::names::{
    filter_names_by_authoritative_threads, Answer, KnownModel, KnownThread,
    MAX_VOLATILE_RECONCILES_PER_CYCLE,
};
use crate::app::published;
use crate::app::threads::ThreadVerifier;
use crate::domain::{Exchange, Pane, PaneId, TmuxCommandRunner};
use crate::order;
use crate::order::text_is_before;
use crate::scan;
use crate::smart_naming::lane;
use crate::smart_naming::process_store::ProcessHost;
use crate::text;
use crate::text::text_equal;
use crate::tmux::actions;
use crate::tmux::owned_names;
use crate::tmux::owned_names::NamedPane;

verus! {

// ---------------------------------------------------------------------------
// Whose thread is asked for
// ---------------------------------------------------------------------------

/// The first pane with an identity, from `i` on.
pub open spec fn pane_place(panes: Seq<Pane>, id: Seq<char>, i: int) -> Option<int>
    decreases panes.len() - i,
{
    if i < 0 || i >= panes.len() {
        None
    } else if panes[i].id@ == id {
        Some(i)
    } else {
        pane_place(panes, id, i + 1)
    }
}

proof fn place_is_there(panes: Seq<Pane>, id: Seq<char>, i: int)
    requires
        pane_place(panes, id, i) is Some,
    ensures
        0 <= pane_place(panes, id, i)->0 < panes.len(),
        panes[pane_place(panes, id, i)->0].id@ == id,
    decreases panes.len() - i,
{
    if panes[i].id@ != id {
        place_is_there(panes, id, i + 1);
    }
}

/// Finds a pane by its identity.
pub fn find_pane(panes: &Vec<Pane>, id: &PaneId) -> (r: Option<usize>)
    ensures
        match r {
            Some(i) => i < panes@.len() && pane_place(panes@, id@, 0) == Some(i as int)
                && panes@[i as int].id@ == id@,
            None => pane_place(panes@, id@, 0) is None,
        },
{
    let mut i: usize = 0;
    while i < panes.len()
        invariant
            i <= panes.len(),
            pane_place(panes@, id@, 0) == pane_place(panes@, id@, i as int),
        decreases panes.len() - i,
    {
        if panes[i].id.same_as(id) {
            return Some(i);
        }
        i += 1;
    }
    None
}

/// A pane whose thread is asked for.
#[derive(Debug)]
pub struct Candidate {
    pub pane: PaneId,
    pub leader: u32,
}

#[verifier::ext_equal]
pub struct CandidateModel {
    pub pane: Seq<char>,
    pub leader: u32,
}

pub open spec fn candidate_list(list: Seq<Candidate>) -> Seq<CandidateModel> {
    Seq::new(list.len(), |i: int| CandidateModel { pane: list[i].pane@, leader: list[i].leader })
}

pub open spec fn is_asked(named: NamedPane, panes: Seq<Pane>) -> bool {
    !named.name.stable_source_title && pane_place(panes, named.pane@, 0) is Some
}

/// The panes of the volatile names, where they are still there.
pub open spec fn candidates(list: Seq<NamedPane>, panes: Seq<Pane>) -> Seq<CandidateModel>
    decreases list.len(),
{
    if list.len() == 0 {
        Seq::empty()
    } else {
        let rest = candidates(list.drop_last(), panes);
        let named = list.last();
        if is_asked(named, panes) {
            rest.push(
                CandidateModel {
                    pane: named.pane@,
                    leader: panes[pane_place(panes, named.pane@, 0)->0].pane_pid,
                },
            )
        } else {
            rest
        }
    }
}

pub open spec fn leaders_of(c: Seq<CandidateModel>) -> Seq<u32> {
    Seq::new(c.len(), |i: int| c[i].leader)
}

/// The threads that an answer gives for the first `n` candidates.
pub open spec fn authority(
    c: Seq<CandidateModel>,
    found: Option<Seq<Option<Seq<char>>>>,
    n: int,
) -> Seq<KnownModel>
    decreases n,
{
    if n <= 0 {
        Seq::empty()
    } else {
        let rest = authority(c, found, n - 1);
        match names::thread_at(found, n - 1) {
            Some(thread) => rest.push(KnownModel { pane: c[n - 1].pane, thread }),
            None => rest,
        }
    }
}

fn list_candidates(list: &Vec<NamedPane>, panes: &Vec<Pane>) -> (r: Vec<Candidate>)
    ensures
        candidate_list(r@) == candidates(list@, panes@),
{
    let mut r: Vec<Candidate> = Vec::new();
    let mut i: usize = 0;
    assert(candidate_list(r@) =~= Seq::empty());
    assert(list@.take(0) =~= Seq::empty());
    while i < list.len()
        invariant
            i <= list.len(),
            candidate_list(r@) == candidates(list@.take(i as int), panes@),
        decreases list.len() - i,
    {
        let ghost before = candidate_list(r@);
        proof {
            assert(list@.take(i + 1).drop_last() =~= list@.take(i as int));
            assert(list@.take(i + 1).last() == list@[i as int]);
        }
        if !list[i].name.stable_source_title {
            if let Some(at) = find_pane(panes, &list[i].pane) {
                r.push(Candidate { pane: list[i].pane.clone(), leader: panes[at].pane_pid });
                assert(candidate_list(r@) =~= before.push(
                    CandidateModel {
                        pane: list@[i as int].pane@,
                        leader: panes@[at as int].pane_pid,
                    },
                ));
            }
        }
        i += 1;
    }
    assert(list@.take(list@.len() as int) =~= list@);
    r
}

/// Asks once for the threads of all volatile names.
pub fn ask_authority<R: TmuxCommandRunner, H: ProcessHost, E: RequestExpiry>(
    list: &Vec<NamedPane>,
    panes: &Vec<Pane>,
    desk: &mut NamingDesk<R, H, E>,
) -> (r: Vec<KnownThread>)
    ensures
        final(desk).history() == old(desk).history(),
        final(desk).deeds() == old(desk).deeds().push(
            Deed::Asked(final(desk).threads().answers().last()),
        ),
        final(desk).threads().learned_since(&old(desk).threads()),
        final(desk).threads().answers().len() == old(desk).threads().answers().len() + 1,
        final(desk).threads().answers().last().leaders == leaders_of(candidates(list@, panes@)),
        names::known_list(r@) == authority(
            candidates(list@, panes@),
            final(desk).threads().answers().last().found,
            candidates(list@, panes@).len() as int,
        ),
        forall|j: int|
            0 <= j < r@.len() ==> proven_entry(
                final(desk).threads(),
                candidates(list@, panes@),
                #[trigger] names::known_list(r@)[j],
            ),
{
    let asked = list_candidates(list, panes);
    let ghost c = candidates(list@, panes@);
    let mut leaders: Vec<u32> = Vec::new();
    let mut i: usize = 0;
    while i < asked.len()
        invariant
            i <= asked.len(),
            leaders@ =~= leaders_of(c).take(i as int),
        decreases asked.len() - i,
    {
        assert(c[i as int].leader == asked@[i as int].leader);
        leaders.push(asked[i].leader);
        i += 1;
    }
    assert(leaders@ =~= leaders_of(c));
    let found = desk.resolve(&leaders);
    let ghost answer = names::answer_view(found);
    let mut r: Vec<KnownThread> = Vec::new();
    assert(names::known_list(r@) =~= Seq::empty());
    let mut k: usize = 0;
    while k < asked.len()
        invariant
            k <= asked.len(),
            candidate_list(asked@) == c,
            names::known_list(r@) == authority(c, answer, k as int),
            forall|j: int|
                0 <= j < r@.len() ==> proven_entry(
                    desk.threads(),
                    c,
                    #[trigger] names::known_list(r@)[j],
                ),
        decreases asked.len() - k,
    {
        let ghost before = names::known_list(r@);
        if let Some(threads) = &found {
            assert(names::threads_view(threads@)[k as int] == text::option_view(
                threads@[k as int],
            ));
            if let Some(thread) = &threads[k] {
                assert(c[k as int].pane == asked@[k as int].pane@);
                r.push(KnownThread { pane: asked[k].pane.clone(), thread: thread.clone() });
                let ghost entry = KnownModel { pane: c[k as int].pane, thread: thread@ };
                proof {
                    assert(names::known_list(r@) =~= before.push(entry));
                    assert(desk.threads().has_proof(leaders@[k as int], thread@));
                    assert(c[k as int].leader == leaders@[k as int]);
                    assert(proven_by(desk.threads(), c, entry, k as int));
                    assert forall|j: int| 0 <= j < r@.len() implies proven_entry(
                        desk.threads(),
                        c,
                        #[trigger] names::known_list(r@)[j],
                    ) by {
                        if j < before.len() {
                            assert(names::known_list(r@)[j] == before[j]);
                        }
                    }
                }
            }
        }
        k += 1;
    }
    r
}

pub open spec fn proven_by<H: ProcessHost>(
    verifier: ThreadVerifier<H>,
    c: Seq<CandidateModel>,
    entry: KnownModel,
    k: int,
) -> bool {
    0 <= k < c.len() && c[k].pane == entry.pane && verifier.has_proof(c[k].leader, entry.thread)
}

/// A known thread was proved for a candidate with that pane.
pub open spec fn proven_entry<H: ProcessHost>(
    verifier: ThreadVerifier<H>,
    c: Seq<CandidateModel>,
    entry: KnownModel,
) -> bool {
    exists|k: int| #[trigger] proven_by(verifier, c, entry, k)
}

proof fn candidate_leader(list: Seq<NamedPane>, panes: Seq<Pane>, k: int)
    requires
        0 <= k < candidates(list, panes).len(),
    ensures
        pane_place(panes, candidates(list, panes)[k].pane, 0) is Some,
        candidates(list, panes)[k].leader == panes[pane_place(
            panes,
            candidates(list, panes)[k].pane,
            0,
        )->0].pane_pid,
    decreases list.len(),
{
    if list.len() > 0 {
        let rest = candidates(list.drop_last(), panes);
        if k < rest.len() {
            candidate_leader(list.drop_last(), panes, k);
        }
    }
}

proof fn entry_of(known: Seq<KnownModel>, pane: Seq<char>, i: int) -> (j: int)
    requires
        0 <= i,
        known_is_some(known, pane, i),
    ensures
        0 <= j < known.len(),
        known[j].pane == pane,
        names::known_thread(known, pane, i) == Some(known[j].thread),
    decreases known.len() - i,
{
    if known[i].pane == pane {
        i
    } else {
        entry_of(known, pane, i + 1)
    }
}

spec fn known_is_some(known: Seq<KnownModel>, pane: Seq<char>, i: int) -> bool {
    names::known_thread(known, pane, i) is Some
}

/// The thread of a trusted volatile name was proved for its pane.
proof fn known_is_proven<H: ProcessHost>(
    verifier: ThreadVerifier<H>,
    list: Seq<NamedPane>,
    panes: Seq<Pane>,
    known: Seq<KnownModel>,
    pane: Seq<char>,
)
    requires
        names::known_thread(known, pane, 0) is Some,
        forall|j: int|
            0 <= j < known.len() ==> proven_entry(
                verifier,
                candidates(list, panes),
                #[trigger] known[j],
            ),
    ensures
        pane_place(panes, pane, 0) is Some,
        verifier.has_proof(
            panes[pane_place(panes, pane, 0)->0].pane_pid,
            names::known_thread(known, pane, 0)->0,
        ),
{
    let j = entry_of(known, pane, 0);
    let c = candidates(list, panes);
    let k = choose|k: int| #[trigger] proven_by(verifier, c, known[j], k);
    candidate_leader(list, panes, k);
}

/// Parts the names whose thread is proved now, by the title or by the processes
/// of the pane, from the others.
pub fn verify_volatile_generated_names<R: TmuxCommandRunner, H: ProcessHost, E: RequestExpiry>(
    list: Vec<NamedPane>,
    panes: &Vec<Pane>,
    desk: &mut NamingDesk<R, H, E>,
) -> (r: (Vec<NamedPane>, Vec<NamedPane>))
    ensures
        final(desk).history() == old(desk).history(),
        final(desk).deeds() == old(desk).deeds().push(
            Deed::Asked(final(desk).threads().answers().last()),
        ),
        final(desk).threads().learned_since(&old(desk).threads()),
        final(desk).threads().answers().len() == old(desk).threads().answers().len() + 1,
        final(desk).threads().answers().last().leaders == leaders_of(candidates(list@, panes@)),
        ({
            let c = candidates(list@, panes@);
            let known = authority(c, final(desk).threads().answers().last().found, c.len() as int);
            &&& r.0@ == names::trusted_names(list@, known)
            &&& r.1@ == names::refused_names(list@, known)
        }),
        forall|i: int|
            0 <= i < r.0@.len() && !(#[trigger] r.0@[i]).name.stable_source_title ==> {
                &&& pane_place(panes@, r.0@[i].pane@, 0) is Some
                &&& final(desk).threads().has_proof(
                    panes@[pane_place(panes@, r.0@[i].pane@, 0)->0].pane_pid,
                    r.0@[i].name.thread_id@,
                )
            },
{
    let ghost all = list@;
    let known = ask_authority(&list, panes, desk);
    let r = filter_names_by_authoritative_threads(list, &known);
    proof {
        let k = names::known_list(known@);
        names::names_are_parted(all, k);
        assert forall|i: int|
            0 <= i < r.0@.len() && !(#[trigger] r.0@[i]).name.stable_source_title implies {
            &&& pane_place(panes@, r.0@[i].pane@, 0) is Some
            &&& desk.threads().has_proof(
                panes@[pane_place(panes@, r.0@[i].pane@, 0)->0].pane_pid,
                r.0@[i].name.thread_id@,
            )
        } by {
            assert(names::is_trusted(names::trusted_names(all, k)[i], k));
            known_is_proven(desk.threads(), all, panes@, k, r.0@[i].pane@);
        }
    }
    r
}

// ---------------------------------------------------------------------------
// Whose turn it is
// ---------------------------------------------------------------------------

pub open spec fn stable_names(list: Seq<NamedPane>) -> Seq<NamedPane>
    decreases list.len(),
{
    if list.len() == 0 {
        Seq::empty()
    } else if list.last().name.stable_source_title {
        stable_names(list.drop_last()).push(list.last())
    } else {
        stable_names(list.drop_last())
    }
}

pub open spec fn volatile_names(list: Seq<NamedPane>) -> Seq<NamedPane>
    decreases list.len(),
{
    if list.len() == 0 {
        Seq::empty()
    } else if list.last().name.stable_source_title {
        volatile_names(list.drop_last())
    } else {
        volatile_names(list.drop_last()).push(list.last())
    }
}

proof fn stable_names_stand_once(list: Seq<NamedPane>)
    ensures
        forall|named: NamedPane|
            #[trigger] stable_names(list).contains(named) ==> list.contains(named),
        owned_names::panes_stand_once(list) ==> owned_names::panes_stand_once(stable_names(list)),
    decreases list.len(),
{
    if list.len() > 0 {
        stable_names_stand_once(list.drop_last());
        a_part_stands_once(
            list,
            stable_names(list.drop_last()),
            stable_names(list),
        );
    }
}

proof fn trusted_names_stand_once(list: Seq<NamedPane>, known: Seq<KnownModel>)
    ensures
        forall|named: NamedPane|
            #[trigger] names::trusted_names(list, known).contains(named) ==> list.contains(named),
        owned_names::panes_stand_once(list) ==> owned_names::panes_stand_once(
            names::trusted_names(list, known),
        ),
    decreases list.len(),
{
    if list.len() > 0 {
        trusted_names_stand_once(list.drop_last(), known);
        a_part_stands_once(
            list,
            names::trusted_names(list.drop_last(), known),
            names::trusted_names(list, known),
        );
    }
}

proof fn a_part_stands_once(list: Seq<NamedPane>, before: Seq<NamedPane>, after: Seq<NamedPane>)
    requires
        list.len() > 0,
        after == before || after == before.push(list.last()),
        forall|named: NamedPane|
            #[trigger] before.contains(named) ==> list.drop_last().contains(named),
        owned_names::panes_stand_once(list.drop_last()) ==> owned_names::panes_stand_once(before),
    ensures
        forall|named: NamedPane| #[trigger] after.contains(named) ==> list.contains(named),
        owned_names::panes_stand_once(list) ==> owned_names::panes_stand_once(after),
{
    let rest = list.drop_last();
    assert forall|named: NamedPane| #[trigger] after.contains(named) implies list.contains(
        named,
    ) by {
        let k = choose|k: int| 0 <= k < after.len() && after[k] == named;
        if k < before.len() {
            assert(before[k] == named);
            assert(before.contains(named));
            let j = choose|j: int| 0 <= j < rest.len() && rest[j] == named;
            assert(list[j] == named);
        } else {
            assert(list[list.len() - 1] == named);
        }
    }
    if owned_names::panes_stand_once(list) {
        assert forall|i: int, j: int| 0 <= i < j < rest.len() implies (
        #[trigger] rest[i]).pane@ != (#[trigger] rest[j]).pane@ by {
            assert(rest[i] == list[i] && rest[j] == list[j]);
        }
        assert forall|i: int, j: int| 0 <= i < j < after.len() implies (
        #[trigger] after[i]).pane@ != (#[trigger] after[j]).pane@ by {
            assert(after[i] == before[i]);
            if j < before.len() {
                assert(after[j] == before[j]);
            } else {
                assert(before.contains(before[i]));
                let k = choose|k: int| 0 <= k < rest.len() && rest[k] == before[i];
                assert(list[k].pane@ != list[list.len() - 1].pane@);
            }
        }
    }
}

/// The names that a round reconciles at once stand once to a pane where those it was
/// given do, so that it makes at most one request for each of their panes.
pub proof fn a_round_reconciles_each_pane_once(
    list: Seq<NamedPane>,
    known: Seq<KnownModel>,
)
    requires
        lane::one_name_per_pane(published::named_views(list)),
    ensures
        owned_names::panes_stand_once(stable_names(names::trusted_names(list, known))),
{
    let views = published::named_views(list);
    assert forall|i: int, j: int| 0 <= i < j < list.len() implies (
    #[trigger] list[i]).pane@ != (#[trigger] list[j]).pane@ by {
        assert(views[i].pane_id != views[j].pane_id);
    }
    trusted_names_stand_once(list, known);
    stable_names_stand_once(names::trusted_names(list, known));
}

fn split_names(list: Vec<NamedPane>) -> (r: (Vec<NamedPane>, Vec<NamedPane>))
    ensures
        r.0@ == stable_names(list@),
        r.1@ == volatile_names(list@),
    decreases list@.len(),
{
    let mut list = list;
    let ghost all = list@;
    match list.pop() {
        None => (Vec::new(), Vec::new()),
        Some(last) => {
            assert(list@ =~= all.drop_last());
            let (mut stable, mut volatile) = split_names(list);
            if last.name.stable_source_title {
                stable.push(last);
            } else {
                volatile.push(last);
            }
            (stable, volatile)
        },
    }
}

/// A name put into a list ordered by pane identity.
pub open spec fn named_inserted(list: Seq<NamedPane>, named: NamedPane) -> Seq<NamedPane>
    decreases list.len(),
{
    if list.len() > 0 && order::text_before(named.pane@, list.last().pane@, 0) {
        named_inserted(list.drop_last(), named).push(list.last())
    } else {
        list.push(named)
    }
}

/// The names ordered by pane identity.
pub open spec fn by_pane(list: Seq<NamedPane>) -> Seq<NamedPane>
    decreases list.len(),
{
    if list.len() == 0 {
        Seq::empty()
    } else {
        named_inserted(by_pane(list.drop_last()), list.last())
    }
}

fn insert_named(list: Vec<NamedPane>, named: NamedPane) -> (r: Vec<NamedPane>)
    ensures
        r@ == named_inserted(list@, named),
    decreases list@.len(),
{
    let mut list = list;
    let ghost all = list@;
    if list.len() > 0 {
        let n: usize = list.len() - 1;
        if text_is_before(named.pane.as_str(), list[n].pane.as_str()) {
            if let Some(last) = list.pop() {
                assert(list@ =~= all.drop_last());
                let mut r = insert_named(list, named);
                r.push(last);
                return r;
            }
        }
    }
    list.push(named);
    list
}

fn sort_names(list: Vec<NamedPane>) -> (r: Vec<NamedPane>)
    ensures
        r@ == by_pane(list@),
    decreases list@.len(),
{
    let mut list = list;
    let ghost all = list@;
    match list.pop() {
        None => Vec::new(),
        Some(last) => {
            assert(list@ =~= all.drop_last());
            let sorted = sort_names(list);
            insert_named(sorted, last)
        },
    }
}

proof fn insertion_keeps_all(list: Seq<NamedPane>, named: NamedPane)
    ensures
        named_inserted(list, named).len() == list.len() + 1,
        named_inserted(list, named).to_multiset() =~= list.to_multiset().insert(named),
    decreases list.len(),
{
    broadcast use vstd::seq_lib::group_to_multiset_ensures;

    if list.len() > 0 && order::text_before(named.pane@, list.last().pane@, 0) {
        insertion_keeps_all(list.drop_last(), named);
        assert(list.drop_last().push(list.last()) =~= list);
    }
}

/// Ordering the names neither loses nor adds one.
pub proof fn ordering_keeps_all(list: Seq<NamedPane>)
    ensures
        by_pane(list).len() == list.len(),
        by_pane(list).to_multiset() =~= list.to_multiset(),
    decreases list.len(),
{
    broadcast use vstd::seq_lib::group_to_multiset_ensures;

    if list.len() > 0 {
        ordering_keeps_all(list.drop_last());
        insertion_keeps_all(by_pane(list.drop_last()), list.last());
        assert(list.drop_last().push(list.last()) =~= list);
    } else {
        assert(list =~= Seq::<NamedPane>::empty());
    }
}

/// How many names have their turn.
pub open spec fn turns(n: int) -> int {
    if n < MAX_VOLATILE_RECONCILES_PER_CYCLE {
        n
    } else {
        MAX_VOLATILE_RECONCILES_PER_CYCLE as int
    }
}

/// The place of the name whose turn is `i`th, of `n` names.
pub open spec fn turn_place(cursor: int, n: int, i: int) -> int {
    (cursor + i) % n
}

/// The cursor of the next round.
pub open spec fn next_cursor(cursor: int, n: int) -> int {
    if n == 0 {
        cursor
    } else {
        (cursor + MAX_VOLATILE_RECONCILES_PER_CYCLE) % n
    }
}

/// The cursor after `k` rounds in which the number of names does not change.
pub open spec fn cursor_after(cursor: int, n: int, k: nat) -> int
    decreases k,
{
    if k == 0 {
        cursor
    } else {
        next_cursor(cursor_after(cursor, n, (k - 1) as nat), n)
    }
}

proof fn cursor_moves_on(cursor: int, n: int, k: nat)
    requires
        0 <= cursor,
        n > 0,
    ensures
        0 <= cursor_after(cursor, n, k),
        cursor_after(cursor, n, k) % n == (cursor + 4 * k) % n,
    decreases k,
{
    if k > 0 {
        let before = cursor_after(cursor, n, (k - 1) as nat);
        cursor_moves_on(cursor, n, (k - 1) as nat);
        vstd::arithmetic::div_mod::lemma_mod_twice(before + 4, n);
        vstd::arithmetic::div_mod::lemma_add_mod_noop(before, 4, n);
        vstd::arithmetic::div_mod::lemma_add_mod_noop(cursor + 4 * (k - 1), 4, n);
        vstd::arithmetic::div_mod::lemma_mod_bound(before + 4, n);
        assert((before + 4) % n == ((before % n) + (4int % n)) % n);
        assert((cursor + 4 * (k - 1) + 4) % n == (((cursor + 4 * (k - 1)) % n) + (4int % n)) % n);
        assert(cursor + 4 * (k - 1) + 4 == cursor + 4 * k);
    }
}

/// No volatile name is passed over for good: while the names stay the same,
/// every one of them has its turn within a quarter as many rounds as there are
/// names.
pub proof fn every_name_has_its_turn(cursor: int, n: int, place: int) -> (r: (nat, int))
    requires
        0 <= cursor,
        0 <= place < n,
    ensures
        4 * r.0 < n,
        0 <= r.1 < turns(n),
        turn_place(cursor_after(cursor, n, r.0), n, r.1) == place,
{
    let distance = (place - cursor) % n;
    vstd::arithmetic::div_mod::lemma_mod_bound(place - cursor, n);
    let k = (distance / 4) as nat;
    let i = distance % 4;
    cursor_moves_on(cursor, n, k);
    let at = cursor_after(cursor, n, k);
    vstd::arithmetic::div_mod::lemma_add_mod_noop(at, i, n);
    vstd::arithmetic::div_mod::lemma_add_mod_noop(cursor + 4 * k, i, n);
    assert(4 * k + i == distance);
    vstd::arithmetic::div_mod::lemma_add_mod_noop_right(cursor, place - cursor, n);
    assert((cursor + distance) % n == (cursor + (place - cursor)) % n);
    vstd::arithmetic::div_mod::lemma_small_mod(place as nat, n as nat);
    assert((at + i) % n == (cursor + 4 * k + i) % n);
    (k, i)
}

fn step(offset: usize, ahead: usize, n: usize) -> (r: usize)
    requires
        offset < n,
        ahead < n,
    ensures
        r == (offset + ahead) % n as int,
        r < n,
{
    proof {
        if offset >= n - ahead {
            vstd::arithmetic::div_mod::lemma_small_mod((offset + ahead - n) as nat, n as nat);
            vstd::arithmetic::div_mod::lemma_mod_add_multiples_vanish(
                offset + ahead - n,
                n as int,
            );
        } else {
            vstd::arithmetic::div_mod::lemma_small_mod((offset + ahead) as nat, n as nat);
        }
    }
    if offset >= n - ahead {
        offset - (n - ahead)
    } else {
        offset + ahead
    }
}

/// The place of the name whose turn is `i`th.
fn place_of_turn(cursor: usize, n: usize, i: usize) -> (r: usize)
    requires
        i < n,
    ensures
        r == turn_place(cursor as int, n as int, i as int),
        r < n,
{
    proof {
        vstd::arithmetic::div_mod::lemma_add_mod_noop(cursor as int, i as int, n as int);
        vstd::arithmetic::div_mod::lemma_small_mod(i as nat, n as nat);
    }
    step(cursor % n, i, n)
}

/// The cursor of the next round.
pub fn advance_cursor(cursor: usize, n: usize) -> (r: usize)
    ensures
        r == next_cursor(cursor as int, n as int),
{
    if n == 0 {
        return cursor;
    }
    proof {
        vstd::arithmetic::div_mod::lemma_add_mod_noop(cursor as int, 4, n as int);
    }
    step(cursor % n, MAX_VOLATILE_RECONCILES_PER_CYCLE % n, n)
}

// ---------------------------------------------------------------------------
// One turn
// ---------------------------------------------------------------------------

/// What became of a volatile name.
#[derive(Clone, Copy, Debug, PartialEq, Eq, Structural)]
pub enum Verdict {
    /// Its thread is not proved, so it was given up.
    Rejected,
    /// Its pane is gone.
    Gone,
    /// It was stored, but its thread was not proved any more afterwards, so it
    /// was given up again.
    Moved,
    /// It was stored, and its thread was proved before and after.
    Kept,
}

/// An answer for one pane proves a thread.
pub open spec fn proves(answer: Answer, thread: Seq<char>) -> bool {
    names::thread_at(answer.found, 0) == Some(thread)
}

/// The verdict on a name, and how many answers it took.
pub open spec fn verdict(
    named: NamedPane,
    panes: Seq<Pane>,
    known: Seq<KnownModel>,
    answers: Seq<Answer>,
) -> (Verdict, int) {
    let thread = named.name.thread_id@;
    if names::known_thread(known, named.pane@, 0) != Some(thread) {
        (Verdict::Rejected, 0)
    } else if pane_place(panes, named.pane@, 0) is None {
        (Verdict::Gone, 0)
    } else if !proves(answers[0], thread) {
        (Verdict::Rejected, 1)
    } else if !proves(answers[1], thread) {
        (Verdict::Moved, 2)
    } else {
        (Verdict::Kept, 2)
    }
}

/// Each answer was for the pane of the name alone.
pub open spec fn asked_alone(named: NamedPane, panes: Seq<Pane>, answers: Seq<Answer>) -> bool {
    forall|i: int|
        0 <= i < answers.len() ==> (#[trigger] answers[i]).leaders == seq![
            panes[pane_place(panes, named.pane@, 0)->0].pane_pid,
        ]
}

/// The name was stored, with its pane taken as verified.
pub open spec fn stored(named: NamedPane, trace: Seq<Exchange>) -> bool {
    owned_names::listed_then(
        owned_names::state_query(),
        trace,
        |lines: Seq<Seq<char>>|
            owned_names::planned_updates(
                seq![named],
                seq![named.pane@],
                owned_names::state_rows(lines),
            ),
    )
}

/// Whether the list of panes that a trace starts with shows a pane that waits
/// to be named.
pub open spec fn shows_pending(trace: Seq<Exchange>) -> bool {
    match owned_names::accepted(trace[0].reply) {
        Some(output) => owned_names::name_pending(
            owned_names::state_rows(scan::lines(text::lossy_text(output.stdout))),
        ),
        None => false,
    }
}

/// What was asked of tmux for a verdict.
pub open spec fn carried_out(named: NamedPane, v: Verdict, trace: Seq<Exchange>) -> bool {
    match v {
        Verdict::Rejected => owned_names::requests_of(trace) == owned_names::planned_clears(
            seq![named],
        ),
        Verdict::Gone => trace.len() == 0,
        Verdict::Moved => {
            &&& trace.len() > 0
            &&& stored(named, trace.drop_last())
            &&& owned_names::requests_of(seq![trace.last()]) == owned_names::planned_clears(
                seq![named],
            )
        },
        Verdict::Kept => stored(named, trace),
    }
}

pub open spec fn was_stored(v: Verdict) -> bool {
    v == Verdict::Moved || v == Verdict::Kept
}

/// What was done for a verdict, in order: a name is stored between the two questions
/// about its thread, and given up only after the answer that speaks against it.
pub open spec fn in_order(v: Verdict, answers: Seq<Answer>, trace: Seq<Exchange>) -> Seq<Deed> {
    match v {
        Verdict::Rejected => asked(answers) + desk::exchanges(trace),
        Verdict::Gone => Seq::empty(),
        Verdict::Moved => asked(answers.take(1)) + desk::exchanges(trace.drop_last()) + asked(
            answers.skip(1),
        ) + desk::exchanges(seq![trace.last()]),
        Verdict::Kept => asked(answers.take(1)) + desk::exchanges(trace) + asked(answers.skip(1)),
    }
}

/// Questions about threads, as deeds.
pub open spec fn asked(answers: Seq<Answer>) -> Seq<Deed> {
    Seq::new(answers.len(), |i: int| Deed::Asked(answers[i]))
}

/// A name that is kept was proved once more after every exchange that stored it: the
/// last thing done is the question whose answer proves its thread.
pub proof fn a_kept_name_is_proved_last(
    named: NamedPane,
    panes: Seq<Pane>,
    known: Seq<KnownModel>,
    answers: Seq<Answer>,
    trace: Seq<Exchange>,
)
    requires
        (Verdict::Kept, answers.len() as int) == verdict(named, panes, known, answers),
    ensures
        in_order(Verdict::Kept, answers, trace) == seq![Deed::Asked(answers[0])]
            + desk::exchanges(trace) + seq![Deed::Asked(answers[1])],
        proves(answers[0], named.name.thread_id@),
        proves(answers[1], named.name.thread_id@),
{
    assert(asked(answers.take(1)) =~= seq![Deed::Asked(answers[0])]);
    assert(asked(answers.skip(1)) =~= seq![Deed::Asked(answers[1])]);
}

/// Asks for the thread of one pane.
fn volatile_name_matches<R: TmuxCommandRunner, H: ProcessHost, E: RequestExpiry>(
    desk: &mut NamingDesk<R, H, E>,
    pane: &Pane,
    thread: &str,
) -> (r: bool)
    ensures
        final(desk).history() == old(desk).history(),
        final(desk).deeds() == old(desk).deeds().push(
            Deed::Asked(final(desk).threads().answers().last()),
        ),
        final(desk).threads().learned_since(&old(desk).threads()),
        final(desk).threads().answers().len() == old(desk).threads().answers().len() + 1,
        final(desk).threads().answers().last().leaders == seq![pane.pane_pid],
        r == proves(final(desk).threads().answers().last(), thread@),
        r ==> final(desk).threads().has_proof(pane.pane_pid, thread@),
{
    let mut leaders: Vec<u32> = Vec::new();
    leaders.push(pane.pane_pid);
    assert(leaders@ =~= seq![pane.pane_pid]);
    match desk.resolve(&leaders) {
        None => false,
        Some(found) => {
            assert(names::threads_view(found@)[0] == text::option_view(found@[0]));
            match &found[0] {
                Some(id) => text_equal(id, thread),
                None => false,
            }
        },
    }
}

/// Gives one volatile name its turn. It is stored only while its thread is
/// proved, and given up where the proof fails before or after that.
pub fn take_turn<R: TmuxCommandRunner, H: ProcessHost, E: RequestExpiry>(
    desk: &mut NamingDesk<R, H, E>,
    single: &Vec<NamedPane>,
    panes: &Vec<Pane>,
    known: &Vec<KnownThread>,
) -> (r: (Verdict, bool))
    requires
        single@.len() == 1,
    ensures
        old(desk).history().is_prefix_of(final(desk).history()),
        final(desk).threads().learned_since(&old(desk).threads()),
        ({
            let named = single@[0];
            let trace = actions::exchanged(old(desk).history(), final(desk).history());
            let answers = final(desk).threads().answers().skip(
                old(desk).threads().answers().len() as int,
            );
            &&& final(desk).deeds() == old(desk).deeds() + in_order(r.0, answers, trace)
            &&& (r.0, answers.len() as int) == verdict(
                named,
                panes@,
                names::known_list(known@),
                answers,
            )
            &&& asked_alone(named, panes@, answers)
            &&& carried_out(named, r.0, trace)
            &&& r.1 == (was_stored(r.0) && shows_pending(trace))
            &&& was_stored(r.0) ==> pane_place(panes@, named.pane@, 0) is Some
                && final(desk).threads().has_proof(
                panes@[pane_place(panes@, named.pane@, 0)->0].pane_pid,
                named.name.thread_id@,
            )
        }),
{
    let ghost start = desk.history();
    let ghost done = desk.deeds();
    let ghost before_all = desk.threads().answers();
    let ghost known_before = desk.threads();
    let ghost named = single@[0];
    proof {
        names::nothing_is_forgotten(&desk.threads());
    }
    let thread = &single[0].name.thread_id;
    assert(single@ =~= seq![named]);
    assert(before_all.skip(before_all.len() as int) =~= Seq::empty());
    if !names::is_known(known, &single[0].pane, thread) {
        desk.clear_generated(single);
        proof {
            let trace = actions::exchanged(start, desk.history());
            assert(asked(Seq::<Answer>::empty()) =~= Seq::<Deed>::empty());
            assert(desk.deeds() =~= done + (asked(Seq::<Answer>::empty()) + desk::exchanges(trace)));
        }
        return (Verdict::Rejected, false);
    }
    let at = match find_pane(panes, &single[0].pane) {
        Some(at) => at,
        None => {
            assert(actions::exchanged(start, start) =~= Seq::empty());
            assert(done + Seq::<Deed>::empty() =~= done);
            return (Verdict::Gone, false);
        },
    };
    let before = volatile_name_matches(desk, &panes[at], thread);
    let ghost first = desk.threads();
    let ghost opened = desk.deeds();
    assert(first.answers().skip(before_all.len() as int) =~= seq![first.answers().last()]);
    proof {
        let answers = first.answers().skip(before_all.len() as int);
        assert(asked(answers) =~= seq![Deed::Asked(first.answers().last())]);
        assert(opened =~= done + asked(answers));
    }
    if !before {
        desk.clear_generated(single);
        proof {
            let answers = first.answers().skip(before_all.len() as int);
            let trace = actions::exchanged(start, desk.history());
            assert(desk.deeds() =~= done + (asked(answers) + desk::exchanges(trace)));
        }
        return (Verdict::Rejected, false);
    }
    let mut verified: Vec<PaneId> = Vec::new();
    verified.push(single[0].pane.clone());
    assert(owned_names::id_list(verified@) =~= seq![named.pane@]);
    let pending = desk.reconcile(single, &verified);
    let ghost middle = desk.history();
    let ghost told = desk.deeds();
    assert(stored(named, actions::exchanged(start, middle)));
    let after = volatile_name_matches(desk, &panes[at], thread);
    proof {
        let now = desk.threads().answers();
        assert(now.skip(before_all.len() as int) =~= seq![first.answers().last(), now.last()]);
        names::proofs_stay(&first, &desk.threads(), panes@[at as int].pane_pid, thread@);
        names::learning_adds_up(&known_before, &first, &desk.threads());
        let answers = now.skip(before_all.len() as int);
        assert(asked(answers.take(1)) =~= seq![Deed::Asked(first.answers().last())]);
        assert(asked(answers.skip(1)) =~= seq![Deed::Asked(now.last())]);
        assert(desk.deeds() =~= done + (asked(answers.take(1)) + desk::exchanges(
            actions::exchanged(start, middle),
        ) + asked(answers.skip(1))));
    }
    if after {
        return (Verdict::Kept, pending);
    }
    desk.clear_generated(single);
    proof {
        let end = desk.history();
        let cleared = actions::exchanged(middle, end);
        let trace = actions::exchanged(start, end);
        assert(owned_names::requests_of(cleared).len() == 1);
        assert(cleared =~= seq![end.last()]);
        assert(trace.drop_last() =~= actions::exchanged(start, middle));
        assert(trace[0] == actions::exchanged(start, middle)[0]);
        assert(trace.last() == end.last());
        let answers = desk.threads().answers().skip(before_all.len() as int);
        assert(desk.deeds() =~= done + in_order(Verdict::Moved, answers, trace));
    }
    (Verdict::Moved, pending)
}

// ---------------------------------------------------------------------------
// One round
// ---------------------------------------------------------------------------

/// What happened in one part of a round.
#[verifier::ext_equal]
pub struct Part {
    pub trace: Seq<Exchange>,
    pub answers: Seq<Answer>,
    /// Both, in order.
    pub deeds: Seq<Deed>,
}

pub open spec fn traces(parts: Seq<Part>) -> Seq<Exchange>
    decreases parts.len(),
{
    if parts.len() == 0 {
        Seq::empty()
    } else {
        traces(parts.drop_last()) + parts.last().trace
    }
}

pub open spec fn all_answers(parts: Seq<Part>) -> Seq<Answer>
    decreases parts.len(),
{
    if parts.len() == 0 {
        Seq::empty()
    } else {
        all_answers(parts.drop_last()) + parts.last().answers
    }
}

pub open spec fn all_deeds(parts: Seq<Part>) -> Seq<Deed>
    decreases parts.len(),
{
    if parts.len() == 0 {
        Seq::empty()
    } else {
        all_deeds(parts.drop_last()) + parts.last().deeds
    }
}

/// A round and what came of it.
pub struct Round {
    /// Some pane waits to be named.
    pub pending: bool,
    /// Where the next round goes on.
    pub cursor: usize,
    /// The verdicts on the volatile names that had their turn.
    pub verdicts: Vec<Verdict>,
    /// What happened, part by part.
    pub parts: Ghost<Seq<Part>>,
}

/// The name of a turn.
pub open spec fn turn_name(list: Seq<NamedPane>, cursor: int, i: int) -> NamedPane {
    let waiting = by_pane(volatile_names(list));
    waiting[turn_place(cursor, waiting.len() as int, i)]
}

/// A turn was taken as its name deserves.
pub open spec fn turn_taken(
    named: NamedPane,
    panes: Seq<Pane>,
    known: Seq<KnownModel>,
    v: Verdict,
    part: Part,
) -> bool {
    &&& (v, part.answers.len() as int) == verdict(named, panes, known, part.answers)
    &&& asked_alone(named, panes, part.answers)
    &&& carried_out(named, v, part.trace)
    &&& part.deeds == in_order(v, part.answers, part.trace)
}

/// A name that was stored had its thread proved.
pub open spec fn proved_if_stored<H: ProcessHost>(
    verifier: ThreadVerifier<H>,
    named: NamedPane,
    panes: Seq<Pane>,
    v: Verdict,
) -> bool {
    was_stored(v) ==> pane_place(panes, named.pane@, 0) is Some && verifier.has_proof(
        panes[pane_place(panes, named.pane@, 0)->0].pane_pid,
        named.name.thread_id@,
    )
}

/// One round: explicit requests expire or move on, the threads of all volatile names are
/// asked for, the stable names are stored, and up to four volatile names have
/// their turn.
pub open spec fn round_done(
    list: Seq<NamedPane>,
    panes: Seq<Pane>,
    cursor: int,
    now: u64,
    r: Round,
) -> bool {
    let parts = r.parts@;
    let c = candidates(list, panes);
    let n = volatile_names(list).len() as int;
    &&& parts.len() == 2 + turns(n)
    &&& owned_names::requests_of(parts[0].trace) == owned_names::planned_advances(panes)
    &&& parts[0].answers.len() == 1
    &&& parts[0].answers[0].leaders == leaders_of(c)
    &&& parts[0].deeds == seq![Deed::Expired { panes, now }] + desk::exchanges(parts[0].trace)
        + asked(parts[0].answers)
    &&& owned_names::listed_then(
        owned_names::state_query(),
        parts[1].trace,
        |lines: Seq<Seq<char>>|
            owned_names::planned_updates(
                stable_names(list),
                Seq::empty(),
                owned_names::state_rows(lines),
            ),
    )
    &&& parts[1].answers.len() == 0
    &&& parts[1].deeds == desk::exchanges(parts[1].trace)
    &&& r.verdicts@.len() == turns(n)
    &&& forall|i: int|
        0 <= i < turns(n) ==> turn_taken(
            turn_name(list, cursor, i),
            panes,
            authority(c, parts[0].answers[0].found, c.len() as int),
            #[trigger] r.verdicts@[i],
            parts[2 + i],
        )
    &&& r.cursor == next_cursor(cursor, n)
    &&& r.pending == (shows_pending(parts[1].trace) || exists|i: int|
        0 <= i < turns(n) && was_stored(#[trigger] r.verdicts@[i]) && shows_pending(
            parts[2 + i].trace,
        ))
}

fn singles(list: Vec<NamedPane>) -> (r: Vec<Vec<NamedPane>>)
    ensures
        r@.len() == list@.len(),
        forall|i: int| 0 <= i < r@.len() ==> (#[trigger] r@[i])@ == seq![list@[i]],
    decreases list@.len(),
{
    let mut list = list;
    let ghost all = list@;
    match list.pop() {
        None => Vec::new(),
        Some(last) => {
            assert(list@ =~= all.drop_last());
            let mut r = singles(list);
            let mut one: Vec<NamedPane> = Vec::new();
            one.push(last);
            assert(one@ =~= seq![last]);
            r.push(one);
            assert forall|i: int| 0 <= i < r@.len() implies (#[trigger] r@[i])@ == seq![all[i]] by {
                if i < all.len() - 1 {
                    assert(all.drop_last()[i] == all[i]);
                }
            }
            r
        },
    }
}

proof fn part_added(parts: Seq<Part>, part: Part)
    ensures
        traces(parts.push(part)) == traces(parts) + part.trace,
        all_answers(parts.push(part)) == all_answers(parts) + part.answers,
        all_deeds(parts.push(part)) == all_deeds(parts) + part.deeds,
{
    assert(parts.push(part).drop_last() =~= parts);
}

/// Carries out one round.
#[verifier::spinoff_prover]
#[verifier::rlimit(80)]
pub fn reconcile_round<R: TmuxCommandRunner, H: ProcessHost, E: RequestExpiry>(
    desk: &mut NamingDesk<R, H, E>,
    list: Vec<NamedPane>,
    panes: &Vec<Pane>,
    cursor: usize,
    now_unix_nanos: u64,
) -> (r: Round)
    ensures
        final(desk).deeds() == old(desk).deeds() + all_deeds(r.parts@),
        final(desk).history() == old(desk).history() + traces(r.parts@),
        final(desk).threads().answers() == old(desk).threads().answers() + all_answers(r.parts@),
        final(desk).threads().learned_since(&old(desk).threads()),
        round_done(list@, panes@, cursor as int, now_unix_nanos, r),
        forall|i: int|
            0 <= i < r.verdicts@.len() ==> proved_if_stored(
                final(desk).threads(),
                turn_name(list@, cursor as int, i),
                panes@,
                #[trigger] r.verdicts@[i],
            ),
{
    let ghost start = desk.history();
    let ghost done = desk.deeds();
    let ghost before_all = desk.threads().answers();
    let ghost known_before = desk.threads();
    let ghost all = list@;
    let ghost c = candidates(all, panes@);
    desk.expire_auto_name_requests(panes, now_unix_nanos);
    desk.mark_auto_name_generating(panes);
    let ghost marked = desk.history();
    let known = ask_authority(&list, panes, desk);
    let ghost k = names::known_list(known@);
    let (stable, volatile) = split_names(list);
    let none: Vec<PaneId> = Vec::new();
    let ghost questioned = desk.deeds();
    let mut pending = desk.reconcile(&stable, &none);
    assert(owned_names::id_list(none@) =~= Seq::<Seq<char>>::empty());
    let ghost settled = desk.history();
    let ghost first = Part {
        trace: actions::exchanged(start, marked),
        answers: desk.threads().answers().skip(before_all.len() as int),
        deeds: questioned.skip(done.len() as int),
    };
    let ghost second = Part {
        trace: actions::exchanged(marked, settled),
        answers: Seq::empty(),
        deeds: desk::exchanges(actions::exchanged(marked, settled)),
    };
    let ghost mut parts: Seq<Part> = seq![first, second];
    proof {
        assert(first.answers =~= seq![desk.threads().answers().last()]);
        assert(Seq::<Part>::empty().push(first).push(second) =~= parts);
        part_added(Seq::empty(), first);
        part_added(Seq::empty().push(first), second);
        assert(settled =~= start + traces(parts));
        assert(asked(first.answers) =~= seq![Deed::Asked(desk.threads().answers().last())]);
        assert(first.deeds =~= seq![Deed::Expired { panes: panes@, now: now_unix_nanos }]
            + desk::exchanges(first.trace) + asked(first.answers));
        assert(desk.deeds() =~= done + all_deeds(parts));
        assert(desk.threads().answers() =~= before_all + all_answers(parts));
    }
    let ghost waiting = by_pane(volatile_names(all));
    proof {
        ordering_keeps_all(volatile_names(all));
    }
    let rows = singles(sort_names(volatile));
    let n: usize = rows.len();
    let count: usize = if n < MAX_VOLATILE_RECONCILES_PER_CYCLE {
        n
    } else {
        MAX_VOLATILE_RECONCILES_PER_CYCLE
    };
    let mut verdicts: Vec<Verdict> = Vec::new();
    let mut i: usize = 0;
    while i < count
        invariant
            i <= count <= n,
            n == rows@.len() == waiting.len(),
            count == turns(n as int),
            verdicts@.len() == i,
            parts.len() == 2 + i,
            parts[0] == first,
            parts[1] == second,
            desk.threads().learned_since(&known_before),
            desk.deeds() == done + all_deeds(parts),
            desk.history() == start + traces(parts),
            desk.threads().answers() == before_all + all_answers(parts),
            forall|j: int|
                0 <= j < i ==> turn_taken(
                    turn_name(all, cursor as int, j),
                    panes@,
                    k,
                    #[trigger] verdicts@[j],
                    parts[2 + j],
                ),
            forall|j: int|
                0 <= j < i ==> proved_if_stored(
                    desk.threads(),
                    turn_name(all, cursor as int, j),
                    panes@,
                    #[trigger] verdicts@[j],
                ),
            pending == (shows_pending(second.trace) || exists|j: int|
                0 <= j < i && was_stored(#[trigger] verdicts@[j]) && shows_pending(
                    parts[2 + j].trace,
                )),
        decreases count - i,
    {
        let ghost before = desk.history();
        let ghost earlier = desk.threads();
        let ghost so_far = desk.deeds();
        let ghost held = parts;
        let ghost said = verdicts@;
        let at: usize = place_of_turn(cursor, n, i);
        assert(rows@[at as int]@ == seq![waiting[at as int]]);
        let (v, waits) = take_turn(desk, &rows[at], panes, &known);
        verdicts.push(v);
        let was_pending = pending;
        if waits {
            pending = true;
        }
        proof {
            let part = Part {
                trace: actions::exchanged(before, desk.history()),
                answers: desk.threads().answers().skip(earlier.answers().len() as int),
                deeds: desk.deeds().skip(so_far.len() as int),
            };
            names::learning_adds_up(&known_before, &earlier, &desk.threads());
            part_added(parts, part);
            parts = parts.push(part);
            assert(desk.history() =~= before + part.trace);
            assert(part.deeds =~= in_order(v, part.answers, part.trace));
            assert(desk.deeds() =~= so_far + part.deeds);
            assert(desk.deeds() =~= done + all_deeds(parts));
            assert(desk.history() =~= start + traces(parts));
            assert(desk.threads().answers() =~= earlier.answers() + part.answers);
            assert(desk.threads().answers() =~= before_all + all_answers(parts));
            assert(turn_name(all, cursor as int, i as int) == waiting[at as int]);
            assert forall|j: int| 0 <= j < i + 1 implies turn_taken(
                turn_name(all, cursor as int, j),
                panes@,
                k,
                #[trigger] verdicts@[j],
                parts[2 + j],
            ) by {
                if j < i {
                    assert(verdicts@[j] == said[j]);
                    assert(parts[2 + j] == held[2 + j]);
                }
            }
            assert forall|j: int| 0 <= j < i + 1 implies proved_if_stored(
                desk.threads(),
                turn_name(all, cursor as int, j),
                panes@,
                #[trigger] verdicts@[j],
            ) by {
                if j < i {
                    assert(verdicts@[j] == said[j]);
                    let named = turn_name(all, cursor as int, j);
                    if was_stored(said[j]) {
                        names::proofs_stay(
                            &earlier,
                            &desk.threads(),
                            panes@[pane_place(panes@, named.pane@, 0)->0].pane_pid,
                            named.name.thread_id@,
                        );
                    }
                }
            }
            if was_pending && !shows_pending(second.trace) {
                let j = choose|j: int|
                    0 <= j < i && was_stored(#[trigger] said[j]) && shows_pending(
                        held[2 + j].trace,
                    );
                assert(verdicts@[j] == said[j] && parts[2 + j] == held[2 + j]);
            }
            if waits {
                assert(was_stored(verdicts@[i as int]) && shows_pending(parts[2 + i].trace));
            }
            assert forall|j: int|
                0 <= j < i && was_stored(#[trigger] verdicts@[j]) && shows_pending(
                    parts[2 + j].trace,
                ) implies was_pending by {
                assert(verdicts@[j] == said[j] && parts[2 + j] == held[2 + j]);
            }
        }
        i += 1;
    }
    let next: usize = advance_cursor(cursor, n);
    let r = Round { pending, cursor: next, verdicts, parts: Ghost(parts) };
    proof {
        assert(n == volatile_names(all).len());
        assert(k == authority(c, first.answers[0].found, c.len() as int));
        assert(owned_names::listed_then(
            owned_names::state_query(),
            r.parts@[1].trace,
            |lines: Seq<Seq<char>>|
                owned_names::planned_updates(
                    stable_names(all),
                    Seq::empty(),
                    owned_names::state_rows(lines),
                ),
        ));
        assert forall|j: int| 0 <= j < turns(n as int) implies turn_taken(
            turn_name(all, cursor as int, j),
            panes@,
            authority(c, r.parts@[0].answers[0].found, c.len() as int),
            #[trigger] r.verdicts@[j],
            r.parts@[2 + j],
        ) by {}
        assert(r.cursor == next_cursor(cursor as int, n as int));
        assert(r.parts@.len() == 2 + turns(n as int));
        assert(owned_names::requests_of(r.parts@[0].trace) == owned_names::planned_advances(
            panes@,
        ));
        assert(r.parts@[0].answers.len() == 1);
        assert(r.parts@[0].answers[0].leaders == leaders_of(c));
        assert(r.verdicts@.len() == turns(n as int));
        assert(r.pending == (shows_pending(r.parts@[1].trace) || exists|j: int|
            0 <= j < turns(n as int) && was_stored(#[trigger] r.verdicts@[j]) && shows_pending(
                r.parts@[2 + j].trace,
            )));
        assert(round_done(all, panes@, cursor as int, now_unix_nanos, r));
    }
    r
}

// ---------------------------------------------------------------------------
// When there is a round
// ---------------------------------------------------------------------------

/// A round is due when the names changed, and every two seconds.
pub const RECONCILE_INTERVAL_MILLIS: u64 = 2000;

/// The first and the longest wait before a worker is started again.
pub const FIRST_RETRY_MILLIS: u64 = 100;

pub const LONGEST_RETRY_MILLIS: u64 = 5000;

/// How long a wait goes on before the conditions are looked at again.
pub const RETRY_POLL_MILLIS: u64 = 50;

pub fn reconcile_is_due(changed: bool, elapsed_millis: u64) -> (r: bool)
    ensures
        r == (changed || elapsed_millis >= RECONCILE_INTERVAL_MILLIS),
{
    changed || elapsed_millis >= RECONCILE_INTERVAL_MILLIS
}

pub open spec fn longer_retry(millis: u64) -> u64 {
    if 2 * millis < LONGEST_RETRY_MILLIS {
        (2 * millis) as u64
    } else {
        LONGEST_RETRY_MILLIS
    }
}

/// The wait after a wait: twice as long, but never longer than five seconds.
pub fn next_retry(millis: u64) -> (r: u64)
    ensures
        r == longer_retry(millis),
        r <= LONGEST_RETRY_MILLIS,
        FIRST_RETRY_MILLIS <= millis <= LONGEST_RETRY_MILLIS ==> millis <= r,
{
    if millis < LONGEST_RETRY_MILLIS / 2 {
        2 * millis
    } else {
        LONGEST_RETRY_MILLIS
    }
}

/// How a wait goes on.
#[derive(Clone, Copy, Debug, PartialEq, Eq, Structural)]
pub enum RetryStep {
    /// Naming was disabled or the tmux server is another one.
    GiveUp,
    /// The wait is over.
    Restart,
    Sleep(u64),
}

/// Decides how a wait goes on. It is given up as soon as naming is disabled or
/// the server is not the same any more, even where the time is over.
pub fn retry_step(enabled: bool, same_server: bool, remaining_millis: u64) -> (r: RetryStep)
    ensures
        r == if !enabled || !same_server {
            RetryStep::GiveUp
        } else if remaining_millis == 0 {
            RetryStep::Restart
        } else if remaining_millis < RETRY_POLL_MILLIS {
            RetryStep::Sleep(remaining_millis)
        } else {
            RetryStep::Sleep(RETRY_POLL_MILLIS)
        },
{
    if !enabled || !same_server {
        RetryStep::GiveUp
    } else if remaining_millis == 0 {
        RetryStep::Restart
    } else if remaining_millis < RETRY_POLL_MILLIS {
        RetryStep::Sleep(remaining_millis)
    } else {
        RetryStep::Sleep(RETRY_POLL_MILLIS)
    }
}

} // verus!
