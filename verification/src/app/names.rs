//! Names whose pane title does not prove their thread: they are shown and
//! stored only while the processes of the pane prove it.

use vstd::prelude::*;
use crate::app::threads::ThreadVerifier;
use crate::domain::{Pane, PaneId};
use crate::error::{ErrorModel, MuxError};
use crate::smart_naming::process_store;
use crate::smart_naming::process_store::{ProcessHost, ProcessRolloutStore};
use crate::smart_naming::store_replay;
use crate::smart_naming::store_replay::{HostEvent, StoreModel};
use crate::text;
use crate::text::{option_text_equal, text_equal};
use crate::tmux::owned_names::NamedPane;

verus! {

/// How many volatile names are looked at in one cycle.
pub const MAX_VOLATILE_RECONCILES_PER_CYCLE: usize = 4;

// ---------------------------------------------------------------------------
// The threads of panes
// ---------------------------------------------------------------------------

pub open spec fn threads_view(found: Seq<Option<String>>) -> Seq<Option<Seq<char>>> {
    Seq::new(found.len(), |i: int| text::option_view(found[i]))
}

pub open spec fn answer_view(found: Option<Vec<Option<String>>>) -> Option<
    Seq<Option<Seq<char>>>,
> {
    match found {
        Some(list) => Some(threads_view(list@)),
        None => None,
    }
}

/// The thread at a place of an answer, where there is one.
pub open spec fn thread_at(found: Option<Seq<Option<Seq<char>>>>, i: int) -> Option<Seq<char>> {
    match found {
        Some(list) => if 0 <= i < list.len() {
            list[i]
        } else {
            None
        },
        None => None,
    }
}

/// What was found for the leaders of some panes; nothing where there is no store
/// or it did not answer.
#[verifier::ext_equal]
pub struct Answer {
    pub leaders: Seq<u32>,
    pub found: Option<Seq<Option<Seq<char>>>>,
}

/// What a store said of the threads of some panes, as its log has it; nothing where
/// there is no store.
pub open spec fn store_answer<H: ProcessHost>(
    before: Option<ProcessRolloutStore<H>>,
    after: Option<ProcessRolloutStore<H>>,
    leaders: Seq<u32>,
) -> Result<Option<Seq<Option<Seq<char>>>>, ErrorModel> {
    match (before, after) {
        (Some(then), Some(now)) => match store_replay::panes_at(
            now.host.events(),
            then.host.events().len() as int,
            leaders,
            then.settings(),
        ) {
            Some((Ok(found), _)) => Ok(Some(found)),
            Some((Err(e), _)) => Err(e),
            None => Ok(None),
        },
        _ => Ok(None),
    }
}

/// What a search in a log from a place on found; nothing where it failed.
pub open spec fn found_in(
    w: Seq<HostEvent>,
    k: int,
    leaders: Seq<u32>,
    settings: StoreModel,
) -> Option<Option<Seq<Option<Seq<char>>>>> {
    match store_replay::panes_at(w, k, leaders, settings) {
        None => None,
        Some((Ok(found), _)) => Some(Some(found)),
        Some((Err(_), _)) => Some(None),
    }
}

/// An answer is what a search in a log found from a place on.
pub open spec fn answered(
    log: Seq<HostEvent>,
    settings: StoreModel,
    a: Answer,
    k: int,
) -> bool {
    forall|w: Seq<HostEvent>|
        store_replay::agrees(w, log) ==> #[trigger] found_in(w, k, a.leaders, settings) == Some(
            a.found,
        )
}

/// An answer is one that a store gave: nothing where there is no store.
pub open spec fn is_answer<H: ProcessHost>(
    store: Option<ProcessRolloutStore<H>>,
    a: Answer,
) -> bool {
    match store {
        None => a.found is None,
        Some(known) => exists|k: int| #[trigger] answered(known.host.events(), known.settings(), a, k),
    }
}

/// All answers from one on are such answers.
#[verifier::opaque]
pub open spec fn answers_hold<H: ProcessHost>(
    store: Option<ProcessRolloutStore<H>>,
    answers: Seq<Answer>,
    from: int,
) -> bool {
    forall|i: int| from <= i < answers.len() ==> is_answer(store, #[trigger] answers[i])
}

/// Nothing is learned where nothing is asked.
pub proof fn nothing_is_forgotten<H: ProcessHost>(verifier: &ThreadVerifier<H>)
    ensures
        verifier.learned_since(verifier),
{
    reveal(answers_hold);
    assert(verifier.answers().subrange(0, verifier.answers().len() as int) =~= verifier.answers());
}

/// What was learned at first and what was learned then is learned in the end.
pub proof fn learning_adds_up<H: ProcessHost>(
    first: &ThreadVerifier<H>,
    middle: &ThreadVerifier<H>,
    last: &ThreadVerifier<H>,
)
    requires
        middle.learned_since(first),
        last.learned_since(middle),
    ensures
        last.learned_since(first),
{
    reveal(answers_hold);
    assert(last.answers().subrange(0, first.answers().len() as int) =~= first.answers()) by {
        assert(middle.answers() == last.answers().subrange(0, middle.answers().len() as int));
        assert(first.answers() == middle.answers().subrange(0, first.answers().len() as int));
    }
    assert forall|i: int|
        first.answers().len() <= i < last.answers().len() implies is_answer(
        last.store(),
        #[trigger] last.answers()[i],
    ) by {
        if i < middle.answers().len() {
            assert(last.answers()[i] == middle.answers()[i]) by {
                assert(middle.answers() == last.answers().subrange(0, middle.answers().len() as int));
            }
            let a = middle.answers()[i];
            assert(is_answer(middle.store(), a));
            if last.store() is Some {
                let known = middle.store()->0;
                let now = last.store()->0;
                let k = choose|k: int| #[trigger] answered(known.host.events(), known.settings(), a, k);
                assert(now.settings() == known.settings());
                assert forall|w: Seq<HostEvent>|
                    store_replay::agrees(w, now.host.events()) implies #[trigger] found_in(
                    w,
                    k,
                    a.leaders,
                    now.settings(),
                ) == Some(a.found) by {
                    assert(store_replay::agrees(w, known.host.events()));
                }
                assert(answered(now.host.events(), now.settings(), a, k));
            }
        }
    }
}

/// An answer, where a store that cannot answer gives none.
pub open spec fn lenient(
    answer: Result<Option<Seq<Option<Seq<char>>>>, ErrorModel>,
) -> Option<Seq<Option<Seq<char>>>> {
    match answer {
        Ok(found) => found,
        Err(_) => None,
    }
}

pub open spec fn answer_outcome(r: Result<Option<Vec<Option<String>>>, MuxError>) -> Result<
    Option<Seq<Option<Seq<char>>>>,
    ErrorModel,
> {
    match r {
        Ok(found) => Ok(answer_view(found)),
        Err(e) => Err(e@),
    }
}

/// What was proved stays proved.
pub proof fn proofs_stay<H: ProcessHost>(
    before: &ThreadVerifier<H>,
    after: &ThreadVerifier<H>,
    leader: u32,
    thread: Seq<char>,
)
    requires
        after.learned_since(before),
        before.has_proof(leader, thread),
    ensures
        after.has_proof(leader, thread),
{
    process_store::proved_threads_stay(
        after.store()->0.seen(),
        before.store()->0.seen(),
        leader,
        before.store()->0.executables@,
        thread,
    );
}

// ---------------------------------------------------------------------------
// Titles that are shown
// ---------------------------------------------------------------------------

/// A generated title that the pane title does not prove.
pub open spec fn is_volatile(pane: Pane) -> bool {
    pane.generated_title is Some && !pane.generated_source_stable
}

/// How many of the first `n` panes have such a title.
pub open spec fn volatile_before(panes: Seq<Pane>, n: int) -> int
    decreases n,
{
    if n <= 0 {
        0
    } else {
        volatile_before(panes, n - 1) + (if is_volatile(panes[n - 1]) {
            1int
        } else {
            0
        })
    }
}

/// The leaders of the panes with such a title.
pub open spec fn volatile_leaders(panes: Seq<Pane>, n: int) -> Seq<u32>
    decreases n,
{
    if n <= 0 {
        Seq::empty()
    } else if is_volatile(panes[n - 1]) {
        volatile_leaders(panes, n - 1).push(panes[n - 1].pane_pid)
    } else {
        volatile_leaders(panes, n - 1)
    }
}

/// Whether a pane keeps its title: what was found is the thread of that title.
pub open spec fn keeps_title(
    panes: Seq<Pane>,
    found: Option<Seq<Option<Seq<char>>>>,
    i: int,
) -> bool {
    is_volatile(panes[i]) ==> thread_at(found, volatile_before(panes, i)) == text::option_view(
        panes[i].generated_thread_id,
    )
}

/// The pane as it is shown.
pub open spec fn shown(
    panes: Seq<Pane>,
    found: Option<Seq<Option<Seq<char>>>>,
    i: int,
) -> Pane {
    if keeps_title(panes, found, i) {
        panes[i]
    } else {
        Pane { generated_title: None, generated_at_unix: None, ..panes[i] }
    }
}

proof fn leaders_count(panes: Seq<Pane>, n: int)
    requires
        0 <= n <= panes.len(),
    ensures
        volatile_leaders(panes, n).len() == volatile_before(panes, n),
        forall|i: int|
            #![trigger panes[i]]
            0 <= i < n && is_volatile(panes[i]) ==> 0 <= volatile_before(panes, i)
                < volatile_before(panes, n) && volatile_leaders(panes, n)[volatile_before(
                panes,
                i,
            )] == panes[i].pane_pid,
    decreases n,
{
    if n > 0 {
        leaders_count(panes, n - 1);
    }
}

fn list_volatile(panes: &Vec<Pane>) -> (r: Vec<u32>)
    ensures
        r@ == volatile_leaders(panes@, panes@.len() as int),
{
    let mut r: Vec<u32> = Vec::new();
    let mut i: usize = 0;
    while i < panes.len()
        invariant
            i <= panes.len(),
            r@ == volatile_leaders(panes@, i as int),
        decreases panes.len() - i,
    {
        if panes[i].generated_title.is_some() && !panes[i].generated_source_stable {
            r.push(panes[i].pane_pid);
        }
        i += 1;
    }
    r
}

fn thread_matches(found: &Option<Vec<Option<String>>>, at: usize, thread: &Option<String>) -> (r:
    bool)
    ensures
        r == (thread_at(answer_view(*found), at as int) == text::option_view(*thread)),
{
    match found {
        Some(list) => if at < list.len() {
            assert(threads_view(list@)[at as int] == text::option_view(list@[at as int]));
            option_text_equal(&list[at], thread)
        } else {
            thread.is_none()
        },
        None => thread.is_none(),
    }
}

/// Takes the titles away that what was found does not prove; everything else
/// stays as it is.
pub fn hide_unproven_titles(panes: &mut Vec<Pane>, found: &Option<Vec<Option<String>>>)
    ensures
        final(panes)@.len() == old(panes)@.len(),
        forall|i: int|
            0 <= i < old(panes)@.len() ==> #[trigger] final(panes)@[i] == shown(
                old(panes)@,
                answer_view(*found),
                i,
            ),
{
    let ghost all = panes@;
    let ghost answer = answer_view(*found);
    let mut at: usize = 0;
    let mut i: usize = 0;
    while i < panes.len()
        invariant
            i <= panes.len(),
            panes@.len() == all.len(),
            at == volatile_before(all, i as int),
            at <= i,
            forall|j: int| 0 <= j < i ==> #[trigger] panes@[j] == shown(all, answer, j),
            forall|j: int| i <= j < all.len() ==> #[trigger] panes@[j] == all[j],
        decreases panes.len() - i,
    {
        assert(panes@[i as int] == all[i as int]);
        if panes[i].generated_title.is_some() && !panes[i].generated_source_stable {
            if !thread_matches(found, at, &panes[i].generated_thread_id) {
                panes[i].generated_title = None;
                panes[i].generated_at_unix = None;
            }
            at += 1;
        }
        i += 1;
    }
}

/// Hides every volatile title whose thread the processes of its pane do not
/// prove now.
pub fn verify_volatile_pane_titles<H: ProcessHost>(
    panes: &mut Vec<Pane>,
    verifier: &mut ThreadVerifier<H>,
)
    ensures
        final(verifier).learned_since(old(verifier)),
        final(panes)@.len() == old(panes)@.len(),
        volatile_before(old(panes)@, old(panes)@.len() as int) == 0 ==> final(panes)@ == old(panes)@ && final(verifier).answers() == old(verifier).answers(),
        volatile_before(old(panes)@, old(panes)@.len() as int) > 0 ==> {
            &&& final(verifier).answers().len() == old(verifier).answers().len() + 1
            &&& final(verifier).answers().last().leaders == volatile_leaders(
                old(panes)@,
                old(panes)@.len() as int,
            )
            &&& final(verifier).answers().last().found == lenient(
                store_answer(
                    old(verifier).store(),
                    final(verifier).store(),
                    volatile_leaders(old(panes)@, old(panes)@.len() as int),
                ),
            )
            &&& forall|i: int|
                0 <= i < old(panes)@.len() ==> #[trigger] final(panes)@[i] == shown(
                    old(panes)@,
                    final(verifier).answers().last().found,
                    i,
                )
        },
        forall|i: int|
            0 <= i < old(panes)@.len() && is_volatile(#[trigger] final(panes)@[i]) ==> match final(panes)@[i].generated_thread_id {
                Some(id) => final(verifier).has_proof(final(panes)@[i].pane_pid, id@),
                None => true,
            },
{
    let ghost all = panes@;
    let leaders = list_volatile(panes);
    proof {
        leaders_count(all, all.len() as int);
    }
    if leaders.len() == 0 {
        proof {
            nothing_is_forgotten(verifier);
            assert forall|i: int| 0 <= i < all.len() implies !is_volatile(#[trigger] all[i]) by {}
        }
        return;
    }
    let found = verifier.resolve(&leaders);
    hide_unproven_titles(panes, &found);
    proof {
        let answer = answer_view(found);
        assert forall|i: int|
            0 <= i < all.len() && is_volatile(#[trigger] panes@[i]) implies match panes@[i].generated_thread_id {
            Some(id) => verifier.has_proof(panes@[i].pane_pid, id@),
            None => true,
        } by {
            assert(panes@[i] == shown(all, answer, i));
            if all[i].generated_thread_id is Some {
                let at = volatile_before(all, i);
                assert(keeps_title(all, answer, i));
                assert(leaders@[at] == all[i].pane_pid);
                assert(found is Some);
                assert(threads_view(found->0@)[at] == text::option_view(found->0@[at]));
                assert(found->0@[at] is Some);
            }
        }
    }
}

// ---------------------------------------------------------------------------
// Names that are trusted
// ---------------------------------------------------------------------------

/// A thread that is known to be that of a pane.
pub struct KnownThread {
    pub pane: PaneId,
    pub thread: String,
}

#[verifier::ext_equal]
pub struct KnownModel {
    pub pane: Seq<char>,
    pub thread: Seq<char>,
}

pub open spec fn known_list(list: Seq<KnownThread>) -> Seq<KnownModel> {
    Seq::new(list.len(), |i: int| KnownModel { pane: list[i].pane@, thread: list[i].thread@ })
}

/// The thread of a pane, as the first entry from `i` on says.
pub open spec fn known_thread(known: Seq<KnownModel>, pane: Seq<char>, i: int) -> Option<Seq<char>>
    decreases known.len() - i,
{
    if i < 0 || i >= known.len() {
        None
    } else if known[i].pane == pane {
        Some(known[i].thread)
    } else {
        known_thread(known, pane, i + 1)
    }
}

/// The title proves the thread of a name, or the thread is known otherwise.
pub open spec fn is_trusted(named: NamedPane, known: Seq<KnownModel>) -> bool {
    named.name.stable_source_title || known_thread(known, named.pane@, 0) == Some(
        named.name.thread_id@,
    )
}

pub open spec fn trusted_names(names: Seq<NamedPane>, known: Seq<KnownModel>) -> Seq<NamedPane>
    decreases names.len(),
{
    if names.len() == 0 {
        Seq::empty()
    } else if is_trusted(names.last(), known) {
        trusted_names(names.drop_last(), known).push(names.last())
    } else {
        trusted_names(names.drop_last(), known)
    }
}

pub open spec fn refused_names(names: Seq<NamedPane>, known: Seq<KnownModel>) -> Seq<NamedPane>
    decreases names.len(),
{
    if names.len() == 0 {
        Seq::empty()
    } else if is_trusted(names.last(), known) {
        refused_names(names.drop_last(), known)
    } else {
        refused_names(names.drop_last(), known).push(names.last())
    }
}

pub fn is_known(known: &Vec<KnownThread>, pane: &PaneId, thread: &str) -> (r: bool)
    ensures
        r == (known_thread(known_list(known@), pane@, 0) == Some(thread@)),
{
    let ghost all = known_list(known@);
    let mut i: usize = 0;
    while i < known.len()
        invariant
            i <= known.len(),
            known_thread(all, pane@, 0) == known_thread(all, pane@, i as int),
        decreases known.len() - i,
    {
        assert(all[i as int].pane == known@[i as int].pane@);
        if known[i].pane.same_as(pane) {
            return text_equal(&known[i].thread, thread);
        }
        i += 1;
    }
    false
}

/// Parts the names that are trusted from those that are not, each in the order
/// in which it was given.
pub fn filter_names_by_authoritative_threads(
    names: Vec<NamedPane>,
    known: &Vec<KnownThread>,
) -> (r: (Vec<NamedPane>, Vec<NamedPane>))
    ensures
        r.0@ == trusted_names(names@, known_list(known@)),
        r.1@ == refused_names(names@, known_list(known@)),
    decreases names@.len(),
{
    let mut names = names;
    let ghost all = names@;
    match names.pop() {
        None => (Vec::new(), Vec::new()),
        Some(last) => {
            assert(names@ =~= all.drop_last());
            let keeps = last.name.stable_source_title || is_known(
                known,
                &last.pane,
                &last.name.thread_id,
            );
            let (mut trusted, mut refused) = filter_names_by_authoritative_threads(names, known);
            if keeps {
                trusted.push(last);
            } else {
                refused.push(last);
            }
            (trusted, refused)
        },
    }
}

/// Every name is either trusted or refused, none is lost and none is made up.
pub proof fn names_are_parted(names: Seq<NamedPane>, known: Seq<KnownModel>)
    ensures
        trusted_names(names, known).len() + refused_names(names, known).len() == names.len(),
        trusted_names(names, known).to_multiset().add(
            refused_names(names, known).to_multiset(),
        ) =~= names.to_multiset(),
        forall|i: int|
            0 <= i < trusted_names(names, known).len() ==> is_trusted(
                #[trigger] trusted_names(names, known)[i],
                known,
            ),
        forall|i: int|
            0 <= i < refused_names(names, known).len() ==> !is_trusted(
                #[trigger] refused_names(names, known)[i],
                known,
            ),
    decreases names.len(),
{
    broadcast use vstd::seq_lib::group_to_multiset_ensures;

    if names.len() > 0 {
        names_are_parted(names.drop_last(), known);
        assert(names.drop_last().push(names.last()) =~= names);
    } else {
        assert(names =~= Seq::<NamedPane>::empty());
    }
}

} // verus!
