//! The panes that the naming worker looks after.

use vstd::prelude::*;
use crate::app::names;
use crate::app::threads::ThreadVerifier;
use crate::domain::Pane;
use crate::error::{ErrorModel, MuxError};
use crate::smart_naming::process_store::ProcessHost;
use crate::smart_naming::target;
use crate::smart_naming::target::{NamingTarget, TargetModel};
use crate::text;

verus! {

/// How many of the first `n` panes show no thread in their title.
pub open spec fn untitled_before(panes: Seq<Pane>, n: int) -> int
    decreases n,
{
    if n <= 0 {
        0
    } else {
        untitled_before(panes, n - 1) + (if target::titled_target(panes[n - 1]) is None {
            1int
        } else {
            0
        })
    }
}

/// The leaders of those panes.
pub open spec fn untitled_leaders(panes: Seq<Pane>, n: int) -> Seq<u32>
    decreases n,
{
    if n <= 0 {
        Seq::empty()
    } else if target::titled_target(panes[n - 1]) is None {
        untitled_leaders(panes, n - 1).push(panes[n - 1].pane_pid)
    } else {
        untitled_leaders(panes, n - 1)
    }
}

/// The target of a pane: its title goes before what was found.
pub open spec fn target_at(
    panes: Seq<Pane>,
    found: Option<Seq<Option<Seq<char>>>>,
    i: int,
) -> Option<TargetModel> {
    match target::titled_target(panes[i]) {
        Some(titled) => Some(titled),
        None => match names::thread_at(found, untitled_before(panes, i)) {
            Some(id) => target::verified_target(panes[i], id),
            None => None,
        },
    }
}

/// The targets among the first `n` panes, in their order.
pub open spec fn targets_in(
    panes: Seq<Pane>,
    found: Option<Seq<Option<Seq<char>>>>,
    n: int,
) -> Seq<TargetModel>
    decreases n,
{
    if n <= 0 {
        Seq::empty()
    } else {
        match target_at(panes, found, n - 1) {
            Some(t) => targets_in(panes, found, n - 1).push(t),
            None => targets_in(panes, found, n - 1),
        }
    }
}

fn list_untitled(panes: &Vec<Pane>) -> (r: Vec<u32>)
    ensures
        r@ == untitled_leaders(panes@, panes@.len() as int),
{
    let mut r: Vec<u32> = Vec::new();
    let mut i: usize = 0;
    while i < panes.len()
        invariant
            i <= panes.len(),
            r@ == untitled_leaders(panes@, i as int),
        decreases panes.len() - i,
    {
        if NamingTarget::from_pane(&panes[i]).is_none() {
            r.push(panes[i].pane_pid);
        }
        i += 1;
    }
    r
}

fn found_thread(found: &Option<Vec<Option<String>>>, at: usize) -> (r: Option<String>)
    ensures
        text::option_view(r) == names::thread_at(names::answer_view(*found), at as int),
{
    match found {
        Some(list) => if at < list.len() {
            assert(names::threads_view(list@)[at as int] == text::option_view(list@[at as int]));
            text::clone_option_text(&list[at])
        } else {
            None
        },
        None => None,
    }
}

/// The targets of some panes, given the threads that were found for those whose
/// title shows none.
pub fn merge_targets(panes: &Vec<Pane>, found: &Option<Vec<Option<String>>>) -> (r: Vec<
    NamingTarget,
>)
    ensures
        target::targets_view(r@) == targets_in(
            panes@,
            names::answer_view(*found),
            panes@.len() as int,
        ),
{
    let ghost answer = names::answer_view(*found);
    let mut r: Vec<NamingTarget> = Vec::new();
    assert(target::targets_view(r@) =~= Seq::empty());
    let mut at: usize = 0;
    let mut i: usize = 0;
    while i < panes.len()
        invariant
            i <= panes.len(),
            at <= i,
            at == untitled_before(panes@, i as int),
            target::targets_view(r@) == targets_in(panes@, answer, i as int),
        decreases panes.len() - i,
    {
        let ghost before = target::targets_view(r@);
        let titled = NamingTarget::from_pane(&panes[i]);
        let next = match titled {
            Some(t) => Some(t),
            None => {
                let recovered = found_thread(found, at);
                at += 1;
                match recovered {
                    Some(id) => NamingTarget::from_verified_thread(&panes[i], id),
                    None => None,
                }
            },
        };
        if let Some(t) = next {
            let ghost added = t@;
            r.push(t);
            assert(target::targets_view(r@) =~= before.push(added));
        }
        i += 1;
    }
    r
}

pub open spec fn targets_outcome(r: Result<Vec<NamingTarget>, MuxError>) -> Result<
    Seq<TargetModel>,
    ErrorModel,
> {
    match r {
        Ok(list) => Ok(target::targets_view(list@)),
        Err(e) => Err(e@),
    }
}

/// Finds the targets among the panes. Where the processes cannot be looked at,
/// nothing is named in this round.
pub fn discover_targets<H: ProcessHost>(panes: &Vec<Pane>, verifier: &mut ThreadVerifier<H>) -> (r:
    Result<Vec<NamingTarget>, MuxError>)
    ensures
        final(verifier).learned_since(old(verifier)),
        final(verifier).answers().len() == old(verifier).answers().len() + 1,
        final(verifier).answers().last().leaders == untitled_leaders(
            panes@,
            panes@.len() as int,
        ),
        targets_outcome(r) == (match names::store_answer(
            old(verifier).store(),
            final(verifier).store(),
            untitled_leaders(panes@, panes@.len() as int),
        ) {
            Ok(found) => Ok(targets_in(panes@, found, panes@.len() as int)),
            Err(e) => Err(e),
        }),
        r is Ok ==> final(verifier).answers().last().found == names::lenient(
            names::store_answer(
                old(verifier).store(),
                final(verifier).store(),
                untitled_leaders(panes@, panes@.len() as int),
            ),
        ),
        r is Err ==> final(verifier).answers().last().found is None,
{
    let leaders = list_untitled(panes);
    match verifier.resolve_or_fail(&leaders) {
        Err(e) => Err(e),
        Ok(found) => Ok(merge_targets(panes, &found)),
    }
}

proof fn targets_come_from_panes(
    panes: Seq<Pane>,
    found: Option<Seq<Option<Seq<char>>>>,
    n: int,
    j: int,
) -> (i: int)
    requires
        0 <= n <= panes.len(),
        0 <= j < targets_in(panes, found, n).len(),
    ensures
        0 <= i < n,
        target_at(panes, found, i) == Some(targets_in(panes, found, n)[j]),
    decreases n,
{
    if target_at(panes, found, n - 1) is Some && j == targets_in(panes, found, n).len() - 1 {
        n - 1
    } else {
        targets_come_from_panes(panes, found, n - 1, j)
    }
}

/// Every target is a pane that its user did not name.
pub proof fn targets_are_not_named_by_hand(
    panes: Seq<Pane>,
    found: Option<Seq<Option<Seq<char>>>>,
    j: int,
) -> (i: int)
    requires
        0 <= j < targets_in(panes, found, panes.len() as int).len(),
    ensures
        0 <= i < panes.len(),
        !panes[i].manual_name,
        targets_in(panes, found, panes.len() as int)[j].pane_id == panes[i].id@,
{
    targets_come_from_panes(panes, found, panes.len() as int, j)
}

} // verus!
