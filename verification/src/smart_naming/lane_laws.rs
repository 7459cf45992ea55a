//! What a lane publishes, how long it waits, and how its targets are grouped.

use vstd::prelude::*;
use crate::path;
use crate::smart_naming::lane;
use crate::smart_naming::lane::LastModel;
use crate::smart_naming::target;
use crate::smart_naming::target::{AttemptModel, TargetModel};
use crate::smart_naming::worker;
use crate::smart_naming::worker::{AttemptOutcome, Intervals};

verus! {

/// What is published of a target is about its pane: the name, the thread, and where and
/// when it was made.
pub proof fn a_publication_is_about_its_target(
    t: TargetModel,
    id: Seq<char>,
    name: Seq<char>,
    now: u64,
)
    ensures
        ({
            let p = lane::publication(t, id, name, now);
            &&& p.pane_id == t.pane_id
            &&& p.thread_id == id
            &&& p.name == name
            &&& p.at == now
            &&& p.session == t.session_id
            &&& p.pane_pid == t.pane_pid
            &&& p.title == t.pane_title
            &&& p.cwd == t.cwd
            &&& p.stable == t.stable_title
            &&& p.token == t.auto_name_token
        }),
{
}

proof fn place_is_first(list: Seq<LastModel>, key: AttemptModel, i: int)
    requires
        0 <= i <= list.len(),
    ensures
        ({
            let n = lane::place_of(list, key, i);
            &&& i <= n <= list.len()
            &&& n < list.len() ==> target::same_attempt(list[n].identity, key)
            &&& forall|j: int|
                i <= j < n ==> !target::same_attempt((#[trigger] list[j]).identity, key)
        }),
    decreases list.len() - i,
{
    if i < list.len() && !target::same_attempt(list[i].identity, key) {
        place_is_first(list, key, i + 1);
    }
}

proof fn place_is(list: Seq<LastModel>, key: AttemptModel, i: int, n: int)
    requires
        0 <= i <= n < list.len(),
        target::same_attempt(list[n].identity, key),
        forall|j: int| i <= j < n ==> !target::same_attempt((#[trigger] list[j]).identity, key),
    ensures
        lane::place_of(list, key, i) == n,
    decreases n - i,
{
    if i < n {
        place_is(list, key, i + 1, n);
    }
}

/// An attempt that was made is remembered: the same attempt is made again exactly when its
/// wait is over.
pub proof fn an_attempt_waits_out_its_cooldown(
    list: Seq<LastModel>,
    key: AttemptModel,
    at: u64,
    cooldown: u64,
    now: u64,
)
    requires
        now >= at,
    ensures
        lane::last_attempt(lane::remembered(list, key, at, cooldown), key) == Some((at, cooldown)),
        lane::may_attempt(
            lane::last_attempt(lane::remembered(list, key, at, cooldown), key),
            now,
        ) <==> now - at >= cooldown,
        lane::may_attempt(None, now),
{
    place_is_first(list, key, 0);
    let n = lane::place_of(list, key, 0);
    let after = lane::remembered(list, key, at, cooldown);
    target::same_attempt_is_equivalence(key, key, key);
    assert(after[n].identity == key);
    assert forall|j: int| 0 <= j < n implies !target::same_attempt(
        (#[trigger] after[j]).identity,
        key,
    ) by {
        assert(after[j] == list[j]);
    }
    place_is(after, key, 0, n);
}

/// After a name was published the next is made at the pace of refreshing; after a failure,
/// at that of retrying; a conversation that is not complete yet is looked at again at least
/// as soon.
pub proof fn an_outcome_decides_the_wait(intervals: Intervals)
    ensures
        worker::cooldown_after(AttemptOutcome::Published, intervals) == intervals.refresh,
        worker::cooldown_after(AttemptOutcome::Failed, intervals) == intervals.retry,
        worker::cooldown_after(AttemptOutcome::Pending, intervals) <= intervals.retry,
        worker::cooldown_after(AttemptOutcome::Pending, intervals) <= intervals.pending,
        worker::cooldown_after(AttemptOutcome::Pending, intervals) == intervals.retry
            || worker::cooldown_after(AttemptOutcome::Pending, intervals) == intervals.pending,
{
}

/// A target is in a group.
pub open spec fn is_grouped(groups: Seq<Seq<TargetModel>>, t: TargetModel) -> bool {
    exists|i: int| 0 <= i < groups.len() && (#[trigger] groups[i]).contains(t)
}

proof fn group_place_range(groups: Seq<Seq<TargetModel>>, t: TargetModel, i: int)
    requires
        0 <= i <= groups.len(),
    ensures
        i <= worker::group_place(groups, t, i) <= groups.len(),
    decreases groups.len() - i,
{
    if i < groups.len() && !worker::same_group(groups[i][0], t) {
        group_place_range(groups, t, i + 1);
    }
}

/// Every target is in a group, and nothing else is.
pub proof fn every_target_is_grouped(targets: Seq<TargetModel>, t: TargetModel)
    ensures
        is_grouped(worker::grouped(targets), t) <==> targets.contains(t),
    decreases targets.len(),
{
    let groups = worker::grouped(targets);
    if targets.len() > 0 {
        let head = targets.drop_last();
        let before = worker::grouped(head);
        let last = targets.last();
        every_target_is_grouped(head, t);
        group_place_range(before, last, 0);
        let n = worker::group_place(before, last, 0);
        if targets.contains(t) {
            let k = targets.index_of(t);
            if k < head.len() {
                assert(head[k] == t);
                let i = choose|i: int| 0 <= i < before.len() && (#[trigger] before[i]).contains(t);
                let at = before[i].index_of(t);
                assert(groups[i][at] == t);
                assert(groups[i].contains(t));
            } else {
                if n < before.len() {
                    assert(groups[n] == before[n].push(t));
                    assert(groups[n].last() == t);
                    assert(groups[n].contains(t));
                } else {
                    assert(groups[n] == seq![t]);
                    assert(groups[n][0] == t);
                    assert(groups[n].contains(t));
                }
            }
        }
        if is_grouped(groups, t) {
            let i = choose|i: int| 0 <= i < groups.len() && (#[trigger] groups[i]).contains(t);
            let at = groups[i].index_of(t);
            if i < before.len() && at < before[i].len() {
                assert(before[i][at] == t);
                assert(before[i].contains(t));
                let k = head.index_of(t);
                assert(targets[k] == t);
            } else {
                assert(t == last);
                assert(targets[targets.len() - 1] == t);
            }
        }
    }
}

/// The targets of a group show the same thread in the same directory.
pub proof fn a_group_is_one_conversation(targets: Seq<TargetModel>, i: int, j: int, k: int)
    requires
        0 <= i < worker::grouped(targets).len(),
        0 <= j < worker::grouped(targets)[i].len(),
        0 <= k < worker::grouped(targets)[i].len(),
    ensures
        worker::grouped(targets)[i][j].thread_hint == worker::grouped(targets)[i][k].thread_hint,
        path::same_path(
            worker::grouped(targets)[i][0].cwd,
            worker::grouped(targets)[i][k].cwd,
        ),
{
    worker::grouping_gives_groups(targets);
    let group = worker::grouped(targets)[i];
    assert(worker::same_group(group[0], group[j]));
    assert(worker::same_group(group[0], group[k]));
}

} // verus!
