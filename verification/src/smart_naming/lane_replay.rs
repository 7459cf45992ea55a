//! What a naming lane does, as a function of what its provider and its surroundings
//! answered.
//!
//! Every function here reads a log of questions, answers and deeds from a place on. It
//! gives the result and the place behind what it took part in; `None` where the log
//! holds something else.

use vstd::prelude::*;
use crate::scan;
use crate::smart_naming::lane;
use crate::smart_naming::lane::{CommandSignal, DiscoveryPhase, LastModel, PublishedModel};
use crate::smart_naming::target;
use crate::smart_naming::target::{AttemptModel, TargetModel};
use crate::smart_naming::worker;
use crate::smart_naming::worker::{AttemptOutcome, CycleEnd, GroupEnd, Intervals};

verus! {

/// A question with its answer, or a deed.
pub enum WorkEvent {
    Signal(CommandSignal),
    Unix(u64),
    Millis(u64),
    Read { target: TargetModel, reply: Option<(Seq<char>, Seq<char>)> },
    Name { thread: Seq<char>, transcript: Seq<char>, reply: Option<Seq<char>> },
    Resolve { target: TargetModel, reply: Option<Seq<char>> },
    Healthy(bool),
    Discover { phase: DiscoveryPhase, reply: Option<Seq<TargetModel>> },
    Wait { span: u64, reply: bool },
    /// A reason code was logged.
    Logged(Seq<char>),
    /// The lane waited for the order to stop.
    Cooled(u64),
    /// The published names were shared.
    Shared(Seq<PublishedModel>),
}

/// A log begins with another.
pub open spec fn agrees(w: Seq<WorkEvent>, log: Seq<WorkEvent>) -> bool {
    &&& log.len() <= w.len()
    &&& forall|i: int| 0 <= i < log.len() ==> #[trigger] w[i] == log[i]
}

/// A name kept for a thread.
#[verifier::ext_equal]
pub struct CachedModel {
    pub thread: Seq<char>,
    pub print: u64,
    pub name: Seq<char>,
}

/// What a lane holds.
#[verifier::ext_equal]
pub struct LaneModel {
    pub cache: Seq<CachedModel>,
    pub attempts: Seq<LastModel>,
    pub published: Seq<PublishedModel>,
}

// ---------------------------------------------------------------------------
// Single questions and deeds
// ---------------------------------------------------------------------------

pub open spec fn signal_at(w: Seq<WorkEvent>, k: int) -> Option<(CommandSignal, int)> {
    if 0 <= k < w.len() {
        match w[k] {
            WorkEvent::Signal(reply) => Some((reply, k + 1)),
            _ => None,
        }
    } else {
        None
    }
}

pub open spec fn unix_at(w: Seq<WorkEvent>, k: int) -> Option<(u64, int)> {
    if 0 <= k < w.len() {
        match w[k] {
            WorkEvent::Unix(reply) => Some((reply, k + 1)),
            _ => None,
        }
    } else {
        None
    }
}

pub open spec fn millis_at(w: Seq<WorkEvent>, k: int) -> Option<(u64, int)> {
    if 0 <= k < w.len() {
        match w[k] {
            WorkEvent::Millis(reply) => Some((reply, k + 1)),
            _ => None,
        }
    } else {
        None
    }
}

pub open spec fn read_at(w: Seq<WorkEvent>, k: int, target: TargetModel) -> Option<(Option<(Seq<char>, Seq<char>)>, int)> {
    if 0 <= k < w.len() {
        match w[k] {
            WorkEvent::Read { target: asked_target, reply } => if asked_target == target {
                Some((reply, k + 1))
            } else {
                None
            },
            _ => None,
        }
    } else {
        None
    }
}

pub open spec fn name_at(w: Seq<WorkEvent>, k: int, thread: Seq<char>, transcript: Seq<char>) -> Option<(Option<Seq<char>>, int)> {
    if 0 <= k < w.len() {
        match w[k] {
            WorkEvent::Name { thread: asked_thread, transcript: asked_transcript, reply } => if asked_thread == thread && asked_transcript == transcript {
                Some((reply, k + 1))
            } else {
                None
            },
            _ => None,
        }
    } else {
        None
    }
}

pub open spec fn resolve_at(w: Seq<WorkEvent>, k: int, target: TargetModel) -> Option<(Option<Seq<char>>, int)> {
    if 0 <= k < w.len() {
        match w[k] {
            WorkEvent::Resolve { target: asked_target, reply } => if asked_target == target {
                Some((reply, k + 1))
            } else {
                None
            },
            _ => None,
        }
    } else {
        None
    }
}

pub open spec fn healthy_at(w: Seq<WorkEvent>, k: int) -> Option<(bool, int)> {
    if 0 <= k < w.len() {
        match w[k] {
            WorkEvent::Healthy(reply) => Some((reply, k + 1)),
            _ => None,
        }
    } else {
        None
    }
}

pub open spec fn discover_at(w: Seq<WorkEvent>, k: int, phase: DiscoveryPhase) -> Option<(Option<Seq<TargetModel>>, int)> {
    if 0 <= k < w.len() {
        match w[k] {
            WorkEvent::Discover { phase: asked_phase, reply } => if asked_phase == phase {
                Some((reply, k + 1))
            } else {
                None
            },
            _ => None,
        }
    } else {
        None
    }
}

pub open spec fn wait_at(w: Seq<WorkEvent>, k: int, span: u64) -> Option<(bool, int)> {
    if 0 <= k < w.len() {
        match w[k] {
            WorkEvent::Wait { span: asked_span, reply } => if asked_span == span {
                Some((reply, k + 1))
            } else {
                None
            },
            _ => None,
        }
    } else {
        None
    }
}

/// The place behind a deed.
pub open spec fn done_at(w: Seq<WorkEvent>, k: int, deed: WorkEvent) -> Option<int> {
    if 0 <= k < w.len() && w[k] == deed {
        Some(k + 1)
    } else {
        None
    }
}

// ---------------------------------------------------------------------------
// One attempt
// ---------------------------------------------------------------------------

/// The order that waits, where there is one.
pub open spec fn interrupted_at(w: Seq<WorkEvent>, k: int) -> Option<(GroupEnd, int)> {
    match signal_at(w, k) {
        None => None,
        Some((CommandSignal::Stop, n)) => Some((GroupEnd::Stop, n)),
        Some((CommandSignal::Wake, n)) => Some((GroupEnd::Rescan, n)),
        Some((CommandSignal::Quiet, n)) => Some((GroupEnd::Next, n)),
    }
}

/// A failed request: a provider that is lost ends the lane after one cooldown.
pub open spec fn failed_at(
    w: Seq<WorkEvent>,
    k: int,
    lost: Seq<char>,
    failed: Seq<char>,
    retry: u64,
) -> Option<(GroupEnd, int)> {
    match healthy_at(w, k) {
        None => None,
        Some((true, n)) => match done_at(w, n, WorkEvent::Logged(failed)) {
            None => None,
            Some(m) => Some((GroupEnd::Next, m)),
        },
        Some((false, n)) => match done_at(w, n, WorkEvent::Logged(lost)) {
            None => None,
            Some(m) => match done_at(w, m, WorkEvent::Cooled(retry)) {
                None => None,
                Some(j) => Some((GroupEnd::Stop, j)),
            },
        },
    }
}

/// The place of the name that is kept for a thread.
pub open spec fn cache_place(cache: Seq<CachedModel>, thread: Seq<char>, i: int) -> int
    decreases cache.len() - i,
{
    if i < 0 || i >= cache.len() || cache[i].thread == thread {
        i
    } else {
        cache_place(cache, thread, i + 1)
    }
}

/// The name of a conversation and the names that are kept then: the kept one where the
/// transcript has not changed, else a new one.
pub open spec fn named_at(
    w: Seq<WorkEvent>,
    k: int,
    cache: Seq<CachedModel>,
    thread: Seq<char>,
    transcript: Seq<char>,
    retry: u64,
) -> Option<(Result<Seq<char>, GroupEnd>, Seq<CachedModel>, int)> {
    let print = lane::fingerprint(transcript);
    let i = cache_place(cache, thread, 0);
    if i < cache.len() && cache[i].print == print {
        Some((Ok(cache[i].name), cache, k))
    } else {
        match name_at(w, k, thread, transcript) {
            None => None,
            Some((None, n)) => match failed_at(
                w,
                n,
                "naming_provider_unhealthy"@,
                "naming_failed"@,
                retry,
            ) {
                None => None,
                Some((end, m)) => Some((Err(end), cache, m)),
            },
            Some((Some(name), n)) => {
                let kept = CachedModel { thread, print, name };
                Some(
                    (
                        Ok(name),
                        if i < cache.len() {
                            cache.update(i, kept)
                        } else {
                            cache.push(kept)
                        },
                        n,
                    ),
                )
            },
        }
    }
}

/// The discovered targets that show or resolve to a thread, from one on.
pub open spec fn matching_from(
    w: Seq<WorkEvent>,
    k: int,
    current: Seq<TargetModel>,
    i: int,
    thread: Seq<char>,
    found: Seq<TargetModel>,
) -> Option<(Seq<TargetModel>, int)>
    decreases current.len() - i,
{
    if i >= current.len() {
        Some((found, k))
    } else if current[i].thread_hint == thread {
        matching_from(w, k, current, i + 1, thread, found.push(current[i]))
    } else {
        match resolve_at(w, k, current[i]) {
            None => None,
            Some((id, n)) => matching_from(
                w,
                n,
                current,
                i + 1,
                thread,
                if id == Some(thread) {
                    found.push(current[i])
                } else {
                    found
                },
            ),
        }
    }
}

/// The published names once some targets, from one on, have a name.
pub open spec fn published_from(
    names: Seq<PublishedModel>,
    found: Seq<TargetModel>,
    i: int,
    thread: Seq<char>,
    name: Seq<char>,
    now: u64,
) -> Seq<PublishedModel>
    decreases found.len() - i,
{
    if i >= found.len() {
        names
    } else {
        published_from(
            lane::without_pane(names, found[i].pane_id).push(
                lane::publication(found[i], thread, name, now),
            ),
            found,
            i + 1,
            thread,
            name,
            now,
        )
    }
}

/// The attempts once one more is noted now.
pub open spec fn noted_at(
    w: Seq<WorkEvent>,
    k: int,
    attempts: Seq<LastModel>,
    key: AttemptModel,
    cooldown: u64,
) -> Option<(Seq<LastModel>, int)> {
    match millis_at(w, k) {
        None => None,
        Some((at, n)) => Some((lane::remembered(attempts, key, at, cooldown), n)),
    }
}

/// The attempts once those of some groups, from one on, are noted.
pub open spec fn noted_from(
    w: Seq<WorkEvent>,
    k: int,
    attempts: Seq<LastModel>,
    groups: Seq<Seq<TargetModel>>,
    i: int,
    cooldown: u64,
) -> Option<(Seq<LastModel>, int)>
    decreases groups.len() - i,
{
    if i >= groups.len() {
        Some((attempts, k))
    } else {
        match noted_at(w, k, attempts, target::attempt_of(groups[i]), cooldown) {
            None => None,
            Some((after, n)) => noted_from(w, n, after, groups, i + 1, cooldown),
        }
    }
}

/// The place of the first target that is due for a name.
pub open spec fn due_place(group: Seq<TargetModel>, now: u64, i: int) -> int
    decreases group.len() - i,
{
    if i < 0 || i >= group.len() || target::is_due(group[i], now) {
        i
    } else {
        due_place(group, now, i + 1)
    }
}

/// The end of an attempt whose conversation has a name: the evidence is checked again,
/// and the name is published for every pane that still shows the thread.
pub open spec fn checked_at(
    w: Seq<WorkEvent>,
    k: int,
    held: LaneModel,
    group: Seq<TargetModel>,
    due: TargetModel,
    now: u64,
    thread: Seq<char>,
    name: Seq<char>,
    intervals: Intervals,
) -> Option<((GroupEnd, AttemptOutcome), LaneModel, int)> {
    match resolve_at(w, k, due) {
        None => None,
        Some((None, n)) => match failed_at(
            w,
            n,
            "resolve_provider_unhealthy"@,
            "resolve_failed"@,
            intervals.retry,
        ) {
            None => None,
            Some((end, m)) => Some(((end, AttemptOutcome::Failed), held, m)),
        },
        Some((Some(id), n)) => if id != thread {
            match done_at(w, n, WorkEvent::Logged("identity_changed"@)) {
                None => None,
                Some(m) => Some(((GroupEnd::Next, AttemptOutcome::Failed), held, m)),
            }
        } else {
            match interrupted_at(w, n) {
                None => None,
                Some((GroupEnd::Next, m)) => match discover_at(w, m, DiscoveryPhase::Revalidate) {
                    None => None,
                    Some((None, j)) => Some(((GroupEnd::Next, AttemptOutcome::Failed), held, j)),
                    Some((Some(current), j)) => match matching_from(
                        w,
                        j,
                        current,
                        0,
                        thread,
                        Seq::empty(),
                    ) {
                        None => None,
                        Some((found, l)) => if found.len() == 0 {
                            Some(((GroupEnd::Next, AttemptOutcome::Failed), held, l))
                        } else {
                            shown_at(w, l, held, group, found, now, thread, name, intervals)
                        },
                    },
                },
                Some((end, m)) => Some(((end, AttemptOutcome::Failed), held, m)),
            }
        },
    }
}

/// The publication of a name for some panes.
pub open spec fn shown_at(
    w: Seq<WorkEvent>,
    k: int,
    held: LaneModel,
    group: Seq<TargetModel>,
    found: Seq<TargetModel>,
    now: u64,
    thread: Seq<char>,
    name: Seq<char>,
    intervals: Intervals,
) -> Option<((GroupEnd, AttemptOutcome), LaneModel, int)> {
    let published = published_from(held.published, found, 0, thread, name, now);
    match done_at(w, k, WorkEvent::Logged("name_published"@)) {
        None => None,
        Some(n) => match noted_at(
            w,
            n,
            held.attempts,
            target::attempt_of(group),
            intervals.refresh,
        ) {
            None => None,
            Some((noted, m)) => match noted_from(
                w,
                m,
                noted,
                worker::grouped(found),
                0,
                intervals.refresh,
            ) {
                None => None,
                Some((attempts, j)) => match done_at(w, j, WorkEvent::Shared(published)) {
                    None => None,
                    Some(l) => Some(
                        (
                            (GroupEnd::Next, AttemptOutcome::Published),
                            LaneModel { cache: held.cache, attempts, published },
                            l,
                        ),
                    ),
                },
            },
        },
    }
}

/// An attempt for a due target, once it is allowed.
pub open spec fn begun_at(
    w: Seq<WorkEvent>,
    k: int,
    held: LaneModel,
    group: Seq<TargetModel>,
    due: TargetModel,
    now: u64,
    intervals: Intervals,
) -> Option<((GroupEnd, AttemptOutcome), LaneModel, int)> {
    let key = target::attempt_of(group);
    match noted_at(w, k, held.attempts, key, intervals.retry) {
        None => None,
        Some((attempts, n)) => {
            let begun = LaneModel { attempts, ..held };
            match read_at(w, n, due) {
                None => None,
                Some((None, m)) => match failed_at(
                    w,
                    m,
                    "read_provider_unhealthy"@,
                    "read_failed"@,
                    intervals.retry,
                ) {
                    None => None,
                    Some((end, j)) => Some(((end, AttemptOutcome::Failed), begun, j)),
                },
                Some((Some((thread, transcript)), m)) => if scan::is_blank(transcript) {
                    pending_at(w, m, begun, key, intervals)
                } else {
                    match interrupted_at(w, m) {
                        None => None,
                        Some((GroupEnd::Next, j)) => match named_at(
                            w,
                            j,
                            begun.cache,
                            thread,
                            transcript,
                            intervals.retry,
                        ) {
                            None => None,
                            Some((Err(end), cache, l)) => Some(
                                (
                                    (end, AttemptOutcome::Failed),
                                    LaneModel { cache, ..begun },
                                    l,
                                ),
                            ),
                            Some((Ok(name), cache, l)) => checked_at(
                                w,
                                l,
                                LaneModel { cache, ..begun },
                                group,
                                due,
                                now,
                                thread,
                                name,
                                intervals,
                            ),
                        },
                        Some((end, j)) => Some(((end, AttemptOutcome::Failed), begun, j)),
                    }
                },
            }
        },
    }
}

/// The end of an attempt whose conversation has no completed text yet.
pub open spec fn pending_at(
    w: Seq<WorkEvent>,
    k: int,
    held: LaneModel,
    key: AttemptModel,
    intervals: Intervals,
) -> Option<((GroupEnd, AttemptOutcome), LaneModel, int)> {
    match done_at(w, k, WorkEvent::Logged("conversation_pending"@)) {
        None => None,
        Some(n) => match noted_at(
            w,
            n,
            held.attempts,
            key,
            worker::cooldown_after(AttemptOutcome::Pending, intervals),
        ) {
            None => None,
            Some((attempts, m)) => Some(
                ((GroupEnd::Next, AttemptOutcome::Pending), LaneModel { attempts, ..held }, m),
            ),
        },
    }
}

/// One attempt to name the conversation that a group of targets shows.
pub open spec fn attempt_at(
    w: Seq<WorkEvent>,
    k: int,
    held: LaneModel,
    group: Seq<TargetModel>,
    intervals: Intervals,
) -> Option<((GroupEnd, AttemptOutcome), LaneModel, int)> {
    match interrupted_at(w, k) {
        None => None,
        Some((GroupEnd::Next, n)) => match unix_at(w, n) {
            None => None,
            Some((now, m)) => {
                let d = due_place(group, now, 0);
                if d >= group.len() {
                    Some(((GroupEnd::Next, AttemptOutcome::Skipped), held, m))
                } else {
                    match millis_at(w, m) {
                        None => None,
                        Some((at, j)) => if lane::may_attempt(
                            lane::last_attempt(held.attempts, target::attempt_of(group)),
                            at,
                        ) {
                            begun_at(w, j, held, group, group[d], now, intervals)
                        } else {
                            Some(((GroupEnd::Next, AttemptOutcome::Skipped), held, j))
                        },
                    }
                }
            },
        },
        Some((end, n)) => Some(((end, AttemptOutcome::Skipped), held, n)),
    }
}

// ---------------------------------------------------------------------------
// One cycle
// ---------------------------------------------------------------------------

/// What a cycle that waited ends with.
pub open spec fn rested(stopped: bool) -> CycleEnd {
    if stopped {
        CycleEnd::Stop
    } else {
        CycleEnd::Again
    }
}

/// The attempts of some groups, from one on: how the cycle ends where one of them ends
/// it, and what is held then.
pub open spec fn attempts_from(
    w: Seq<WorkEvent>,
    k: int,
    held: LaneModel,
    groups: Seq<Seq<TargetModel>>,
    i: int,
    intervals: Intervals,
) -> Option<(Option<CycleEnd>, LaneModel, int)>
    decreases groups.len() - i,
{
    if i >= groups.len() {
        Some((None, held, k))
    } else {
        match attempt_at(w, k, held, groups[i], intervals) {
            None => None,
            Some(((GroupEnd::Next, _), after, n)) => attempts_from(
                w,
                n,
                after,
                groups,
                i + 1,
                intervals,
            ),
            Some(((GroupEnd::Rescan, _), after, n)) => Some((Some(CycleEnd::Again), after, n)),
            Some(((GroupEnd::Stop, _), after, n)) => Some((Some(CycleEnd::Stop), after, n)),
        }
    }
}

/// One cycle of a lane.
pub open spec fn cycle_at(
    w: Seq<WorkEvent>,
    k: int,
    held: LaneModel,
    intervals: Intervals,
) -> Option<(CycleEnd, LaneModel, int)> {
    match signal_at(w, k) {
        None => None,
        Some((CommandSignal::Stop, n)) => Some((CycleEnd::Stop, held, n)),
        Some((_, n)) => match discover_at(w, n, DiscoveryPhase::Scan) {
            None => None,
            Some((None, m)) => match done_at(w, m, WorkEvent::Logged("discovery_failed"@)) {
                None => None,
                Some(j) => match wait_at(w, j, intervals.poll) {
                    None => None,
                    Some((stopped, l)) => Some((rested(stopped), held, l)),
                },
            },
            Some((Some(targets), m)) => {
                let published = lane::retained(held.published, targets);
                let groups = worker::grouped(targets);
                let kept = LaneModel {
                    cache: held.cache,
                    attempts: worker::active_attempts(held.attempts, groups),
                    published,
                };
                match done_at(w, m, WorkEvent::Shared(published)) {
                    None => None,
                    Some(j) => match attempts_from(w, j, kept, groups, 0, intervals) {
                        None => None,
                        Some((Some(end), after, l)) => Some((end, after, l)),
                        Some((None, after, l)) => match wait_at(w, l, intervals.poll) {
                            None => None,
                            Some((stopped, end)) => Some((rested(stopped), after, end)),
                        },
                    },
                }
            },
        },
    }
}

// ---------------------------------------------------------------------------
// Laws
// ---------------------------------------------------------------------------

/// A conversation whose transcript has not changed keeps its name, and the provider is
/// not asked for another one.
pub proof fn an_unchanged_conversation_keeps_its_name(
    w: Seq<WorkEvent>,
    k: int,
    cache: Seq<CachedModel>,
    thread: Seq<char>,
    transcript: Seq<char>,
    retry: u64,
)
    requires
        cache_place(cache, thread, 0) < cache.len(),
        cache[cache_place(cache, thread, 0)].print == lane::fingerprint(transcript),
    ensures
        named_at(w, k, cache, thread, transcript, retry) == Some(
            (Ok::<Seq<char>, GroupEnd>(cache[cache_place(cache, thread, 0)].name), cache, k),
        ),
{
}

/// Only an attempt that publishes a name changes what is published, and one that is
/// skipped changes nothing at all.
pub proof fn only_publishing_changes_what_is_published(
    w: Seq<WorkEvent>,
    k: int,
    held: LaneModel,
    group: Seq<TargetModel>,
    intervals: Intervals,
)
    ensures
        attempt_at(w, k, held, group, intervals) matches Some((end, after, _)) ==> {
            &&& end.1 != AttemptOutcome::Published ==> after.published == held.published
            &&& end.1 == AttemptOutcome::Skipped ==> after == held
        },
{
}

proof fn showing_keeps_one_name_per_pane(
    names: Seq<PublishedModel>,
    found: Seq<TargetModel>,
    i: int,
    thread: Seq<char>,
    name: Seq<char>,
    now: u64,
)
    requires
        lane::one_name_per_pane(names),
        0 <= i,
    ensures
        lane::one_name_per_pane(published_from(names, found, i, thread, name, now)),
    decreases found.len() - i,
{
    if i < found.len() {
        let one = lane::publication(found[i], thread, name, now);
        lane::publishing_keeps_one_name_per_pane(names, one);
        showing_keeps_one_name_per_pane(
            lane::without_pane(names, found[i].pane_id).push(one),
            found,
            i + 1,
            thread,
            name,
            now,
        );
    }
}

proof fn an_attempt_keeps_one_name_per_pane(
    w: Seq<WorkEvent>,
    k: int,
    held: LaneModel,
    group: Seq<TargetModel>,
    intervals: Intervals,
)
    requires
        lane::one_name_per_pane(held.published),
    ensures
        attempt_at(w, k, held, group, intervals) matches Some((_, after, _))
            ==> lane::one_name_per_pane(after.published),
{
    assert forall|found: Seq<TargetModel>, thread: Seq<char>, name: Seq<char>, now: u64|
        lane::one_name_per_pane(
            #[trigger] published_from(held.published, found, 0, thread, name, now),
        ) by {
        showing_keeps_one_name_per_pane(held.published, found, 0, thread, name, now);
    }
}

proof fn attempts_keep_one_name_per_pane(
    w: Seq<WorkEvent>,
    k: int,
    held: LaneModel,
    groups: Seq<Seq<TargetModel>>,
    i: int,
    intervals: Intervals,
)
    requires
        lane::one_name_per_pane(held.published),
        0 <= i,
    ensures
        attempts_from(w, k, held, groups, i, intervals) matches Some((_, after, _))
            ==> lane::one_name_per_pane(after.published),
    decreases groups.len() - i,
{
    if i < groups.len() {
        an_attempt_keeps_one_name_per_pane(w, k, held, groups[i], intervals);
        if let Some(((GroupEnd::Next, _), after, n)) = attempt_at(
            w,
            k,
            held,
            groups[i],
            intervals,
        ) {
            attempts_keep_one_name_per_pane(w, n, after, groups, i + 1, intervals);
        }
    }
}

/// A lane never has two names published for one pane.
pub proof fn a_cycle_keeps_one_name_per_pane(
    w: Seq<WorkEvent>,
    k: int,
    held: LaneModel,
    intervals: Intervals,
)
    requires
        lane::one_name_per_pane(held.published),
    ensures
        cycle_at(w, k, held, intervals) matches Some((_, after, _)) ==> lane::one_name_per_pane(
            after.published,
        ),
{
    if let Some((_, n)) = signal_at(w, k) {
        if let Some((Some(targets), m)) = discover_at(w, n, DiscoveryPhase::Scan) {
            let groups = worker::grouped(targets);
            let published = lane::retained(held.published, targets);
            let kept = LaneModel {
                cache: held.cache,
                attempts: worker::active_attempts(held.attempts, groups),
                published,
            };
            lane::retaining_keeps_one_name_per_pane(held.published, targets);
            if let Some(j) = done_at(w, m, WorkEvent::Shared(published)) {
                attempts_keep_one_name_per_pane(w, j, kept, groups, 0, intervals);
            }
        }
    }
}

/// An order to stop ends a cycle before anything else is done.
pub proof fn a_stop_order_ends_the_cycle(
    w: Seq<WorkEvent>,
    k: int,
    held: LaneModel,
    intervals: Intervals,
)
    requires
        signal_at(w, k) == Some((CommandSignal::Stop, k + 1)),
    ensures
        cycle_at(w, k, held, intervals) == Some((CycleEnd::Stop, held, k + 1)),
{
}

/// A provider that is lost ends the lane after one cooldown.
pub proof fn a_lost_provider_ends_the_lane(
    w: Seq<WorkEvent>,
    k: int,
    lost: Seq<char>,
    failed: Seq<char>,
    retry: u64,
)
    requires
        failed_at(w, k, lost, failed, retry) is Some,
        healthy_at(w, k) == Some((false, k + 1)),
    ensures
        failed_at(w, k, lost, failed, retry) == Some((GroupEnd::Stop, k + 3)),
        w[k + 2] == WorkEvent::Cooled(retry),
{
}

/// A conversation is not named from a stale reading: where the due pane no longer
/// resolves to the thread that was read, the attempt fails and what is published, kept
/// and noted stays as it was.
pub proof fn a_stale_resolution_publishes_nothing(
    w: Seq<WorkEvent>,
    k: int,
    held: LaneModel,
    group: Seq<TargetModel>,
    due: TargetModel,
    now: u64,
    thread: Seq<char>,
    name: Seq<char>,
    intervals: Intervals,
)
    requires
        resolve_at(w, k, due) matches Some((id, _)) && id != Some(thread),
    ensures
        checked_at(w, k, held, group, due, now, thread, name, intervals) matches Some(
            (end, after, _),
        ) ==> end.1 == AttemptOutcome::Failed && after == held,
{
}

/// A pane that was found shows a thread, or the provider resolved it to that thread at
/// some place of the record.
pub open spec fn shows_or_resolves(
    w: Seq<WorkEvent>,
    from: int,
    to: int,
    t: TargetModel,
    thread: Seq<char>,
) -> bool {
    t.thread_hint == thread || exists|i: int|
        from <= i < to && #[trigger] w[i] == (WorkEvent::Resolve {
            target: t,
            reply: Some(thread),
        })
}

proof fn found_panes_match(
    w: Seq<WorkEvent>,
    from: int,
    k: int,
    current: Seq<TargetModel>,
    i: int,
    thread: Seq<char>,
    found: Seq<TargetModel>,
)
    requires
        0 <= from <= k,
        0 <= i,
        forall|j: int|
            0 <= j < found.len() ==> current.contains(#[trigger] found[j]) && shows_or_resolves(
                w,
                from,
                k,
                found[j],
                thread,
            ),
    ensures
        matching_from(w, k, current, i, thread, found) matches Some((all, n)) ==> {
            &&& k <= n
            &&& forall|j: int|
                0 <= j < all.len() ==> current.contains(#[trigger] all[j]) && shows_or_resolves(
                    w,
                    from,
                    n,
                    all[j],
                    thread,
                )
        },
    decreases current.len() - i,
{
    if i < current.len() {
        let t = current[i];
        assert(current.contains(t));
        let more = found.push(t);
        if t.thread_hint == thread {
            assert forall|j: int| 0 <= j < more.len() implies current.contains(#[trigger] more[j])
                && shows_or_resolves(w, from, k, more[j], thread) by {
                if j < found.len() {
                    assert(more[j] == found[j]);
                }
            }
            found_panes_match(w, from, k, current, i + 1, thread, more);
        } else if let Some((id, n)) = resolve_at(w, k, t) {
            let next = if id == Some(thread) {
                more
            } else {
                found
            };
            assert forall|j: int| 0 <= j < next.len() implies current.contains(#[trigger] next[j])
                && shows_or_resolves(w, from, n, next[j], thread) by {
                if j < found.len() {
                    assert(next[j] == found[j]);
                    assert(shows_or_resolves(w, from, k, found[j], thread));
                } else {
                    assert(w[k] == WorkEvent::Resolve { target: t, reply: Some(thread) });
                }
            }
            found_panes_match(w, from, n, current, i + 1, thread, next);
        }
    }
}

proof fn only_found_panes_are_published(
    names: Seq<PublishedModel>,
    found: Seq<TargetModel>,
    i: int,
    thread: Seq<char>,
    name: Seq<char>,
    now: u64,
    p: PublishedModel,
)
    requires
        0 <= i,
        published_from(names, found, i, thread, name, now).contains(p),
    ensures
        names.contains(p) || exists|j: int|
            0 <= j < found.len() && p == lane::publication(#[trigger] found[j], thread, name, now),
    decreases found.len() - i,
{
    if i < found.len() {
        let kept = lane::without_pane(names, found[i].pane_id);
        let one = lane::publication(found[i], thread, name, now);
        only_found_panes_are_published(kept.push(one), found, i + 1, thread, name, now, p);
        if kept.push(one).contains(p) {
            let j = choose|j: int| 0 <= j < kept.push(one).len() && kept.push(one)[j] == p;
            if j < kept.len() {
                assert(kept.contains(kept[j]));
                lane::kept_names(names, found[i].pane_id);
            } else {
                assert(p == lane::publication(found[i], thread, name, now));
            }
        }
    }
}

/// The grounds of a publication in the record of one attempt: the conversation of a due
/// pane was read and says something; its name came from the provider then, or was kept
/// for the same text of the same thread; the due pane resolved to that thread once more
/// afterwards; the panes were discovered again after that; and the named pane is one of
/// them and shows or resolves to the thread.
pub open spec fn grounds(
    w: Seq<WorkEvent>,
    k: int,
    n: int,
    cache: Seq<CachedModel>,
    p: PublishedModel,
    read: int,
    checked: int,
    seen: int,
    t: TargetModel,
) -> bool {
    &&& k <= read < checked < seen < n
    &&& w[read] matches WorkEvent::Read { target: due, reply: Some((thread, transcript)) }
    &&& target::is_due(due, p.at)
    &&& !scan::is_blank(transcript)
    &&& p == lane::publication(t, thread, p.name, p.at)
    &&& ({
        ||| exists|i: int|
            read < i < checked && #[trigger] w[i] == (WorkEvent::Name {
                thread,
                transcript,
                reply: Some(p.name),
            })
        ||| exists|i: int|
            0 <= i < cache.len() && #[trigger] cache[i] == (CachedModel {
                thread,
                print: lane::fingerprint(transcript),
                name: p.name,
            })
    })
    &&& w[checked] == (WorkEvent::Resolve { target: due, reply: Some(thread) })
    &&& w[seen] matches WorkEvent::Discover {
        phase: DiscoveryPhase::Revalidate,
        reply: Some(current),
    }
    &&& current.contains(t)
    &&& shows_or_resolves(w, seen, n, t, thread)
}

/// No name is published without its grounds: what an attempt leaves published was
/// published before, or has its grounds in the record of this attempt.
pub proof fn every_publication_has_its_grounds(
    w: Seq<WorkEvent>,
    k: int,
    held: LaneModel,
    group: Seq<TargetModel>,
    intervals: Intervals,
    p: PublishedModel,
)
    requires
        0 <= k,
        attempt_at(w, k, held, group, intervals) matches Some((_, after, _))
            && after.published.contains(p) && !held.published.contains(p),
    ensures
        exists|read: int, checked: int, seen: int, t: TargetModel| #[trigger]
            grounds(
                w,
                k,
                (attempt_at(w, k, held, group, intervals)->0).2,
                held.cache,
                p,
                read,
                checked,
                seen,
                t,
            ),
{
    let end = (attempt_at(w, k, held, group, intervals)->0).2;
    let now = (unix_at(w, k + 1)->0).0;
    let d = due_place(group, now, 0);
    due_place_is_due(group, now, 0);
    let due = group[d];
    let read = k + 4;
    let (thread, transcript) = ((read_at(w, read, due)->0).0)->0;
    let named = named_at(w, read + 2, held.cache, thread, transcript, intervals.retry)->0;
    let name = named.0->Ok_0;
    let checked = named.2;
    let seen = checked + 2;
    let current = ((discover_at(w, seen, DiscoveryPhase::Revalidate)->0).0)->0;
    let (found, l) = matching_from(w, seen + 1, current, 0, thread, Seq::empty())->0;
    cache_place_range(held.cache, thread, 0);
    found_panes_match(w, seen, seen + 1, current, 0, thread, Seq::empty());
    only_found_panes_are_published(held.published, found, 0, thread, name, now, p);
    let j = choose|j: int|
        0 <= j < found.len() && p == lane::publication(#[trigger] found[j], thread, name, now);
    let t = found[j];
    let begun = (noted_at(w, k + 3, held.attempts, target::attempt_of(group), intervals.retry)->0).0;
    let noted = (noted_at(w, l + 1, begun, target::attempt_of(group), intervals.refresh)->0).0;
    noted_moves_on(w, l + 2, noted, worker::grouped(found), 0, intervals.refresh);
    if checked == read + 3 {
        assert(w[read + 2] == WorkEvent::Name { thread, transcript, reply: Some(name) });
    } else {
        let c = cache_place(held.cache, thread, 0);
        assert(held.cache[c] == CachedModel {
            thread,
            print: lane::fingerprint(transcript),
            name,
        });
    }
    assert(shows_or_resolves(w, seen, end, t, thread)) by {
        assert(shows_or_resolves(w, seen, l, t, thread));
    }
    assert(grounds(w, k, end, held.cache, p, read, checked, seen, t));
}

proof fn due_place_is_due(group: Seq<TargetModel>, now: u64, i: int)
    requires
        0 <= i,
    ensures
        i <= due_place(group, now, i),
        due_place(group, now, i) < group.len() ==> target::is_due(
            group[due_place(group, now, i)],
            now,
        ),
    decreases group.len() - i,
{
    if i < group.len() && !target::is_due(group[i], now) {
        due_place_is_due(group, now, i + 1);
    }
}

proof fn cache_place_range(cache: Seq<CachedModel>, thread: Seq<char>, i: int)
    requires
        0 <= i,
    ensures
        i <= cache_place(cache, thread, i),
        cache_place(cache, thread, i) < cache.len() ==> cache[cache_place(
            cache,
            thread,
            i,
        )].thread == thread,
    decreases cache.len() - i,
{
    if i < cache.len() && cache[i].thread != thread {
        cache_place_range(cache, thread, i + 1);
    }
}

proof fn noted_moves_on(
    w: Seq<WorkEvent>,
    k: int,
    attempts: Seq<LastModel>,
    groups: Seq<Seq<TargetModel>>,
    i: int,
    cooldown: u64,
)
    ensures
        noted_from(w, k, attempts, groups, i, cooldown) matches Some((_, n)) ==> k <= n,
    decreases groups.len() - i,
{
    if i < groups.len() {
        let noted = noted_at(w, k, attempts, target::attempt_of(groups[i]), cooldown);
        if let Some((after, n)) = noted {
            noted_moves_on(w, n, after, groups, i + 1, cooldown);
        }
    }
}

} // verus!
