//! The cycle of a naming lane: discover, read, name, check again, publish.

use vstd::prelude::*;
use crate::error::MuxError;
use crate::path;
use crate::scan;
use crate::scan::blank;
use crate::smart_naming::conversation::NamingConversation;
use crate::smart_naming::lane;
use crate::smart_naming::lane_port::LanePort;
use crate::smart_naming::lane_replay;
use crate::smart_naming::lane_replay::{CachedModel, LaneModel, WorkEvent};
use crate::smart_naming::lane::{
    attempt_allowed, publish, remember, retain_shown, transcript_fingerprint, CommandSignal,
    ConversationNamer, DiscoveryPhase, LaneHost, LastAttempt, PublishedName,
};
use crate::smart_naming::target;
use crate::smart_naming::target::{
    attempt_identity, naming_is_due, AttemptModel, NamingTarget, TargetModel,
};
use crate::text::text_equal;

verus! {

// ---------------------------------------------------------------------------
// Groups
// ---------------------------------------------------------------------------

/// Two targets show the same thread in the same directory.
pub open spec fn same_group(a: TargetModel, b: TargetModel) -> bool {
    a.thread_hint == b.thread_hint && path::same_path(a.cwd, b.cwd)
}

/// The place of the group that a target belongs to.
pub open spec fn group_place(groups: Seq<Seq<TargetModel>>, t: TargetModel, i: int) -> int
    decreases groups.len() - i,
{
    if i < 0 || i >= groups.len() || same_group(groups[i][0], t) {
        i
    } else {
        group_place(groups, t, i + 1)
    }
}

/// The groups with one more target.
pub open spec fn joined(groups: Seq<Seq<TargetModel>>, t: TargetModel) -> Seq<Seq<TargetModel>> {
    let i = group_place(groups, t, 0);
    if i < groups.len() {
        groups.update(i, groups[i].push(t))
    } else {
        groups.push(seq![t])
    }
}

/// The targets, those of one thread and directory together.
pub open spec fn grouped(targets: Seq<TargetModel>) -> Seq<Seq<TargetModel>>
    decreases targets.len(),
{
    if targets.len() == 0 {
        Seq::empty()
    } else {
        joined(grouped(targets.drop_last()), targets.last())
    }
}

pub open spec fn groups_view(groups: Seq<Vec<NamingTarget>>) -> Seq<Seq<TargetModel>> {
    Seq::new(groups.len(), |i: int| target::targets_view(groups[i]@))
}

proof fn group_place_range(groups: Seq<Seq<TargetModel>>, t: TargetModel, i: int)
    requires
        0 <= i <= groups.len(),
    ensures
        i <= group_place(groups, t, i) <= groups.len(),
        group_place(groups, t, i) < groups.len() ==> same_group(
            groups[group_place(groups, t, i)][0],
            t,
        ),
    decreases groups.len() - i,
{
    if i < groups.len() && !same_group(groups[i][0], t) {
        group_place_range(groups, t, i + 1);
    }
}

/// Every group has targets, all of one thread and directory.
pub open spec fn are_groups(groups: Seq<Seq<TargetModel>>) -> bool {
    forall|i: int|
        0 <= i < groups.len() ==> (#[trigger] groups[i]).len() > 0 && forall|k: int|
            0 <= k < groups[i].len() ==> same_group(groups[i][0], #[trigger] groups[i][k])
}

/// Grouping gives groups.
pub proof fn grouping_gives_groups(targets: Seq<TargetModel>)
    ensures
        are_groups(grouped(targets)),
    decreases targets.len(),
{
    if targets.len() > 0 {
        let before = grouped(targets.drop_last());
        let t = targets.last();
        grouping_gives_groups(targets.drop_last());
        group_place_range(before, t, 0);
        let at = group_place(before, t, 0);
        let after = joined(before, t);
        assert forall|i: int| 0 <= i < after.len() implies (#[trigger] after[i]).len() > 0
            && forall|k: int|
            0 <= k < after[i].len() ==> same_group(after[i][0], #[trigger] after[i][k]) by {
            path::same_path_is_equivalence(t.cwd, t.cwd, t.cwd);
            if i < before.len() {
                assert(before[i].len() > 0);
                assert(after[i][0] == before[i][0]);
                assert forall|k: int| 0 <= k < after[i].len() implies same_group(
                    after[i][0],
                    #[trigger] after[i][k],
                ) by {
                    if k < before[i].len() {
                        assert(same_group(before[i][0], before[i][k]));
                    }
                }
            }
        }
    }
}

/// Groups targets by thread and directory.
pub fn group_targets(targets: &Vec<NamingTarget>) -> (r: Vec<Vec<NamingTarget>>)
    ensures
        groups_view(r@) == grouped(target::targets_view(targets@)),
        forall|i: int| 0 <= i < r@.len() ==> (#[trigger] r@[i])@.len() > 0,
{
    let mut groups: Vec<Vec<NamingTarget>> = Vec::new();
    let ghost all = target::targets_view(targets@);
    let mut i: usize = 0;
    proof {
        assert(all.take(0) =~= Seq::<TargetModel>::empty());
        assert(groups_view(groups@) =~= Seq::<Seq<TargetModel>>::empty());
    }
    while i < targets.len()
        invariant
            i <= targets.len(),
            all == target::targets_view(targets@),
            groups_view(groups@) == grouped(all.take(i as int)),
            forall|k: int| 0 <= k < groups@.len() ==> (#[trigger] groups@[k])@.len() > 0,
        decreases targets.len() - i,
    {
        let ghost before = groups_view(groups@);
        let t = &targets[i];
        let mut j: usize = 0;
        while j < groups.len() && !(text_equal(&groups[j][0].thread_hint, &t.thread_hint)
            && groups[j][0].cwd.same_as(&t.cwd))
            invariant
                j <= groups.len(),
                before == groups_view(groups@),
                forall|k: int| 0 <= k < groups@.len() ==> (#[trigger] groups@[k])@.len() > 0,
                group_place(before, t@, 0) == group_place(before, t@, j as int),
            decreases groups.len() - j,
        {
            assert(before[j as int] == target::targets_view(groups@[j as int]@));
            assert(before[j as int][0] == groups@[j as int]@[0]@);
            j += 1;
        }
        proof {
            assert(all.take(i + 1).drop_last() =~= all.take(i as int));
            assert(all.take(i + 1).last() == t@);
            if j < groups.len() {
                assert(before[j as int] == target::targets_view(groups@[j as int]@));
                assert(before[j as int][0] == groups@[j as int]@[0]@);
            }
        }
        if j < groups.len() {
            let mut members: Vec<NamingTarget> = Vec::new();
            let mut k: usize = 0;
            while k < groups[j].len()
                invariant
                    j < groups.len(),
                    k <= groups@[j as int]@.len(),
                    target::targets_view(members@) =~= before[j as int].take(k as int),
                    before == groups_view(groups@),
                    before[j as int] == target::targets_view(groups@[j as int]@),
                decreases groups@[j as int]@.len() - k,
            {
                members.push(groups[j][k].clone());
                k += 1;
            }
            let ghost old_members = target::targets_view(members@);
            assert(old_members =~= before[j as int]);
            members.push(t.clone());
            proof {
                assert(target::targets_view(members@) =~= old_members.push(t@));
            }
            groups.set(j, members);
            assert(groups_view(groups@) =~= before.update(j as int, before[j as int].push(t@)));
        } else {
            let mut members: Vec<NamingTarget> = Vec::new();
            members.push(t.clone());
            assert(target::targets_view(members@) =~= seq![t@]);
            groups.push(members);
            assert(groups_view(groups@) =~= before.push(seq![t@]));
        }
        i += 1;
    }
    assert(all.take(all.len() as int) =~= all);
    groups
}

// ---------------------------------------------------------------------------
// The lane
// ---------------------------------------------------------------------------

/// A name kept for a thread, with the fingerprint of the transcript it was made from.
#[derive(Debug)]
pub struct CachedName {
    pub thread_id: String,
    pub fingerprint: u64,
    pub name: String,
}

/// How an attempt ended.
#[derive(Clone, Copy, Debug, PartialEq, Eq, Structural)]
pub enum AttemptOutcome {
    /// It was not made.
    Skipped,
    /// It failed, was interrupted, or its evidence changed.
    Failed,
    /// The conversation has no completed text yet.
    Pending,
    /// A name was published.
    Published,
}

/// What follows a group.
#[derive(Clone, Copy, Debug, PartialEq, Eq, Structural)]
pub enum GroupEnd {
    Next,
    /// Discover again at once.
    Rescan,
    Stop,
}

/// What follows a cycle.
#[derive(Clone, Copy, Debug, PartialEq, Eq, Structural)]
pub enum CycleEnd {
    Again,
    Stop,
}

/// The waits of a lane, in milliseconds.
#[derive(Clone, Copy, Debug, PartialEq, Eq, Structural)]
pub struct Intervals {
    pub poll: u64,
    pub refresh: u64,
    pub retry: u64,
    pub pending: u64,
}

/// How long the next attempt waits after an attempt.
pub open spec fn cooldown_after(outcome: AttemptOutcome, intervals: Intervals) -> u64 {
    match outcome {
        AttemptOutcome::Published => intervals.refresh,
        AttemptOutcome::Pending => if intervals.retry < intervals.pending {
            intervals.retry
        } else {
            intervals.pending
        },
        _ => intervals.retry,
    }
}

/// A conversation that is not ready is never read later than a failed one would be.
pub proof fn pending_waits_no_longer_than_failure(intervals: Intervals)
    ensures
        cooldown_after(AttemptOutcome::Pending, intervals) <= cooldown_after(
            AttemptOutcome::Failed,
            intervals,
        ),
{
}

/// One serial naming lane.
pub struct NamingLane<N, H> {
    /// The provider and the host, with what was asked and answered, and what was done.
    pub port: LanePort<N, H>,
    pub intervals: Intervals,
    pub cache: Vec<CachedName>,
    pub attempts: Vec<LastAttempt>,
    pub published: Vec<PublishedName>,
}

/// The names that are kept, as values.
pub open spec fn cache_view(cache: Seq<CachedName>) -> Seq<CachedModel> {
    Seq::new(
        cache.len(),
        |i: int|
            CachedModel {
                thread: cache[i].thread_id@,
                print: cache[i].fingerprint,
                name: cache[i].name@,
            },
    )
}

/// What a provider read, as values.
pub open spec fn conversation_view(r: Result<NamingConversation, MuxError>) -> Option<
    (Seq<char>, Seq<char>),
> {
    match r {
        Ok(conversation) => Some((conversation.thread_id@, conversation.transcript@)),
        Err(_) => None,
    }
}

pub open spec fn reply_view(r: Result<String, MuxError>) -> Option<Seq<char>> {
    match r {
        Ok(t) => Some(t@),
        Err(_) => None,
    }
}

pub open spec fn discovered_view(r: Result<Vec<NamingTarget>, MuxError>) -> Option<
    Seq<TargetModel>,
> {
    match r {
        Ok(targets) => Some(target::targets_view(targets@)),
        Err(_) => None,
    }
}

/// The name of a conversation, or what follows where there is none.
pub open spec fn name_outcome(r: Result<String, GroupEnd>) -> Result<Seq<char>, GroupEnd> {
    match r {
        Ok(name) => Ok(name@),
        Err(end) => Err(end),
    }
}

impl<N: ConversationNamer, H: LaneHost> NamingLane<N, H> {
    /// What this lane holds.
    pub open spec fn model(&self) -> LaneModel {
        LaneModel {
            cache: cache_view(self.cache@),
            attempts: lane::last_view(self.attempts@),
            published: lane::names_view(self.published@),
        }
    }

    pub fn new(namer: N, host: H, intervals: Intervals) -> (r: Self)
        ensures
            r.port.namer_model() == namer,
            r.port.host_model() == host,
            r.intervals == intervals,
            r.published@.len() == 0,
            r.attempts@.len() == 0,
            r.model() == (LaneModel {
                cache: Seq::empty(),
                attempts: Seq::empty(),
                published: Seq::empty(),
            }),
            r.port.events() == Seq::<WorkEvent>::empty(),
    {
        NamingLane {
            port: LanePort::new(namer, host),
            intervals,
            cache: Vec::new(),
            attempts: Vec::new(),
            published: Vec::new(),
        }
    }

    /// The order that waits.
    fn signal(&mut self) -> (r: CommandSignal)
        ensures
            final(self).intervals == old(self).intervals,
            final(self).cache == old(self).cache,
            final(self).attempts == old(self).attempts,
            final(self).published == old(self).published,
            lane_replay::agrees(final(self).port.events(), old(self).port.events()),
            forall|w: Seq<WorkEvent>|
                lane_replay::agrees(w, final(self).port.events()) ==> #[trigger] lane_replay::signal_at(
                    w,
                    old(self).port.events().len() as int,
                ) == Some((r, final(self).port.events().len() as int)),
    {
        self.port.signal()
    }

    /// The time.
    fn unix_seconds(&mut self) -> (r: u64)
        ensures
            final(self).intervals == old(self).intervals,
            final(self).cache == old(self).cache,
            final(self).attempts == old(self).attempts,
            final(self).published == old(self).published,
            lane_replay::agrees(final(self).port.events(), old(self).port.events()),
            forall|w: Seq<WorkEvent>|
                lane_replay::agrees(w, final(self).port.events()) ==> #[trigger] lane_replay::unix_at(
                    w,
                    old(self).port.events().len() as int,
                ) == Some((r, final(self).port.events().len() as int)),
    {
        self.port.unix_seconds()
    }

    /// The time of a clock that never goes back.
    fn millis(&mut self) -> (r: u64)
        ensures
            final(self).intervals == old(self).intervals,
            final(self).cache == old(self).cache,
            final(self).attempts == old(self).attempts,
            final(self).published == old(self).published,
            lane_replay::agrees(final(self).port.events(), old(self).port.events()),
            forall|w: Seq<WorkEvent>|
                lane_replay::agrees(w, final(self).port.events()) ==> #[trigger] lane_replay::millis_at(
                    w,
                    old(self).port.events().len() as int,
                ) == Some((r, final(self).port.events().len() as int)),
    {
        self.port.millis()
    }

    /// What a conversation says.
    fn read(&mut self, t: &NamingTarget) -> (r: Result<NamingConversation, MuxError>)
        ensures
            final(self).intervals == old(self).intervals,
            final(self).cache == old(self).cache,
            final(self).attempts == old(self).attempts,
            final(self).published == old(self).published,
            lane_replay::agrees(final(self).port.events(), old(self).port.events()),
            forall|w: Seq<WorkEvent>|
                lane_replay::agrees(w, final(self).port.events()) ==> #[trigger] lane_replay::read_at(
                    w,
                    old(self).port.events().len() as int,
                    t@,
                ) == Some((conversation_view(r), final(self).port.events().len() as int)),
    {
        self.port.read(t)
    }

    /// A new name for a conversation.
    fn ask_name(&mut self, conversation: &NamingConversation) -> (r: Result<String, MuxError>)
        ensures
            final(self).intervals == old(self).intervals,
            final(self).cache == old(self).cache,
            final(self).attempts == old(self).attempts,
            final(self).published == old(self).published,
            lane_replay::agrees(final(self).port.events(), old(self).port.events()),
            forall|w: Seq<WorkEvent>|
                lane_replay::agrees(w, final(self).port.events()) ==> #[trigger] lane_replay::name_at(
                    w,
                    old(self).port.events().len() as int,
                    conversation.thread_id@,
                    conversation.transcript@,
                ) == Some((reply_view(r), final(self).port.events().len() as int)),
    {
        self.port.name(conversation)
    }

    /// The thread of a target.
    fn resolve(&mut self, t: &NamingTarget) -> (r: Result<String, MuxError>)
        ensures
            final(self).intervals == old(self).intervals,
            final(self).cache == old(self).cache,
            final(self).attempts == old(self).attempts,
            final(self).published == old(self).published,
            lane_replay::agrees(final(self).port.events(), old(self).port.events()),
            forall|w: Seq<WorkEvent>|
                lane_replay::agrees(w, final(self).port.events()) ==> #[trigger] lane_replay::resolve_at(
                    w,
                    old(self).port.events().len() as int,
                    t@,
                ) == Some((reply_view(r), final(self).port.events().len() as int)),
    {
        self.port.resolve(t)
    }

    /// Whether the provider can serve another request.
    fn is_healthy(&mut self) -> (r: bool)
        ensures
            final(self).intervals == old(self).intervals,
            final(self).cache == old(self).cache,
            final(self).attempts == old(self).attempts,
            final(self).published == old(self).published,
            lane_replay::agrees(final(self).port.events(), old(self).port.events()),
            forall|w: Seq<WorkEvent>|
                lane_replay::agrees(w, final(self).port.events()) ==> #[trigger] lane_replay::healthy_at(
                    w,
                    old(self).port.events().len() as int,
                ) == Some((r, final(self).port.events().len() as int)),
    {
        self.port.is_healthy()
    }

    /// The panes that can be named.
    fn discover(&mut self, phase: DiscoveryPhase) -> (r: Result<Vec<NamingTarget>, MuxError>)
        ensures
            final(self).intervals == old(self).intervals,
            final(self).cache == old(self).cache,
            final(self).attempts == old(self).attempts,
            final(self).published == old(self).published,
            lane_replay::agrees(final(self).port.events(), old(self).port.events()),
            forall|w: Seq<WorkEvent>|
                lane_replay::agrees(w, final(self).port.events()) ==> #[trigger] lane_replay::discover_at(
                    w,
                    old(self).port.events().len() as int,
                    phase,
                ) == Some((discovered_view(r), final(self).port.events().len() as int)),
    {
        self.port.discover(phase)
    }

    /// Waits for a command.
    fn wait(&mut self, span: u64) -> (r: bool)
        ensures
            final(self).intervals == old(self).intervals,
            final(self).cache == old(self).cache,
            final(self).attempts == old(self).attempts,
            final(self).published == old(self).published,
            lane_replay::agrees(final(self).port.events(), old(self).port.events()),
            forall|w: Seq<WorkEvent>|
                lane_replay::agrees(w, final(self).port.events()) ==> #[trigger] lane_replay::wait_at(
                    w,
                    old(self).port.events().len() as int,
                    span,
                ) == Some((r, final(self).port.events().len() as int)),
    {
        self.port.wait(span)
    }

    /// Logs a reason code.
    fn say(&mut self, code: &'static str)
        ensures
            final(self).intervals == old(self).intervals,
            final(self).cache == old(self).cache,
            final(self).attempts == old(self).attempts,
            final(self).published == old(self).published,
            final(self).port.events() == old(self).port.events().push(WorkEvent::Logged(code@)),
    {
        self.port.log(code);
    }

    /// Waits for the order to stop.
    fn cool_down(&mut self, span: u64)
        ensures
            final(self).intervals == old(self).intervals,
            final(self).cache == old(self).cache,
            final(self).attempts == old(self).attempts,
            final(self).published == old(self).published,
            final(self).port.events() == old(self).port.events().push(WorkEvent::Cooled(span)),
    {
        self.port.cool_down(span);
    }

    /// Shares the published names.
    fn share(&mut self)
        ensures
            final(self).intervals == old(self).intervals,
            final(self).cache == old(self).cache,
            final(self).attempts == old(self).attempts,
            final(self).published == old(self).published,
            final(self).port.events() == old(self).port.events().push(WorkEvent::Shared(lane::names_view(old(self).published@))),
    {
        self.port.share(&self.published);
    }

    /// The order that waits, where there is one.
    fn interrupted(&mut self) -> (r: GroupEnd)
        ensures
            final(self).intervals == old(self).intervals,
            final(self).cache == old(self).cache,
            final(self).attempts == old(self).attempts,
            final(self).published == old(self).published,
            lane_replay::agrees(final(self).port.events(), old(self).port.events()),
            forall|w: Seq<WorkEvent>|
                lane_replay::agrees(w, final(self).port.events()) ==> #[trigger] lane_replay::interrupted_at(
                    w,
                    old(self).port.events().len() as int,
                ) == Some((r, final(self).port.events().len() as int)),
    {
        match self.signal() {
            CommandSignal::Stop => GroupEnd::Stop,
            CommandSignal::Wake => GroupEnd::Rescan,
            CommandSignal::Quiet => GroupEnd::Next,
        }
    }

    /// A failed request: a provider that is lost ends the lane after one cooldown.
    fn failed(&mut self, lost: &'static str, failed: &'static str) -> (r: GroupEnd)
        ensures
            r != GroupEnd::Rescan,
            final(self).intervals == old(self).intervals,
            final(self).cache == old(self).cache,
            final(self).attempts == old(self).attempts,
            final(self).published == old(self).published,
            lane_replay::agrees(final(self).port.events(), old(self).port.events()),
            forall|w: Seq<WorkEvent>|
                lane_replay::agrees(w, final(self).port.events()) ==> #[trigger] lane_replay::failed_at(
                    w,
                    old(self).port.events().len() as int,
                    lost@,
                    failed@,
                    old(self).intervals.retry,
                ) == Some((r, final(self).port.events().len() as int)),
    {
        if !self.is_healthy() {
            self.say(lost);
            let retry: u64 = self.intervals.retry;
            self.cool_down(retry);
            return GroupEnd::Stop;
        }
        self.say(failed);
        GroupEnd::Next
    }

    /// The name of a conversation: the kept one where the transcript has not changed,
    /// else a new one.
    fn name_for(&mut self, conversation: &NamingConversation) -> (r: Result<String, GroupEnd>)
        ensures
            final(self).intervals == old(self).intervals,
            final(self).attempts == old(self).attempts,
            final(self).published == old(self).published,
            r matches Err(end) ==> end != GroupEnd::Rescan,
            lane_replay::agrees(final(self).port.events(), old(self).port.events()),
            forall|w: Seq<WorkEvent>|
                lane_replay::agrees(w, final(self).port.events()) ==> #[trigger] lane_replay::named_at(
                    w,
                    old(self).port.events().len() as int,
                    cache_view(old(self).cache@),
                    conversation.thread_id@,
                    conversation.transcript@,
                    old(self).intervals.retry,
                ) == Some(
                    (
                        name_outcome(r),
                        cache_view(final(self).cache@),
                        final(self).port.events().len() as int,
                    ),
                ),
    {
        let ghost cached = cache_view(self.cache@);
        let print: u64 = transcript_fingerprint(&conversation.transcript);
        let mut i: usize = 0;
        while i < self.cache.len() && !text_equal(&self.cache[i].thread_id, &conversation.thread_id)
            invariant
                i <= self.cache.len(),
                cached == cache_view(self.cache@),
                lane_replay::cache_place(cached, conversation.thread_id@, 0)
                    == lane_replay::cache_place(cached, conversation.thread_id@, i as int),
            decreases self.cache.len() - i,
        {
            assert(cached[i as int].thread == self.cache@[i as int].thread_id@);
            i += 1;
        }
        proof {
            if i < self.cache.len() {
                assert(cached[i as int].thread == self.cache@[i as int].thread_id@);
            }
        }
        if i < self.cache.len() && self.cache[i].fingerprint == print {
            return Ok(self.cache[i].name.clone());
        }
        match self.ask_name(conversation) {
            Err(_) => Err(self.failed("naming_provider_unhealthy", "naming_failed")),
            Ok(name) => {
                let kept = CachedName {
                    thread_id: conversation.thread_id.clone(),
                    fingerprint: print,
                    name: name.clone(),
                };
                let ghost view = CachedModel {
                    thread: conversation.thread_id@,
                    print,
                    name: name@,
                };
                if i < self.cache.len() {
                    self.cache.set(i, kept);
                    assert(cache_view(self.cache@) =~= cached.update(i as int, view));
                } else {
                    self.cache.push(kept);
                    assert(cache_view(self.cache@) =~= cached.push(view));
                }
                Ok(name)
            },
        }
    }

    /// The discovered targets that show or resolve to a thread.
    fn matching(
        &mut self,
        current: &Vec<NamingTarget>,
        thread_id: &str,
    ) -> (r: Vec<NamingTarget>)
        ensures
            final(self).intervals == old(self).intervals,
            final(self).attempts == old(self).attempts,
            final(self).published == old(self).published,
            forall|i: int|
                0 <= i < r@.len() ==> target::targets_view(current@).contains(
                    (#[trigger] r@[i])@,
                ),
            forall|i: int|
                0 <= i < current@.len() && (#[trigger] current@[i])@.thread_hint == thread_id@
                    ==> target::targets_view(r@).contains(current@[i]@),
            final(self).cache == old(self).cache,
            lane_replay::agrees(final(self).port.events(), old(self).port.events()),
            forall|w: Seq<WorkEvent>|
                lane_replay::agrees(w, final(self).port.events()) ==> #[trigger] lane_replay::matching_from(
                    w,
                    old(self).port.events().len() as int,
                    target::targets_view(current@),
                    0,
                    thread_id@,
                    Seq::empty(),
                ) == Some((target::targets_view(r@), final(self).port.events().len() as int)),
    {
        let ghost all = target::targets_view(current@);
        let mut found: Vec<NamingTarget> = Vec::new();
        assert(target::targets_view(found@) =~= Seq::empty());
        let mut i: usize = 0;
        while i < current.len()
            invariant
                i <= current.len(),
                all == target::targets_view(current@),
                self.cache == old(self).cache,
                lane_replay::agrees(self.port.events(), old(self).port.events()),
                forall|w: Seq<WorkEvent>|
                    lane_replay::agrees(w, self.port.events()) ==> #[trigger] lane_replay::matching_from(
                        w,
                        old(self).port.events().len() as int,
                        all,
                        0,
                        thread_id@,
                        Seq::empty(),
                    ) == lane_replay::matching_from(
                        w,
                        self.port.events().len() as int,
                        all,
                        i as int,
                        thread_id@,
                        target::targets_view(found@),
                    ),
                self.intervals == old(self).intervals,
                self.attempts == old(self).attempts,
                self.published == old(self).published,
                forall|k: int|
                    0 <= k < found@.len() ==> all.contains((#[trigger] found@[k])@),
                forall|k: int|
                    0 <= k < i && (#[trigger] current@[k])@.thread_hint == thread_id@
                        ==> target::targets_view(found@).contains(current@[k]@),
            decreases current.len() - i,
        {
            let t = &current[i];
            assert(all[i as int] == t@);
            assert(all.contains(t@));
            let shown = text_equal(&t.thread_hint, thread_id);
            let matches = if shown {
                true
            } else {
                match self.resolve(t) {
                    Ok(id) => text_equal(&id, thread_id),
                    Err(_) => false,
                }
            };
            if matches {
                let ghost before = target::targets_view(found@);
                found.push(t.clone());
                proof {
                    let after = target::targets_view(found@);
                    assert(after =~= before.push(t@));
                    assert(after[before.len() as int] == t@);
                    assert forall|x: TargetModel| before.contains(x) implies #[trigger] after.contains(
                        x,
                    ) by {
                        let k = choose|k: int| 0 <= k < before.len() && before[k] == x;
                        assert(after[k] == x);
                    }
                }
            }
            i += 1;
        }
        found
    }

    /// Publishes a name for every target of a list.
    fn publish_all(
        &mut self,
        found: &Vec<NamingTarget>,
        thread_id: &str,
        name: &str,
        now: u64,
    )
        ensures
            final(self).intervals == old(self).intervals,
            final(self).attempts == old(self).attempts,
            final(self).cache == old(self).cache,
            final(self).port == old(self).port,
            lane::names_view(final(self).published@) == lane_replay::published_from(
                lane::names_view(old(self).published@),
                target::targets_view(found@),
                0,
                thread_id@,
                name@,
                now,
            ),
    {
        let mut i: usize = 0;
        while i < found.len()
            invariant
                i <= found.len(),
                self.intervals == old(self).intervals,
                self.attempts == old(self).attempts,
                self.cache == old(self).cache,
                self.port == old(self).port,
                lane_replay::published_from(
                    lane::names_view(old(self).published@),
                    target::targets_view(found@),
                    0,
                    thread_id@,
                    name@,
                    now,
                ) == lane_replay::published_from(
                    lane::names_view(self.published@),
                    target::targets_view(found@),
                    i as int,
                    thread_id@,
                    name@,
                    now,
                ),
            decreases found.len() - i,
        {
            assert(target::targets_view(found@)[i as int] == found@[i as int]@);
            publish(&mut self.published, &found[i], thread_id, name, now);
            i += 1;
        }
    }

    /// Notes when an attempt was made and how long the next one waits.
    fn wait_after(&mut self, group: &Vec<NamingTarget>, cooldown: u64)
        requires
            group@.len() > 0,
        ensures
            final(self).intervals == old(self).intervals,
            final(self).published == old(self).published,
            waits(
                lane::last_view(final(self).attempts@),
                target::attempt_of(target::targets_view(group@)),
                cooldown,
            ),
            forall|other: AttemptModel, c: u64|
                !target::same_attempt(
                    other,
                    target::attempt_of(target::targets_view(group@)),
                ) && waits(lane::last_view(old(self).attempts@), other, c) ==> #[trigger] waits(
                    lane::last_view(final(self).attempts@),
                    other,
                    c,
                ),
            final(self).cache == old(self).cache,
            lane_replay::agrees(final(self).port.events(), old(self).port.events()),
            forall|w: Seq<WorkEvent>|
                lane_replay::agrees(w, final(self).port.events()) ==> #[trigger] lane_replay::noted_at(
                    w,
                    old(self).port.events().len() as int,
                    lane::last_view(old(self).attempts@),
                    target::attempt_of(target::targets_view(group@)),
                    cooldown,
                ) == Some((lane::last_view(final(self).attempts@), final(self).port.events().len() as int)),
    {
        let at: u64 = self.millis();
        remember(&mut self.attempts, attempt_identity(group), at, cooldown);
    }

    /// Notes the attempts of some groups.
    fn wait_after_all(
        &mut self,
        groups: &Vec<Vec<NamingTarget>>,
        cooldown: u64,
        Ghost(key): Ghost<AttemptModel>,
    )
        requires
            forall|k: int| 0 <= k < groups@.len() ==> (#[trigger] groups@[k])@.len() > 0,
            waits(lane::last_view(old(self).attempts@), key, cooldown),
        ensures
            final(self).intervals == old(self).intervals,
            final(self).cache == old(self).cache,
            final(self).published == old(self).published,
            waits(lane::last_view(final(self).attempts@), key, cooldown),
            lane_replay::agrees(final(self).port.events(), old(self).port.events()),
            forall|w: Seq<WorkEvent>|
                lane_replay::agrees(w, final(self).port.events()) ==> #[trigger] lane_replay::noted_from(
                    w,
                    old(self).port.events().len() as int,
                    lane::last_view(old(self).attempts@),
                    groups_view(groups@),
                    0,
                    cooldown,
                ) == Some((lane::last_view(final(self).attempts@), final(self).port.events().len() as int)),
    {
        let ghost all = groups_view(groups@);
        let mut i: usize = 0;
        while i < groups.len()
            invariant
                i <= groups.len(),
                all == groups_view(groups@),
                self.intervals == old(self).intervals,
                self.cache == old(self).cache,
                self.published == old(self).published,
                lane_replay::agrees(self.port.events(), old(self).port.events()),
                waits(lane::last_view(self.attempts@), key, cooldown),
                forall|w: Seq<WorkEvent>|
                    lane_replay::agrees(w, self.port.events()) ==> #[trigger] lane_replay::noted_from(
                        w,
                        old(self).port.events().len() as int,
                        lane::last_view(old(self).attempts@),
                        all,
                        0,
                        cooldown,
                    ) == lane_replay::noted_from(
                        w,
                        self.port.events().len() as int,
                        lane::last_view(self.attempts@),
                        all,
                        i as int,
                        cooldown,
                    ),
            decreases groups.len() - i,
        {
            let ghost other = target::attempt_of(target::targets_view(groups@[i as int]@));
            assert(all[i as int] == target::targets_view(groups@[i as int]@));
            self.wait_after(&groups[i], cooldown);
            proof {
                if target::same_attempt(key, other) {
                    lane::same_attempts_wait_alike(
                        lane::last_view(self.attempts@),
                        key,
                        other,
                    );
                }
            }
            i += 1;
        }
    }

    /// The end of an attempt whose conversation has a name: the evidence is checked
    /// again, and the name is published for every pane that still shows the thread.
    #[verifier::spinoff_prover]
    #[verifier::rlimit(60)]
    fn check_and_publish(
        &mut self,
        group: &Vec<NamingTarget>,
        due: &NamingTarget,
        now: u64,
        conversation: &NamingConversation,
        name: &str,
    ) -> (r: (GroupEnd, AttemptOutcome))
        requires
            group@.len() > 0,
            !scan::is_blank(conversation.transcript@),
        ensures
            final(self).intervals == old(self).intervals,
            r.1 == AttemptOutcome::Failed ==> final(self).attempts == old(self).attempts,
            r.1 == AttemptOutcome::Failed || r.1 == AttemptOutcome::Published,
            r.1 == AttemptOutcome::Published ==> r.0 == GroupEnd::Next && waits(
                lane::last_view(final(self).attempts@),
                target::attempt_of(target::targets_view(group@)),
                old(self).intervals.refresh,
            ),
            r.1 != AttemptOutcome::Published ==> final(self).published == old(self).published,
            lane_replay::agrees(final(self).port.events(), old(self).port.events()),
            forall|w: Seq<WorkEvent>|
                lane_replay::agrees(w, final(self).port.events()) ==> #[trigger] lane_replay::checked_at(
                    w,
                    old(self).port.events().len() as int,
                    old(self).model(),
                    target::targets_view(group@),
                    due@,
                    now,
                    conversation.thread_id@,
                    name@,
                    old(self).intervals,
                ) == Some((r, final(self).model(), final(self).port.events().len() as int)),
    {
        match self.resolve(due) {
            Ok(id) => {
                if !text_equal(&id, &conversation.thread_id) {
                    self.say("identity_changed");
                    return (GroupEnd::Next, AttemptOutcome::Failed);
                }
            },
            Err(_) => {
                return (
                    self.failed("resolve_provider_unhealthy", "resolve_failed"),
                    AttemptOutcome::Failed,
                );
            },
        }
        match self.interrupted() {
            GroupEnd::Next => {},
            end => return (end, AttemptOutcome::Failed),
        }
        let current = match self.discover(DiscoveryPhase::Revalidate) {
            Ok(current) => current,
            Err(_) => return (GroupEnd::Next, AttemptOutcome::Failed),
        };
        let found = self.matching(&current, &conversation.thread_id);
        assert(target::targets_view(found@).len() == found@.len());
        if found.len() == 0 {
            return (GroupEnd::Next, AttemptOutcome::Failed);
        }
        self.publish_all(&found, &conversation.thread_id, name, now);
        self.say("name_published");
        let refresh: u64 = self.intervals.refresh;
        self.wait_after(group, refresh);
        let groups = group_targets(&found);
        let ghost key = target::attempt_of(target::targets_view(group@));
        self.wait_after_all(&groups, refresh, Ghost(key));
        self.share();
        (GroupEnd::Next, AttemptOutcome::Published)
    }

    /// An attempt for a due target, once it is allowed.
    #[verifier::spinoff_prover]
    #[verifier::rlimit(60)]
    fn begin(&mut self, group: &Vec<NamingTarget>, due: &NamingTarget, now: u64) -> (r: (
        GroupEnd,
        AttemptOutcome,
    ))
        requires
            group@.len() > 0,
        ensures
            final(self).intervals == old(self).intervals,
            r.1 != AttemptOutcome::Skipped,
            waits(
                lane::last_view(final(self).attempts@),
                target::attempt_of(target::targets_view(group@)),
                cooldown_after(r.1, old(self).intervals),
            ),
            r.1 != AttemptOutcome::Published ==> final(self).published == old(self).published,
            r.1 == AttemptOutcome::Published ==> r.0 == GroupEnd::Next,
            lane_replay::agrees(final(self).port.events(), old(self).port.events()),
            forall|w: Seq<WorkEvent>|
                lane_replay::agrees(w, final(self).port.events()) ==> #[trigger] lane_replay::begun_at(
                    w,
                    old(self).port.events().len() as int,
                    old(self).model(),
                    target::targets_view(group@),
                    due@,
                    now,
                    old(self).intervals,
                ) == Some((r, final(self).model(), final(self).port.events().len() as int)),
    {
        let retry: u64 = self.intervals.retry;
        self.wait_after(group, retry);
        let conversation = match self.read(due) {
            Ok(conversation) => conversation,
            Err(_) => {
                return (
                    self.failed("read_provider_unhealthy", "read_failed"),
                    AttemptOutcome::Failed,
                );
            },
        };
        if blank(&conversation.transcript) {
            self.say("conversation_pending");
            let pending: u64 = self.intervals.pending;
            let wait: u64 = if retry < pending {
                retry
            } else {
                pending
            };
            self.wait_after(group, wait);
            return (GroupEnd::Next, AttemptOutcome::Pending);
        }
        match self.interrupted() {
            GroupEnd::Next => {},
            end => return (end, AttemptOutcome::Failed),
        }
        let name = match self.name_for(&conversation) {
            Ok(name) => name,
            Err(end) => return (end, AttemptOutcome::Failed),
        };
        self.check_and_publish(group, due, now, &conversation, &name)
    }

    /// Tries to name the conversation that a group of targets shows.
    pub fn attempt(&mut self, group: &Vec<NamingTarget>) -> (r: (GroupEnd, AttemptOutcome))
        requires
            group@.len() > 0,
        ensures
            final(self).intervals == old(self).intervals,
            lane_replay::agrees(final(self).port.events(), old(self).port.events()),
            forall|w: Seq<WorkEvent>|
                lane_replay::agrees(w, final(self).port.events()) ==> #[trigger] lane_replay::attempt_at(
                    w,
                    old(self).port.events().len() as int,
                    old(self).model(),
                    target::targets_view(group@),
                    old(self).intervals,
                ) == Some((r, final(self).model(), final(self).port.events().len() as int)),
            r.1 == AttemptOutcome::Skipped ==> final(self).attempts == old(self).attempts
                && final(self).published == old(self).published,
            r.1 != AttemptOutcome::Skipped ==> waits(
                lane::last_view(final(self).attempts@),
                target::attempt_of(target::targets_view(group@)),
                cooldown_after(r.1, old(self).intervals),
            ),
            r.1 != AttemptOutcome::Published ==> final(self).published == old(self).published,
            r.1 == AttemptOutcome::Published ==> r.0 == GroupEnd::Next,
    {
        match self.interrupted() {
            GroupEnd::Next => {},
            end => return (end, AttemptOutcome::Skipped),
        }
        let ghost key = target::attempt_of(target::targets_view(group@));
        let ghost all = target::targets_view(group@);
        let now: u64 = self.unix_seconds();
        let mut d: usize = 0;
        while d < group.len() && !naming_is_due(&group[d], now)
            invariant
                d <= group.len(),
                all == target::targets_view(group@),
                lane_replay::due_place(all, now, 0) == lane_replay::due_place(all, now, d as int),
            decreases group.len() - d,
        {
            assert(all[d as int] == group@[d as int]@);
            d += 1;
        }
        if d >= group.len() {
            return (GroupEnd::Next, AttemptOutcome::Skipped);
        }
        let due = &group[d];
        assert(all[d as int] == due@);
        let at: u64 = self.millis();
        if !attempt_allowed(&self.attempts, &attempt_identity(group), at) {
            return (GroupEnd::Next, AttemptOutcome::Skipped);
        }
        self.begin(group, due, now)
    }

    /// One cycle of the lane.
    pub fn cycle(&mut self) -> (r: CycleEnd)
        ensures
            final(self).intervals == old(self).intervals,
            lane_replay::agrees(final(self).port.events(), old(self).port.events()),
            forall|w: Seq<WorkEvent>|
                lane_replay::agrees(w, final(self).port.events()) ==> #[trigger] lane_replay::cycle_at(
                    w,
                    old(self).port.events().len() as int,
                    old(self).model(),
                    old(self).intervals,
                ) == Some((r, final(self).model(), final(self).port.events().len() as int)),
    {
        match self.signal() {
            CommandSignal::Stop => return CycleEnd::Stop,
            _ => {},
        }
        let poll: u64 = self.intervals.poll;
        let targets = match self.discover(DiscoveryPhase::Scan) {
            Ok(targets) => targets,
            Err(_) => {
                self.say("discovery_failed");
                if self.wait(poll) {
                    return CycleEnd::Stop;
                }
                return CycleEnd::Again;
            },
        };
        retain_shown(&mut self.published, &targets);
        self.share();
        let groups = group_targets(&targets);
        retain_attempts(&mut self.attempts, &groups);
        let ghost all = groups_view(groups@);
        let ghost here = self.port.events();
        let ghost kept = self.model();
        let mut i: usize = 0;
        while i < groups.len()
            invariant
                i <= groups.len(),
                all == groups_view(groups@),
                self.intervals == old(self).intervals,
                lane_replay::agrees(self.port.events(), old(self).port.events()),
                lane_replay::agrees(self.port.events(), here),
                forall|w: Seq<WorkEvent>|
                    lane_replay::agrees(w, self.port.events()) ==> #[trigger] lane_replay::attempts_from(
                        w,
                        here.len() as int,
                        kept,
                        all,
                        0,
                        old(self).intervals,
                    ) == lane_replay::attempts_from(
                        w,
                        self.port.events().len() as int,
                        self.model(),
                        all,
                        i as int,
                        old(self).intervals,
                    ),
                forall|k: int| 0 <= k < groups@.len() ==> (#[trigger] groups@[k])@.len() > 0,
            decreases groups.len() - i,
        {
            assert(all[i as int] == target::targets_view(groups@[i as int]@));
            match self.attempt(&groups[i]).0 {
                GroupEnd::Next => {},
                GroupEnd::Rescan => return CycleEnd::Again,
                GroupEnd::Stop => return CycleEnd::Stop,
            }
            i += 1;
        }
        if self.wait(poll) {
            CycleEnd::Stop
        } else {
            CycleEnd::Again
        }
    }
}

/// The next attempt of a kind waits this long after the last one.
pub open spec fn waits(list: Seq<lane::LastModel>, key: AttemptModel, cooldown: u64) -> bool {
    lane::last_attempt(list, key) matches Some((_, wait)) && wait == cooldown
}

/// An attempt that one of the groups would make.
pub open spec fn is_active(groups: Seq<Seq<TargetModel>>, key: AttemptModel) -> bool {
    exists|i: int|
        0 <= i < groups.len() && target::same_attempt(target::attempt_of(#[trigger] groups[i]), key)
}

/// The attempts that one of the groups would make again.
pub open spec fn active_attempts(
    list: Seq<lane::LastModel>,
    groups: Seq<Seq<TargetModel>>,
) -> Seq<lane::LastModel>
    decreases list.len(),
{
    if list.len() == 0 {
        Seq::empty()
    } else {
        let before = active_attempts(list.drop_last(), groups);
        if is_active(groups, list.last().identity) {
            before.push(list.last())
        } else {
            before
        }
    }
}

fn attempt_is_active(groups: &Vec<Vec<NamingTarget>>, last: &LastAttempt) -> (r: bool)
    requires
        forall|i: int| 0 <= i < groups@.len() ==> (#[trigger] groups@[i])@.len() > 0,
    ensures
        r == is_active(groups_view(groups@), last.identity@),
{
    let ghost all = groups_view(groups@);
    let mut i: usize = 0;
    while i < groups.len()
        invariant
            i <= groups.len(),
            all == groups_view(groups@),
            forall|k: int| 0 <= k < groups@.len() ==> (#[trigger] groups@[k])@.len() > 0,
            forall|k: int|
                0 <= k < i ==> !target::same_attempt(
                    target::attempt_of(#[trigger] all[k]),
                    last.identity@,
                ),
        decreases groups.len() - i,
    {
        assert(all[i as int] == target::targets_view(groups@[i as int]@));
        if attempt_identity(&groups[i]).same_as(&last.identity) {
            return true;
        }
        i += 1;
    }
    false
}

/// Forgets the attempts that no group would make again.
pub fn retain_attempts(list: &mut Vec<LastAttempt>, groups: &Vec<Vec<NamingTarget>>)
    requires
        forall|i: int| 0 <= i < groups@.len() ==> (#[trigger] groups@[i])@.len() > 0,
    ensures
        lane::last_view(final(list)@) == active_attempts(
            lane::last_view(old(list)@),
            groups_view(groups@),
        ),
    decreases old(list)@.len(),
{
    let ghost before = lane::last_view(list@);
    match list.pop() {
        None => {
            assert(lane::last_view(list@) =~= Seq::<lane::LastModel>::empty());
        },
        Some(last) => {
            let ghost gone = lane::LastModel {
                identity: last.identity@,
                at: last.at_millis,
                cooldown: last.cooldown_millis,
            };
            assert(lane::last_view(list@) =~= before.drop_last());
            assert(before.last() == gone);
            retain_attempts(list, groups);
            if attempt_is_active(groups, &last) {
                let ghost kept = lane::last_view(list@);
                list.push(last);
                assert(lane::last_view(list@) =~= kept.push(gone));
            }
        },
    }
}

} // verus!
