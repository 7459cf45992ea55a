//! One background naming lane: which conversations it reads, when it tries again,
//! and which panes it publishes a name for.

use vstd::prelude::*;
use vstd::std_specs::hash::DefaultHasherAdditionalSpecFns;
use std::collections::hash_map::DefaultHasher;
use std::hash::Hasher;
use crate::domain::PaneId;
use crate::error::MuxError;
use crate::path;
use crate::smart_naming::conversation::NamingConversation;
use crate::smart_naming::names::GeneratedName;
use crate::smart_naming::target;
use crate::smart_naming::target::{AttemptIdentity, AttemptModel, NamingTarget, TargetModel};
use crate::smart_naming::thread;
use crate::smart_naming::thread::looks_like_thread_id;
use crate::smart_naming::title::protocol;
use crate::text;
use crate::text::{clone_option_text, text_equal};

verus! {

// ---------------------------------------------------------------------------
// Commands
// ---------------------------------------------------------------------------

/// A command to a running lane.
#[derive(Clone, Copy, Debug, PartialEq, Eq, Structural)]
pub enum NamingCommand {
    Stop,
    Wake,
}

/// What the waiting commands amount to.
#[derive(Clone, Copy, Debug, PartialEq, Eq, Structural)]
pub enum CommandSignal {
    Quiet,
    Stop,
    Wake,
}

pub open spec fn signal_of(commands: Seq<NamingCommand>) -> CommandSignal {
    if commands.contains(NamingCommand::Stop) {
        CommandSignal::Stop
    } else if commands.len() > 0 {
        CommandSignal::Wake
    } else {
        CommandSignal::Quiet
    }
}

/// What the waiting commands amount to: one to stop outweighs the others.
pub fn drain_commands(commands: &Vec<NamingCommand>) -> (r: CommandSignal)
    ensures
        r == signal_of(commands@),
{
    let mut i: usize = 0;
    while i < commands.len()
        invariant
            i <= commands.len(),
            forall|j: int| 0 <= j < i ==> #[trigger] commands@[j] != NamingCommand::Stop,
        decreases commands.len() - i,
    {
        if commands[i] == NamingCommand::Stop {
            assert(commands@.contains(commands@[i as int]));
            return CommandSignal::Stop;
        }
        i += 1;
    }
    if commands.len() > 0 {
        CommandSignal::Wake
    } else {
        CommandSignal::Quiet
    }
}

/// What ended one wait for a command.
#[derive(Clone, Copy, Debug, PartialEq, Eq, Structural)]
pub enum WaitEnd {
    Command(NamingCommand),
    Disconnected,
    Timeout,
}

/// Whether a wait ended with the order to stop.
pub open spec fn ordered_to_stop(end: WaitEnd) -> bool {
    end == WaitEnd::Command(NamingCommand::Stop) || end == WaitEnd::Disconnected
}

pub fn wait_for_stop(end: WaitEnd) -> (r: bool)
    ensures
        r == ordered_to_stop(end),
{
    match end {
        WaitEnd::Command(NamingCommand::Stop) => true,
        WaitEnd::Disconnected => true,
        _ => false,
    }
}

/// What follows a wait inside a cooldown.
#[derive(Clone, Copy, Debug, PartialEq, Eq, Structural)]
pub enum CooldownStep {
    Stopped,
    Expired,
    /// Wait for the rest of the cooldown.
    Wait,
}

/// Decides on a wait inside a cooldown: only the order to stop or the end of the
/// cooldown ends it.
pub fn wait_for_stop_ignoring_wakes(end: WaitEnd, remaining_millis: u64) -> (r: CooldownStep)
    ensures
        r == if ordered_to_stop(end) {
            CooldownStep::Stopped
        } else if end == WaitEnd::Timeout || remaining_millis == 0 {
            CooldownStep::Expired
        } else {
            CooldownStep::Wait
        },
{
    if wait_for_stop(end) {
        CooldownStep::Stopped
    } else if end == WaitEnd::Timeout || remaining_millis == 0 {
        CooldownStep::Expired
    } else {
        CooldownStep::Wait
    }
}

// ---------------------------------------------------------------------------
// The outside
// ---------------------------------------------------------------------------

/// Which discovery is asked for.
#[derive(Clone, Copy, Debug, PartialEq, Eq, Structural)]
pub enum DiscoveryPhase {
    Scan,
    Revalidate,
}

/// The thread that a target shows in full.
pub fn shown_thread(target: &NamingTarget) -> (r: Result<String, MuxError>)
    ensures
        match r {
            Ok(id) => id@ == target@.thread_hint && thread::is_thread_id(id@),
            Err(_) => !thread::is_thread_id(target@.thread_hint),
        },
{
    if looks_like_thread_id(&target.thread_hint) {
        Ok(target.thread_hint.clone())
    } else {
        Err(protocol("conversation namer cannot resolve a truncated thread title"))
    }
}

/// The provider of conversations and names.
pub trait ConversationNamer {
    /// The current full thread identity of a target.
    fn resolve(&mut self, target: &NamingTarget) -> Result<String, MuxError> {
        shown_thread(target)
    }

    /// Bounded completed conversation content.
    fn read(&mut self, target: &NamingTarget) -> Result<NamingConversation, MuxError>;

    /// One validated title.
    fn name(&mut self, conversation: &NamingConversation) -> Result<String, MuxError>;

    /// Whether the provider can serve another request.
    fn is_healthy(&mut self) -> bool {
        true
    }
}

/// What a lane runs on.
pub trait LaneHost {
    /// Takes the commands that wait.
    fn signal(&mut self) -> CommandSignal;

    /// The panes that can be named.
    fn discover(&mut self, phase: DiscoveryPhase) -> Result<Vec<NamingTarget>, MuxError>;

    fn unix_seconds(&mut self) -> u64;

    /// Milliseconds of a clock that never goes back.
    fn millis(&mut self) -> u64;

    /// Logs a reason code.
    fn log(&mut self, code: &'static str);

    /// Waits for a command; whether it ended with the order to stop.
    fn wait(&mut self, millis: u64) -> bool;

    /// Waits for the order to stop through every other command.
    fn cool_down(&mut self, millis: u64);

    /// Shares the published names.
    fn share(&mut self, names: &Vec<PublishedName>);
}

// ---------------------------------------------------------------------------
// Published names
// ---------------------------------------------------------------------------

/// A name published for a pane.
#[derive(Debug)]
pub struct PublishedName {
    pub pane_id: PaneId,
    pub generated: GeneratedName,
}

#[verifier::ext_equal]
pub struct PublishedModel {
    pub pane_id: Seq<char>,
    pub thread_id: Seq<char>,
    pub session: Seq<char>,
    pub pane_pid: u32,
    pub stable: bool,
    pub title: Seq<char>,
    pub cwd: Seq<u8>,
    pub name: Seq<char>,
    pub at: u64,
    pub token: Option<Seq<char>>,
}

impl View for PublishedName {
    type V = PublishedModel;

    open spec fn view(&self) -> PublishedModel {
        PublishedModel {
            pane_id: self.pane_id@,
            thread_id: self.generated.thread_id@,
            session: self.generated.source_session@,
            pane_pid: self.generated.source_pane_pid,
            stable: self.generated.stable_source_title,
            title: self.generated.source_title@,
            cwd: self.generated.source_cwd@,
            name: self.generated.name@,
            at: self.generated.generated_at_unix,
            token: text::option_view(self.generated.auto_name_token),
        }
    }
}

pub open spec fn names_view(list: Seq<PublishedName>) -> Seq<PublishedModel> {
    Seq::new(list.len(), |i: int| list[i]@)
}

/// The name of a thread, published for a target.
pub open spec fn publication(
    target: TargetModel,
    id: Seq<char>,
    name: Seq<char>,
    now: u64,
) -> PublishedModel {
    PublishedModel {
        pane_id: target.pane_id,
        thread_id: id,
        session: target.session_id,
        pane_pid: target.pane_pid,
        stable: target.stable_title,
        title: target.pane_title,
        cwd: target.cwd,
        name,
        at: now,
        token: target.auto_name_token,
    }
}

/// A published name still belongs to what its pane shows.
pub open spec fn still_shown(targets: Seq<TargetModel>, p: PublishedModel) -> bool {
    exists|i: int|
        0 <= i < targets.len() && (#[trigger] targets[i]).pane_id == p.pane_id
            && targets[i].pane_title == p.title && path::same_path(targets[i].cwd, p.cwd)
}

fn is_still_shown(targets: &Vec<NamingTarget>, p: &PublishedName) -> (r: bool)
    ensures
        r == still_shown(target::targets_view(targets@), p@),
{
    let ghost all = target::targets_view(targets@);
    let mut i: usize = 0;
    while i < targets.len()
        invariant
            i <= targets.len(),
            all == target::targets_view(targets@),
            forall|j: int|
                0 <= j < i ==> !((#[trigger] all[j]).pane_id == p@.pane_id && all[j].pane_title
                    == p@.title && path::same_path(all[j].cwd, p@.cwd)),
        decreases targets.len() - i,
    {
        let t = &targets[i];
        assert(all[i as int] == t@);
        if t.pane_id.same_as(&p.pane_id) && text_equal(&t.pane_title, &p.generated.source_title)
            && t.cwd.same_as(&p.generated.source_cwd) {
            return true;
        }
        i += 1;
    }
    false
}

/// The published names that still belong to what their panes show.
pub open spec fn retained(
    names: Seq<PublishedModel>,
    targets: Seq<TargetModel>,
) -> Seq<PublishedModel>
    decreases names.len(),
{
    if names.len() == 0 {
        Seq::empty()
    } else {
        let before = retained(names.drop_last(), targets);
        if still_shown(targets, names.last()) {
            before.push(names.last())
        } else {
            before
        }
    }
}

/// Keeps the published names that still belong to what their panes show.
pub fn retain_shown(names: &mut Vec<PublishedName>, targets: &Vec<NamingTarget>)
    ensures
        names_view(final(names)@) == retained(
            names_view(old(names)@),
            target::targets_view(targets@),
        ),
    decreases old(names)@.len(),
{
    let ghost before = names_view(names@);
    match names.pop() {
        None => {
            assert(names_view(names@) =~= Seq::<PublishedModel>::empty());
        },
        Some(last) => {
            assert(names_view(names@) =~= before.drop_last());
            retain_shown(names, targets);
            if is_still_shown(targets, &last) {
                let ghost kept = names_view(names@);
                names.push(last);
                assert(names_view(names@) =~= kept.push(last@));
            }
        },
    }
}

/// Names that are retained are names that were there and are still shown.
pub proof fn retained_names(names: Seq<PublishedModel>, targets: Seq<TargetModel>)
    ensures
        forall|p: PublishedModel|
            #[trigger] retained(names, targets).contains(p) ==> names.contains(p) && still_shown(
                targets,
                p,
            ),
    decreases names.len(),
{
    if names.len() > 0 {
        let rest = names.drop_last();
        let before = retained(rest, targets);
        let after = retained(names, targets);
        retained_names(rest, targets);
        assert forall|p: PublishedModel| #[trigger] after.contains(p) implies names.contains(p)
            && still_shown(targets, p) by {
            let k = choose|k: int| 0 <= k < after.len() && after[k] == p;
            if k < before.len() {
                assert(before[k] == p);
                assert(before.contains(p));
                let m = choose|m: int| 0 <= m < rest.len() && rest[m] == p;
                assert(names[m] == p);
            } else {
                assert(names[names.len() - 1] == p);
            }
        }
    }
}

/// The names of all panes but one.
pub open spec fn without_pane(names: Seq<PublishedModel>, pane: Seq<char>) -> Seq<PublishedModel>
    decreases names.len(),
{
    if names.len() == 0 {
        Seq::empty()
    } else {
        let before = without_pane(names.drop_last(), pane);
        if names.last().pane_id == pane {
            before
        } else {
            before.push(names.last())
        }
    }
}

fn drop_pane(names: &mut Vec<PublishedName>, pane: &PaneId)
    ensures
        names_view(final(names)@) == without_pane(names_view(old(names)@), pane@),
    decreases old(names)@.len(),
{
    let ghost before = names_view(names@);
    match names.pop() {
        None => {
            assert(names_view(names@) =~= Seq::<PublishedModel>::empty());
        },
        Some(last) => {
            assert(names_view(names@) =~= before.drop_last());
            drop_pane(names, pane);
            if !last.pane_id.same_as(pane) {
                let ghost kept = names_view(names@);
                names.push(last);
                assert(names_view(names@) =~= kept.push(last@));
            }
        },
    }
}

/// Publishes a name for a target, in place of an earlier one of its pane.
pub fn publish(
    names: &mut Vec<PublishedName>,
    target: &NamingTarget,
    thread_id: &str,
    name: &str,
    now: u64,
)
    ensures
        names_view(final(names)@) == without_pane(
            names_view(old(names)@),
            target@.pane_id,
        ).push(publication(target@, thread_id@, name@, now)),
{
    drop_pane(names, &target.pane_id);
    let ghost kept = names_view(names@);
    let published = PublishedName {
        pane_id: target.pane_id.clone(),
        generated: GeneratedName {
            thread_id: thread_id.to_owned(),
            source_session: target.session_id.clone(),
            source_pane_pid: target.pane_pid,
            stable_source_title: target.stable_title,
            source_title: target.pane_title.clone(),
            source_cwd: target.cwd.clone(),
            name: name.to_owned(),
            generated_at_unix: now,
            auto_name_token: clone_option_text(&target.auto_name_token),
        },
    };
    names.push(published);
    assert(names_view(names@) =~= kept.push(publication(target@, thread_id@, name@, now)));
}

/// No two published names are for one pane.
pub open spec fn one_name_per_pane(names: Seq<PublishedModel>) -> bool {
    forall|i: int, j: int|
        0 <= i < j < names.len() ==> (#[trigger] names[i]).pane_id != (#[trigger] names[j]).pane_id
}

proof fn without_pane_members(names: Seq<PublishedModel>, pane: Seq<char>)
    ensures
        forall|p: PublishedModel|
            #[trigger] without_pane(names, pane).contains(p) <==> names.contains(p) && p.pane_id
                != pane,
        one_name_per_pane(names) ==> one_name_per_pane(without_pane(names, pane)),
    decreases names.len(),
{
    if names.len() > 0 {
        let rest = names.drop_last();
        let last = names.last();
        let before = without_pane(rest, pane);
        let after = without_pane(names, pane);
        without_pane_members(rest, pane);
        assert forall|p: PublishedModel| #[trigger] after.contains(p) <==> names.contains(p)
            && p.pane_id != pane by {
            assert(before.contains(p) <==> rest.contains(p) && p.pane_id != pane);
            if names.contains(p) {
                let k = choose|k: int| 0 <= k < names.len() && names[k] == p;
                if k < rest.len() {
                    assert(rest[k] == p);
                }
            }
            if rest.contains(p) {
                let k = choose|k: int| 0 <= k < rest.len() && rest[k] == p;
                assert(names[k] == p);
            }
            assert(names[names.len() - 1] == last);
            if after.contains(p) {
                let k = choose|k: int| 0 <= k < after.len() && after[k] == p;
                if k < before.len() {
                    assert(before[k] == p);
                }
            }
            if before.contains(p) {
                let k = choose|k: int| 0 <= k < before.len() && before[k] == p;
                assert(after[k] == p);
            }
            if last.pane_id != pane {
                assert(after[before.len() as int] == last);
            }
        }
        if one_name_per_pane(names) {
            assert forall|i: int, j: int| 0 <= i < j < rest.len() implies (#[trigger] rest[i]).pane_id
                != (#[trigger] rest[j]).pane_id by {
                assert(names[i].pane_id != names[j].pane_id);
            }
            assert forall|i: int, j: int| 0 <= i < j < after.len() implies (
            #[trigger] after[i]).pane_id != (#[trigger] after[j]).pane_id by {
                if j < before.len() {
                    assert(before[i].pane_id != before[j].pane_id);
                } else {
                    assert(before.contains(before[i]));
                    let k = choose|k: int| 0 <= k < rest.len() && rest[k] == before[i];
                    assert(names[k].pane_id != names[names.len() - 1].pane_id);
                }
            }
        }
    }
}

/// The names of all panes but one are names that were there.
pub proof fn kept_names(names: Seq<PublishedModel>, pane: Seq<char>)
    ensures
        forall|p: PublishedModel|
            #[trigger] without_pane(names, pane).contains(p) ==> names.contains(p),
{
    without_pane_members(names, pane);
}

/// What is retained was there, and keeps one name to a pane.
pub proof fn retaining_keeps_one_name_per_pane(
    names: Seq<PublishedModel>,
    targets: Seq<TargetModel>,
)
    ensures
        forall|p: PublishedModel|
            #[trigger] retained(names, targets).contains(p) ==> names.contains(p),
        one_name_per_pane(names) ==> one_name_per_pane(retained(names, targets)),
    decreases names.len(),
{
    if names.len() > 0 {
        let rest = names.drop_last();
        let last = names.last();
        let before = retained(rest, targets);
        let after = retained(names, targets);
        retaining_keeps_one_name_per_pane(rest, targets);
        assert forall|p: PublishedModel| #[trigger] after.contains(p) implies names.contains(p) by {
            let k = choose|k: int| 0 <= k < after.len() && after[k] == p;
            if k < before.len() {
                assert(before[k] == p);
                assert(before.contains(p));
                let j = choose|j: int| 0 <= j < rest.len() && rest[j] == p;
                assert(names[j] == p);
            } else {
                assert(names[names.len() - 1] == p);
            }
        }
        if one_name_per_pane(names) {
            assert forall|i: int, j: int| 0 <= i < j < rest.len() implies (
            #[trigger] rest[i]).pane_id != (#[trigger] rest[j]).pane_id by {
                assert(rest[i] == names[i] && rest[j] == names[j]);
            }
            assert forall|i: int, j: int| 0 <= i < j < after.len() implies (
            #[trigger] after[i]).pane_id != (#[trigger] after[j]).pane_id by {
                assert(after[i] == before[i]);
                assert(before.contains(before[i]));
                if j < before.len() {
                    assert(after[j] == before[j]);
                } else {
                    let k = choose|k: int| 0 <= k < rest.len() && rest[k] == before[i];
                    assert(names[k].pane_id != names[names.len() - 1].pane_id);
                }
            }
        }
    }
}

/// Publishing keeps one name to a pane.
pub proof fn publishing_keeps_one_name_per_pane(
    names: Seq<PublishedModel>,
    p: PublishedModel,
)
    requires
        one_name_per_pane(names),
    ensures
        one_name_per_pane(without_pane(names, p.pane_id).push(p)),
{
    without_pane_members(names, p.pane_id);
    let kept = without_pane(names, p.pane_id);
    assert forall|i: int, j: int| 0 <= i < j < kept.push(p).len() implies (#[trigger] kept.push(
        p,
    )[i]).pane_id != (#[trigger] kept.push(p)[j]).pane_id by {
        if j == kept.len() {
            assert(kept.contains(kept[i]));
        } else {
            assert(kept[i].pane_id != kept[j].pane_id);
        }
    }
}

// ---------------------------------------------------------------------------
// Attempts
// ---------------------------------------------------------------------------

/// When an attempt was last made and how long the next one waits.
#[derive(Debug)]
pub struct LastAttempt {
    pub identity: AttemptIdentity,
    pub at_millis: u64,
    pub cooldown_millis: u64,
}

#[verifier::ext_equal]
pub struct LastModel {
    pub identity: AttemptModel,
    pub at: u64,
    pub cooldown: u64,
}

pub open spec fn last_view(list: Seq<LastAttempt>) -> Seq<LastModel> {
    Seq::new(
        list.len(),
        |i: int|
            LastModel {
                identity: list[i].identity@,
                at: list[i].at_millis,
                cooldown: list[i].cooldown_millis,
            },
    )
}

/// The place of an attempt in a list.
pub open spec fn place_of(list: Seq<LastModel>, key: AttemptModel, i: int) -> int
    decreases list.len() - i,
{
    if i < 0 || i >= list.len() || target::same_attempt(list[i].identity, key) {
        i
    } else {
        place_of(list, key, i + 1)
    }
}

/// When an attempt was last made and how long the next one waits.
pub open spec fn last_attempt(list: Seq<LastModel>, key: AttemptModel) -> Option<(u64, u64)> {
    let i = place_of(list, key, 0);
    if i < list.len() {
        Some((list[i].at, list[i].cooldown))
    } else {
        None
    }
}

/// Whether an attempt may be made: it is the first, or the wait after the last one
/// is over.
pub open spec fn may_attempt(last: Option<(u64, u64)>, now: u64) -> bool {
    match last {
        None => true,
        Some((at, cooldown)) => (if now >= at {
            now - at
        } else {
            0
        }) >= cooldown,
    }
}

fn find_attempt(list: &Vec<LastAttempt>, key: &AttemptIdentity) -> (r: usize)
    ensures
        r == place_of(last_view(list@), key@, 0),
        r <= list@.len(),
{
    let ghost all = last_view(list@);
    let mut i: usize = 0;
    while i < list.len()
        invariant
            i <= list.len(),
            all == last_view(list@),
            place_of(all, key@, 0) == place_of(all, key@, i as int),
        decreases list.len() - i,
    {
        assert(all[i as int].identity == list@[i as int].identity@);
        if list[i].identity.same_as(key) {
            return i;
        }
        i += 1;
    }
    i
}

/// Whether an attempt may be made now.
pub fn attempt_allowed(list: &Vec<LastAttempt>, key: &AttemptIdentity, now_millis: u64) -> (r: bool)
    ensures
        r == may_attempt(last_attempt(last_view(list@), key@), now_millis),
{
    let i: usize = find_attempt(list, key);
    if i >= list.len() {
        return true;
    }
    let at: u64 = list[i].at_millis;
    let elapsed: u64 = if now_millis >= at {
        now_millis - at
    } else {
        0
    };
    elapsed >= list[i].cooldown_millis
}

proof fn place_of_other(list: Seq<LastModel>, other: Seq<LastModel>, key: AttemptModel, i: int)
    requires
        0 <= i,
        other.len() >= list.len(),
        forall|j: int|
            0 <= j < list.len() ==> target::same_attempt((#[trigger] list[j]).identity, key)
                == target::same_attempt(other[j].identity, key),
        forall|j: int|
            list.len() <= j < other.len() ==> !target::same_attempt(
                (#[trigger] other[j]).identity,
                key,
            ),
    ensures
        place_of(list, key, i) < list.len() ==> place_of(other, key, i) == place_of(list, key, i),
        place_of(list, key, i) >= list.len() ==> place_of(other, key, i) >= other.len(),
    decreases other.len() - i,
{
    if i < other.len() {
        if i < list.len() {
            assert(target::same_attempt(list[i].identity, key) == target::same_attempt(
                other[i].identity,
                key,
            ));
            if !target::same_attempt(list[i].identity, key) {
                place_of_other(list, other, key, i + 1);
            }
        } else {
            assert(!target::same_attempt(other[i].identity, key));
            place_of_other(list, other, key, i + 1);
        }
    }
}

/// A list with an attempt noted in it.
pub open spec fn remembered(
    list: Seq<LastModel>,
    key: AttemptModel,
    at: u64,
    cooldown: u64,
) -> Seq<LastModel> {
    let i = place_of(list, key, 0);
    let noted = LastModel { identity: key, at, cooldown };
    if i < list.len() {
        list.update(i, noted)
    } else {
        list.push(noted)
    }
}

/// Notes an attempt.
pub fn remember(
    list: &mut Vec<LastAttempt>,
    key: AttemptIdentity,
    at_millis: u64,
    cooldown_millis: u64,
)
    ensures
        last_view(final(list)@) == remembered(
            last_view(old(list)@),
            key@,
            at_millis,
            cooldown_millis,
        ),
        last_attempt(last_view(final(list)@), key@) == Some((at_millis, cooldown_millis)),
        forall|other: AttemptModel|
            !target::same_attempt(other, key@) ==> #[trigger] last_attempt(
                last_view(final(list)@),
                other,
            ) == last_attempt(last_view(old(list)@), other),
{
    let ghost before = last_view(list@);
    let ghost noted = LastModel {
        identity: key@,
        at: at_millis,
        cooldown: cooldown_millis,
    };
    let i: usize = find_attempt(list, &key);
    let entry = LastAttempt { identity: key, at_millis, cooldown_millis };
    if i < list.len() {
        list.set(i, entry);
        let ghost after = last_view(list@);
        proof {
            assert(after =~= before.update(i as int, noted));
            target::same_attempt_is_equivalence(key@, key@, key@);
            place_is(before, key@, 0);
            place_unique(after, key@, 0, i as int);
            assert forall|other: AttemptModel| !target::same_attempt(other, key@) implies
                #[trigger] last_attempt(after, other) == last_attempt(before, other) by {
                assert forall|j: int| 0 <= j < before.len() implies target::same_attempt(
                    (#[trigger] before[j]).identity,
                    other,
                ) == target::same_attempt(after[j].identity, other) by {
                    if j == i {
                        target::same_attempt_is_equivalence(before[j].identity, other, key@);
                        target::same_attempt_is_equivalence(other, before[j].identity, key@);
                        target::same_attempt_is_equivalence(key@, other, key@);
                    }
                }
                place_of_other(before, after, other, 0);
                place_is(before, other, 0);
                if target::same_attempt(key@, other) {
                    target::same_attempt_is_equivalence(key@, other, key@);
                }
                if place_of(before, other, 0) == i as int {
                    place_is(before, other, 0);
                    target::same_attempt_is_equivalence(other, before[i as int].identity, key@);
                    target::same_attempt_is_equivalence(before[i as int].identity, other, key@);
                }
            }
        }
    } else {
        list.push(entry);
        let ghost after = last_view(list@);
        proof {
            assert(after =~= before.push(noted));
            target::same_attempt_is_equivalence(key@, key@, key@);
            place_is(before, key@, 0);
            place_unique(after, key@, 0, before.len() as int);
            assert forall|other: AttemptModel| !target::same_attempt(other, key@) implies
                #[trigger] last_attempt(after, other) == last_attempt(before, other) by {
                target::same_attempt_is_equivalence(key@, other, key@);
                place_of_other(before, after, other, 0);
                place_is(before, other, 0);
            }
        }
    }
}

proof fn place_is(list: Seq<LastModel>, key: AttemptModel, i: int)
    requires
        0 <= i <= list.len(),
    ensures
        i <= place_of(list, key, i) <= list.len(),
        place_of(list, key, i) < list.len() ==> target::same_attempt(
            list[place_of(list, key, i)].identity,
            key,
        ),
        forall|j: int|
            i <= j < place_of(list, key, i) ==> !target::same_attempt(
                (#[trigger] list[j]).identity,
                key,
            ),
    decreases list.len() - i,
{
    if i < list.len() && !target::same_attempt(list[i].identity, key) {
        place_is(list, key, i + 1);
    }
}

proof fn place_unique(list: Seq<LastModel>, key: AttemptModel, i: int, at: int)
    requires
        0 <= i <= at < list.len(),
        target::same_attempt(list[at].identity, key),
        forall|j: int|
            i <= j < at ==> !target::same_attempt((#[trigger] list[j]).identity, key),
    ensures
        place_of(list, key, i) == at,
    decreases at - i,
{
    if i < at {
        assert(!target::same_attempt(list[i].identity, key));
        place_unique(list, key, i + 1, at);
    }
}

/// Attempts about the same thing wait alike.
pub proof fn same_attempts_wait_alike(list: Seq<LastModel>, a: AttemptModel, b: AttemptModel)
    requires
        target::same_attempt(a, b),
    ensures
        last_attempt(list, a) == last_attempt(list, b),
{
    assert forall|j: int| 0 <= j < list.len() implies target::same_attempt(
        (#[trigger] list[j]).identity,
        a,
    ) == target::same_attempt(list[j].identity, b) by {
        target::same_attempt_is_equivalence(list[j].identity, a, b);
        target::same_attempt_is_equivalence(a, b, a);
        target::same_attempt_is_equivalence(list[j].identity, b, a);
    }
    same_places(list, a, b, 0);
}

proof fn same_places(list: Seq<LastModel>, a: AttemptModel, b: AttemptModel, i: int)
    requires
        0 <= i,
        forall|j: int|
            0 <= j < list.len() ==> target::same_attempt((#[trigger] list[j]).identity, a)
                == target::same_attempt(list[j].identity, b),
    ensures
        place_of(list, a, i) == place_of(list, b, i),
    decreases list.len() - i,
{
    if i < list.len() {
        assert(target::same_attempt(list[i].identity, a) == target::same_attempt(
            list[i].identity,
            b,
        ));
        if !target::same_attempt(list[i].identity, a) {
            same_places(list, a, b, i + 1);
        }
    }
}

// ---------------------------------------------------------------------------
// Fingerprints
// ---------------------------------------------------------------------------

/// What tells one transcript from another without keeping it.
pub open spec fn fingerprint(transcript: Seq<char>) -> u64 {
    DefaultHasher::spec_finish(seq![text::utf8(transcript)])
}

pub fn transcript_fingerprint(transcript: &str) -> (r: u64)
    ensures
        r == fingerprint(transcript@),
{
    let mut hasher = DefaultHasher::new();
    hasher.write(transcript.as_bytes());
    assert(hasher@ =~= seq![text::utf8(transcript@)]);
    hasher.finish()
}

} // verus!
