//! Panes that can be named: the identity of each, and when its name is due.

use vstd::prelude::*;
use vstd::multiset::Multiset;
use crate::domain;
use crate::domain::{Pane, PaneId, SessionId};
use crate::path;
use crate::path::UnixPath;
use crate::scan;
use crate::scan::trim;
use crate::smart_naming::thread;
use crate::smart_naming::thread::{looks_like_thread_id, thread_hint, thread_marker_matches_title};
use crate::text;
use crate::text::{clone_option_text, text_equal};

verus! {

/// Seconds between reconsiderations of an existing title.
pub const NAMING_REFRESH_SECONDS: u64 = 30 * 60;

/// Seconds before a failed naming attempt is made again.
pub const NAMING_RETRY_SECONDS: u64 = 60 * 60;

/// Seconds before a conversation without a completed turn is read again.
pub const PENDING_NAMING_RETRY_SECONDS: u64 = 2;

/// Stable identity of a pane and its thread, as the background worker needs it.
#[derive(Debug)]
pub struct NamingTarget {
    /// Exact tmux pane.
    pub pane_id: PaneId,
    /// Session of the pane during discovery.
    pub session_id: SessionId,
    /// Pane leader during discovery.
    pub pane_pid: u32,
    /// Exact pane title observed during discovery.
    pub pane_title: String,
    /// Whether that title itself shows the thread.
    pub stable_title: bool,
    /// Full thread identity, or the unambiguous start of one.
    pub thread_hint: String,
    /// Exact working directory, which constrains resolution.
    pub cwd: UnixPath,
    /// Existing generated title, where it is valid.
    pub generated_name: Option<String>,
    /// Unix time of the last successful title generation.
    pub generated_at_unix: Option<u64>,
    /// A request that passes over the wait after a successful title.
    pub immediate_naming: bool,
    /// Token of the explicit request, where there is one.
    pub auto_name_token: Option<String>,
}

#[verifier::ext_equal]
pub struct TargetModel {
    pub pane_id: Seq<char>,
    pub session_id: Seq<char>,
    pub pane_pid: u32,
    pub pane_title: Seq<char>,
    pub stable_title: bool,
    pub thread_hint: Seq<char>,
    pub cwd: Seq<u8>,
    pub generated_name: Option<Seq<char>>,
    pub generated_at_unix: Option<u64>,
    pub immediate_naming: bool,
    pub auto_name_token: Option<Seq<char>>,
}

impl View for NamingTarget {
    type V = TargetModel;

    open spec fn view(&self) -> TargetModel {
        TargetModel {
            pane_id: self.pane_id@,
            session_id: self.session_id@,
            pane_pid: self.pane_pid,
            pane_title: self.pane_title@,
            stable_title: self.stable_title,
            thread_hint: self.thread_hint@,
            cwd: self.cwd@,
            generated_name: text::option_view(self.generated_name),
            generated_at_unix: self.generated_at_unix,
            immediate_naming: self.immediate_naming,
            auto_name_token: text::option_view(self.auto_name_token),
        }
    }
}

impl Clone for NamingTarget {
    fn clone(&self) -> (r: Self)
        ensures
            r@ == self@,
    {
        NamingTarget {
            pane_id: self.pane_id.clone(),
            session_id: self.session_id.clone(),
            pane_pid: self.pane_pid,
            pane_title: self.pane_title.clone(),
            stable_title: self.stable_title,
            thread_hint: self.thread_hint.clone(),
            cwd: self.cwd.clone(),
            generated_name: clone_option_text(&self.generated_name),
            generated_at_unix: self.generated_at_unix,
            immediate_naming: self.immediate_naming,
            auto_name_token: clone_option_text(&self.auto_name_token),
        }
    }
}

pub open spec fn targets_view(list: Seq<NamingTarget>) -> Seq<TargetModel> {
    Seq::new(list.len(), |i: int| list[i]@)
}

/// The target of a pane with a thread.
pub open spec fn target_of(pane: Pane, title: Seq<char>, hint: Seq<char>, stable: bool) -> TargetModel {
    TargetModel {
        pane_id: pane.id@,
        session_id: pane.session_id@,
        pane_pid: pane.pane_pid,
        pane_title: title,
        stable_title: stable,
        thread_hint: hint,
        cwd: pane.current_path@,
        generated_name: text::option_view(pane.generated_title),
        generated_at_unix: pane.generated_at_unix,
        immediate_naming: pane.immediate_naming,
        auto_name_token: text::option_view(pane.auto_name_token),
    }
}

/// A pane was unpinned without a known title and shows nothing new since, or is not
/// the pane that was unpinned.
pub open spec fn awaits_new_title(pane: Pane, title: Seq<char>) -> bool {
    pane.unpin_waiting && (text::option_view(pane.unpin_waiting_title) == Some(title)
        || pane.unpin_waiting_pid != Some(pane.pane_pid) || domain::session_view(
        pane.unpin_waiting_session,
    ) != Some(pane.session_id@))
}

/// The target that the title of a pane shows.
pub open spec fn titled_target(pane: Pane) -> Option<TargetModel> {
    if pane.manual_name || pane.title is None || awaits_new_title(pane, pane.title->0@) {
        None
    } else {
        let title = scan::trimmed(pane.title->0@);
        match thread::hint(title) {
            Some(hint) => Some(target_of(pane, title, hint, true)),
            None => None,
        }
    }
}

/// The target of a pane whose thread was proved otherwise.
pub open spec fn verified_target(pane: Pane, id: Seq<char>) -> Option<TargetModel> {
    if pane.manual_name || !thread::is_thread_id(id) || pane.title is None {
        None
    } else {
        let title = scan::trimmed(pane.title->0@);
        Some(target_of(pane, title, id, thread::marker_matches(id, title)))
    }
}

pub open spec fn target_view(o: Option<NamingTarget>) -> Option<TargetModel> {
    match o {
        Some(target) => Some(target@),
        None => None,
    }
}

fn build(pane: &Pane, title: String, hint: String, stable: bool) -> (r: NamingTarget)
    ensures
        r@ == target_of(*pane, title@, hint@, stable),
{
    NamingTarget {
        pane_id: pane.id.clone(),
        session_id: pane.session_id.clone(),
        pane_pid: pane.pane_pid,
        pane_title: title,
        stable_title: stable,
        thread_hint: hint,
        cwd: pane.current_path.clone(),
        generated_name: clone_option_text(&pane.generated_title),
        generated_at_unix: pane.generated_at_unix,
        immediate_naming: pane.immediate_naming,
        auto_name_token: clone_option_text(&pane.auto_name_token),
    }
}

fn must_wait(pane: &Pane, title: &str) -> (r: bool)
    ensures
        r == awaits_new_title(*pane, title@),
{
    if !pane.unpin_waiting {
        return false;
    }
    let same_title = match &pane.unpin_waiting_title {
        Some(t) => text_equal(t, title),
        None => false,
    };
    let same_pid = match pane.unpin_waiting_pid {
        Some(pid) => pid == pane.pane_pid,
        None => false,
    };
    let same_session = match &pane.unpin_waiting_session {
        Some(session) => session.same_as(&pane.session_id),
        None => false,
    };
    same_title || !same_pid || !same_session
}

impl NamingTarget {
    /// The target of a pane whose title shows a thread.
    pub fn from_pane(pane: &Pane) -> (r: Option<NamingTarget>)
        ensures
            target_view(r) == titled_target(*pane),
    {
        if pane.manual_name {
            return None;
        }
        let Some(observed) = &pane.title else {
            return None;
        };
        if must_wait(pane, observed) {
            return None;
        }
        let title = trim(observed);
        match thread_hint(&title) {
            Some(hint) => Some(build(pane, title, hint, true)),
            None => None,
        }
    }

    /// The target of a pane whose exact thread was proved otherwise.
    pub fn from_verified_thread(pane: &Pane, thread_id: String) -> (r: Option<NamingTarget>)
        ensures
            target_view(r) == verified_target(*pane, thread_id@),
    {
        if pane.manual_name || !looks_like_thread_id(&thread_id) {
            return None;
        }
        let Some(observed) = &pane.title else {
            return None;
        };
        let title = trim(observed);
        let stable = thread_marker_matches_title(&thread_id, &title);
        Some(build(pane, title, thread_id, stable))
    }
}

/// A pane that its user named is never a target.
pub proof fn manual_names_are_never_targets(pane: Pane, id: Seq<char>)
    requires
        pane.manual_name,
    ensures
        titled_target(pane) is None,
        verified_target(pane, id) is None,
{
}

// ---------------------------------------------------------------------------
// When a name is due
// ---------------------------------------------------------------------------

/// Whether a target is due: at once without a title or on request, else half an hour
/// after its title was generated.
pub open spec fn is_due(target: TargetModel, now: u64) -> bool {
    ||| target.immediate_naming
    ||| target.generated_name is None
    ||| target.generated_at_unix is None
    ||| now - target.generated_at_unix->0 >= NAMING_REFRESH_SECONDS
}

pub fn naming_is_due(target: &NamingTarget, now_unix: u64) -> (r: bool)
    ensures
        r == is_due(target@, now_unix),
{
    if target.immediate_naming || target.generated_name.is_none() {
        return true;
    }
    match target.generated_at_unix {
        Some(at) => now_unix >= at && now_unix - at >= NAMING_REFRESH_SECONDS,
        None => true,
    }
}

/// A target that is due stays due while time passes.
pub proof fn due_stays_due(target: TargetModel, now: u64, later: u64)
    requires
        is_due(target, now),
        now <= later,
    ensures
        is_due(target, later),
{
}

// ---------------------------------------------------------------------------
// Attempts
// ---------------------------------------------------------------------------

/// What tells a pane of an attempt from the same pane in another one.
#[verifier::ext_equal]
pub struct MarkModel {
    pub pane_id: Seq<char>,
    pub title: Seq<char>,
    pub immediate: bool,
}

#[derive(Debug)]
pub struct PaneMark {
    pub pane_id: PaneId,
    pub title: String,
    pub immediate: bool,
}

impl View for PaneMark {
    type V = MarkModel;

    open spec fn view(&self) -> MarkModel {
        MarkModel { pane_id: self.pane_id@, title: self.title@, immediate: self.immediate }
    }
}

impl Clone for PaneMark {
    fn clone(&self) -> (r: Self)
        ensures
            r@ == self@,
    {
        PaneMark {
            pane_id: self.pane_id.clone(),
            title: self.title.clone(),
            immediate: self.immediate,
        }
    }
}

pub open spec fn marks_view(list: Seq<PaneMark>) -> Seq<MarkModel> {
    Seq::new(list.len(), |i: int| list[i]@)
}

pub open spec fn mark_of(target: TargetModel) -> MarkModel {
    MarkModel {
        pane_id: target.pane_id,
        title: target.pane_title,
        immediate: target.immediate_naming,
    }
}

pub open spec fn marks_of(targets: Seq<TargetModel>) -> Seq<MarkModel> {
    Seq::new(targets.len(), |i: int| mark_of(targets[i]))
}

/// What a naming attempt is about: a thread, a directory and the panes that show it,
/// in any order.
#[derive(Debug)]
pub struct AttemptIdentity {
    pub thread_hint: String,
    pub cwd: UnixPath,
    pub panes: Vec<PaneMark>,
}

#[verifier::ext_equal]
pub struct AttemptModel {
    pub thread_hint: Seq<char>,
    pub cwd: Seq<u8>,
    pub panes: Seq<MarkModel>,
}

impl View for AttemptIdentity {
    type V = AttemptModel;

    open spec fn view(&self) -> AttemptModel {
        AttemptModel {
            thread_hint: self.thread_hint@,
            cwd: self.cwd@,
            panes: marks_view(self.panes@),
        }
    }
}

/// Two attempts are about the same thing.
pub open spec fn same_attempt(a: AttemptModel, b: AttemptModel) -> bool {
    &&& a.thread_hint == b.thread_hint
    &&& path::same_path(a.cwd, b.cwd)
    &&& a.panes.to_multiset() == b.panes.to_multiset()
}

pub proof fn same_attempt_is_equivalence(a: AttemptModel, b: AttemptModel, c: AttemptModel)
    ensures
        same_attempt(a, a),
        same_attempt(a, b) ==> same_attempt(b, a),
        same_attempt(a, b) && same_attempt(b, c) ==> same_attempt(a, c),
{
    path::same_path_is_equivalence(a.cwd, b.cwd, c.cwd);
}

/// The attempt that a group of targets makes.
pub open spec fn attempt_of(targets: Seq<TargetModel>) -> AttemptModel {
    AttemptModel {
        thread_hint: targets[0].thread_hint,
        cwd: targets[0].cwd,
        panes: marks_of(targets),
    }
}

/// The attempt that a group of targets makes.
pub fn attempt_identity(targets: &Vec<NamingTarget>) -> (r: AttemptIdentity)
    requires
        targets@.len() > 0,
    ensures
        r@ == attempt_of(targets_view(targets@)),
{
    let mut panes: Vec<PaneMark> = Vec::new();
    let ghost all = marks_of(targets_view(targets@));
    let mut i: usize = 0;
    while i < targets.len()
        invariant
            i <= targets.len(),
            all == marks_of(targets_view(targets@)),
            marks_view(panes@) =~= all.take(i as int),
        decreases targets.len() - i,
    {
        let target = &targets[i];
        panes.push(
            PaneMark {
                pane_id: target.pane_id.clone(),
                title: target.pane_title.clone(),
                immediate: target.immediate_naming,
            },
        );
        i += 1;
    }
    assert(marks_view(panes@) =~= all);
    AttemptIdentity {
        thread_hint: targets[0].thread_hint.clone(),
        cwd: targets[0].cwd.clone(),
        panes,
    }
}

fn same_mark(a: &PaneMark, b: &PaneMark) -> (r: bool)
    ensures
        r == (a@ == b@),
{
    a.pane_id.same_as(&b.pane_id) && text_equal(&a.title, &b.title) && a.immediate == b.immediate
}

/// Whether two lists hold the same marks, each as often.
fn same_marks(a: &Vec<PaneMark>, b: &Vec<PaneMark>) -> (r: bool)
    ensures
        r == (marks_view(a@).to_multiset() == marks_view(b@).to_multiset()),
{
    let ghost left = marks_view(a@);
    let ghost right = marks_view(b@);
    proof {
        left.to_multiset_ensures();
        right.to_multiset_ensures();
    }
    if a.len() != b.len() {
        return false;
    }
    let mut rest: Vec<PaneMark> = Vec::new();
    let mut k: usize = 0;
    while k < b.len()
        invariant
            k <= b.len(),
            right == marks_view(b@),
            marks_view(rest@) =~= right.take(k as int),
        decreases b.len() - k,
    {
        rest.push(b[k].clone());
        k += 1;
    }
    assert(marks_view(rest@) =~= right);
    let mut i: usize = 0;
    proof {
        assert(left.take(0).to_multiset() =~= Multiset::empty()) by {
            left.take(0).to_multiset_ensures();
        }
        assert(right.to_multiset() =~= marks_view(rest@).to_multiset().add(
            left.take(0).to_multiset(),
        ));
    }
    while i < a.len()
        invariant
            i <= a.len(),
            left == marks_view(a@),
            a.len() == right.len(),
            rest@.len() == right.len() - i,
            right.to_multiset() == marks_view(rest@).to_multiset().add(
                left.take(i as int).to_multiset(),
            ),
        decreases a.len() - i,
    {
        let ghost before = marks_view(rest@);
        let ghost x = left[i as int];
        let mut j: usize = 0;
        while j < rest.len() && !same_mark(&rest[j], &a[i])
            invariant
                i < a.len(),
                left == marks_view(a@),
                x == left[i as int],
                before == marks_view(rest@),
                j <= rest.len(),
                forall|m: int| 0 <= m < j ==> #[trigger] before[m] != x,
            decreases rest.len() - j,
        {
            assert(before[j as int] == rest@[j as int]@);
            j += 1;
        }
        proof {
            before.to_multiset_ensures();
            left.take(i as int).to_multiset_ensures();
            left.take(i + 1).to_multiset_ensures();
            left.to_multiset_ensures();
            assert(left.take(i + 1) =~= left.take(i as int).push(x));
        }
        if j >= rest.len() {
            proof {
                assert(!before.contains(x));
                assert(before.to_multiset().count(x) == 0);
                assert(right.to_multiset().count(x) == left.take(i as int).to_multiset().count(x));
                assert(left.take(i + 1).to_multiset().count(x) == left.take(
                    i as int,
                ).to_multiset().count(x) + 1);
                prefix_count(left, i + 1, x);
                assert(right.to_multiset().count(x) < left.to_multiset().count(x));
            }
            return false;
        }
        assert(before[j as int] == rest@[j as int]@);
        let _gone = rest.remove(j);
        proof {
            assert(marks_view(rest@) =~= before.remove(j as int));
            assert(right.to_multiset() =~= marks_view(rest@).to_multiset().add(
                left.take(i + 1).to_multiset(),
            ));
        }
        i += 1;
    }
    proof {
        assert(left.take(left.len() as int) =~= left);
        marks_view(rest@).to_multiset_ensures();
        assert(marks_view(rest@).to_multiset() =~= Multiset::empty());
        assert(right.to_multiset() =~= left.to_multiset());
    }
    true
}

proof fn prefix_count(s: Seq<MarkModel>, n: int, x: MarkModel)
    requires
        0 <= n <= s.len(),
    ensures
        s.take(n).to_multiset().count(x) <= s.to_multiset().count(x),
    decreases s.len() - n,
{
    if n < s.len() {
        prefix_count(s, n + 1, x);
        s.take(n).to_multiset_ensures();
        assert(s.take(n + 1) =~= s.take(n).push(s[n]));
    } else {
        assert(s.take(n) =~= s);
    }
}

impl AttemptIdentity {
    /// Whether two attempts are about the same thing.
    pub fn same_as(&self, other: &AttemptIdentity) -> (r: bool)
        ensures
            r == same_attempt(self@, other@),
    {
        text_equal(&self.thread_hint, &other.thread_hint) && self.cwd.same_as(&other.cwd)
            && same_marks(&self.panes, &other.panes)
    }
}

} // verus!
