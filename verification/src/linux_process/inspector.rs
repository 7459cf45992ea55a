//! Finding the configured program in a pane.
//!
//! Procfs changes while it is read, so a match counts only where a second look
//! shows the same process.

use vstd::prelude::*;
use crate::config::MatchScope;
use crate::domain;
use crate::domain::{CodexExecutable, PaneProcess, ProcessInspector, ProcessMatchIdentity};
use crate::error;
use crate::error::{ErrorModel, MuxError};
use crate::linux_process::command;
use crate::linux_process::command::{
    command_regex_matches, interactive_shell_arguments, interpreted_script_argument,
    interpreter_candidates, names_same_file, recognized_match, ProcessFiles,
};
use crate::linux_process::evidence;
use crate::linux_process::evidence::{
    assemble, copy_path, descendants, executables_agree, foreground_group, insert_process,
    parse_entry, same_foreground_snapshot, same_process_evidence, terminal_processes, tty_number,
    words_agree, EvidenceModel, ProcReads, ProcessEvidence,
};
use crate::linux_process::proc_log::LoggedProc;
use crate::linux_process::replay;
use crate::linux_process::replay::{FoundModel, ProcEvent, SearchModel};
use crate::path;
use crate::path::UnixPath;
use crate::pattern;
use crate::text;
use crate::text::text_equal;
use crate::tmux::inventory;

verus! {

// ---------------------------------------------------------------------------
// Decisions
// ---------------------------------------------------------------------------

/// What the leader of a pane alone decides.
#[derive(Clone, Copy, Debug, PartialEq, Eq, Structural)]
pub enum FirstLook {
    /// It is the configured executable with this position.
    Itself(usize),
    /// Its foreground group has to be looked at.
    Group,
    /// It leads no terminal.
    Nothing,
}

pub open spec fn leads_terminal(pane: EvidenceModel) -> bool {
    pane.tty_nr != 0 && pane.tpgid > 0
}

/// The leader itself counts by its executable; where it is its own foreground
/// group, also by its script or its command line.
pub open spec fn first_look_of(
    pane: EvidenceModel,
    exact: Option<usize>,
    recognised: Option<usize>,
    regex: bool,
) -> FirstLook {
    match exact {
        Some(i) => FirstLook::Itself(i),
        None => if !leads_terminal(pane) {
            FirstLook::Nothing
        } else if pane.pgrp == pane.tpgid && recognised is Some {
            FirstLook::Itself(recognised->0)
        } else if pane.pgrp == pane.tpgid && regex {
            FirstLook::Itself(0)
        } else {
            FirstLook::Group
        },
    }
}

pub fn first_look(
    pane: &ProcessEvidence,
    exact: Option<usize>,
    recognised: Option<usize>,
    regex: bool,
) -> (r: FirstLook)
    ensures
        r == first_look_of(pane@, exact, recognised, regex),
{
    if let Some(i) = exact {
        return FirstLook::Itself(i);
    }
    if pane.tty_nr == 0 || pane.tpgid <= 0 {
        return FirstLook::Nothing;
    }
    if pane.pgrp == pane.tpgid {
        if let Some(i) = recognised {
            return FirstLook::Itself(i);
        }
        if regex {
            return FirstLook::Itself(0);
        }
    }
    FirstLook::Group
}

/// What is known of one process of a foreground group.
#[derive(Clone, Copy, Debug, PartialEq, Eq, Structural)]
pub struct CandidateFacts {
    /// The configured executable that it is, by executable or script.
    pub recognised: Option<usize>,
    /// Whether its command line matches one of the expressions.
    pub regex: bool,
}

/// Which process of a foreground group counts.
#[derive(Clone, Copy, Debug, PartialEq, Eq, Structural)]
pub enum GroupChoice {
    /// The process at a position is the configured executable with a position.
    Matched { candidate: usize, configured: usize },
    /// Nothing matched; the group leader stands in, unproven.
    Leader(usize),
    Nothing,
}

pub open spec fn first_recognised(facts: Seq<CandidateFacts>, k: int) -> Option<int>
    decreases facts.len() - k,
{
    if k >= facts.len() {
        None
    } else if facts[k].recognised is Some {
        Some(k)
    } else {
        first_recognised(facts, k + 1)
    }
}

pub open spec fn first_by_command(facts: Seq<CandidateFacts>, k: int) -> Option<int>
    decreases facts.len() - k,
{
    if k >= facts.len() {
        None
    } else if facts[k].regex {
        Some(k)
    } else {
        first_by_command(facts, k + 1)
    }
}

pub open spec fn leader_from(candidates: Seq<EvidenceModel>, tpgid: i64, k: int) -> Option<int>
    decreases candidates.len() - k,
{
    if k >= candidates.len() {
        None
    } else if candidates[k].pid == tpgid && candidates[k].executable is Some {
        Some(k)
    } else {
        leader_from(candidates, tpgid, k + 1)
    }
}

/// A certain identity anywhere in the group goes before a command line, and a
/// command line before the mere group leader.
pub open spec fn choice_of(
    candidates: Seq<EvidenceModel>,
    facts: Seq<CandidateFacts>,
    tpgid: i64,
) -> GroupChoice {
    match first_recognised(facts, 0) {
        Some(k) => GroupChoice::Matched {
            candidate: k as usize,
            configured: facts[k].recognised->0,
        },
        None => match first_by_command(facts, 0) {
            Some(k) => GroupChoice::Matched { candidate: k as usize, configured: 0 },
            None => match leader_from(candidates, tpgid, 0) {
                Some(k) => GroupChoice::Leader(k as usize),
                None => GroupChoice::Nothing,
            },
        },
    }
}

/// Chooses the process of a foreground group that counts.
pub fn choose_candidate(
    candidates: &Vec<ProcessEvidence>,
    facts: &Vec<CandidateFacts>,
    tpgid: i64,
) -> (r: GroupChoice)
    requires
        candidates@.len() == facts@.len(),
    ensures
        r == choice_of(evidence::evidence_list(candidates@), facts@, tpgid),
        r matches GroupChoice::Matched { candidate, configured } ==> candidate < candidates@.len()
            && (facts@[candidate as int].recognised == Some(configured) || (
        facts@[candidate as int].regex && configured == 0)),
        r matches GroupChoice::Leader(k) ==> k < candidates@.len()
            && candidates@[k as int].executable is Some,
{
    let ghost all = evidence::evidence_list(candidates@);
    let mut k: usize = 0;
    while k < facts.len()
        invariant
            k <= facts.len(),
            first_recognised(facts@, 0) == first_recognised(facts@, k as int),
        decreases facts.len() - k,
    {
        if let Some(configured) = facts[k].recognised {
            return GroupChoice::Matched { candidate: k, configured };
        }
        k += 1;
    }
    let mut j: usize = 0;
    while j < facts.len()
        invariant
            j <= facts.len(),
            first_by_command(facts@, 0) == first_by_command(facts@, j as int),
        decreases facts.len() - j,
    {
        if facts[j].regex {
            return GroupChoice::Matched { candidate: j, configured: 0 };
        }
        j += 1;
    }
    let mut i: usize = 0;
    while i < candidates.len()
        invariant
            i <= candidates.len(),
            leader_from(all, tpgid, 0) == leader_from(all, tpgid, i as int),
        decreases candidates.len() - i,
    {
        assert(all[i as int] == candidates@[i as int]@);
        if candidates[i].pid as i64 == tpgid && candidates[i].executable.is_some() {
            return GroupChoice::Leader(i);
        }
        i += 1;
    }
    GroupChoice::Nothing
}

/// A second look shows the same process.
pub open spec fn still_same(seen: EvidenceModel, again: Option<EvidenceModel>) -> bool {
    again is Some && evidence::same_evidence(seen, again->0)
}

/// A second look shows the same foreground.
pub open spec fn still_foreground(pane: EvidenceModel, again: Option<EvidenceModel>) -> bool {
    again is Some && evidence::same_foreground(pane, again->0)
}

pub open spec fn option_evidence(e: Option<ProcessEvidence>) -> Option<EvidenceModel> {
    match e {
        Some(e) => Some(e@),
        None => None,
    }
}

pub fn is_still_same(seen: &ProcessEvidence, again: &Option<ProcessEvidence>) -> (r: bool)
    ensures
        r == still_same(seen@, option_evidence(*again)),
{
    match again {
        Some(current) => same_process_evidence(seen, current),
        None => false,
    }
}

pub fn is_still_foreground(pane: &ProcessEvidence, again: &Option<ProcessEvidence>) -> (r: bool)
    ensures
        r == still_foreground(pane@, option_evidence(*again)),
{
    match again {
        Some(current) => same_foreground_snapshot(pane, current),
        None => false,
    }
}

/// An interactive shell that leads the foreground of its own terminal, twice.
pub open spec fn is_foreground_shell(
    pane: EvidenceModel,
    again: Option<EvidenceModel>,
    known_executable: bool,
    command: Seq<char>,
) -> bool {
    &&& command == "bash"@ || command == "zsh"@
    &&& leads_terminal(pane)
    &&& pane.pid == pane.pgrp
    &&& pane.pgrp == pane.tpgid
    &&& known_executable
    &&& command::interactive(pane.arguments, command)
    &&& still_foreground(pane, again)
    &&& evidence::same_executable(again->0.executable, pane.executable)
    &&& again->0.arguments == pane.arguments
}

pub fn foreground_shell(
    pane: &ProcessEvidence,
    again: &Option<ProcessEvidence>,
    known_executable: bool,
    command: &str,
) -> (r: bool)
    ensures
        r == is_foreground_shell(pane@, option_evidence(*again), known_executable, command@),
{
    if !text_equal(command, "bash") && !text_equal(command, "zsh") {
        return false;
    }
    if pane.tty_nr == 0 || pane.tpgid <= 0 || pane.pid as i64 != pane.pgrp || pane.pgrp
        != pane.tpgid || !known_executable {
        return false;
    }
    if !interactive_shell_arguments(&pane.arguments, command) {
        return false;
    }
    match again {
        Some(current) => same_foreground_snapshot(pane, current) && executables_agree(
            &current.executable,
            &pane.executable,
        ) && words_agree(&current.arguments, &pane.arguments),
        None => false,
    }
}

/// The process with a number.
pub open spec fn numbered(processes: Seq<EvidenceModel>, pid: u32, k: int) -> Option<int>
    decreases processes.len() - k,
{
    if k >= processes.len() {
        None
    } else if processes[k].pid == pid {
        Some(k)
    } else {
        numbered(processes, pid, k + 1)
    }
}

proof fn numbered_in_range(processes: Seq<EvidenceModel>, pid: u32, k: int)
    requires
        0 <= k,
        numbered(processes, pid, k) is Some,
    ensures
        k <= numbered(processes, pid, k)->0 < processes.len(),
    decreases processes.len() - k,
{
    if k < processes.len() && processes[k].pid != pid {
        numbered_in_range(processes, pid, k + 1);
    }
}

fn find_process(processes: &Vec<ProcessEvidence>, pid: u32) -> (r: Option<usize>)
    ensures
        match r {
            Some(i) => i < processes@.len() && numbered(
                evidence::evidence_list(processes@),
                pid,
                0,
            ) == Some(i as int),
            None => numbered(evidence::evidence_list(processes@), pid, 0) is None,
        },
{
    let ghost all = evidence::evidence_list(processes@);
    let mut i: usize = 0;
    while i < processes.len()
        invariant
            i <= processes.len(),
            numbered(all, pid, 0) == numbered(all, pid, i as int),
        decreases processes.len() - i,
    {
        assert(all[i as int] == processes@[i as int]@);
        if processes[i].pid == pid {
            return Some(i);
        }
        i += 1;
    }
    None
}

/// In a new snapshot the leader and the candidate are as they were, and the
/// candidate is still in scope.
pub open spec fn scoped_current(
    initial: EvidenceModel,
    candidate: EvidenceModel,
    current: Seq<EvidenceModel>,
    scope: MatchScope,
) -> bool {
    let leader = numbered(current, initial.pid, 0);
    let again = numbered(current, candidate.pid, 0);
    &&& leader is Some
    &&& again is Some
    &&& evidence::same_evidence(initial, current[leader->0])
    &&& evidence::same_evidence(candidate, current[again->0])
    &&& match scope {
        MatchScope::Foreground => false,
        MatchScope::PaneTree => evidence::descends(current, initial.pid, candidate.pid),
        MatchScope::PaneTty => current[leader->0].tty_nr == initial.tty_nr,
    }
}

fn in_tree(processes: &Vec<ProcessEvidence>, root: u32, pid: u32) -> (r: bool)
    requires
        exists|i: int|
            0 <= i < processes@.len() && (#[trigger] processes@[i]).pid == pid,
    ensures
        r == evidence::descends(evidence::evidence_list(processes@), root, pid),
{
    let ghost all = evidence::evidence_list(processes@);
    let tree = descendants(processes, root);
    let ghost kept = evidence::evidence_list(tree@);
    proof {
        let i = choose|i: int| 0 <= i < processes@.len() && (#[trigger] processes@[i]).pid == pid;
        assert(all[i].pid == pid);
        tree_members(all, all, root, i);
    }
    let mut k: usize = 0;
    while k < tree.len()
        invariant
            k <= tree.len(),
            forall|j: int| 0 <= j < k ==> (#[trigger] kept[j]).pid != pid,
        decreases tree.len() - k,
    {
        assert(kept[k as int] == tree@[k as int]@);
        if tree[k].pid == pid {
            proof {
                tree_descends(all, all, root, k as int);
            }
            return true;
        }
        k += 1;
    }
    false
}

proof fn tree_descends(
    processes: Seq<EvidenceModel>,
    all: Seq<EvidenceModel>,
    root: u32,
    k: int,
)
    requires
        0 <= k < evidence::tree_of(processes, all, root).len(),
    ensures
        evidence::descends(all, root, evidence::tree_of(processes, all, root)[k].pid),
    decreases processes.len(),
{
    let rest = evidence::tree_of(processes.drop_last(), all, root);
    if k < rest.len() {
        tree_descends(processes.drop_last(), all, root, k);
    }
}

proof fn tree_members(
    processes: Seq<EvidenceModel>,
    all: Seq<EvidenceModel>,
    root: u32,
    i: int,
)
    requires
        0 <= i < processes.len(),
    ensures
        evidence::descends(all, root, processes[i].pid) ==> exists|k: int|
            0 <= k < evidence::tree_of(processes, all, root).len() && (
            #[trigger] evidence::tree_of(processes, all, root)[k]).pid == processes[i].pid,
    decreases processes.len(),
{
    let rest = evidence::tree_of(processes.drop_last(), all, root);
    let tree = evidence::tree_of(processes, all, root);
    if i < processes.len() - 1 {
        assert(processes.drop_last()[i] == processes[i]);
        tree_members(processes.drop_last(), all, root, i);
        if evidence::descends(all, root, processes[i].pid) {
            let k = choose|k: int|
                0 <= k < rest.len() && (#[trigger] rest[k]).pid == processes[i].pid;
            assert(tree[k] == rest[k]);
        }
    } else if evidence::descends(all, root, processes[i].pid) {
        assert(tree[tree.len() - 1] == processes[i]);
    }
}

/// Whether a candidate still counts, given a new snapshot.
pub fn scoped_candidate_is_current(
    initial: &ProcessEvidence,
    candidate: &ProcessEvidence,
    current: &Vec<ProcessEvidence>,
    scope: MatchScope,
) -> (r: bool)
    ensures
        r == scoped_current(
            initial@,
            candidate@,
            evidence::evidence_list(current@),
            scope,
        ),
{
    let ghost all = evidence::evidence_list(current@);
    let leader: usize = match find_process(current, initial.pid) {
        Some(i) => i,
        None => return false,
    };
    let again: usize = match find_process(current, candidate.pid) {
        Some(i) => i,
        None => return false,
    };
    assert(all[leader as int] == current@[leader as int]@);
    assert(all[again as int] == current@[again as int]@);
    if !same_process_evidence(initial, &current[leader]) || !same_process_evidence(
        candidate,
        &current[again],
    ) {
        return false;
    }
    match scope {
        MatchScope::Foreground => false,
        MatchScope::PaneTree => {
            assert(current@[again as int].pid == candidate.pid);
            in_tree(current, initial.pid, candidate.pid)
        },
        MatchScope::PaneTty => current[leader].tty_nr == initial.tty_nr,
    }
}

// ---------------------------------------------------------------------------
// The inspector
// ---------------------------------------------------------------------------

/// Boundary for reading procfs and resolving paths.
pub trait ProcFiles {
    /// Reads the files of one process.
    fn read_process(&mut self, pid: u32) -> ProcReads;

    /// The names of the entries of procfs.
    fn process_entries(&mut self) -> Result<Vec<Vec<u8>>, String>;

    /// A path with its symbolic links resolved, `None` where it does not resolve.
    fn canonical(&mut self, path: &UnixPath) -> Option<UnixPath>;

    fn is_file(&mut self, path: &UnixPath) -> bool;

    /// The directories in which programs are searched.
    fn search_path(&mut self) -> Vec<UnixPath>;

    /// The device number of a character device.
    fn device(&mut self, path: &UnixPath) -> Option<u64>;
}

/// The process that satisfied a search.
#[derive(Debug)]
pub struct MatchedProcess {
    pub path: UnixPath,
    pub identity: ProcessMatchIdentity,
    /// Whether it is more than the mere group leader.
    pub proven_match: bool,
}

pub open spec fn found_view(r: Result<Option<MatchedProcess>, String>) -> Result<
    Option<FoundModel>,
    Seq<char>,
> {
    match r {
        Ok(Some(found)) => Ok(
            Some(
                FoundModel {
                    path: found.path@,
                    identity: found.identity,
                    proven: found.proven_match,
                },
            ),
        ),
        Ok(None) => Ok(None),
        Err(e) => Err(e@),
    }
}

pub open spec fn snapshot_view(r: Result<Vec<ProcessEvidence>, String>) -> Result<
    Seq<EvidenceModel>,
    Seq<char>,
> {
    match r {
        Ok(processes) => Ok(evidence::evidence_list(processes@)),
        Err(e) => Err(e@),
    }
}

pub open spec fn entries_view(r: Result<Vec<Vec<u8>>, String>) -> Result<
    Seq<Seq<u8>>,
    Seq<char>,
> {
    match r {
        Ok(entries) => Ok(text::words(entries@)),
        Err(e) => Err(e@),
    }
}

/// An answer of procfs as callers see it: a failure names the root.
pub open spec fn answer_of<T>(r: Result<T, Seq<char>>, root: Seq<u8>) -> Result<T, ErrorModel> {
    match r {
        Ok(v) => Ok(v),
        Err(source) => Err(ErrorModel::Filesystem { path: root, source }),
    }
}

/// A replayed answer, with the error that names the root, ends the log.
pub open spec fn answered<T>(
    replayed: Option<(Result<T, Seq<char>>, int)>,
    r: Result<T, ErrorModel>,
    root: Seq<u8>,
    end: int,
) -> bool {
    replayed is Some && (replayed->0).1 == end && r == answer_of((replayed->0).0, root)
}

/// Whether a search found something.
pub open spec fn is_there(replayed: Option<(Result<Option<FoundModel>, Seq<char>>, int)>) -> Option<
    (Result<bool, Seq<char>>, int),
> {
    match replayed {
        None => None,
        Some((Err(e), n)) => Some((Err(e), n)),
        Some((Ok(found), n)) => Some((Ok(found is Some), n)),
    }
}

/// The identity of what a search proved.
pub open spec fn proven_identity(
    replayed: Option<(Result<Option<FoundModel>, Seq<char>>, int)>,
) -> Option<(Result<Option<ProcessMatchIdentity>, Seq<char>>, int)> {
    match replayed {
        None => None,
        Some((Err(e), n)) => Some((Err(e), n)),
        Some((Ok(found), n)) => Some(
            (
                Ok(
                    if found is Some && found->0.proven {
                        Some(found->0.identity)
                    } else {
                        None
                    },
                ),
                n,
            ),
        ),
    }
}

pub open spec fn path_answer(r: Result<Option<UnixPath>, String>) -> Result<
    Option<Seq<u8>>,
    Seq<char>,
> {
    match r {
        Ok(p) => Ok(domain::path_view(p)),
        Err(e) => Err(e@),
    }
}

pub open spec fn answers_view(v: Seq<Result<Option<UnixPath>, String>>) -> Seq<
    Result<Option<Seq<u8>>, Seq<char>>,
> {
    Seq::new(v.len(), |i: int| path_answer(v[i]))
}

pub open spec fn leaders_view(v: Seq<Result<Option<ProcessEvidence>, String>>) -> Seq<
    Result<Option<EvidenceModel>, Seq<char>>,
> {
    Seq::new(v.len(), |i: int| evidence::evidence_view(v[i]))
}

/// The paths of answers; a failure has none.
pub open spec fn found_paths(v: Seq<Result<Option<Seq<u8>>, Seq<char>>>) -> Seq<Option<Seq<u8>>> {
    Seq::new(
        v.len(),
        |i: int|
            match v[i] {
                Ok(p) => p,
                Err(_) => None,
            },
    )
}

/// The answers of a batch, without their failures, end the log.
pub open spec fn batch_answered(
    replayed: Option<(Seq<Result<Option<Seq<u8>>, Seq<char>>>, int)>,
    r: Seq<Option<Seq<u8>>>,
    end: int,
) -> bool {
    replayed is Some && (replayed->0).1 == end && r == found_paths((replayed->0).0)
}

/// Finds configured programs in panes.
pub struct LinuxProcessInspector<P> {
    /// The process files, with every question that was asked so far and its answer.
    pub files: LoggedProc<P>,
    /// What an error names.
    pub proc_root: UnixPath,
    pub recognized: Vec<CodexExecutable>,
    pub match_scope: MatchScope,
    pub match_command_regexes: Vec<String>,
}

/// A process was among those seen, from a position on.
pub open spec fn recorded(s: Seq<EvidenceModel>, from: int, e: EvidenceModel) -> bool {
    exists|k: int| from <= k < s.len() && #[trigger] s[k] == e
}

/// Each of the processes was among those seen, from a position on.
pub open spec fn all_recorded(list: Seq<EvidenceModel>, s: Seq<EvidenceModel>, from: int) -> bool {
    forall|i: int| 0 <= i < list.len() ==> recorded(s, from, #[trigger] list[i])
}

/// A process was seen, and later seen again without a difference.
pub open spec fn seen_twice(s: Seq<EvidenceModel>, identity: ProcessMatchIdentity) -> bool {
    exists|i: int, j: int|
        0 <= i < j < s.len() && s[i].pid == identity.pid && s[i].start_time == identity.start_time
            && evidence::same_evidence(#[trigger] s[i], #[trigger] s[j])
}

proof fn recorded_later(
    list: Seq<EvidenceModel>,
    s: Seq<EvidenceModel>,
    t: Seq<EvidenceModel>,
    from: int,
)
    requires
        0 <= from,
        all_recorded(list, s, from),
        s.is_prefix_of(t),
    ensures
        all_recorded(list, t, from),
{
    assert forall|i: int| 0 <= i < list.len() implies recorded(t, from, #[trigger] list[i]) by {
        assert(recorded(s, from, list[i]));
        let k = choose|k: int| from <= k < s.len() && #[trigger] s[k] == list[i];
        assert(t[k] == s[k]);
    }
}

proof fn inserted_is_recorded(
    list: Seq<EvidenceModel>,
    e: EvidenceModel,
    s: Seq<EvidenceModel>,
    from: int,
)
    requires
        all_recorded(list, s, from),
        recorded(s, from, e),
    ensures
        all_recorded(evidence::inserted(list, e), s, from),
    decreases list.len(),
{
    let new = evidence::inserted(list, e);
    if list.len() > 0 && e.pid < list.last().pid {
        let head = list.drop_last();
        assert forall|i: int| 0 <= i < head.len() implies recorded(s, from, #[trigger] head[i]) by {
            assert(head[i] == list[i]);
        }
        inserted_is_recorded(head, e, s, from);
        let rest = evidence::inserted(head, e);
        assert(recorded(s, from, list[list.len() - 1]));
        assert forall|i: int| 0 <= i < new.len() implies recorded(s, from, #[trigger] new[i]) by {
            if i < rest.len() {
                assert(new[i] == rest[i]);
            }
        }
    } else {
        assert forall|i: int| 0 <= i < new.len() implies recorded(s, from, #[trigger] new[i]) by {
            if i < list.len() {
                assert(new[i] == list[i]);
            }
        }
    }
}

proof fn parts_are_recorded(
    processes: Seq<EvidenceModel>,
    all: Seq<EvidenceModel>,
    pane: EvidenceModel,
    root: u32,
    tty_nr: i64,
    s: Seq<EvidenceModel>,
    from: int,
)
    requires
        all_recorded(processes, s, from),
    ensures
        all_recorded(evidence::group_of(processes, pane), s, from),
        all_recorded(evidence::tree_of(processes, all, root), s, from),
        all_recorded(evidence::on_terminal(processes, tty_nr), s, from),
    decreases processes.len(),
{
    if processes.len() > 0 {
        let head = processes.drop_last();
        assert forall|i: int| 0 <= i < head.len() implies recorded(s, from, #[trigger] head[i]) by {
            assert(head[i] == processes[i]);
        }
        parts_are_recorded(head, all, pane, root, tty_nr, s, from);
        let last = processes.last();
        assert(recorded(s, from, processes[processes.len() - 1]));
        extended_is_recorded(evidence::group_of(head, pane), last, s, from);
        extended_is_recorded(evidence::tree_of(head, all, root), last, s, from);
        extended_is_recorded(evidence::on_terminal(head, tty_nr), last, s, from);
    }
}

proof fn extended_is_recorded(
    list: Seq<EvidenceModel>,
    e: EvidenceModel,
    s: Seq<EvidenceModel>,
    from: int,
)
    requires
        all_recorded(list, s, from),
        recorded(s, from, e),
    ensures
        all_recorded(list.push(e), s, from),
{
    let new = list.push(e);
    assert forall|i: int| 0 <= i < new.len() implies recorded(s, from, #[trigger] new[i]) by {
        if i < list.len() {
            assert(new[i] == list[i]);
        }
    }
}

proof fn twice(s: Seq<EvidenceModel>, a: EvidenceModel, b: EvidenceModel, from: int)
    requires
        0 <= from <= s.len(),
        recorded(s.take(from), 0, a),
        recorded(s, from, b),
        evidence::same_evidence(a, b),
    ensures
        seen_twice(s, ProcessMatchIdentity { pid: a.pid, start_time: a.start_time }),
{
    let i = choose|i: int| 0 <= i < s.take(from).len() && #[trigger] s.take(from)[i] == a;
    let j = choose|j: int| from <= j < s.len() && #[trigger] s[j] == b;
    assert(s[i] == a && s[j] == b);
}

/// Where a search for a configured program ended.
pub open spec fn is_configured(recognized: Seq<CodexExecutable>, p: Seq<u8>) -> bool {
    exists|i: int| 0 <= i < recognized.len() && (#[trigger] recognized[i])@ == p
}

/// Why the expressions are refused: the first one that does not compile.
pub open spec fn expressions_problem(expressions: Seq<Seq<char>>, n: nat) -> Option<ErrorModel>
    decreases n,
{
    if n == 0 {
        None
    } else {
        match expressions_problem(expressions, (n - 1) as nat) {
            Some(problem) => Some(problem),
            None => match pattern::regex_error(expressions[n - 1]) {
                Some(detail) => Some(
                    ErrorModel::InvalidValue {
                        field: "process match command regex"@,
                        message: "invalid regex "@ + text::debug_text(expressions[n - 1]) + ": "@
                            + detail,
                    },
                ),
                None => None,
            },
        }
    }
}

proof fn expression_problem_stays(expressions: Seq<Seq<char>>, m: nat, n: nat)
    requires
        m <= n,
        expressions_problem(expressions, m) is Some,
    ensures
        expressions_problem(expressions, n) == expressions_problem(expressions, m),
    decreases n,
{
    if m < n {
        expression_problem_stays(expressions, m, (n - 1) as nat);
    }
}

impl<P: ProcFiles> LinuxProcessInspector<P> {
    /// A command line can only match where there is an executable to report.
    pub open spec fn usable(&self) -> bool {
        self.recognized@.len() > 0 || self.match_command_regexes@.len() == 0
    }

    /// Everything but the boundary is as it was, and more may have been seen.
    pub open spec fn same_settings(&self, other: &Self) -> bool {
        &&& other.files.sightings().is_prefix_of(self.files.sightings())
        &&& replay::agrees(self.files.events(), other.files.events())
        &&& self.proc_root == other.proc_root
        &&& self.recognized == other.recognized
        &&& self.match_scope == other.match_scope
        &&& self.match_command_regexes == other.match_command_regexes
    }

    /// What is searched for, and where.
    pub open spec fn search(&self) -> SearchModel {
        SearchModel {
            configured: inventory::executable_list(self.recognized@),
            expressions: text::texts(self.match_command_regexes@),
            scope: self.match_scope,
        }
    }

    /// An inspector for one executable, with the process file system at its place.
    pub fn new(files: P, codex: CodexExecutable) -> (r: Self)
        ensures
            r.files.wrapped() == files,
            r.proc_root@ == text::utf8("/proc"@),
            r.recognized@ == seq![codex],
            r.match_scope == MatchScope::Foreground,
            r.match_command_regexes@.len() == 0,
            r.usable(),
    {
        Self::with_proc_root(files, codex, UnixPath::new("/proc"))
    }

    /// An inspector for one executable.
    pub fn with_proc_root(files: P, codex: CodexExecutable, proc_root: UnixPath) -> (r: Self)
        ensures
            r.files.wrapped() == files,
            r.proc_root == proc_root,
            r.recognized@ == seq![codex],
            r.match_scope == MatchScope::Foreground,
            r.match_command_regexes@.len() == 0,
            r.usable(),
    {
        let mut recognized: Vec<CodexExecutable> = Vec::new();
        recognized.push(codex);
        LinuxProcessInspector {
            files: LoggedProc::new(files),
            proc_root,
            recognized,
            match_scope: MatchScope::Foreground,
            match_command_regexes: Vec::new(),
        }
    }

    /// An inspector for executables of which there is at least one, with the process file
    /// system at its place.
    pub fn matching_executables(files: P, recognized: Vec<CodexExecutable>) -> (r: Self)
        requires
            recognized@.len() > 0,
        ensures
            r.files.wrapped() == files,
            r.proc_root@ == text::utf8("/proc"@),
            r.recognized == recognized,
            r.match_scope == MatchScope::Foreground,
            r.match_command_regexes@.len() == 0,
            r.usable(),
    {
        let primary = recognized[0].clone();
        Self::with_executables(files, primary, recognized)
    }

    /// An inspector for several executables, with the process file system at its place.
    /// The primary executable is recognized where it is one of them.
    pub fn with_executables(
        files: P,
        codex: CodexExecutable,
        recognized: Vec<CodexExecutable>,
    ) -> (r: Self)
        ensures
            r.files.wrapped() == files,
            r.proc_root@ == text::utf8("/proc"@),
            r.recognized == recognized,
            r.match_scope == MatchScope::Foreground,
            r.match_command_regexes@.len() == 0,
            r.usable(),
    {
        Self::with_proc_root_and_executables(files, codex, recognized, UnixPath::new("/proc"))
    }

    /// An inspector for several executables. The primary executable is recognized where
    /// it is one of them.
    pub fn with_proc_root_and_executables(
        files: P,
        _codex: CodexExecutable,
        recognized: Vec<CodexExecutable>,
        proc_root: UnixPath,
    ) -> (r: Self)
        ensures
            r.files.wrapped() == files,
            r.proc_root == proc_root,
            r.recognized == recognized,
            r.match_scope == MatchScope::Foreground,
            r.match_command_regexes@.len() == 0,
            r.usable(),
    {
        LinuxProcessInspector {
            files: LoggedProc::new(files),
            proc_root,
            recognized,
            match_scope: MatchScope::Foreground,
            match_command_regexes: Vec::new(),
        }
    }

    /// An inspector with a scope and expressions for command lines, with the process file
    /// system at its place.
    pub fn with_matcher(
        files: P,
        recognized: Vec<CodexExecutable>,
        match_scope: MatchScope,
        match_command_regexes: Vec<String>,
    ) -> (r: Result<Self, MuxError>)
        requires
            recognized@.len() > 0,
        ensures
            ({
                let problem = expressions_problem(
                    text::texts(match_command_regexes@),
                    match_command_regexes@.len(),
                );
                match r {
                    Ok(inspector) => {
                        &&& problem is None
                        &&& inspector.files.wrapped() == files
                        &&& inspector.proc_root@ == text::utf8("/proc"@)
                        &&& inspector.recognized == recognized
                        &&& inspector.match_scope == match_scope
                        &&& inspector.match_command_regexes == match_command_regexes
                        &&& inspector.usable()
                    },
                    Err(e) => problem == Some(e@),
                }
            }),
    {
        Self::with_proc_root_and_matcher(
            files,
            recognized,
            match_scope,
            match_command_regexes,
            UnixPath::new("/proc"),
        )
    }

    /// An inspector with a scope and expressions for command lines.
    pub fn with_proc_root_and_matcher(
        files: P,
        recognized: Vec<CodexExecutable>,
        match_scope: MatchScope,
        match_command_regexes: Vec<String>,
        proc_root: UnixPath,
    ) -> (r: Result<Self, MuxError>)
        requires
            recognized@.len() > 0,
        ensures
            ({
                let problem = expressions_problem(
                    text::texts(match_command_regexes@),
                    match_command_regexes@.len(),
                );
                match r {
                    Ok(inspector) => {
                        &&& problem is None
                        &&& inspector.files.wrapped() == files
                        &&& inspector.proc_root == proc_root
                        &&& inspector.recognized == recognized
                        &&& inspector.match_scope == match_scope
                        &&& inspector.match_command_regexes == match_command_regexes
                        &&& inspector.usable()
                    },
                    Err(e) => problem == Some(e@),
                }
            }),
    {
        let ghost all = text::texts(match_command_regexes@);
        let mut i: usize = 0;
        while i < match_command_regexes.len()
            invariant
                i <= match_command_regexes.len(),
                expressions_problem(all, i as nat) is None,
            decreases match_command_regexes.len() - i,
        {
            assert(all[i as int] == match_command_regexes@[i as int]@);
            if let Some(detail) = pattern::refusal(&match_command_regexes[i]) {
                let mut message = "invalid regex ".to_owned();
                message.append(&text::debug_quoted(&match_command_regexes[i]));
                message.append(": ");
                message.append(&detail);
                proof {
                    expression_problem_stays(all, (i + 1) as nat, all.len());
                }
                return Err(
                    MuxError::InvalidValue { field: "process match command regex", message },
                );
            }
            i += 1;
        }
        Ok(
            LinuxProcessInspector {
                files: LoggedProc::new(files),
                proc_root,
                recognized,
                match_scope,
                match_command_regexes,
            },
        )
    }

    fn read(&mut self, pid: u32) -> (r: Result<Option<ProcessEvidence>, String>)
        ensures
            final(self).same_settings(old(self)),
            match r {
                Ok(Some(e)) => e.pid == pid && final(self).files.sightings() == old(self).files.sightings().push(e@),
                _ => final(self).files.sightings() == old(self).files.sightings(),
            },
            forall|w: Seq<ProcEvent>|
                replay::agrees(w, final(self).files.events()) ==> #[trigger] replay::read_at(
                    w,
                    old(self).files.events().len() as int,
                    pid,
                ) == Some((evidence::evidence_view(r), final(self).files.events().len() as int)),
    {
        let reads = self.files.read_process(pid);
        let r = assemble(pid, reads);
        proof {
            let log = self.files.events();
            let k = old(self).files.events().len() as int;
            assert(log[k] == ProcEvent::Read { pid, reply: evidence::evidence_view(r) });
            assert forall|w: Seq<ProcEvent>| replay::agrees(w, log) implies #[trigger] replay::read_at(
                w,
                k,
                pid,
            ) == Some((evidence::evidence_view(r), log.len() as int)) by {
                assert(w[k] == log[k]);
            }
        }
        r
    }

    fn list_entries(&mut self) -> (r: Result<Vec<Vec<u8>>, String>)
        ensures
            final(self).same_settings(old(self)),
            final(self).files.sightings() == old(self).files.sightings(),
            forall|w: Seq<ProcEvent>|
                replay::agrees(w, final(self).files.events()) ==> #[trigger] replay::entries_at(
                    w,
                    old(self).files.events().len() as int,
                ) == Some((entries_view(r), final(self).files.events().len() as int)),
    {
        let r = self.files.process_entries();
        proof {
            let log = self.files.events();
            let k = old(self).files.events().len() as int;
            assert forall|w: Seq<ProcEvent>| replay::agrees(w, log) implies #[trigger] replay::entries_at(
                w,
                k,
            ) == Some((entries_view(r), log.len() as int)) by {
                assert(w[k] == log[k]);
            }
        }
        r
    }

    fn canonical(&mut self, p: &UnixPath) -> (r: Option<UnixPath>)
        ensures
            final(self).same_settings(old(self)),
            final(self).files.sightings() == old(self).files.sightings(),
            forall|w: Seq<ProcEvent>|
                replay::agrees(w, final(self).files.events()) ==> #[trigger] replay::canonical_at(
                    w,
                    old(self).files.events().len() as int,
                    p@,
                ) == Some((domain::path_view(r), final(self).files.events().len() as int)),
    {
        let r = self.files.canonical(p);
        proof {
            let log = self.files.events();
            let k = old(self).files.events().len() as int;
            assert forall|w: Seq<ProcEvent>| replay::agrees(w, log) implies #[trigger] replay::canonical_at(
                w,
                k,
                p@,
            ) == Some((domain::path_view(r), log.len() as int)) by {
                assert(w[k] == log[k]);
            }
        }
        r
    }

    fn is_file(&mut self, p: &UnixPath) -> (r: bool)
        ensures
            final(self).same_settings(old(self)),
            final(self).files.sightings() == old(self).files.sightings(),
            forall|w: Seq<ProcEvent>|
                replay::agrees(w, final(self).files.events()) ==> #[trigger] replay::is_file_at(
                    w,
                    old(self).files.events().len() as int,
                    p@,
                ) == Some((r, final(self).files.events().len() as int)),
    {
        let r = self.files.is_file(p);
        proof {
            let log = self.files.events();
            let k = old(self).files.events().len() as int;
            assert forall|w: Seq<ProcEvent>| replay::agrees(w, log) implies #[trigger] replay::is_file_at(
                w,
                k,
                p@,
            ) == Some((r, log.len() as int)) by {
                assert(w[k] == log[k]);
            }
        }
        r
    }

    fn search_path(&mut self) -> (r: Vec<UnixPath>)
        ensures
            final(self).same_settings(old(self)),
            final(self).files.sightings() == old(self).files.sightings(),
            forall|w: Seq<ProcEvent>|
                replay::agrees(w, final(self).files.events()) ==> #[trigger] replay::search_at(
                    w,
                    old(self).files.events().len() as int,
                ) == Some((domain::path_list(r@), final(self).files.events().len() as int)),
    {
        let r = self.files.search_path();
        proof {
            let log = self.files.events();
            let k = old(self).files.events().len() as int;
            assert forall|w: Seq<ProcEvent>| replay::agrees(w, log) implies #[trigger] replay::search_at(
                w,
                k,
            ) == Some((domain::path_list(r@), log.len() as int)) by {
                assert(w[k] == log[k]);
            }
        }
        r
    }

    fn device(&mut self, p: &UnixPath) -> (r: Option<u64>)
        ensures
            final(self).same_settings(old(self)),
            final(self).files.sightings() == old(self).files.sightings(),
            forall|w: Seq<ProcEvent>|
                replay::agrees(w, final(self).files.events()) ==> #[trigger] replay::device_at(
                    w,
                    old(self).files.events().len() as int,
                    p@,
                ) == Some((r, final(self).files.events().len() as int)),
    {
        let r = self.files.device(p);
        proof {
            let log = self.files.events();
            let k = old(self).files.events().len() as int;
            assert forall|w: Seq<ProcEvent>| replay::agrees(w, log) implies #[trigger] replay::device_at(
                w,
                k,
                p@,
            ) == Some((r, log.len() as int)) by {
                assert(w[k] == log[k]);
            }
        }
        r
    }

    /// Every process that can be read, by number.
    fn process_snapshot(&mut self) -> (r: Result<Vec<ProcessEvidence>, String>)
        ensures
            final(self).same_settings(old(self)),
            r matches Ok(processes) ==> all_recorded(
                evidence::evidence_list(processes@),
                final(self).files.sightings(),
                old(self).files.sightings().len() as int,
            ),
            forall|w: Seq<ProcEvent>|
                replay::agrees(w, final(self).files.events()) ==> #[trigger] replay::snapshot_at(
                    w,
                    old(self).files.events().len() as int,
                ) == Some((snapshot_view(r), final(self).files.events().len() as int)),
    {
        let ghost start = self.files.sightings().len() as int;
        let entries = match self.list_entries() {
            Ok(entries) => entries,
            Err(e) => return Err(e),
        };
        let ghost listed = self.files.events();
        let ghost names = text::words(entries@);
        let mut processes: Vec<ProcessEvidence> = Vec::new();
        assert(evidence::evidence_list(processes@) =~= Seq::<EvidenceModel>::empty());
        let mut i: usize = 0;
        while i < entries.len()
            invariant
                i <= entries.len(),
                self.same_settings(old(self)),
                replay::agrees(self.files.events(), listed),
                names == text::words(entries@),
                start == old(self).files.sightings().len(),
                all_recorded(evidence::evidence_list(processes@), self.files.sightings(), start),
                forall|w: Seq<ProcEvent>|
                    replay::agrees(w, self.files.events()) ==> #[trigger] replay::snapshot_from(
                        w,
                        listed.len() as int,
                        names,
                        0,
                        Seq::empty(),
                    ) == replay::snapshot_from(
                        w,
                        self.files.events().len() as int,
                        names,
                        i as int,
                        evidence::evidence_list(processes@),
                    ),
            decreases entries.len() - i,
        {
            assert(names[i as int] == entries@[i as int]@);
            if let Some(pid) = parse_entry(&entries[i]) {
                let ghost before = self.files.sightings();
                let reply = self.read(pid);
                proof {
                    recorded_later(
                        evidence::evidence_list(processes@),
                        before,
                        self.files.sightings(),
                        start,
                    );
                }
                if let Ok(Some(process)) = reply {
                    proof {
                        assert(self.files.sightings()[self.files.sightings().len() - 1] == process@);
                        inserted_is_recorded(
                            evidence::evidence_list(processes@),
                            process@,
                            self.files.sightings(),
                            start,
                        );
                    }
                    processes = insert_process(processes, process);
                }
            }
            i += 1;
        }
        Ok(processes)
    }

    /// What the configured executables resolve to; with `named`, one that does not
    /// resolve stands for itself.
    fn resolved(&mut self, named: bool) -> (r: Vec<Option<UnixPath>>)
        ensures
            final(self).same_settings(old(self)),
            final(self).files.sightings() == old(self).files.sightings(),
            r@.len() == final(self).recognized@.len(),
            forall|w: Seq<ProcEvent>|
                replay::agrees(w, final(self).files.events()) ==> #[trigger] replay::resolved_from(
                    w,
                    old(self).files.events().len() as int,
                    old(self).search().configured,
                    0,
                    named,
                    Seq::empty(),
                ) == Some((domain::paths_view(r@), final(self).files.events().len() as int)),
    {
        let ghost configured = self.search().configured;
        let mut r: Vec<Option<UnixPath>> = Vec::new();
        assert(domain::paths_view(r@) =~= Seq::<Option<Seq<u8>>>::empty());
        let mut i: usize = 0;
        while i < self.recognized.len()
            invariant
                i <= self.recognized@.len(),
                r@.len() == i,
                self.same_settings(old(self)),
                self.files.sightings() == old(self).files.sightings(),
                configured == self.search().configured,
                forall|w: Seq<ProcEvent>|
                    replay::agrees(w, self.files.events()) ==> #[trigger] replay::resolved_from(
                        w,
                        old(self).files.events().len() as int,
                        configured,
                        0,
                        named,
                        Seq::empty(),
                    ) == replay::resolved_from(
                        w,
                        self.files.events().len() as int,
                        configured,
                        i as int,
                        named,
                        domain::paths_view(r@),
                    ),
            decreases self.recognized@.len() - i,
        {
            let ghost before = domain::paths_view(r@);
            let p = self.recognized[i].as_path().clone();
            assert(configured[i as int] == p@);
            let file = match self.canonical(&p) {
                Some(file) => Some(file),
                None => if named {
                    Some(p)
                } else {
                    None
                },
            };
            let ghost one = domain::path_view(file);
            r.push(file);
            assert(domain::paths_view(r@) =~= before.push(one));
            i += 1;
        }
        r
    }

    /// Whether one of some places is the file of an executable.
    fn stands_at(&mut self, executable: &UnixPath, file: &Option<UnixPath>, places: &Vec<UnixPath>) -> (r:
        bool)
        ensures
            final(self).same_settings(old(self)),
            final(self).files.sightings() == old(self).files.sightings(),
            r ==> places@.len() > 0,
            forall|w: Seq<ProcEvent>|
                replay::agrees(w, final(self).files.events()) ==> #[trigger] replay::trusted_from(
                    w,
                    old(self).files.events().len() as int,
                    executable@,
                    domain::path_view(*file),
                    domain::path_list(places@),
                    0,
                ) == Some((r, final(self).files.events().len() as int)),
    {
        let ghost all = domain::path_list(places@);
        let mut i: usize = 0;
        while i < places.len()
            invariant
                i <= places.len(),
                self.same_settings(old(self)),
                self.files.sightings() == old(self).files.sightings(),
                all == domain::path_list(places@),
                forall|w: Seq<ProcEvent>|
                    replay::agrees(w, self.files.events()) ==> #[trigger] replay::trusted_from(
                        w,
                        old(self).files.events().len() as int,
                        executable@,
                        domain::path_view(*file),
                        all,
                        0,
                    ) == replay::trusted_from(
                        w,
                        self.files.events().len() as int,
                        executable@,
                        domain::path_view(*file),
                        all,
                        i as int,
                    ),
            decreases places.len() - i,
        {
            assert(all[i as int] == places@[i as int]@);
            if self.is_file(&places[i]) {
                let place = self.canonical(&places[i]);
                if names_same_file(&places[i], executable, &place, file) {
                    return true;
                }
            }
            i += 1;
        }
        false
    }

    /// Whether an executable is a trusted interpreter: its name is known and it is
    /// the program of that name in one of the usual places.
    fn is_trusted_interpreter(&mut self, executable: &UnixPath, file: &Option<UnixPath>) -> (r:
        bool)
        ensures
            final(self).same_settings(old(self)),
            final(self).files.sightings() == old(self).files.sightings(),
            r ==> path::file_name(executable@) is Some && command::known_interpreter(
                path::file_name(executable@)->0,
            ),
            forall|w: Seq<ProcEvent>|
                replay::agrees(w, final(self).files.events()) ==> #[trigger] replay::trusted_at(
                    w,
                    old(self).files.events().len() as int,
                    executable@,
                    domain::path_view(*file),
                ) == Some((r, final(self).files.events().len() as int)),
    {
        let search = self.search_path();
        let places = interpreter_candidates(executable, &search);
        proof {
            assert(domain::path_list(places@).len() == places@.len());
        }
        self.stands_at(executable, file, &places)
    }

    /// What the paths of a process resolve to.
    fn files_of(&mut self, process: &ProcessEvidence) -> (r: ProcessFiles)
        ensures
            final(self).same_settings(old(self)),
            final(self).files.sightings() == old(self).files.sightings(),
            r.trusted ==> process.executable is Some && path::file_name(
                process.executable->0@,
            ) is Some && command::known_interpreter(path::file_name(process.executable->0@)->0),
            forall|w: Seq<ProcEvent>|
                replay::agrees(w, final(self).files.events()) ==> #[trigger] replay::files_at(
                    w,
                    old(self).files.events().len() as int,
                    process@,
                ) == Some((r@, final(self).files.events().len() as int)),
    {
        let executable = match &process.executable {
            Some(executable) => executable,
            None => return ProcessFiles { executable: None, trusted: false, script: None },
        };
        let file = self.canonical(executable);
        let trusted = self.is_trusted_interpreter(executable, &file);
        let script = if trusted {
            match interpreted_script_argument(executable, &process.arguments) {
                Some(script) => self.canonical(&script),
                None => None,
            }
        } else {
            None
        };
        ProcessFiles { executable: file, trusted, script }
    }

    /// The facts of a process by which it is chosen.
    fn facts_of(
        &mut self,
        process: &ProcessEvidence,
        files: &Vec<Option<UnixPath>>,
        exact_first: bool,
    ) -> (r: CandidateFacts)
        requires
            files@.len() == old(self).recognized@.len(),
        ensures
            final(self).same_settings(old(self)),
            final(self).files.sightings() == old(self).files.sightings(),
            r.recognised matches Some(i) ==> i < old(self).recognized@.len(),
            r.regex == command::command_matches(
                process@,
                text::texts(old(self).match_command_regexes@),
            ),
            forall|w: Seq<ProcEvent>|
                replay::agrees(w, final(self).files.events()) ==> #[trigger] replay::facts_at(
                    w,
                    old(self).files.events().len() as int,
                    process@,
                    domain::paths_view(files@),
                    old(self).search(),
                    exact_first,
                ) == Some((r, final(self).files.events().len() as int)),
    {
        let process_files = self.files_of(process);
        let exact = if exact_first {
            recognized_match(process, &process_files, &self.recognized, files, true)
        } else {
            None
        };
        let recognised = match exact {
            Some(i) => Some(i),
            None => recognized_match(process, &process_files, &self.recognized, files, false),
        };
        let regex = command_regex_matches(process, &self.match_command_regexes);
        CandidateFacts { recognised, regex }
    }

    proof fn a_match_needs_an_expression(&self, e: EvidenceModel)
        requires
            self.usable(),
            command::command_matches(e, text::texts(self.match_command_regexes@)),
        ensures
            self.recognized@.len() > 0,
    {
    }

    /// Finds the configured program in the foreground of a pane. What is reported
    /// as proven is a configured executable, and was seen twice.
    pub fn inspect(&mut self, pane_pid: u32) -> (r: Result<Option<MatchedProcess>, String>)
        requires
            old(self).usable(),
        ensures
            final(self).same_settings(old(self)),
            r matches Ok(Some(found)) ==> found.proven_match ==> is_configured(
                old(self).recognized@,
                found.path@,
            ) && seen_twice(final(self).files.sightings(), found.identity),
            forall|w: Seq<ProcEvent>|
                replay::agrees(w, final(self).files.events()) ==> #[trigger] replay::foreground_at(
                    w,
                    old(self).files.events().len() as int,
                    pane_pid,
                    old(self).search(),
                ) == Some((found_view(r), final(self).files.events().len() as int)),
    {
        let pane = match self.read(pane_pid) {
            Ok(Some(pane)) => pane,
            Ok(None) => return Ok(None),
            Err(e) => return Err(e),
        };
        let ghost first = self.files.sightings();
        assert(first[first.len() - 1] == pane@);
        let files = self.resolved(false);
        self.inspect_leader(&pane, &files)
    }

    /// Looks at the leader of a pane that was just read.
    fn inspect_leader(&mut self, pane: &ProcessEvidence, files: &Vec<Option<UnixPath>>) -> (r: Result<
        Option<MatchedProcess>,
        String,
    >)
        requires
            old(self).usable(),
            files@.len() == old(self).recognized@.len(),
            recorded(old(self).files.sightings(), 0, pane@),
        ensures
            final(self).same_settings(old(self)),
            r matches Ok(Some(found)) ==> found.proven_match ==> is_configured(
                old(self).recognized@,
                found.path@,
            ) && seen_twice(final(self).files.sightings(), found.identity),
            forall|w: Seq<ProcEvent>|
                replay::agrees(w, final(self).files.events()) ==> #[trigger] replay::leader_at(
                    w,
                    old(self).files.events().len() as int,
                    pane@,
                    domain::paths_view(files@),
                    old(self).search(),
                ) == Some((found_view(r), final(self).files.events().len() as int)),
    {
        let pane_files = self.files_of(pane);
        let exact = recognized_match(pane, &pane_files, &self.recognized, files, true);
        let recognised = recognized_match(pane, &pane_files, &self.recognized, files, false);
        let regex = command_regex_matches(pane, &self.match_command_regexes);
        proof {
            if regex {
                self.a_match_needs_an_expression(pane@);
            }
        }
        match first_look(pane, exact, recognised, regex) {
            FirstLook::Nothing => Ok(None),
            FirstLook::Itself(i) => {
                let ghost before = self.files.sightings();
                let again = match self.read(pane.pid) {
                    Ok(again) => again,
                    Err(e) => return Err(e),
                };
                if !is_still_same(pane, &again) {
                    return Ok(None);
                }
                proof {
                    let now = self.files.sightings();
                    assert(now.take(before.len() as int) =~= before);
                    assert(now[before.len() as int] == again->0@);
                    twice(now, pane@, again->0@, before.len() as int);
                }
                let path = self.recognized[i].as_path().clone();
                assert(self.recognized@[i as int]@ == path@);
                assert(self.search().configured[i as int] == path@);
                Ok(Some(MatchedProcess { path, identity: pane.identity(), proven_match: true }))
            },
            FirstLook::Group => self.inspect_group(pane, files),
        }
    }

    fn group_facts(
        &mut self,
        candidates: &Vec<ProcessEvidence>,
        files: &Vec<Option<UnixPath>>,
        exact_first: bool,
    ) -> (r: Vec<CandidateFacts>)
        requires
            files@.len() == old(self).recognized@.len(),
        ensures
            final(self).same_settings(old(self)),
            final(self).files.sightings() == old(self).files.sightings(),
            r@.len() == candidates@.len(),
            forall|k: int|
                0 <= k < r@.len() ==> ((#[trigger] r@[k]).recognised matches Some(i) ==> i < old(
                    self,
                ).recognized@.len()),
            forall|k: int|
                0 <= k < r@.len() ==> (#[trigger] r@[k]).regex == command::command_matches(
                    candidates@[k]@,
                    text::texts(old(self).match_command_regexes@),
                ),
            forall|w: Seq<ProcEvent>|
                replay::agrees(w, final(self).files.events()) ==> #[trigger] replay::facts_from(
                    w,
                    old(self).files.events().len() as int,
                    evidence::evidence_list(candidates@),
                    0,
                    domain::paths_view(files@),
                    old(self).search(),
                    exact_first,
                    Seq::empty(),
                ) == Some((r@, final(self).files.events().len() as int)),
    {
        let ghost listed = evidence::evidence_list(candidates@);
        let ghost resolved = domain::paths_view(files@);
        let ghost search = self.search();
        let mut facts: Vec<CandidateFacts> = Vec::new();
        let mut k: usize = 0;
        while k < candidates.len()
            invariant
                k <= candidates.len(),
                facts@.len() == k,
                self.same_settings(old(self)),
                self.files.sightings() == old(self).files.sightings(),
                files@.len() == self.recognized@.len(),
                search == self.search(),
                forall|j: int|
                    0 <= j < k ==> ((#[trigger] facts@[j]).recognised matches Some(i) ==> i
                        < self.recognized@.len()),
                forall|j: int|
                    0 <= j < k ==> (#[trigger] facts@[j]).regex == command::command_matches(
                        candidates@[j]@,
                        text::texts(self.match_command_regexes@),
                    ),
                forall|w: Seq<ProcEvent>|
                    replay::agrees(w, self.files.events()) ==> #[trigger] replay::facts_from(
                        w,
                        old(self).files.events().len() as int,
                        listed,
                        0,
                        resolved,
                        search,
                        exact_first,
                        Seq::empty(),
                    ) == replay::facts_from(
                        w,
                        self.files.events().len() as int,
                        listed,
                        k as int,
                        resolved,
                        search,
                        exact_first,
                        facts@,
                    ),
            decreases candidates.len() - k,
        {
            assert(listed[k as int] == candidates@[k as int]@);
            let ghost before = facts@;
            let one = self.facts_of(&candidates[k], files, exact_first);
            facts.push(one);
            assert(facts@ =~= before.push(one));
            k += 1;
        }
        facts
    }

    fn inspect_group(&mut self, pane: &ProcessEvidence, files: &Vec<Option<UnixPath>>) -> (r:
        Result<Option<MatchedProcess>, String>)
        requires
            old(self).usable(),
            files@.len() == old(self).recognized@.len(),
        ensures
            final(self).same_settings(old(self)),
            r matches Ok(Some(found)) ==> found.proven_match ==> is_configured(
                old(self).recognized@,
                found.path@,
            ) && seen_twice(final(self).files.sightings(), found.identity),
            forall|w: Seq<ProcEvent>|
                replay::agrees(w, final(self).files.events()) ==> #[trigger] replay::group_at(
                    w,
                    old(self).files.events().len() as int,
                    pane@,
                    domain::paths_view(files@),
                    old(self).search(),
                ) == Some((found_view(r), final(self).files.events().len() as int)),
    {
        let processes = match self.process_snapshot() {
            Ok(processes) => processes,
            Err(e) => return Err(e),
        };
        let candidates = foreground_group(&processes, pane);
        let ghost listed = evidence::evidence_list(candidates@);
        let ghost taken = self.files.sightings();
        proof {
            let all = evidence::evidence_list(processes@);
            parts_are_recorded(
                all,
                all,
                pane@,
                0,
                0,
                taken,
                old(self).files.sightings().len() as int,
            );
        }
        let facts = self.group_facts(&candidates, files, false);
        let choice = choose_candidate(&candidates, &facts, pane.tpgid);
        proof {
            if let GroupChoice::Matched { candidate, configured } = choice {
                if facts@[candidate as int].recognised is None {
                    self.a_match_needs_an_expression(candidates@[candidate as int]@);
                }
                if facts@[candidate as int].recognised == Some(configured) {
                    assert(facts@[candidate as int].recognised is Some);
                }
            }
        }
        assert(all_recorded(listed, self.files.sightings(), 0)) by {
            assert forall|i: int| 0 <= i < listed.len() implies recorded(
                self.files.sightings(),
                0,
                #[trigger] listed[i],
            ) by {
                assert(recorded(taken, old(self).files.sightings().len() as int, listed[i]));
                let k = choose|k: int|
                    old(self).files.sightings().len() <= k < taken.len() && #[trigger] taken[k]
                        == listed[i];
            }
        }
        self.confirm_choice(pane, &candidates, choice)
    }

    /// Looks again at what was chosen in a foreground group.
    fn confirm_choice(
        &mut self,
        pane: &ProcessEvidence,
        candidates: &Vec<ProcessEvidence>,
        choice: GroupChoice,
    ) -> (r: Result<Option<MatchedProcess>, String>)
        requires
            all_recorded(evidence::evidence_list(candidates@), old(self).files.sightings(), 0),
            choice matches GroupChoice::Matched { candidate, configured } ==> candidate
                < candidates@.len() && configured < old(self).recognized@.len(),
            choice matches GroupChoice::Leader(k) ==> k < candidates@.len()
                && candidates@[k as int].executable is Some,
        ensures
            final(self).same_settings(old(self)),
            r matches Ok(Some(found)) ==> found.proven_match ==> is_configured(
                old(self).recognized@,
                found.path@,
            ) && seen_twice(final(self).files.sightings(), found.identity),
            forall|w: Seq<ProcEvent>|
                replay::agrees(w, final(self).files.events()) ==> #[trigger] replay::chosen_at(
                    w,
                    old(self).files.events().len() as int,
                    pane@,
                    evidence::evidence_list(candidates@),
                    choice,
                    old(self).search(),
                ) == Some((found_view(r), final(self).files.events().len() as int)),
    {
        let ghost listed = evidence::evidence_list(candidates@);
        match choice {
            GroupChoice::Nothing => Ok(None),
            GroupChoice::Leader(k) => {
                assert(listed[k as int] == candidates@[k as int]@);
                let path = match copy_path(&candidates[k].executable) {
                    Some(path) => path,
                    None => return Ok(None),
                };
                Ok(
                    Some(
                        MatchedProcess {
                            path,
                            identity: candidates[k].identity(),
                            proven_match: false,
                        },
                    ),
                )
            },
            GroupChoice::Matched { candidate, configured } => {
                assert(listed[candidate as int] == candidates@[candidate as int]@);
                let ghost before = self.files.sightings();
                let again = match self.read(candidates[candidate].pid) {
                    Ok(again) => again,
                    Err(e) => return Err(e),
                };
                if again.is_none() {
                    return Ok(None);
                }
                let pane_again = match self.read(pane.pid) {
                    Ok(again) => again,
                    Err(e) => return Err(e),
                };
                if !is_still_same(&candidates[candidate], &again) || !is_still_foreground(
                    pane,
                    &pane_again,
                ) {
                    return Ok(None);
                }
                proof {
                    let now = self.files.sightings();
                    let e = listed[candidate as int];
                    assert(recorded(before, 0, e));
                    assert(now.take(before.len() as int) =~= before);
                    assert(now[before.len() as int] == again->0@);
                    twice(now, e, again->0@, before.len() as int);
                }
                let path = self.recognized[configured].as_path().clone();
                assert(self.recognized@[configured as int]@ == path@);
                assert(self.search().configured[configured as int] == path@);
                Ok(
                    Some(
                        MatchedProcess {
                            path,
                            identity: candidates[candidate].identity(),
                            proven_match: true,
                        },
                    ),
                )
            },
        }
    }

    /// Finds the configured program in the scope of a pane.
    pub fn inspect_scoped(&mut self, pane: &PaneProcess) -> (r: Result<
        Option<MatchedProcess>,
        String,
    >)
        requires
            old(self).usable(),
        ensures
            final(self).same_settings(old(self)),
            r matches Ok(Some(found)) ==> found.proven_match ==> is_configured(
                old(self).recognized@,
                found.path@,
            ) && seen_twice(final(self).files.sightings(), found.identity),
            forall|w: Seq<ProcEvent>|
                replay::agrees(w, final(self).files.events()) ==> #[trigger] replay::scoped_at(
                    w,
                    old(self).files.events().len() as int,
                    pane.pid,
                    pane.tty@,
                    old(self).search(),
                ) == Some((found_view(r), final(self).files.events().len() as int)),
    {
        let scope = self.match_scope;
        if let MatchScope::Foreground = scope {
            return self.inspect(pane.pid);
        }
        let initial = match self.read(pane.pid) {
            Ok(Some(initial)) => initial,
            Ok(None) => return Ok(None),
            Err(e) => return Err(e),
        };
        let ghost opened = self.files.sightings().len() as int;
        let snapshot = match self.process_snapshot() {
            Ok(snapshot) => snapshot,
            Err(e) => return Err(e),
        };
        let ghost all = evidence::evidence_list(snapshot@);
        let candidates = match scope {
            MatchScope::PaneTree => descendants(&snapshot, initial.pid),
            _ => {
                if !pane.tty.is_absolute() {
                    return Ok(None);
                }
                let number: i64 = match self.device(&pane.tty) {
                    Some(device) => tty_number(device),
                    None => return Ok(None),
                };
                if initial.tty_nr != number {
                    return Ok(None);
                }
                terminal_processes(&snapshot, number)
            },
        };
        let ghost listed = evidence::evidence_list(candidates@);
        let ghost taken = self.files.sightings();
        proof {
            assert(all_recorded(listed, taken, 0)) by {
                parts_are_recorded(all, all, initial@, initial.pid, initial.tty_nr, taken, opened);
                assert forall|i: int| 0 <= i < listed.len() implies recorded(
                    taken,
                    0,
                    #[trigger] listed[i],
                ) by {
                    assert(recorded(taken, opened, listed[i]));
                    let k = choose|k: int|
                        opened <= k < taken.len() && #[trigger] taken[k] == listed[i];
                }
            }
        }
        self.inspect_candidates(&initial, &candidates)
    }

    /// Finds the configured program among candidates of a scope.
    fn inspect_candidates(
        &mut self,
        initial: &ProcessEvidence,
        candidates: &Vec<ProcessEvidence>,
    ) -> (r: Result<Option<MatchedProcess>, String>)
        requires
            old(self).usable(),
            all_recorded(evidence::evidence_list(candidates@), old(self).files.sightings(), 0),
        ensures
            final(self).same_settings(old(self)),
            r matches Ok(Some(found)) ==> found.proven_match ==> is_configured(
                old(self).recognized@,
                found.path@,
            ) && seen_twice(final(self).files.sightings(), found.identity),
            forall|w: Seq<ProcEvent>|
                replay::agrees(w, final(self).files.events()) ==> #[trigger] replay::candidates_at(
                    w,
                    old(self).files.events().len() as int,
                    initial@,
                    evidence::evidence_list(candidates@),
                    old(self).search(),
                ) == Some((found_view(r), final(self).files.events().len() as int)),
    {
        let ghost listed = evidence::evidence_list(candidates@);
        let ghost search = self.search();
        let files = self.resolved(false);
        let facts = self.group_facts(candidates, &files, false);
        let ghost from = self.files.events();
        let mut round: u8 = 0;
        while round < 2
            invariant
                round <= 2,
                self.same_settings(old(self)),
                replay::agrees(self.files.events(), from),
                self.usable(),
                search == self.search(),
                all_recorded(listed, self.files.sightings(), 0),
                listed == evidence::evidence_list(candidates@),
                facts@.len() == candidates@.len(),
                forall|k: int|
                    0 <= k < facts@.len() ==> ((#[trigger] facts@[k]).recognised matches Some(i)
                        ==> i < self.recognized@.len()),
                forall|k: int|
                    0 <= k < facts@.len() ==> (#[trigger] facts@[k]).regex
                        == command::command_matches(
                        candidates@[k]@,
                        text::texts(self.match_command_regexes@),
                    ),
                forall|w: Seq<ProcEvent>|
                    replay::agrees(w, self.files.events()) ==> #[trigger] replay::scoped_from(
                        w,
                        from.len() as int,
                        initial@,
                        listed,
                        facts@,
                        search,
                        0,
                        0,
                    ) == replay::scoped_from(
                        w,
                        self.files.events().len() as int,
                        initial@,
                        listed,
                        facts@,
                        search,
                        round as int,
                        0,
                    ),
            decreases 2 - round,
        {
            let mut k: usize = 0;
            while k < candidates.len()
                invariant
                    k <= candidates.len(),
                    round < 2,
                    self.same_settings(old(self)),
                    replay::agrees(self.files.events(), from),
                    self.usable(),
                    search == self.search(),
                    all_recorded(listed, self.files.sightings(), 0),
                    listed == evidence::evidence_list(candidates@),
                    facts@.len() == candidates@.len(),
                    forall|k: int|
                        0 <= k < facts@.len() ==> ((#[trigger] facts@[k]).recognised matches Some(
                            i,
                        ) ==> i < self.recognized@.len()),
                    forall|k: int|
                        0 <= k < facts@.len() ==> (#[trigger] facts@[k]).regex
                            == command::command_matches(
                            candidates@[k]@,
                            text::texts(self.match_command_regexes@),
                        ),
                    forall|w: Seq<ProcEvent>|
                        replay::agrees(w, self.files.events()) ==> #[trigger] replay::scoped_from(
                            w,
                            from.len() as int,
                            initial@,
                            listed,
                            facts@,
                            search,
                            0,
                            0,
                        ) == replay::scoped_from(
                            w,
                            self.files.events().len() as int,
                            initial@,
                            listed,
                            facts@,
                            search,
                            round as int,
                            k as int,
                        ),
                decreases candidates.len() - k,
            {
                assert(listed[k as int] == candidates@[k as int]@);
                let configured: Option<usize> = if round == 0 {
                    facts[k].recognised
                } else if facts[k].regex {
                    proof {
                        self.a_match_needs_an_expression(candidates@[k as int]@);
                    }
                    Some(0)
                } else {
                    None
                };
                if let Some(i) = configured {
                    let ghost before = self.files.sightings();
                    let current = match self.process_snapshot() {
                        Ok(current) => current,
                        Err(e) => return Err(e),
                    };
                    proof {
                        recorded_later(listed, before, self.files.sightings(), 0);
                    }
                    let scope = self.match_scope;
                    if scoped_candidate_is_current(initial, &candidates[k], &current, scope) {
                        proof {
                            let now = self.files.sightings();
                            let all = evidence::evidence_list(current@);
                            let e = listed[k as int];
                            let at = numbered(all, e.pid, 0)->0;
                            numbered_in_range(all, e.pid, 0);
                            assert(recorded(now, before.len() as int, all[at]));
                            assert(now.take(before.len() as int) =~= before);
                            assert(recorded(before, 0, e));
                            twice(now, e, all[at], before.len() as int);
                        }
                        let path = self.recognized[i].as_path().clone();
                        assert(self.recognized@[i as int]@ == path@);
                        assert(search.configured[i as int] == path@);
                        return Ok(
                            Some(
                                MatchedProcess {
                                    path,
                                    identity: candidates[k].identity(),
                                    proven_match: true,
                                },
                            ),
                        );
                    }
                }
                k += 1;
            }
            round += 1;
        }
        Ok(None)
    }

    fn filesystem(&self, source: String) -> (r: MuxError)
        ensures
            r@ == (ErrorModel::Filesystem { path: self.proc_root@, source: source@ }),
    {
        MuxError::Filesystem { path: self.proc_root.clone(), source }
    }

    /// Whether the foreground of a pane is one of the configured executables, as
    /// the inventory sees it.
    pub fn foreground_process_matches(&mut self, pane_pid: u32) -> (r: Result<bool, MuxError>)
        requires
            old(self).usable(),
        ensures
            final(self).same_settings(old(self)),
            forall|w: Seq<ProcEvent>|
                replay::agrees(w, final(self).files.events()) ==> answered(
                    #[trigger] replay::matches_at(
                        w,
                        old(self).files.events().len() as int,
                        pane_pid,
                        old(self).search(),
                    ),
                    error::outcome(r),
                    old(self).proc_root@,
                    final(self).files.events().len() as int,
                ),
    {
        let found = match self.inspect(pane_pid) {
            Ok(Some(found)) => found,
            Ok(None) => return Ok(false),
            Err(e) => return Err(self.filesystem(e)),
        };
        let file = self.canonical(&found.path);
        let ghost from = self.files.events();
        let ghost configured = self.search().configured;
        let mut i: usize = 0;
        while i < self.recognized.len()
            invariant
                i <= self.recognized@.len(),
                self.same_settings(old(self)),
                replay::agrees(self.files.events(), from),
                configured == self.search().configured,
                forall|w: Seq<ProcEvent>|
                    replay::agrees(w, self.files.events()) ==> #[trigger] replay::among_from(
                        w,
                        from.len() as int,
                        found.path@,
                        domain::path_view(file),
                        configured,
                        0,
                    ) == replay::among_from(
                        w,
                        self.files.events().len() as int,
                        found.path@,
                        domain::path_view(file),
                        configured,
                        i as int,
                    ),
            decreases self.recognized@.len() - i,
        {
            let p = self.recognized[i].as_path().clone();
            assert(configured[i as int] == p@);
            let wanted = self.canonical(&p);
            if names_same_file(&found.path, &p, &file, &wanted) {
                return Ok(true);
            }
            i += 1;
        }
        Ok(false)
    }

    /// Whether a pane matches in the configured scope.
    pub fn pane_process_matches(&mut self, pane: &PaneProcess) -> (r: Result<bool, MuxError>)
        requires
            old(self).usable(),
        ensures
            final(self).same_settings(old(self)),
            forall|w: Seq<ProcEvent>|
                replay::agrees(w, final(self).files.events()) ==> answered(
                    is_there(
                        #[trigger] replay::scoped_at(
                            w,
                            old(self).files.events().len() as int,
                            pane.pid,
                            pane.tty@,
                            old(self).search(),
                        ),
                    ),
                    error::outcome(r),
                    old(self).proc_root@,
                    final(self).files.events().len() as int,
                ),
    {
        match self.inspect_scoped(pane) {
            Ok(found) => Ok(found.is_some()),
            Err(e) => Err(self.filesystem(e)),
        }
    }

    /// The identity of the process that satisfies the search in a pane; the mere
    /// group leader has none.
    pub fn pane_process_match_identity(&mut self, pane: &PaneProcess) -> (r: Result<
        Option<ProcessMatchIdentity>,
        MuxError,
    >)
        requires
            old(self).usable(),
        ensures
            final(self).same_settings(old(self)),
            r matches Ok(Some(identity)) ==> seen_twice(final(self).files.sightings(), identity),
            forall|w: Seq<ProcEvent>|
                replay::agrees(w, final(self).files.events()) ==> answered(
                    proven_identity(
                        #[trigger] replay::scoped_at(
                            w,
                            old(self).files.events().len() as int,
                            pane.pid,
                            pane.tty@,
                            old(self).search(),
                        ),
                    ),
                    error::outcome(r),
                    old(self).proc_root@,
                    final(self).files.events().len() as int,
                ),
    {
        match self.inspect_scoped(pane) {
            Ok(Some(found)) => if found.proven_match {
                Ok(Some(found.identity))
            } else {
                Ok(None)
            },
            Ok(None) => Ok(None),
            Err(e) => Err(self.filesystem(e)),
        }
    }

    fn exact_match(&mut self, process: &ProcessEvidence, files: &Vec<Option<UnixPath>>) -> (r: bool)
        requires
            files@.len() == old(self).recognized@.len(),
        ensures
            final(self).same_settings(old(self)),
            final(self).files.sightings() == old(self).files.sightings(),
            forall|w: Seq<ProcEvent>|
                replay::agrees(w, final(self).files.events()) ==> #[trigger] replay::exact_at(
                    w,
                    old(self).files.events().len() as int,
                    process@,
                    domain::paths_view(files@),
                    old(self).search().configured,
                ) == Some((r, final(self).files.events().len() as int)),
    {
        let executable = match &process.executable {
            Some(executable) => self.canonical(executable),
            None => return false,
        };
        let process_files = ProcessFiles { executable, trusted: false, script: None };
        recognized_match(process, &process_files, &self.recognized, files, true).is_some()
    }

    /// Whether the foreground of a pane holds exactly a configured executable.
    pub fn foreground_process_is_exact(&mut self, pane_pid: u32) -> (r: Result<bool, MuxError>)
        ensures
            final(self).same_settings(old(self)),
            forall|w: Seq<ProcEvent>|
                replay::agrees(w, final(self).files.events()) ==> answered(
                    #[trigger] replay::foreground_exact_at(
                        w,
                        old(self).files.events().len() as int,
                        pane_pid,
                        old(self).search().configured,
                    ),
                    error::outcome(r),
                    old(self).proc_root@,
                    final(self).files.events().len() as int,
                ),
    {
        let pane = match self.read(pane_pid) {
            Ok(Some(pane)) => pane,
            Ok(None) => return Ok(false),
            Err(e) => return Err(self.filesystem(e)),
        };
        let files = self.resolved(false);
        if self.exact_match(&pane, &files) {
            return Ok(true);
        }
        if pane.tty_nr == 0 || pane.tpgid <= 0 {
            return Ok(false);
        }
        let processes = match self.process_snapshot() {
            Ok(processes) => processes,
            Err(e) => return Err(self.filesystem(e)),
        };
        let candidates = foreground_group(&processes, &pane);
        let ghost listed = evidence::evidence_list(candidates@);
        let ghost resolved = domain::paths_view(files@);
        let ghost from = self.files.events();
        let ghost configured = self.search().configured;
        let mut k: usize = 0;
        while k < candidates.len()
            invariant
                k <= candidates.len(),
                self.same_settings(old(self)),
                replay::agrees(self.files.events(), from),
                configured == self.search().configured,
                files@.len() == self.recognized@.len(),
                forall|w: Seq<ProcEvent>|
                    replay::agrees(w, self.files.events()) ==> #[trigger] replay::exact_from(
                        w,
                        from.len() as int,
                        pane@,
                        listed,
                        0,
                        resolved,
                        configured,
                    ) == replay::exact_from(
                        w,
                        self.files.events().len() as int,
                        pane@,
                        listed,
                        k as int,
                        resolved,
                        configured,
                    ),
            decreases candidates.len() - k,
        {
            assert(listed[k as int] == candidates@[k as int]@);
            if self.exact_match(&candidates[k], &files) {
                return match self.read(pane_pid) {
                    Ok(again) => Ok(is_still_foreground(&pane, &again)),
                    Err(e) => Err(self.filesystem(e)),
                };
            }
            k += 1;
        }
        Ok(false)
    }

    /// Whether the executable of a shell is the one that a search would find.
    fn shell_executable_matches(&mut self, executable: &UnixPath, command: &str) -> (r: bool)
        ensures
            final(self).same_settings(old(self)),
            final(self).files.sightings() == old(self).files.sightings(),
            forall|w: Seq<ProcEvent>|
                replay::agrees(w, final(self).files.events()) ==> #[trigger] replay::shell_program_at(
                    w,
                    old(self).files.events().len() as int,
                    executable@,
                    command@,
                ) == Some((r, final(self).files.events().len() as int)),
    {
        let name = match executable.file_name() {
            Some(name) => name,
            None => return false,
        };
        if !text::bytes_equal(&name, &text::bytes_of(command)) {
            return false;
        }
        let file = self.canonical(executable);
        let search = self.search_path();
        let leaf = UnixPath::new(command);
        let ghost wanted = Seq::new(
            domain::path_list(search@).len(),
            |i: int| path::joined(domain::path_list(search@)[i], text::utf8(command@)),
        );
        let mut places: Vec<UnixPath> = Vec::new();
        let mut i: usize = 0;
        while i < search.len()
            invariant
                i <= search.len(),
                domain::path_list(places@) =~= wanted.take(i as int),
            decreases search.len() - i,
        {
            let ghost before = domain::path_list(places@);
            let place = search[i].join(&leaf);
            let ghost one = place@;
            places.push(place);
            proof {
                assert(one == wanted[i as int]);
                assert(domain::path_list(places@) =~= before.push(one));
                assert(wanted.take(i + 1) =~= wanted.take(i as int).push(wanted[i as int]));
            }
            i += 1;
        }
        assert(wanted.take(wanted.len() as int) =~= wanted);
        self.stands_at(executable, &file, &places)
    }

    /// Whether the leader of a pane is an interactive Bash or Zsh in the
    /// foreground.
    pub fn foreground_process_is_shell(&mut self, pane_pid: u32, command: &str) -> (r: Result<
        bool,
        MuxError,
    >)
        ensures
            final(self).same_settings(old(self)),
            forall|w: Seq<ProcEvent>|
                replay::agrees(w, final(self).files.events()) ==> answered(
                    #[trigger] replay::shell_at(
                        w,
                        old(self).files.events().len() as int,
                        pane_pid,
                        command@,
                    ),
                    error::outcome(r),
                    old(self).proc_root@,
                    final(self).files.events().len() as int,
                ),
    {
        if !text_equal(command, "bash") && !text_equal(command, "zsh") {
            return Ok(false);
        }
        let pane = match self.read(pane_pid) {
            Ok(Some(pane)) => pane,
            Ok(None) => return Ok(false),
            Err(e) => return Err(self.filesystem(e)),
        };
        if pane.tty_nr == 0 || pane.tpgid <= 0 || pane.pid as i64 != pane.pgrp || pane.pgrp
            != pane.tpgid || !interactive_shell_arguments(&pane.arguments, command) {
            return Ok(false);
        }
        let known = match &pane.executable {
            Some(executable) => self.shell_executable_matches(executable, command),
            None => return Ok(false),
        };
        if !known {
            return Ok(false);
        }
        let again = match self.read(pane_pid) {
            Ok(again) => again,
            Err(e) => return Err(self.filesystem(e)),
        };
        Ok(foreground_shell(&pane, &again, true, command))
    }

    /// Looks again at a choice against a shared snapshot.
    fn recheck(&mut self, pane: &ProcessEvidence, matched: &ProcessEvidence, path: UnixPath) -> (r:
        Result<Option<UnixPath>, String>)
        ensures
            final(self).same_settings(old(self)),
            forall|w: Seq<ProcEvent>|
                replay::agrees(w, final(self).files.events()) ==> #[trigger] replay::rechecked_at(
                    w,
                    old(self).files.events().len() as int,
                    pane@,
                    matched@,
                    path@,
                ) == Some((path_answer(r), final(self).files.events().len() as int)),
    {
        let pane_again = match self.read(pane.pid) {
            Ok(again) => again,
            Err(e) => return Err(e),
        };
        if pane_again.is_none() {
            return Ok(None);
        }
        let again = match self.read(matched.pid) {
            Ok(again) => again,
            Err(e) => return Err(e),
        };
        if is_still_foreground(pane, &pane_again) && is_still_same(matched, &again) {
            Ok(Some(path))
        } else {
            Ok(None)
        }
    }

    /// Resolves the foreground group of a leader against a shared snapshot.
    fn inspect_shared_group(
        &mut self,
        pane: &ProcessEvidence,
        processes: &Vec<ProcessEvidence>,
        files: &Vec<Option<UnixPath>>,
    ) -> (r: Result<Option<UnixPath>, String>)
        requires
            old(self).usable(),
            files@.len() == old(self).recognized@.len(),
        ensures
            final(self).same_settings(old(self)),
            forall|w: Seq<ProcEvent>|
                replay::agrees(w, final(self).files.events()) ==> #[trigger] replay::shared_group_at(
                    w,
                    old(self).files.events().len() as int,
                    pane@,
                    evidence::group_of(evidence::evidence_list(processes@), pane@),
                    domain::paths_view(files@),
                    old(self).search(),
                ) == Some((path_answer(r), final(self).files.events().len() as int)),
    {
        let candidates = foreground_group(processes, pane);
        let ghost listed = evidence::evidence_list(candidates@);
        let facts = self.group_facts(&candidates, files, true);
        match choose_candidate(&candidates, &facts, pane.tpgid) {
            GroupChoice::Nothing => Ok(None),
            GroupChoice::Leader(k) => {
                assert(listed[k as int] == candidates@[k as int]@);
                match copy_path(&candidates[k].executable) {
                    Some(path) => self.recheck(pane, &candidates[k], path),
                    None => Ok(None),
                }
            },
            GroupChoice::Matched { candidate, configured } => {
                proof {
                    assert(listed[candidate as int] == candidates@[candidate as int]@);
                    if facts@[candidate as int].recognised is None {
                        self.a_match_needs_an_expression(candidates@[candidate as int]@);
                    }
                    if facts@[candidate as int].recognised == Some(configured) {
                        assert(facts@[candidate as int].recognised is Some);
                    }
                }
                let path = self.recognized[configured].as_path().clone();
                assert(self.search().configured[configured as int] == path@);
                self.recheck(pane, &candidates[candidate], path)
            },
        }
    }

    /// Resolves one pane leader against one shared snapshot.
    fn inspect_shared(
        &mut self,
        pane: &ProcessEvidence,
        shared: &Result<Vec<ProcessEvidence>, String>,
        files: &Vec<Option<UnixPath>>,
    ) -> (r: Result<Option<UnixPath>, String>)
        requires
            old(self).usable(),
            files@.len() == old(self).recognized@.len(),
        ensures
            final(self).same_settings(old(self)),
            forall|w: Seq<ProcEvent>|
                replay::agrees(w, final(self).files.events()) ==> #[trigger] replay::shared_at(
                    w,
                    old(self).files.events().len() as int,
                    pane@,
                    snapshot_view(*shared),
                    domain::paths_view(files@),
                    old(self).search(),
                ) == Some((path_answer(r), final(self).files.events().len() as int)),
    {
        let pane_files = self.files_of(pane);
        if let Some(i) = recognized_match(pane, &pane_files, &self.recognized, files, true) {
            return match self.read(pane.pid) {
                Ok(again) => if is_still_same(pane, &again) {
                    let path = self.recognized[i].as_path().clone();
                    assert(self.search().configured[i as int] == path@);
                    Ok(Some(path))
                } else {
                    Ok(None)
                },
                Err(e) => Err(e),
            };
        }
        if pane.tty_nr == 0 || pane.tpgid <= 0 {
            return Ok(None);
        }
        match shared {
            Ok(processes) => self.inspect_shared_group(pane, processes, files),
            Err(e) => Err(e.clone()),
        }
    }

    /// Reads the leaders of panes; also whether a snapshot is needed for one of them.
    fn read_leaders(&mut self, pane_pids: &Vec<u32>, files: &Vec<Option<UnixPath>>) -> (r: (
        Vec<Result<Option<ProcessEvidence>, String>>,
        bool,
    ))
        requires
            files@.len() == old(self).recognized@.len(),
        ensures
            final(self).same_settings(old(self)),
            r.0@.len() == pane_pids@.len(),
            forall|w: Seq<ProcEvent>|
                replay::agrees(w, final(self).files.events()) ==> #[trigger] replay::leaders_from(
                    w,
                    old(self).files.events().len() as int,
                    pane_pids@,
                    0,
                    domain::paths_view(files@),
                    old(self).search().configured,
                    Seq::empty(),
                    false,
                ) == Some(((leaders_view(r.0@), r.1), final(self).files.events().len() as int)),
    {
        let ghost resolved = domain::paths_view(files@);
        let ghost configured = self.search().configured;
        let mut panes: Vec<Result<Option<ProcessEvidence>, String>> = Vec::new();
        let mut needs_snapshot = false;
        assert(leaders_view(panes@) =~= Seq::empty());
        let mut i: usize = 0;
        while i < pane_pids.len()
            invariant
                i <= pane_pids.len(),
                panes@.len() == i,
                files@.len() == self.recognized@.len(),
                configured == self.search().configured,
                self.same_settings(old(self)),
                forall|w: Seq<ProcEvent>|
                    replay::agrees(w, self.files.events()) ==> #[trigger] replay::leaders_from(
                        w,
                        old(self).files.events().len() as int,
                        pane_pids@,
                        0,
                        resolved,
                        configured,
                        Seq::empty(),
                        false,
                    ) == replay::leaders_from(
                        w,
                        self.files.events().len() as int,
                        pane_pids@,
                        i as int,
                        resolved,
                        configured,
                        leaders_view(panes@),
                        needs_snapshot,
                    ),
            decreases pane_pids.len() - i,
        {
            let ghost before = leaders_view(panes@);
            let pane = self.read(pane_pids[i]);
            let ghost one = evidence::evidence_view(pane);
            if let Ok(Some(process)) = &pane {
                if process.tty_nr != 0 && process.tpgid > 0 {
                    if !self.exact_match(process, files) {
                        needs_snapshot = true;
                    }
                }
            }
            panes.push(pane);
            assert(leaders_view(panes@) =~= before.push(one));
            i += 1;
        }
        (panes, needs_snapshot)
    }

    /// Resolves several pane leaders against one snapshot, one result for each.
    pub fn inspect_batch(&mut self, pane_pids: &Vec<u32>) -> (r: Vec<
        Result<Option<UnixPath>, String>,
    >)
        requires
            old(self).usable(),
        ensures
            final(self).same_settings(old(self)),
            r@.len() == pane_pids@.len(),
            forall|w: Seq<ProcEvent>|
                replay::agrees(w, final(self).files.events()) ==> #[trigger] replay::batch_at(
                    w,
                    old(self).files.events().len() as int,
                    pane_pids@,
                    old(self).search(),
                ) == Some((answers_view(r@), final(self).files.events().len() as int)),
    {
        let ghost search = self.search();
        let files = self.resolved(true);
        let (panes, needs_snapshot) = self.read_leaders(pane_pids, &files);
        let shared: Result<Vec<ProcessEvidence>, String> = if needs_snapshot {
            self.process_snapshot()
        } else {
            Ok(Vec::new())
        };
        proof {
            if !needs_snapshot {
                assert(evidence::evidence_list(shared->Ok_0@) =~= Seq::<EvidenceModel>::empty());
            }
        }
        let ghost from = self.files.events();
        let ghost leaders = leaders_view(panes@);
        let ghost taken = snapshot_view(shared);
        let ghost resolved = domain::paths_view(files@);
        let mut r: Vec<Result<Option<UnixPath>, String>> = Vec::new();
        assert(answers_view(r@) =~= Seq::empty());
        let mut k: usize = 0;
        while k < panes.len()
            invariant
                k <= panes.len(),
                r@.len() == k,
                panes@.len() == pane_pids@.len(),
                files@.len() == self.recognized@.len(),
                self.usable(),
                search == self.search(),
                self.same_settings(old(self)),
                replay::agrees(self.files.events(), from),
                forall|w: Seq<ProcEvent>|
                    replay::agrees(w, self.files.events()) ==> #[trigger] replay::results_from(
                        w,
                        from.len() as int,
                        leaders,
                        0,
                        taken,
                        resolved,
                        search,
                        Seq::empty(),
                    ) == replay::results_from(
                        w,
                        self.files.events().len() as int,
                        leaders,
                        k as int,
                        taken,
                        resolved,
                        search,
                        answers_view(r@),
                    ),
            decreases panes.len() - k,
        {
            assert(leaders[k as int] == evidence::evidence_view(panes@[k as int]));
            let ghost before = answers_view(r@);
            let one = match &panes[k] {
                Ok(Some(pane)) => self.inspect_shared(pane, &shared, &files),
                Ok(None) => Ok(None),
                Err(e) => Err(e.clone()),
            };
            let ghost answer = path_answer(one);
            r.push(one);
            assert(answers_view(r@) =~= before.push(answer));
            k += 1;
        }
        r
    }
}

impl<P: ProcFiles> ProcessInspector for LinuxProcessInspector<P> {
    fn foreground_executables(&mut self, pane_pids: &Vec<u32>) -> (r: Vec<Option<UnixPath>>)
        ensures
            old(self).usable() ==> forall|w: Seq<ProcEvent>|
                replay::agrees(w, final(self).files.events()) ==> batch_answered(
                    #[trigger] replay::batch_at(
                        w,
                        old(self).files.events().len() as int,
                        pane_pids@,
                        old(self).search(),
                    ),
                    domain::paths_view(r@),
                    final(self).files.events().len() as int,
                ),
    {
        let mut r: Vec<Option<UnixPath>> = Vec::new();
        if self.recognized.len() == 0 && self.match_command_regexes.len() > 0 {
            return r;
        }
        let found = self.inspect_batch(pane_pids);
        let ghost all = answers_view(found@);
        let mut i: usize = 0;
        while i < found.len()
            invariant
                i <= found.len(),
                all == answers_view(found@),
                domain::paths_view(r@) =~= found_paths(all).take(i as int),
            decreases found.len() - i,
        {
            let ghost before = domain::paths_view(r@);
            let one = match &found[i] {
                Ok(path) => copy_path(path),
                Err(_) => None,
            };
            let ghost answer = domain::path_view(one);
            r.push(one);
            proof {
                assert(all[i as int] == path_answer(found@[i as int]));
                assert(found_paths(all)[i as int] == answer);
                assert(domain::paths_view(r@) =~= before.push(answer));
                assert(found_paths(all).take(i + 1) =~= found_paths(all).take(i as int).push(
                    found_paths(all)[i as int],
                ));
            }
            i += 1;
        }
        assert(found_paths(all).take(all.len() as int) =~= found_paths(all));
        r
    }

    fn canonical_paths(&mut self, paths: &Vec<UnixPath>) -> (r: Vec<Option<UnixPath>>)
        ensures
            forall|w: Seq<ProcEvent>|
                replay::agrees(w, final(self).files.events()) ==> #[trigger] replay::resolved_from(
                    w,
                    old(self).files.events().len() as int,
                    domain::path_list(paths@),
                    0,
                    false,
                    Seq::empty(),
                ) == Some((domain::paths_view(r@), final(self).files.events().len() as int)),
    {
        let ghost all = domain::path_list(paths@);
        let mut r: Vec<Option<UnixPath>> = Vec::new();
        assert(domain::paths_view(r@) =~= Seq::empty());
        let mut i: usize = 0;
        while i < paths.len()
            invariant
                i <= paths.len(),
                self.same_settings(old(self)),
                forall|w: Seq<ProcEvent>|
                    replay::agrees(w, self.files.events()) ==> #[trigger] replay::resolved_from(
                        w,
                        old(self).files.events().len() as int,
                        all,
                        0,
                        false,
                        Seq::empty(),
                    ) == replay::resolved_from(
                        w,
                        self.files.events().len() as int,
                        all,
                        i as int,
                        false,
                        domain::paths_view(r@),
                    ),
            decreases paths.len() - i,
        {
            assert(all[i as int] == paths@[i as int]@);
            let ghost before = domain::paths_view(r@);
            let file = self.canonical(&paths[i]);
            let ghost one = domain::path_view(file);
            r.push(file);
            assert(domain::paths_view(r@) =~= before.push(one));
            i += 1;
        }
        r
    }
}

} // verus!
