//! What a search for the configured program gives, as a function of what procfs and
//! the file system answered.
//!
//! Every function here reads a log of questions and answers from a place on. It
//! gives the result and the place behind the last question, or `None` where the log
//! holds other questions than the search asks.

use vstd::prelude::*;
use crate::config::MatchScope;
use crate::domain::ProcessMatchIdentity;
use crate::linux_process::command;
use crate::linux_process::command::FilesModel;
use crate::linux_process::evidence;
use crate::linux_process::evidence::EvidenceModel;
use crate::linux_process::inspector;
use crate::linux_process::inspector::{CandidateFacts, FirstLook, GroupChoice};
use crate::path;
use crate::text;

verus! {

/// A question to procfs or the file system, with its answer.
#[verifier::ext_equal]
pub enum ProcEvent {
    Read { pid: u32, reply: Result<Option<EvidenceModel>, Seq<char>> },
    Entries(Result<Seq<Seq<u8>>, Seq<char>>),
    Canonical { path: Seq<u8>, reply: Option<Seq<u8>> },
    IsFile { path: Seq<u8>, reply: bool },
    Search(Seq<Seq<u8>>),
    Device { path: Seq<u8>, reply: Option<u64> },
}

/// What is searched for, and where.
#[verifier::ext_equal]
pub struct SearchModel {
    pub configured: Seq<Seq<u8>>,
    pub expressions: Seq<Seq<char>>,
    pub scope: MatchScope,
}

/// The process that a search found.
#[verifier::ext_equal]
pub struct FoundModel {
    pub path: Seq<u8>,
    pub identity: ProcessMatchIdentity,
    pub proven: bool,
}

/// A log begins with another.
pub open spec fn agrees(w: Seq<ProcEvent>, log: Seq<ProcEvent>) -> bool {
    &&& log.len() <= w.len()
    &&& forall|i: int| 0 <= i < log.len() ==> #[trigger] w[i] == log[i]
}

// ---------------------------------------------------------------------------
// Single questions
// ---------------------------------------------------------------------------

pub open spec fn read_at(w: Seq<ProcEvent>, k: int, pid: u32) -> Option<
    (Result<Option<EvidenceModel>, Seq<char>>, int),
> {
    if 0 <= k < w.len() {
        match w[k] {
            ProcEvent::Read { pid: asked, reply } => if asked == pid {
                Some((reply, k + 1))
            } else {
                None
            },
            _ => None,
        }
    } else {
        None
    }
}

pub open spec fn entries_at(w: Seq<ProcEvent>, k: int) -> Option<
    (Result<Seq<Seq<u8>>, Seq<char>>, int),
> {
    if 0 <= k < w.len() {
        match w[k] {
            ProcEvent::Entries(reply) => Some((reply, k + 1)),
            _ => None,
        }
    } else {
        None
    }
}

pub open spec fn canonical_at(w: Seq<ProcEvent>, k: int, p: Seq<u8>) -> Option<
    (Option<Seq<u8>>, int),
> {
    if 0 <= k < w.len() {
        match w[k] {
            ProcEvent::Canonical { path: asked, reply } => if asked == p {
                Some((reply, k + 1))
            } else {
                None
            },
            _ => None,
        }
    } else {
        None
    }
}

pub open spec fn is_file_at(w: Seq<ProcEvent>, k: int, p: Seq<u8>) -> Option<(bool, int)> {
    if 0 <= k < w.len() {
        match w[k] {
            ProcEvent::IsFile { path: asked, reply } => if asked == p {
                Some((reply, k + 1))
            } else {
                None
            },
            _ => None,
        }
    } else {
        None
    }
}

pub open spec fn search_at(w: Seq<ProcEvent>, k: int) -> Option<(Seq<Seq<u8>>, int)> {
    if 0 <= k < w.len() {
        match w[k] {
            ProcEvent::Search(reply) => Some((reply, k + 1)),
            _ => None,
        }
    } else {
        None
    }
}

pub open spec fn device_at(w: Seq<ProcEvent>, k: int, p: Seq<u8>) -> Option<(Option<u64>, int)> {
    if 0 <= k < w.len() {
        match w[k] {
            ProcEvent::Device { path: asked, reply } => if asked == p {
                Some((reply, k + 1))
            } else {
                None
            },
            _ => None,
        }
    } else {
        None
    }
}

// ---------------------------------------------------------------------------
// Snapshots
// ---------------------------------------------------------------------------

/// The processes of procfs from an entry on; one that cannot be read is left out.
pub open spec fn snapshot_from(
    w: Seq<ProcEvent>,
    k: int,
    entries: Seq<Seq<u8>>,
    i: int,
    found: Seq<EvidenceModel>,
) -> Option<(Seq<EvidenceModel>, int)>
    decreases entries.len() - i,
{
    if i >= entries.len() {
        Some((found, k))
    } else {
        match evidence::entry_pid(entries[i]) {
            None => snapshot_from(w, k, entries, i + 1, found),
            Some(pid) => match read_at(w, k, pid as u32) {
                None => None,
                Some((Ok(Some(e)), n)) => snapshot_from(
                    w,
                    n,
                    entries,
                    i + 1,
                    evidence::inserted(found, e),
                ),
                Some((_, n)) => snapshot_from(w, n, entries, i + 1, found),
            },
        }
    }
}

pub open spec fn snapshot_at(w: Seq<ProcEvent>, k: int) -> Option<
    (Result<Seq<EvidenceModel>, Seq<char>>, int),
> {
    match entries_at(w, k) {
        None => None,
        Some((Err(e), n)) => Some((Err(e), n)),
        Some((Ok(entries), n)) => match snapshot_from(w, n, entries, 0, Seq::empty()) {
            None => None,
            Some((found, m)) => Some((Ok(found), m)),
        },
    }
}

// ---------------------------------------------------------------------------
// Files
// ---------------------------------------------------------------------------

/// What paths resolve to, from one on; with `named`, one that does not resolve stands
/// for itself.
pub open spec fn resolved_from(
    w: Seq<ProcEvent>,
    k: int,
    paths: Seq<Seq<u8>>,
    i: int,
    named: bool,
    found: Seq<Option<Seq<u8>>>,
) -> Option<(Seq<Option<Seq<u8>>>, int)>
    decreases paths.len() - i,
{
    if i >= paths.len() {
        Some((found, k))
    } else {
        match canonical_at(w, k, paths[i]) {
            None => None,
            Some((reply, n)) => resolved_from(
                w,
                n,
                paths,
                i + 1,
                named,
                found.push(
                    if named && reply is None {
                        Some(paths[i])
                    } else {
                        reply
                    },
                ),
            ),
        }
    }
}

/// One of some places, from one on, is the file of an executable.
pub open spec fn trusted_from(
    w: Seq<ProcEvent>,
    k: int,
    executable: Seq<u8>,
    file: Option<Seq<u8>>,
    places: Seq<Seq<u8>>,
    i: int,
) -> Option<(bool, int)>
    decreases places.len() - i,
{
    if i >= places.len() {
        Some((false, k))
    } else {
        match is_file_at(w, k, places[i]) {
            None => None,
            Some((false, n)) => trusted_from(w, n, executable, file, places, i + 1),
            Some((true, n)) => match canonical_at(w, n, places[i]) {
                None => None,
                Some((place, m)) => if command::same_file(places[i], executable, place, file) {
                    Some((true, m))
                } else {
                    trusted_from(w, m, executable, file, places, i + 1)
                },
            },
        }
    }
}

/// An executable is a trusted interpreter: its name is known and it is the program of
/// that name in one of the usual places.
pub open spec fn trusted_at(
    w: Seq<ProcEvent>,
    k: int,
    executable: Seq<u8>,
    file: Option<Seq<u8>>,
) -> Option<(bool, int)> {
    match search_at(w, k) {
        None => None,
        Some((search, n)) => trusted_from(
            w,
            n,
            executable,
            file,
            command::places_to_look(executable, search),
            0,
        ),
    }
}

/// What the paths of a process resolve to.
pub open spec fn files_at(w: Seq<ProcEvent>, k: int, e: EvidenceModel) -> Option<
    (FilesModel, int),
> {
    match e.executable {
        None => Some((FilesModel { executable: None, trusted: false, script: None }, k)),
        Some(executable) => match canonical_at(w, k, executable) {
            None => None,
            Some((file, n)) => match trusted_at(w, n, executable, file) {
                None => None,
                Some((trusted, m)) => match command::script_argument(executable, e.arguments) {
                    Some(script) if trusted => match canonical_at(w, m, script) {
                        None => None,
                        Some((reply, j)) => Some(
                            (FilesModel { executable: file, trusted, script: reply }, j),
                        ),
                    },
                    _ => Some((FilesModel { executable: file, trusted, script: None }, m)),
                },
            },
        },
    }
}

/// The configured executable that a process is recognised as.
pub open spec fn recognised(
    e: EvidenceModel,
    files: FilesModel,
    configured: Seq<Seq<u8>>,
    configured_files: Seq<Option<Seq<u8>>>,
    exact: bool,
) -> Option<usize> {
    match command::recognised_from(e, files, configured, configured_files, exact, 0) {
        Some(i) => Some(i as usize),
        None => None,
    }
}

/// The facts by which a process is chosen. With `exact_first`, its executable goes
/// before its script over all configured executables.
pub open spec fn facts_at(
    w: Seq<ProcEvent>,
    k: int,
    e: EvidenceModel,
    files: Seq<Option<Seq<u8>>>,
    search: SearchModel,
    exact_first: bool,
) -> Option<(CandidateFacts, int)> {
    match files_at(w, k, e) {
        None => None,
        Some((own, n)) => {
            let exact = recognised(e, own, search.configured, files, true);
            Some(
                (
                    CandidateFacts {
                        recognised: if exact_first && exact is Some {
                            exact
                        } else {
                            recognised(e, own, search.configured, files, false)
                        },
                        regex: command::command_matches(e, search.expressions),
                    },
                    n,
                ),
            )
        },
    }
}

/// The facts of some processes, from one on.
pub open spec fn facts_from(
    w: Seq<ProcEvent>,
    k: int,
    candidates: Seq<EvidenceModel>,
    i: int,
    files: Seq<Option<Seq<u8>>>,
    search: SearchModel,
    exact_first: bool,
    found: Seq<CandidateFacts>,
) -> Option<(Seq<CandidateFacts>, int)>
    decreases candidates.len() - i,
{
    if i >= candidates.len() {
        Some((found, k))
    } else {
        match facts_at(w, k, candidates[i], files, search, exact_first) {
            None => None,
            Some((one, n)) => facts_from(
                w,
                n,
                candidates,
                i + 1,
                files,
                search,
                exact_first,
                found.push(one),
            ),
        }
    }
}

// ---------------------------------------------------------------------------
// The foreground of a pane
// ---------------------------------------------------------------------------

pub open spec fn identity_of(e: EvidenceModel) -> ProcessMatchIdentity {
    ProcessMatchIdentity { pid: e.pid, start_time: e.start_time }
}

/// What the foreground group of a pane gives.
pub open spec fn group_at(
    w: Seq<ProcEvent>,
    k: int,
    pane: EvidenceModel,
    files: Seq<Option<Seq<u8>>>,
    search: SearchModel,
) -> Option<(Result<Option<FoundModel>, Seq<char>>, int)> {
    match snapshot_at(w, k) {
        None => None,
        Some((Err(e), n)) => Some((Err(e), n)),
        Some((Ok(processes), n)) => {
            let candidates = evidence::group_of(processes, pane);
            match facts_from(w, n, candidates, 0, files, search, false, Seq::empty()) {
                None => None,
                Some((facts, m)) => chosen_at(
                    w,
                    m,
                    pane,
                    candidates,
                    inspector::choice_of(candidates, facts, pane.tpgid),
                    search,
                ),
            }
        },
    }
}

/// What a choice in the foreground group gives: a match counts only where a second
/// look shows the same process, and the pane the same foreground.
pub open spec fn chosen_at(
    w: Seq<ProcEvent>,
    k: int,
    pane: EvidenceModel,
    candidates: Seq<EvidenceModel>,
    choice: GroupChoice,
    search: SearchModel,
) -> Option<(Result<Option<FoundModel>, Seq<char>>, int)> {
    match choice {
        GroupChoice::Nothing => Some((Ok(None), k)),
        GroupChoice::Leader(at) => {
            let leader = candidates[at as int];
            Some(
                (
                    Ok(
                        Some(
                            FoundModel {
                                path: leader.executable->0,
                                identity: identity_of(leader),
                                proven: false,
                            },
                        ),
                    ),
                    k,
                ),
            )
        },
        GroupChoice::Matched { candidate, configured } => {
            let matched = candidates[candidate as int];
            match read_at(w, k, matched.pid) {
                None => None,
                Some((Err(e), n)) => Some((Err(e), n)),
                Some((Ok(None), n)) => Some((Ok(None), n)),
                Some((Ok(again), n)) => match read_at(w, n, pane.pid) {
                    None => None,
                    Some((Err(e), m)) => Some((Err(e), m)),
                    Some((Ok(pane_again), m)) => Some(
                        (
                            Ok(
                                if inspector::still_same(matched, again)
                                    && inspector::still_foreground(pane, pane_again) {
                                    Some(
                                        FoundModel {
                                            path: search.configured[configured as int],
                                            identity: identity_of(matched),
                                            proven: true,
                                        },
                                    )
                                } else {
                                    None
                                },
                            ),
                            m,
                        ),
                    ),
                },
            }
        },
    }
}

/// What the foreground of a pane gives.
pub open spec fn foreground_at(w: Seq<ProcEvent>, k: int, pid: u32, search: SearchModel) -> Option<
    (Result<Option<FoundModel>, Seq<char>>, int),
> {
    match read_at(w, k, pid) {
        None => None,
        Some((Err(e), n)) => Some((Err(e), n)),
        Some((Ok(None), n)) => Some((Ok(None), n)),
        Some((Ok(Some(pane)), n)) => match resolved_from(
            w,
            n,
            search.configured,
            0,
            false,
            Seq::empty(),
        ) {
            None => None,
            Some((files, m)) => leader_at(w, m, pane, files, search),
        },
    }
}

/// What the leader of a pane gives, and, where it does not decide, its group.
pub open spec fn leader_at(
    w: Seq<ProcEvent>,
    k: int,
    pane: EvidenceModel,
    files: Seq<Option<Seq<u8>>>,
    search: SearchModel,
) -> Option<(Result<Option<FoundModel>, Seq<char>>, int)> {
    match files_at(w, k, pane) {
        None => None,
        Some((own, n)) => match inspector::first_look_of(
            pane,
            recognised(pane, own, search.configured, files, true),
            recognised(pane, own, search.configured, files, false),
            command::command_matches(pane, search.expressions),
        ) {
            FirstLook::Nothing => Some((Ok(None), n)),
            FirstLook::Group => group_at(w, n, pane, files, search),
            FirstLook::Itself(i) => match read_at(w, n, pane.pid) {
                None => None,
                Some((Err(e), m)) => Some((Err(e), m)),
                Some((Ok(again), m)) => Some(
                    (
                        Ok(
                            if inspector::still_same(pane, again) {
                                Some(
                                    FoundModel {
                                        path: search.configured[i as int],
                                        identity: identity_of(pane),
                                        proven: true,
                                    },
                                )
                            } else {
                                None
                            },
                        ),
                        m,
                    ),
                ),
            },
        },
    }
}

// ---------------------------------------------------------------------------
// The scope of a pane
// ---------------------------------------------------------------------------

/// The first candidate that counts, from one on: in the first round those that are
/// recognised, in the second those with a matching command line. Each is looked at
/// again in a new snapshot.
pub open spec fn scoped_from(
    w: Seq<ProcEvent>,
    k: int,
    initial: EvidenceModel,
    candidates: Seq<EvidenceModel>,
    facts: Seq<CandidateFacts>,
    search: SearchModel,
    round: int,
    i: int,
) -> Option<(Result<Option<FoundModel>, Seq<char>>, int)>
    decreases 2 - round, candidates.len() - i,
{
    if round >= 2 {
        Some((Ok(None), k))
    } else if i >= candidates.len() {
        scoped_from(w, k, initial, candidates, facts, search, round + 1, 0)
    } else {
        let configured: Option<usize> = if round <= 0 {
            facts[i].recognised
        } else if facts[i].regex {
            Some(0usize)
        } else {
            None
        };
        match configured {
            None => scoped_from(w, k, initial, candidates, facts, search, round, i + 1),
            Some(c) => match snapshot_at(w, k) {
                None => None,
                Some((Err(e), n)) => Some((Err(e), n)),
                Some((Ok(current), n)) => if inspector::scoped_current(
                    initial,
                    candidates[i],
                    current,
                    search.scope,
                ) {
                    Some(
                        (
                            Ok(
                                Some(
                                    FoundModel {
                                        path: search.configured[c as int],
                                        identity: identity_of(candidates[i]),
                                        proven: true,
                                    },
                                ),
                            ),
                            n,
                        ),
                    )
                } else {
                    scoped_from(w, n, initial, candidates, facts, search, round, i + 1)
                },
            },
        }
    }
}

/// What some candidates give.
pub open spec fn candidates_at(
    w: Seq<ProcEvent>,
    k: int,
    initial: EvidenceModel,
    candidates: Seq<EvidenceModel>,
    search: SearchModel,
) -> Option<(Result<Option<FoundModel>, Seq<char>>, int)> {
    match resolved_from(w, k, search.configured, 0, false, Seq::empty()) {
        None => None,
        Some((files, n)) => match facts_from(
            w,
            n,
            candidates,
            0,
            files,
            search,
            false,
            Seq::empty(),
        ) {
            None => None,
            Some((facts, m)) => scoped_from(w, m, initial, candidates, facts, search, 0, 0),
        },
    }
}

/// What the scope of a pane gives: its foreground, the processes below its leader, or
/// those on its terminal.
pub open spec fn scoped_at(
    w: Seq<ProcEvent>,
    k: int,
    pid: u32,
    tty: Seq<u8>,
    search: SearchModel,
) -> Option<(Result<Option<FoundModel>, Seq<char>>, int)> {
    if search.scope == MatchScope::Foreground {
        foreground_at(w, k, pid, search)
    } else {
        match read_at(w, k, pid) {
            None => None,
            Some((Err(e), n)) => Some((Err(e), n)),
            Some((Ok(None), n)) => Some((Ok(None), n)),
            Some((Ok(Some(initial)), n)) => match snapshot_at(w, n) {
                None => None,
                Some((Err(e), m)) => Some((Err(e), m)),
                Some((Ok(processes), m)) => if search.scope == MatchScope::PaneTree {
                    candidates_at(
                        w,
                        m,
                        initial,
                        evidence::tree_of(processes, processes, initial.pid),
                        search,
                    )
                } else if !path::is_absolute(tty) {
                    Some((Ok(None), m))
                } else {
                    match device_at(w, m, tty) {
                        None => None,
                        Some((None, j)) => Some((Ok(None), j)),
                        Some((Some(device), j)) => if initial.tty_nr != device as i64 {
                            Some((Ok(None), j))
                        } else {
                            candidates_at(
                                w,
                                j,
                                initial,
                                evidence::on_terminal(processes, initial.tty_nr),
                                search,
                            )
                        },
                    }
                },
            },
        }
    }
}

/// One of the configured executables, from one on, is a file.
pub open spec fn among_from(
    w: Seq<ProcEvent>,
    k: int,
    p: Seq<u8>,
    file: Option<Seq<u8>>,
    configured: Seq<Seq<u8>>,
    i: int,
) -> Option<(bool, int)>
    decreases configured.len() - i,
{
    if i >= configured.len() {
        Some((false, k))
    } else {
        match canonical_at(w, k, configured[i]) {
            None => None,
            Some((wanted, n)) => if command::same_file(p, configured[i], file, wanted) {
                Some((true, n))
            } else {
                among_from(w, n, p, file, configured, i + 1)
            },
        }
    }
}

/// Whether the foreground of a pane is one of the configured executables.
pub open spec fn matches_at(w: Seq<ProcEvent>, k: int, pid: u32, search: SearchModel) -> Option<
    (Result<bool, Seq<char>>, int),
> {
    match foreground_at(w, k, pid, search) {
        None => None,
        Some((Err(e), n)) => Some((Err(e), n)),
        Some((Ok(None), n)) => Some((Ok(false), n)),
        Some((Ok(Some(found)), n)) => match canonical_at(w, n, found.path) {
            None => None,
            Some((file, m)) => match among_from(w, m, found.path, file, search.configured, 0) {
                None => None,
                Some((yes, j)) => Some((Ok(yes), j)),
            },
        },
    }
}

// ---------------------------------------------------------------------------
// Exact executables
// ---------------------------------------------------------------------------

/// Whether the executable of a process is a configured one.
pub open spec fn exact_at(
    w: Seq<ProcEvent>,
    k: int,
    e: EvidenceModel,
    files: Seq<Option<Seq<u8>>>,
    configured: Seq<Seq<u8>>,
) -> Option<(bool, int)> {
    match e.executable {
        None => Some((false, k)),
        Some(executable) => match canonical_at(w, k, executable) {
            None => None,
            Some((file, n)) => Some(
                (
                    recognised(
                        e,
                        FilesModel { executable: file, trusted: false, script: None },
                        configured,
                        files,
                        true,
                    ) is Some,
                    n,
                ),
            ),
        },
    }
}

/// Whether one of some processes, from one on, runs exactly a configured executable
/// while the pane keeps its foreground.
pub open spec fn exact_from(
    w: Seq<ProcEvent>,
    k: int,
    pane: EvidenceModel,
    candidates: Seq<EvidenceModel>,
    i: int,
    files: Seq<Option<Seq<u8>>>,
    configured: Seq<Seq<u8>>,
) -> Option<(Result<bool, Seq<char>>, int)>
    decreases candidates.len() - i,
{
    if i >= candidates.len() {
        Some((Ok(false), k))
    } else {
        match exact_at(w, k, candidates[i], files, configured) {
            None => None,
            Some((false, n)) => exact_from(w, n, pane, candidates, i + 1, files, configured),
            Some((true, n)) => match read_at(w, n, pane.pid) {
                None => None,
                Some((Err(e), m)) => Some((Err(e), m)),
                Some((Ok(again), m)) => Some((Ok(inspector::still_foreground(pane, again)), m)),
            },
        }
    }
}

/// Whether the foreground of a pane holds exactly a configured executable.
pub open spec fn foreground_exact_at(
    w: Seq<ProcEvent>,
    k: int,
    pid: u32,
    configured: Seq<Seq<u8>>,
) -> Option<(Result<bool, Seq<char>>, int)> {
    match read_at(w, k, pid) {
        None => None,
        Some((Err(e), n)) => Some((Err(e), n)),
        Some((Ok(None), n)) => Some((Ok(false), n)),
        Some((Ok(Some(pane)), n)) => match resolved_from(
            w,
            n,
            configured,
            0,
            false,
            Seq::empty(),
        ) {
            None => None,
            Some((files, m)) => match exact_at(w, m, pane, files, configured) {
                None => None,
                Some((true, j)) => Some((Ok(true), j)),
                Some((false, j)) => if !inspector::leads_terminal(pane) {
                    Some((Ok(false), j))
                } else {
                    match snapshot_at(w, j) {
                        None => None,
                        Some((Err(e), l)) => Some((Err(e), l)),
                        Some((Ok(processes), l)) => exact_from(
                            w,
                            l,
                            pane,
                            evidence::group_of(processes, pane),
                            0,
                            files,
                            configured,
                        ),
                    }
                },
            },
        },
    }
}

// ---------------------------------------------------------------------------
// Shells
// ---------------------------------------------------------------------------

/// Whether the executable of a shell is the one that a search would find.
pub open spec fn shell_program_at(
    w: Seq<ProcEvent>,
    k: int,
    executable: Seq<u8>,
    command: Seq<char>,
) -> Option<(bool, int)> {
    if path::file_name(executable) != Some(text::utf8(command)) {
        Some((false, k))
    } else {
        match canonical_at(w, k, executable) {
            None => None,
            Some((file, n)) => match search_at(w, n) {
                None => None,
                Some((search, m)) => trusted_from(
                    w,
                    m,
                    executable,
                    file,
                    Seq::new(search.len(), |i: int| path::joined(search[i], text::utf8(command))),
                    0,
                ),
            },
        }
    }
}

/// A process could be an interactive shell in the foreground, but for its program.
pub open spec fn shell_shaped(pane: EvidenceModel, command: Seq<char>) -> bool {
    &&& inspector::leads_terminal(pane)
    &&& pane.pid == pane.pgrp
    &&& pane.pgrp == pane.tpgid
    &&& pane.executable is Some
    &&& command::interactive(pane.arguments, command)
}

/// Whether the leader of a pane is an interactive Bash or Zsh in the foreground.
pub open spec fn shell_at(w: Seq<ProcEvent>, k: int, pid: u32, command: Seq<char>) -> Option<
    (Result<bool, Seq<char>>, int),
> {
    if command != "bash"@ && command != "zsh"@ {
        Some((Ok(false), k))
    } else {
        match read_at(w, k, pid) {
            None => None,
            Some((Err(e), n)) => Some((Err(e), n)),
            Some((Ok(None), n)) => Some((Ok(false), n)),
            Some((Ok(Some(pane)), n)) => if !shell_shaped(pane, command) {
                Some((Ok(false), n))
            } else {
                match shell_program_at(w, n, pane.executable->0, command) {
                    None => None,
                    Some((false, m)) => Some((Ok(false), m)),
                    Some((true, m)) => match read_at(w, m, pid) {
                        None => None,
                        Some((Err(e), j)) => Some((Err(e), j)),
                        Some((Ok(again), j)) => Some(
                            (Ok(inspector::is_foreground_shell(pane, again, true, command)), j),
                        ),
                    },
                }
            },
        }
    }
}

// ---------------------------------------------------------------------------
// Several panes at once
// ---------------------------------------------------------------------------

/// What one leader gives against a snapshot that several share.
pub open spec fn shared_at(
    w: Seq<ProcEvent>,
    k: int,
    pane: EvidenceModel,
    shared: Result<Seq<EvidenceModel>, Seq<char>>,
    files: Seq<Option<Seq<u8>>>,
    search: SearchModel,
) -> Option<(Result<Option<Seq<u8>>, Seq<char>>, int)> {
    match files_at(w, k, pane) {
        None => None,
        Some((own, n)) => match recognised(pane, own, search.configured, files, true) {
            Some(i) => match read_at(w, n, pane.pid) {
                None => None,
                Some((Err(e), m)) => Some((Err(e), m)),
                Some((Ok(again), m)) => Some(
                    (
                        Ok(
                            if inspector::still_same(pane, again) {
                                Some(search.configured[i as int])
                            } else {
                                None
                            },
                        ),
                        m,
                    ),
                ),
            },
            None => if !inspector::leads_terminal(pane) {
                Some((Ok(None), n))
            } else {
                match shared {
                    Err(e) => Some((Err(e), n)),
                    Ok(processes) => shared_group_at(
                        w,
                        n,
                        pane,
                        evidence::group_of(processes, pane),
                        files,
                        search,
                    ),
                }
            },
        },
    }
}

/// What the foreground group of a leader gives against that snapshot.
pub open spec fn shared_group_at(
    w: Seq<ProcEvent>,
    k: int,
    pane: EvidenceModel,
    candidates: Seq<EvidenceModel>,
    files: Seq<Option<Seq<u8>>>,
    search: SearchModel,
) -> Option<(Result<Option<Seq<u8>>, Seq<char>>, int)> {
    match facts_from(w, k, candidates, 0, files, search, true, Seq::empty()) {
        None => None,
        Some((facts, n)) => match inspector::choice_of(candidates, facts, pane.tpgid) {
            GroupChoice::Nothing => Some((Ok(None), n)),
            GroupChoice::Leader(at) => rechecked_at(
                w,
                n,
                pane,
                candidates[at as int],
                candidates[at as int].executable->0,
            ),
            GroupChoice::Matched { candidate, configured } => rechecked_at(
                w,
                n,
                pane,
                candidates[candidate as int],
                search.configured[configured as int],
            ),
        },
    }
}

/// A choice counts where a second look shows the same foreground and the same process.
pub open spec fn rechecked_at(
    w: Seq<ProcEvent>,
    k: int,
    pane: EvidenceModel,
    matched: EvidenceModel,
    p: Seq<u8>,
) -> Option<(Result<Option<Seq<u8>>, Seq<char>>, int)> {
    match read_at(w, k, pane.pid) {
        None => None,
        Some((Err(e), n)) => Some((Err(e), n)),
        Some((Ok(None), n)) => Some((Ok(None), n)),
        Some((Ok(pane_again), n)) => match read_at(w, n, matched.pid) {
            None => None,
            Some((Err(e), m)) => Some((Err(e), m)),
            Some((Ok(again), m)) => Some(
                (
                    Ok(
                        if inspector::still_foreground(pane, pane_again) && inspector::still_same(
                            matched,
                            again,
                        ) {
                            Some(p)
                        } else {
                            None
                        },
                    ),
                    m,
                ),
            ),
        },
    }
}

/// The leaders of panes, from one on, and whether a snapshot is needed for one of them.
pub open spec fn leaders_from(
    w: Seq<ProcEvent>,
    k: int,
    pids: Seq<u32>,
    i: int,
    files: Seq<Option<Seq<u8>>>,
    configured: Seq<Seq<u8>>,
    found: Seq<Result<Option<EvidenceModel>, Seq<char>>>,
    needed: bool,
) -> Option<((Seq<Result<Option<EvidenceModel>, Seq<char>>>, bool), int)>
    decreases pids.len() - i,
{
    if i >= pids.len() {
        Some(((found, needed), k))
    } else {
        match read_at(w, k, pids[i]) {
            None => None,
            Some((reply, n)) => {
                let next = found.push(reply);
                match reply {
                    Ok(Some(pane)) if inspector::leads_terminal(pane) => match exact_at(
                        w,
                        n,
                        pane,
                        files,
                        configured,
                    ) {
                        None => None,
                        Some((exact, m)) => leaders_from(
                            w,
                            m,
                            pids,
                            i + 1,
                            files,
                            configured,
                            next,
                            needed || !exact,
                        ),
                    },
                    _ => leaders_from(w, n, pids, i + 1, files, configured, next, needed),
                }
            },
        }
    }
}

/// What each leader gives, from one on.
pub open spec fn results_from(
    w: Seq<ProcEvent>,
    k: int,
    leaders: Seq<Result<Option<EvidenceModel>, Seq<char>>>,
    i: int,
    shared: Result<Seq<EvidenceModel>, Seq<char>>,
    files: Seq<Option<Seq<u8>>>,
    search: SearchModel,
    found: Seq<Result<Option<Seq<u8>>, Seq<char>>>,
) -> Option<(Seq<Result<Option<Seq<u8>>, Seq<char>>>, int)>
    decreases leaders.len() - i,
{
    if i >= leaders.len() {
        Some((found, k))
    } else {
        match leaders[i] {
            Err(e) => results_from(
                w,
                k,
                leaders,
                i + 1,
                shared,
                files,
                search,
                found.push(Err::<Option<Seq<u8>>, Seq<char>>(e)),
            ),
            Ok(None) => results_from(
                w,
                k,
                leaders,
                i + 1,
                shared,
                files,
                search,
                found.push(Ok::<Option<Seq<u8>>, Seq<char>>(None)),
            ),
            Ok(Some(pane)) => match shared_at(w, k, pane, shared, files, search) {
                None => None,
                Some((one, n)) => results_from(
                    w,
                    n,
                    leaders,
                    i + 1,
                    shared,
                    files,
                    search,
                    found.push(one),
                ),
            },
        }
    }
}

/// What several pane leaders give, each its own result, with at most one snapshot
/// between them.
pub open spec fn batch_at(w: Seq<ProcEvent>, k: int, pids: Seq<u32>, search: SearchModel) -> Option<
    (Seq<Result<Option<Seq<u8>>, Seq<char>>>, int),
> {
    match resolved_from(w, k, search.configured, 0, true, Seq::empty()) {
        None => None,
        Some((files, n)) => match leaders_from(
            w,
            n,
            pids,
            0,
            files,
            search.configured,
            Seq::empty(),
            false,
        ) {
            None => None,
            Some(((leaders, needed), m)) => if needed {
                match snapshot_at(w, m) {
                    None => None,
                    Some((shared, j)) => results_from(
                        w,
                        j,
                        leaders,
                        0,
                        shared,
                        files,
                        search,
                        Seq::empty(),
                    ),
                }
            } else {
                results_from(
                    w,
                    m,
                    leaders,
                    0,
                    Ok(Seq::empty()),
                    files,
                    search,
                    Seq::empty(),
                )
            },
        },
    }
}

/// The processes that a record shows, in order.
pub open spec fn seen_in(log: Seq<ProcEvent>) -> Seq<EvidenceModel>
    decreases log.len(),
{
    if log.len() == 0 {
        Seq::empty()
    } else {
        let before = seen_in(log.drop_last());
        match log.last() {
            ProcEvent::Read { reply: Ok(Some(e)), .. } => before.push(e),
            _ => before,
        }
    }
}

/// One more answer shows at most one more process.
pub proof fn seen_with_one_more(log: Seq<ProcEvent>, e: ProcEvent)
    ensures
        seen_in(log.push(e)) == match e {
            ProcEvent::Read { reply: Ok(Some(process)), .. } => seen_in(log).push(process),
            _ => seen_in(log),
        },
{
    assert(log.push(e).drop_last() =~= log);
}

} // verus!
