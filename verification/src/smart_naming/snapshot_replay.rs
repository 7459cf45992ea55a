//! What a search of shell snapshots or of process environments gives, as a function of
//! what the system answered.
//!
//! Every function here reads a log of questions and answers from a place on. It gives
//! the result and the place behind the last question; `None` where the log holds other
//! questions than the search asks.

use vstd::prelude::*;
use crate::error;
use crate::error::ErrorModel;
use crate::smart_naming::process_store;
use crate::smart_naming::process_store::ProcEntry;
use crate::smart_naming::processes;
use crate::smart_naming::processes::{ProcessEntry, MAX_PROCESS_ENTRIES};
use crate::smart_naming::rollout;
use crate::smart_naming::rollout::EntryFacts;
use crate::smart_naming::rollout_replay::EntryModel;
use crate::smart_naming::rollout_store::EntryKind;
use crate::smart_naming::shell_snapshot;
use crate::smart_naming::shell_snapshot::{MAX_ENVIRONMENT_BYTES, MAX_SNAPSHOT_ENTRIES};
use crate::smart_naming::thread;
use crate::smart_naming::title;

verus! {

/// A question with its answer.
pub enum SnapshotEvent {
    User(u32),
    Started { pid: u32, reply: Result<u64, ErrorModel> },
    Root { path: Seq<u8>, reply: Result<Option<EntryFacts>, ErrorModel> },
    Entries { path: Seq<u8>, reply: Result<Seq<EntryModel>, ErrorModel> },
    File { name: Seq<u8>, reply: Result<(EntryFacts, i64), ErrorModel> },
    Lines { name: Seq<u8>, reply: Result<Seq<Seq<char>>, ErrorModel> },
    Processes(Result<Seq<ProcEntry>, ErrorModel>),
    Environment { pid: u32, reply: Result<Option<Seq<u8>>, ErrorModel> },
    Identity { pid: u32, reply: Option<(u32, u64)> },
}

/// A log begins with another.
pub open spec fn agrees(w: Seq<SnapshotEvent>, log: Seq<SnapshotEvent>) -> bool {
    &&& log.len() <= w.len()
    &&& forall|i: int| 0 <= i < log.len() ==> #[trigger] w[i] == log[i]
}

pub open spec fn user_at(w: Seq<SnapshotEvent>, k: int) -> Option<
    (u32, int),
> {
    if 0 <= k < w.len() {
        match w[k] {
            SnapshotEvent::User(reply) => Some((reply, k + 1)),
            _ => None,
        }
    } else {
        None
    }
}

pub open spec fn started_at(w: Seq<SnapshotEvent>, k: int, pid: u32) -> Option<
    (Result<u64, ErrorModel>, int),
> {
    if 0 <= k < w.len() {
        match w[k] {
            SnapshotEvent::Started { pid: asked, reply } => if asked == pid {
                Some((reply, k + 1))
            } else {
                None
            },
            _ => None,
        }
    } else {
        None
    }
}

pub open spec fn root_at(w: Seq<SnapshotEvent>, k: int, path: Seq<u8>) -> Option<
    (Result<Option<EntryFacts>, ErrorModel>, int),
> {
    if 0 <= k < w.len() {
        match w[k] {
            SnapshotEvent::Root { path: asked, reply } => if asked == path {
                Some((reply, k + 1))
            } else {
                None
            },
            _ => None,
        }
    } else {
        None
    }
}

pub open spec fn entries_at(w: Seq<SnapshotEvent>, k: int, path: Seq<u8>) -> Option<
    (Result<Seq<EntryModel>, ErrorModel>, int),
> {
    if 0 <= k < w.len() {
        match w[k] {
            SnapshotEvent::Entries { path: asked, reply } => if asked == path {
                Some((reply, k + 1))
            } else {
                None
            },
            _ => None,
        }
    } else {
        None
    }
}

pub open spec fn file_at(w: Seq<SnapshotEvent>, k: int, name: Seq<u8>) -> Option<
    (Result<(EntryFacts, i64), ErrorModel>, int),
> {
    if 0 <= k < w.len() {
        match w[k] {
            SnapshotEvent::File { name: asked, reply } => if asked == name {
                Some((reply, k + 1))
            } else {
                None
            },
            _ => None,
        }
    } else {
        None
    }
}

pub open spec fn lines_at(w: Seq<SnapshotEvent>, k: int, name: Seq<u8>) -> Option<
    (Result<Seq<Seq<char>>, ErrorModel>, int),
> {
    if 0 <= k < w.len() {
        match w[k] {
            SnapshotEvent::Lines { name: asked, reply } => if asked == name {
                Some((reply, k + 1))
            } else {
                None
            },
            _ => None,
        }
    } else {
        None
    }
}

pub open spec fn processes_at(w: Seq<SnapshotEvent>, k: int) -> Option<
    (Result<Seq<ProcEntry>, ErrorModel>, int),
> {
    if 0 <= k < w.len() {
        match w[k] {
            SnapshotEvent::Processes(reply) => Some((reply, k + 1)),
            _ => None,
        }
    } else {
        None
    }
}

pub open spec fn environment_at(w: Seq<SnapshotEvent>, k: int, pid: u32) -> Option<
    (Result<Option<Seq<u8>>, ErrorModel>, int),
> {
    if 0 <= k < w.len() {
        match w[k] {
            SnapshotEvent::Environment { pid: asked, reply } => if asked == pid {
                Some((reply, k + 1))
            } else {
                None
            },
            _ => None,
        }
    } else {
        None
    }
}

pub open spec fn identity_at(w: Seq<SnapshotEvent>, k: int, pid: u32) -> Option<
    (Option<(u32, u64)>, int),
> {
    if 0 <= k < w.len() {
        match w[k] {
            SnapshotEvent::Identity { pid: asked, reply } => if asked == pid {
                Some((reply, k + 1))
            } else {
                None
            },
            _ => None,
        }
    } else {
        None
    }
}

// ---------------------------------------------------------------------------
// Snapshots
// ---------------------------------------------------------------------------

/// The thread that the snapshots of a directory claim for a pane, from an entry on.
pub open spec fn claims_from(
    w: Seq<SnapshotEvent>,
    k: int,
    entries: Seq<EntryModel>,
    i: int,
    pane: Seq<char>,
    user: u32,
    started: u64,
    matched: Option<Seq<char>>,
) -> Option<(Result<Option<Seq<char>>, ErrorModel>, int)>
    decreases entries.len() - i,
{
    if i >= entries.len() {
        Some((Ok(matched), k))
    } else if i >= MAX_SNAPSHOT_ENTRIES {
        Some(
            (Err(title::protocol_error("shell snapshot discovery exceeded its entry limit"@)), k),
        )
    } else {
        match entries[i] {
            Err(e) => Some(
                (
                    Err(
                        title::protocol_error(
                            "cannot read a shell snapshot entry: "@ + error::error_text(e),
                        ),
                    ),
                    k,
                ),
            ),
            Ok((name, kind)) => if kind != EntryKind::File || shell_snapshot::snapshot_thread(
                name,
            ) is None {
                claims_from(w, k, entries, i + 1, pane, user, started, matched)
            } else {
                let id = shell_snapshot::snapshot_thread(name)->0;
                match file_at(w, k, name) {
                    None => None,
                    Some((Err(e), n)) => Some((Err(e), n)),
                    Some((Ok((facts, modified)), n)) => if !shell_snapshot::is_safe_snapshot(
                        facts,
                        modified,
                        user,
                        started,
                    ) {
                        claims_from(w, n, entries, i + 1, pane, user, started, matched)
                    } else {
                        match lines_at(w, n, name) {
                            None => None,
                            Some((Err(e), m)) => Some((Err(e), m)),
                            Some((Ok(lines), m)) => if shell_snapshot::pane_in(lines, 0) != Some(
                                pane,
                            ) {
                                claims_from(w, m, entries, i + 1, pane, user, started, matched)
                            } else if matched is Some && matched->0 != id {
                                Some(
                                    (
                                        Err(
                                            title::protocol_error(
                                                "live pane matches multiple shell snapshot threads"@,
                                            ),
                                        ),
                                        m,
                                    ),
                                )
                            } else {
                                claims_from(w, m, entries, i + 1, pane, user, started, Some(id))
                            },
                        }
                    },
                }
            },
        }
    }
}

/// The thread that the snapshots of a directory claim for a pane.
pub open spec fn snapshot_at(
    w: Seq<SnapshotEvent>,
    k: int,
    root: Seq<u8>,
    pane: Seq<char>,
    leader: u32,
) -> Option<(Result<Option<Seq<char>>, ErrorModel>, int)> {
    match started_at(w, k, leader) {
        None => None,
        Some((Err(e), n)) => Some((Err(e), n)),
        Some((Ok(started), n)) => match user_at(w, n) {
            None => None,
            Some((user, m)) => match root_at(w, m, root) {
                None => None,
                Some((Err(e), j)) => Some((Err(e), j)),
                Some((Ok(None), j)) => Some((Ok(None), j)),
                Some((Ok(Some(facts)), j)) => if !rollout::is_private_directory(facts, user) {
                    Some(
                        (
                            Err(title::protocol_error("shell snapshot directory is not trusted"@)),
                            j,
                        ),
                    )
                } else {
                    match entries_at(w, j, root) {
                        None => None,
                        Some((Err(e), l)) => Some((Err(e), l)),
                        Some((Ok(entries), l)) => claims_from(
                            w,
                            l,
                            entries,
                            0,
                            pane,
                            user,
                            started,
                            None,
                        ),
                    }
                },
            },
        },
    }
}

// ---------------------------------------------------------------------------
// Environments
// ---------------------------------------------------------------------------

/// The session that an environment claims for a pane.
pub open spec fn session_of(bytes: Seq<u8>, pane: Seq<char>) -> Option<Seq<char>> {
    match shell_snapshot::environment_identity(bytes) {
        Some((named, id)) => if named == pane && thread::is_thread_id(id) {
            Some(id)
        } else {
            None
        },
        None => None,
    }
}

/// The sessions that the processes of a pane claim, from one on, each once.
pub open spec fn sessions_from(
    w: Seq<SnapshotEvent>,
    k: int,
    table: Seq<ProcessEntry>,
    i: int,
    pane: Seq<char>,
    leader: u32,
    found: Seq<Seq<char>>,
) -> Option<(Result<Seq<Seq<char>>, ErrorModel>, int)>
    decreases table.len() - i,
{
    if i >= table.len() {
        Some((Ok(found), k))
    } else if table[i].pid == leader || !processes::is_descendant(table, table[i].pid, leader) {
        sessions_from(w, k, table, i + 1, pane, leader, found)
    } else {
        match environment_at(w, k, table[i].pid) {
            None => None,
            Some((Err(e), n)) => Some((Err(e), n)),
            Some((Ok(None), n)) => sessions_from(w, n, table, i + 1, pane, leader, found),
            Some((Ok(Some(bytes)), n)) => if bytes.len() > MAX_ENVIRONMENT_BYTES {
                Some(
                    (Err(title::protocol_error("process environment exceeded its byte limit"@)), n),
                )
            } else {
                match session_of(bytes, pane) {
                    None => sessions_from(w, n, table, i + 1, pane, leader, found),
                    Some(id) => match identity_at(w, n, table[i].pid) {
                        None => None,
                        Some((now, m)) => sessions_from(
                            w,
                            m,
                            table,
                            i + 1,
                            pane,
                            leader,
                            if now == Some((table[i].parent, table[i].started)) && !found.contains(
                                id,
                            ) {
                                found.push(id)
                            } else {
                                found
                            },
                        ),
                    },
                }
            },
        }
    }
}

/// The sessions that the processes of a pane claim in one look.
pub open spec fn sessions_at(
    w: Seq<SnapshotEvent>,
    k: int,
    pane: Seq<char>,
    leader: u32,
) -> Option<(Result<Seq<Seq<char>>, ErrorModel>, int)> {
    match processes_at(w, k) {
        None => None,
        Some((Err(e), n)) => Some((Err(e), n)),
        Some((Ok(entries), n)) => if entries.len() > MAX_PROCESS_ENTRIES {
            Some(
                (
                    Err(
                        title::protocol_error(
                            "process environment discovery exceeded its entry limit"@,
                        ),
                    ),
                    n,
                ),
            )
        } else {
            let table = process_store::table_of(entries);
            match processes::identity_of(table, leader) {
                None => Some((Ok(Seq::empty()), n)),
                Some(identity) => match sessions_from(
                    w,
                    n,
                    table,
                    0,
                    pane,
                    leader,
                    Seq::empty(),
                ) {
                    None => None,
                    Some((Err(e), m)) => Some((Err(e), m)),
                    Some((Ok(found), m)) => match identity_at(w, m, leader) {
                        None => None,
                        Some((now, j)) => Some(
                            (
                                Ok(
                                    if now == Some(identity) {
                                        found
                                    } else {
                                        Seq::empty()
                                    },
                                ),
                                j,
                            ),
                        ),
                    },
                },
            }
        },
    }
}

/// The one session that the processes of a pane claim in two looks.
pub open spec fn session_at(
    w: Seq<SnapshotEvent>,
    k: int,
    pane: Seq<char>,
    leader: u32,
) -> Option<(Result<Option<Seq<char>>, ErrorModel>, int)> {
    match sessions_at(w, k, pane, leader) {
        None => None,
        Some((Err(e), n)) => Some((Err(e), n)),
        Some((Ok(first), n)) => match sessions_at(w, n, pane, leader) {
            None => None,
            Some((Err(e), m)) => Some((Err(e), m)),
            Some((Ok(second), m)) => Some((shell_snapshot::agreed(first, second), m)),
        },
    }
}

// ---------------------------------------------------------------------------
// Laws
// ---------------------------------------------------------------------------

/// A snapshot that is named after a thread was read, and it names a pane.
pub open spec fn claims_pane(
    w: Seq<SnapshotEvent>,
    k: int,
    name: Seq<u8>,
    pane: Seq<char>,
    id: Seq<char>,
) -> bool {
    &&& shell_snapshot::snapshot_thread(name) == Some(id)
    &&& lines_at(w, k, name) matches Some((Ok(lines), _)) && shell_snapshot::pane_in(lines, 0)
        == Some(pane)
}

/// The thread that snapshots claim for a pane was read in one that names the pane, and
/// all that name it claim the same: once one is found, no other is given in its place.
pub proof fn snapshots_agree(
    w: Seq<SnapshotEvent>,
    k: int,
    entries: Seq<EntryModel>,
    i: int,
    pane: Seq<char>,
    user: u32,
    started: u64,
    matched: Option<Seq<char>>,
)
    requires
        matched matches Some(id) ==> exists|j: int, name: Seq<u8>| #[trigger]
            claims_pane(w, j, name, pane, id),
    ensures
        claims_from(w, k, entries, i, pane, user, started, matched) matches Some((Ok(found), _))
            ==> {
            &&& matched is Some ==> found == matched
            &&& found matches Some(id) ==> exists|j: int, name: Seq<u8>| #[trigger]
                claims_pane(w, j, name, pane, id)
        },
    decreases entries.len() - i,
{
    if i < entries.len() && i < MAX_SNAPSHOT_ENTRIES {
        snapshots_agree(w, k, entries, i + 1, pane, user, started, matched);
        snapshots_agree(w, k + 1, entries, i + 1, pane, user, started, matched);
        snapshots_agree(w, k + 2, entries, i + 1, pane, user, started, matched);
        if let Ok((name, _)) = entries[i] {
            if let Some(id) = shell_snapshot::snapshot_thread(name) {
                if let Some((Ok(lines), m)) = lines_at(w, k + 1, name) {
                    if shell_snapshot::pane_in(lines, 0) == Some(pane) {
                        assert(claims_pane(w, k + 1, name, pane, id));
                        snapshots_agree(w, m, entries, i + 1, pane, user, started, Some(id));
                    }
                }
            }
        }
    }
}

/// The environment of a process was read, and it claims a session for a pane.
pub open spec fn claims_session(
    w: Seq<SnapshotEvent>,
    k: int,
    pid: u32,
    pane: Seq<char>,
    id: Seq<char>,
) -> bool {
    environment_at(w, k, pid) matches Some((Ok(Some(bytes)), _)) && session_of(bytes, pane)
        == Some(id)
}

/// Some environment that was read claims a session for a pane.
pub open spec fn is_claimed(w: Seq<SnapshotEvent>, pane: Seq<char>, id: Seq<char>) -> bool {
    exists|k: int, pid: u32| #[trigger] claims_session(w, k, pid, pane, id)
}

pub open spec fn all_claimed(w: Seq<SnapshotEvent>, pane: Seq<char>, ids: Seq<Seq<char>>) -> bool {
    forall|i: int| 0 <= i < ids.len() ==> is_claimed(w, pane, #[trigger] ids[i])
}

/// Every session that is found for a pane is claimed by the environment of one of its
/// processes, as it was read.
pub proof fn found_sessions_are_claimed(
    w: Seq<SnapshotEvent>,
    k: int,
    table: Seq<ProcessEntry>,
    i: int,
    pane: Seq<char>,
    leader: u32,
    found: Seq<Seq<char>>,
)
    requires
        all_claimed(w, pane, found),
    ensures
        sessions_from(w, k, table, i, pane, leader, found) matches Some((Ok(ids), _))
            ==> all_claimed(w, pane, ids),
    decreases table.len() - i,
{
    if i < table.len() {
        found_sessions_are_claimed(w, k, table, i + 1, pane, leader, found);
        found_sessions_are_claimed(w, k + 1, table, i + 1, pane, leader, found);
        found_sessions_are_claimed(w, k + 2, table, i + 1, pane, leader, found);
        if let Some((Ok(Some(bytes)), _)) = environment_at(w, k, table[i].pid) {
            if let Some(id) = session_of(bytes, pane) {
                let more = found.push(id);
                assert(all_claimed(w, pane, more)) by {
                    assert forall|j: int| 0 <= j < more.len() implies is_claimed(
                        w,
                        pane,
                        #[trigger] more[j],
                    ) by {
                        if j < found.len() {
                            assert(more[j] == found[j]);
                        } else {
                            assert(claims_session(w, k, table[i].pid, pane, more[j]));
                        }
                    }
                }
                found_sessions_are_claimed(w, k + 2, table, i + 1, pane, leader, more);
            }
        }
    }
}

} // verus!
