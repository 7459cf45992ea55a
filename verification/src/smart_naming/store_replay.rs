//! What a search for the thread of a pane gives, as a function of what the system
//! answered.
//!
//! Every function here reads a log of questions and answers from a place on. It
//! gives the result, the place behind the last question and, where the search spends
//! some of its budget, what it has spent by then; `None` where the log holds other
//! questions than the search asks.

use vstd::prelude::*;
use crate::error::ErrorModel;
use crate::path;
use crate::scan;
use crate::smart_naming::descriptors;
use crate::smart_naming::descriptors::{
    RolloutDescriptor, ServerFacts, SocketDescriptor, SocketFacts,
};
use crate::smart_naming::process_store;
use crate::smart_naming::process_store::{ProcEntry, SocketOwner};
use crate::smart_naming::processes;
use crate::smart_naming::processes::{ProcessEntry, Spent};
use crate::smart_naming::rollout::EntryFacts;
use crate::smart_naming::sockets::SocketsModel;
use crate::smart_naming::title;
use crate::text;

verus! {

/// A question to the system, with its answer.
pub enum HostEvent {
    Cancelled(bool),
    User(u32),
    Identity { pid: u32, reply: Option<(u32, u64)> },
    Program { pid: u32, reply: Option<(u64, u64)> },
    Sockets { pid: u32, reply: Result<Seq<SocketDescriptor>, ErrorModel> },
    Targets { pid: u32, reply: Option<Seq<Option<Vec<u8>>>> },
    Rollouts { pid: u32, root: Seq<u8>, reply: Result<Seq<RolloutDescriptor>, ErrorModel> },
    Server { pid: u32, reply: ServerFacts },
    Socket { path: Seq<u8>, reply: Option<SocketFacts> },
    Directories { paths: Seq<Seq<u8>>, reply: Seq<Option<EntryFacts>> },
    Entries(Result<Seq<ProcEntry>, ErrorModel>),
    Diagnostics(Result<(SocketsModel, nat), ErrorModel>),
    UnixList(Result<Seq<u8>, ErrorModel>),
}

/// A log begins with another.
pub open spec fn agrees(w: Seq<HostEvent>, log: Seq<HostEvent>) -> bool {
    &&& log.len() <= w.len()
    &&& forall|i: int| 0 <= i < log.len() ==> #[trigger] w[i] == log[i]
}

/// What a search finds out before it looks at single panes.
#[verifier::ext_equal]
pub struct SnapshotModel {
    pub table: Seq<ProcessEntry>,
    pub sockets: Option<SocketsModel>,
    pub fresh: Option<SocketsModel>,
    pub proc_unix: Option<Seq<char>>,
}

/// What a store was made with.
#[verifier::ext_equal]
pub struct StoreModel {
    pub programs: Seq<(u64, u64)>,
    pub root: Seq<u8>,
}

// ---------------------------------------------------------------------------
// Single questions
// ---------------------------------------------------------------------------

pub open spec fn cancelled_at(w: Seq<HostEvent>, k: int) -> Option<
    (bool, int),
> {
    if 0 <= k < w.len() {
        match w[k] {
            HostEvent::Cancelled(reply) => Some((reply, k + 1)),
            _ => None,
        }
    } else {
        None
    }
}

pub open spec fn user_at(w: Seq<HostEvent>, k: int) -> Option<
    (u32, int),
> {
    if 0 <= k < w.len() {
        match w[k] {
            HostEvent::User(reply) => Some((reply, k + 1)),
            _ => None,
        }
    } else {
        None
    }
}

pub open spec fn identity_at(w: Seq<HostEvent>, k: int, pid: u32) -> Option<
    (Option<(u32, u64)>, int),
> {
    if 0 <= k < w.len() {
        match w[k] {
            HostEvent::Identity { pid: asked_pid, reply } => if asked_pid == pid {
                Some((reply, k + 1))
            } else {
                None
            },
            _ => None,
        }
    } else {
        None
    }
}

pub open spec fn program_at(w: Seq<HostEvent>, k: int, pid: u32) -> Option<
    (Option<(u64, u64)>, int),
> {
    if 0 <= k < w.len() {
        match w[k] {
            HostEvent::Program { pid: asked_pid, reply } => if asked_pid == pid {
                Some((reply, k + 1))
            } else {
                None
            },
            _ => None,
        }
    } else {
        None
    }
}

pub open spec fn socket_descriptors_at(w: Seq<HostEvent>, k: int, pid: u32) -> Option<
    (Result<Seq<SocketDescriptor>, ErrorModel>, int),
> {
    if 0 <= k < w.len() {
        match w[k] {
            HostEvent::Sockets { pid: asked_pid, reply } => if asked_pid == pid {
                Some((reply, k + 1))
            } else {
                None
            },
            _ => None,
        }
    } else {
        None
    }
}

pub open spec fn targets_at(w: Seq<HostEvent>, k: int, pid: u32) -> Option<
    (Option<Seq<Option<Vec<u8>>>>, int),
> {
    if 0 <= k < w.len() {
        match w[k] {
            HostEvent::Targets { pid: asked_pid, reply } => if asked_pid == pid {
                Some((reply, k + 1))
            } else {
                None
            },
            _ => None,
        }
    } else {
        None
    }
}

pub open spec fn rollout_descriptors_at(w: Seq<HostEvent>, k: int, pid: u32, root: Seq<u8>) -> Option<
    (Result<Seq<RolloutDescriptor>, ErrorModel>, int),
> {
    if 0 <= k < w.len() {
        match w[k] {
            HostEvent::Rollouts { pid: asked_pid, root: asked_root, reply } => if asked_pid == pid && asked_root == root {
                Some((reply, k + 1))
            } else {
                None
            },
            _ => None,
        }
    } else {
        None
    }
}

pub open spec fn server_facts_at(w: Seq<HostEvent>, k: int, pid: u32) -> Option<
    (ServerFacts, int),
> {
    if 0 <= k < w.len() {
        match w[k] {
            HostEvent::Server { pid: asked_pid, reply } => if asked_pid == pid {
                Some((reply, k + 1))
            } else {
                None
            },
            _ => None,
        }
    } else {
        None
    }
}

pub open spec fn socket_facts_at(w: Seq<HostEvent>, k: int, path: Seq<u8>) -> Option<
    (Option<SocketFacts>, int),
> {
    if 0 <= k < w.len() {
        match w[k] {
            HostEvent::Socket { path: asked_path, reply } => if asked_path == path {
                Some((reply, k + 1))
            } else {
                None
            },
            _ => None,
        }
    } else {
        None
    }
}

pub open spec fn directories_at(w: Seq<HostEvent>, k: int, paths: Seq<Seq<u8>>) -> Option<
    (Seq<Option<EntryFacts>>, int),
> {
    if 0 <= k < w.len() {
        match w[k] {
            HostEvent::Directories { paths: asked_paths, reply } => if asked_paths == paths {
                Some((reply, k + 1))
            } else {
                None
            },
            _ => None,
        }
    } else {
        None
    }
}

pub open spec fn entries_at(w: Seq<HostEvent>, k: int) -> Option<
    (Result<Seq<ProcEntry>, ErrorModel>, int),
> {
    if 0 <= k < w.len() {
        match w[k] {
            HostEvent::Entries(reply) => Some((reply, k + 1)),
            _ => None,
        }
    } else {
        None
    }
}

pub open spec fn diagnostics_at(w: Seq<HostEvent>, k: int) -> Option<
    (Result<(SocketsModel, nat), ErrorModel>, int),
> {
    if 0 <= k < w.len() {
        match w[k] {
            HostEvent::Diagnostics(reply) => Some((reply, k + 1)),
            _ => None,
        }
    } else {
        None
    }
}

pub open spec fn unix_list_at(w: Seq<HostEvent>, k: int) -> Option<
    (Result<Seq<u8>, ErrorModel>, int),
> {
    if 0 <= k < w.len() {
        match w[k] {
            HostEvent::UnixList(reply) => Some((reply, k + 1)),
            _ => None,
        }
    } else {
        None
    }
}

// ---------------------------------------------------------------------------
// Processes
// ---------------------------------------------------------------------------

/// Whether a process runs a configured program.
pub open spec fn matches_at(w: Seq<HostEvent>, k: int, pid: u32, store: StoreModel) -> Option<
    (bool, int),
> {
    match program_at(w, k, pid) {
        None => None,
        Some((file, n)) => Some((file is Some && store.programs.contains(file->0), n)),
    }
}

/// Whether a process is still who it was.
pub open spec fn same_at(w: Seq<HostEvent>, k: int, pid: u32, identity: (u32, u64)) -> Option<
    (bool, int),
> {
    match identity_at(w, k, pid) {
        None => None,
        Some((found, n)) => Some((found == Some(identity), n)),
    }
}

/// Whether some links are still who they were, from one on.
pub open spec fn links_hold_from(
    w: Seq<HostEvent>,
    k: int,
    links: Seq<ProcessEntry>,
    i: int,
) -> Option<(bool, int)>
    decreases links.len() - i,
{
    if i >= links.len() {
        Some((true, k))
    } else {
        match same_at(w, k, links[i].pid, (links[i].parent, links[i].started)) {
            None => None,
            Some((false, n)) => Some((false, n)),
            Some((true, n)) => links_hold_from(w, n, links, i + 1),
        }
    }
}

/// Whether a process still descends from the leader of a pane as a table has it.
pub open spec fn lineage_at(
    w: Seq<HostEvent>,
    k: int,
    candidate: ProcessEntry,
    pane: u32,
    pane_identity: (u32, u64),
    table: Seq<ProcessEntry>,
) -> Option<(bool, int)> {
    match processes::links(
        table,
        candidate.pid,
        (candidate.parent, candidate.started),
        pane,
        pane_identity,
        table.len(),
    ) {
        None => Some((false, k)),
        Some(links) => links_hold_from(w, k, links, 0),
    }
}

/// Whether a process still descends from the leader of a pane and runs a configured
/// program.
pub open spec fn current_at(
    w: Seq<HostEvent>,
    k: int,
    candidate: ProcessEntry,
    pane: u32,
    pane_identity: (u32, u64),
    table: Seq<ProcessEntry>,
    store: StoreModel,
) -> Option<(bool, int)> {
    match lineage_at(w, k, candidate, pane, pane_identity, table) {
        None => None,
        Some((false, n)) => Some((false, n)),
        Some((true, n)) => matches_at(w, n, candidate.pid, store),
    }
}

/// The processes of a pane that run a configured program, from an entry on.
pub open spec fn candidates_from(
    w: Seq<HostEvent>,
    k: int,
    pane: u32,
    table: Seq<ProcessEntry>,
    i: int,
    store: StoreModel,
    found: Seq<ProcessEntry>,
) -> Option<(Seq<ProcessEntry>, int)>
    decreases table.len() - i,
{
    if i >= table.len() {
        Some((found, k))
    } else if !processes::is_descendant(table, table[i].pid, pane) {
        candidates_from(w, k, pane, table, i + 1, store, found)
    } else {
        match matches_at(w, k, table[i].pid, store) {
            None => None,
            Some((true, n)) => candidates_from(w, n, pane, table, i + 1, store, found.push(table[i])),
            Some((false, n)) => candidates_from(w, n, pane, table, i + 1, store, found),
        }
    }
}

// ---------------------------------------------------------------------------
// Descriptors
// ---------------------------------------------------------------------------

/// The sockets of a process.
pub open spec fn sockets_at(w: Seq<HostEvent>, k: int, s: Spent, pid: u32) -> Option<
    (Result<Seq<u32>, ErrorModel>, int, Spent),
> {
    match socket_descriptors_at(w, k, pid) {
        None => None,
        Some((Err(e), n)) => Some((Err(e), n, s)),
        Some((Ok(list), n)) => match cancelled_at(w, n) {
            None => None,
            Some((cancelled, m)) => {
                let (found, after) = descriptors::sockets_from(list, 0, cancelled, s, Seq::empty());
                Some((found, m, after))
            },
        },
    }
}

/// The threads of the rollouts that a process records.
pub open spec fn rollouts_at(
    w: Seq<HostEvent>,
    k: int,
    s: Spent,
    pid: u32,
    store: StoreModel,
) -> Option<(Result<Seq<Seq<char>>, ErrorModel>, int, Spent)> {
    match rollout_descriptors_at(w, k, pid, store.root) {
        None => None,
        Some((Err(e), n)) => Some((Err(e), n, s)),
        Some((Ok(list), n)) => match cancelled_at(w, n) {
            None => None,
            Some((cancelled, m)) => match user_at(w, m) {
                None => None,
                Some((user, j)) => {
                    let (found, after) = descriptors::threads_from(
                        list,
                        0,
                        store.root,
                        user,
                        cancelled,
                        s,
                        Seq::empty(),
                    );
                    Some((found, j, after))
                },
            },
        },
    }
}

/// Adds the peers of some sockets, from one on, each once.
pub open spec fn peers_from(
    held: Seq<u32>,
    i: int,
    peers: Map<u32, u32>,
    found: Seq<u32>,
) -> Seq<u32>
    decreases held.len() - i,
{
    if i >= held.len() {
        found
    } else if peers.contains_key(held[i]) && !found.contains(peers[held[i]]) {
        peers_from(held, i + 1, peers, found.push(peers[held[i]]))
    } else {
        peers_from(held, i + 1, peers, found)
    }
}

/// The peers of the sockets that some processes hold, from one on.
pub open spec fn peer_inodes_from(
    w: Seq<HostEvent>,
    k: int,
    s: Spent,
    candidates: Seq<ProcessEntry>,
    i: int,
    peers: Map<u32, u32>,
    found: Seq<u32>,
) -> Option<(Result<Seq<u32>, ErrorModel>, int, Spent)>
    decreases candidates.len() - i,
{
    if i >= candidates.len() {
        Some((Ok(found), k, s))
    } else {
        match sockets_at(w, k, s, candidates[i].pid) {
            None => None,
            Some((Err(e), n, after)) => Some((Err(e), n, after)),
            Some((Ok(held), n, after)) => peer_inodes_from(
                w,
                n,
                after,
                candidates,
                i + 1,
                peers,
                peers_from(held, 0, peers, found),
            ),
        }
    }
}

/// The wanted sockets among those that the descriptors of a process lead to, from one
/// on, and how many descriptors were looked at.
pub open spec fn owned_from(
    w: Seq<HostEvent>,
    k: int,
    s: Spent,
    targets: Seq<Option<Vec<u8>>>,
    i: int,
    pid: u32,
    wanted: Seq<u32>,
    visited: int,
    found: Seq<SocketOwner>,
) -> Option<(Result<(Seq<SocketOwner>, int), ErrorModel>, int, Spent)>
    decreases targets.len() - i,
{
    if i >= targets.len() {
        Some((Ok((found, visited)), k, s))
    } else {
        match cancelled_at(w, k) {
            None => None,
            Some((cancelled, n)) => match processes::fd_spent(cancelled, s) {
                (Err(e), after) => Some((Err(e), n, after)),
                (Ok(_), after) => if visited >= processes::MAX_PROCESS_ENTRIES {
                    Some(
                        (
                            Err(
                                title::protocol_error(
                                    "socket owner discovery exceeded its entry limit"@,
                                ),
                            ),
                            n,
                            after,
                        ),
                    )
                } else {
                    let inode = descriptors::target_inode(targets[i]);
                    owned_from(
                        w,
                        n,
                        after,
                        targets,
                        i + 1,
                        pid,
                        wanted,
                        visited + 1,
                        if inode is Some && wanted.contains(inode->0 as u32) {
                            found.push(SocketOwner { inode: inode->0 as u32, pid })
                        } else {
                            found
                        },
                    )
                },
            },
        }
    }
}

/// The processes that hold one of some sockets, from an entry on.
pub open spec fn owners_from(
    w: Seq<HostEvent>,
    k: int,
    s: Spent,
    table: Seq<ProcessEntry>,
    i: int,
    wanted: Seq<u32>,
    visited: int,
    found: Seq<SocketOwner>,
) -> Option<(Result<Seq<SocketOwner>, ErrorModel>, int, Spent)>
    decreases table.len() - i,
{
    if i >= table.len() {
        Some((Ok(found), k, s))
    } else {
        match targets_at(w, k, table[i].pid) {
            None => None,
            Some((None, n)) => owners_from(w, n, s, table, i + 1, wanted, visited, found),
            Some((Some(targets), n)) => match owned_from(
                w,
                n,
                s,
                targets,
                0,
                table[i].pid,
                wanted,
                visited,
                found,
            ) {
                None => None,
                Some((Err(e), m, after)) => Some((Err(e), m, after)),
                Some((Ok((more, count)), m, after)) => owners_from(
                    w,
                    m,
                    after,
                    table,
                    i + 1,
                    wanted,
                    count,
                    more,
                ),
            },
        }
    }
}

// ---------------------------------------------------------------------------
// The control server
// ---------------------------------------------------------------------------

/// Whether a process runs a configured program or is a control server below a home.
pub open spec fn server_at(
    w: Seq<HostEvent>,
    k: int,
    s: Spent,
    pid: u32,
    home: Seq<u8>,
    store: StoreModel,
) -> Option<(Result<bool, ErrorModel>, int, Spent)> {
    match matches_at(w, k, pid, store) {
        None => None,
        Some((true, n)) => Some((Ok(true), n, s)),
        Some((false, n)) => match server_facts_at(w, n, pid) {
            None => None,
            Some((facts, m)) => if facts.executable is None || !descriptors::is_release_executable(
                facts.executable->0@,
                home,
            ) {
                Some((Ok(false), m, s))
            } else {
                match cancelled_at(w, m) {
                    None => None,
                    Some((cancelled, j)) => match processes::bytes_spent(
                        cancelled,
                        (descriptors::MAX_COMMAND_LINE_BYTES + 1) as nat,
                        s,
                    ) {
                        (Err(e), after) => Some((Err(e), j, after)),
                        (Ok(_), after) => match user_at(w, j) {
                            None => None,
                            Some((user, l)) => match descriptors::server_directories(
                                facts.executable->0@,
                                home,
                            ) {
                                None => Some((Ok(false), l, after)),
                                Some(paths) => match directories_at(w, l, paths) {
                                    None => None,
                                    Some((found, i)) => Some(
                                        (
                                            Ok(
                                                descriptors::all_private(found, paths.len(), user)
                                                    && descriptors::is_control_server(facts, user),
                                            ),
                                            i,
                                            after,
                                        ),
                                    ),
                                },
                            },
                        },
                    },
                }
            },
        },
    }
}

/// The control socket below a home.
pub open spec fn control_socket(home: Seq<u8>) -> Seq<u8> {
    path::joined(home, text::utf8("app-server-control/app-server-control.sock"@))
}

/// Whether a process serves a peer socket as the private control server.
pub open spec fn control_at(
    w: Seq<HostEvent>,
    k: int,
    s: Spent,
    pid: u32,
    peer: u32,
    names: Map<u32, Seq<u8>>,
    proc_unix: Seq<char>,
    store: StoreModel,
) -> Option<(Result<bool, ErrorModel>, int, Spent)> {
    match path::parent(store.root) {
        None => Some((Ok(false), k, s)),
        Some(home) => match socket_facts_at(w, k, control_socket(home)) {
            None => None,
            Some((socket, n)) => match user_at(w, n) {
                None => None,
                Some((user, m)) => if !descriptors::private_socket(socket, user) {
                    Some((Ok(false), m, s))
                } else {
                    match server_at(w, m, s, pid, home, store) {
                        None => None,
                        Some((Err(e), j, after)) => Some((Err(e), j, after)),
                        Some((Ok(false), j, after)) => Some((Ok(false), j, after)),
                        Some((Ok(true), j, after)) => match path::parent(control_socket(home)) {
                            None => Some((Ok(false), j, after)),
                            Some(above) => match directories_at(w, j, seq![home, above]) {
                                None => None,
                                Some((found, i)) => if !descriptors::all_private(found, 2, user)
                                    || !names.contains_key(peer) || names[peer] != control_socket(
                                    home,
                                ) {
                                    Some((Ok(false), i, after))
                                } else {
                                    held_control_at(w, i, after, pid, peer, proc_unix, home, store)
                                },
                            },
                        },
                    }
                },
            },
        },
    }
}

/// Whether a process holds the control socket and a peer, and is still the server.
pub open spec fn held_control_at(
    w: Seq<HostEvent>,
    k: int,
    s: Spent,
    pid: u32,
    peer: u32,
    proc_unix: Seq<char>,
    home: Seq<u8>,
    store: StoreModel,
) -> Option<(Result<bool, ErrorModel>, int, Spent)> {
    match sockets_at(w, k, s, pid) {
        None => None,
        Some((Err(e), n, after)) => Some((Err(e), n, after)),
        Some((Ok(held), n, after)) => {
            let lines = scan::lines(proc_unix);
            if !descriptors::lists_peer(lines, control_socket(home), held, peer)
                || !descriptors::lists_listener(lines, control_socket(home), held) {
                Some((Ok(false), n, after))
            } else {
                server_at(w, n, after, pid, home, store)
            }
        },
    }
}

// ---------------------------------------------------------------------------
// Threads behind a candidate
// ---------------------------------------------------------------------------

/// A candidate of a pane.
#[verifier::ext_equal]
pub struct Quarry {
    pub candidate: ProcessEntry,
    pub pane: u32,
    pub pane_identity: (u32, u64),
}

/// Whether a candidate and the owner of a peer socket are still connected as they were
/// seen.
pub open spec fn connected_at(
    w: Seq<HostEvent>,
    k: int,
    s: Spent,
    q: Quarry,
    owner: SocketOwner,
    owner_identity: (u32, u64),
    inode: u32,
    table: Seq<ProcessEntry>,
) -> Option<(Result<bool, ErrorModel>, int, Spent)> {
    match same_at(w, k, owner.pid, owner_identity) {
        None => None,
        Some((false, n)) => Some((Ok(false), n, s)),
        Some((true, n)) => match lineage_at(
            w,
            n,
            q.candidate,
            q.pane,
            q.pane_identity,
            table,
        ) {
            None => None,
            Some((false, m)) => Some((Ok(false), m, s)),
            Some((true, m)) => match sockets_at(w, m, s, q.candidate.pid) {
                None => None,
                Some((Err(e), j, after)) => Some((Err(e), j, after)),
                Some((Ok(mine), j, after)) => if !mine.contains(inode) {
                    Some((Ok(false), j, after))
                } else {
                    match sockets_at(w, j, after, owner.pid) {
                        None => None,
                        Some((Err(e), l, rest)) => Some((Err(e), l, rest)),
                        Some((Ok(theirs), l, rest)) => Some(
                            (Ok(theirs.contains(owner.inode)), l, rest),
                        ),
                    }
                },
            },
        },
    }
}

/// The threads that the control server behind one socket of a candidate records.
pub open spec fn behind_at(
    w: Seq<HostEvent>,
    k: int,
    s: Spent,
    q: Quarry,
    owner: SocketOwner,
    inode: u32,
    snapshot: SnapshotModel,
    store: StoreModel,
) -> Option<(Result<Seq<Seq<char>>, ErrorModel>, int, Spent)> {
    let identity = processes::identity_of(snapshot.table, owner.pid);
    if identity is None || snapshot.fresh is None || snapshot.proc_unix is None {
        Some((Ok(Seq::empty()), k, s))
    } else {
        match connected_at(w, k, s, q, owner, identity->0, inode, snapshot.table) {
            None => None,
            Some((Err(e), n, after)) => Some((Err(e), n, after)),
            Some((Ok(false), n, after)) => Some((Ok(Seq::empty()), n, after)),
            Some((Ok(true), n, after)) => {
                let peers = snapshot.fresh->0.peers;
                if !peers.contains_key(inode) || peers[inode] != owner.inode {
                    Some((Ok(Seq::empty()), n, after))
                } else {
                    behind_peer_at(w, n, after, q, owner, identity->0, inode, snapshot, store)
                }
            },
        }
    }
}

/// The threads that the owner of a peer socket records, where it serves the control
/// socket and stays connected.
pub open spec fn behind_peer_at(
    w: Seq<HostEvent>,
    k: int,
    s: Spent,
    q: Quarry,
    owner: SocketOwner,
    owner_identity: (u32, u64),
    inode: u32,
    snapshot: SnapshotModel,
    store: StoreModel,
) -> Option<(Result<Seq<Seq<char>>, ErrorModel>, int, Spent)> {
    let names = snapshot.fresh->0.names;
    let proc_unix = snapshot.proc_unix->0;
    match control_at(w, k, s, owner.pid, owner.inode, names, proc_unix, store) {
        None => None,
        Some((Err(e), n, after)) => Some((Err(e), n, after)),
        Some((Ok(false), n, after)) => Some((Ok(Seq::empty()), n, after)),
        Some((Ok(true), n, after)) => match rollouts_at(w, n, after, owner.pid, store) {
            None => None,
            Some((Err(e), m, rest)) => Some((Err(e), m, rest)),
            Some((Ok(threads), m, rest)) => match connected_at(
                w,
                m,
                rest,
                q,
                owner,
                owner_identity,
                inode,
                snapshot.table,
            ) {
                None => None,
                Some((Err(e), j, left)) => Some((Err(e), j, left)),
                Some((Ok(false), j, left)) => Some((Ok(Seq::empty()), j, left)),
                Some((Ok(true), j, left)) => match control_at(
                    w,
                    j,
                    left,
                    owner.pid,
                    owner.inode,
                    names,
                    proc_unix,
                    store,
                ) {
                    None => None,
                    Some((Err(e), l, end)) => Some((Err(e), l, end)),
                    Some((Ok(false), l, end)) => Some((Ok(Seq::empty()), l, end)),
                    Some((Ok(true), l, end)) => Some((Ok(threads), l, end)),
                },
            },
        },
    }
}

/// Adds the texts of a list, from one on, that are not there yet.
pub open spec fn merged_from(
    found: Seq<Seq<char>>,
    more: Seq<Seq<char>>,
    i: int,
) -> Seq<Seq<char>>
    decreases more.len() - i,
{
    if i >= more.len() {
        found
    } else if found.contains(more[i]) {
        merged_from(found, more, i + 1)
    } else {
        merged_from(found.push(more[i]), more, i + 1)
    }
}

pub open spec fn merged(found: Seq<Seq<char>>, more: Seq<Seq<char>>) -> Seq<Seq<char>> {
    merged_from(found, more, 0)
}

/// Adds the threads behind one socket, over the owners of its peer, from one on.
pub open spec fn behind_owners_from(
    w: Seq<HostEvent>,
    k: int,
    s: Spent,
    q: Quarry,
    owners: Seq<SocketOwner>,
    i: int,
    inode: u32,
    peer: u32,
    snapshot: SnapshotModel,
    store: StoreModel,
    found: Seq<Seq<char>>,
) -> Option<(Result<Seq<Seq<char>>, ErrorModel>, int, Spent)>
    decreases owners.len() - i,
{
    if i >= owners.len() {
        Some((Ok(found), k, s))
    } else if owners[i].inode != peer {
        behind_owners_from(w, k, s, q, owners, i + 1, inode, peer, snapshot, store, found)
    } else {
        match behind_at(w, k, s, q, owners[i], inode, snapshot, store) {
            None => None,
            Some((Err(e), n, after)) => Some((Err(e), n, after)),
            Some((Ok(threads), n, after)) => behind_owners_from(
                w,
                n,
                after,
                q,
                owners,
                i + 1,
                inode,
                peer,
                snapshot,
                store,
                merged(found, threads),
            ),
        }
    }
}

/// Adds the threads behind the sockets of a candidate, from one on.
pub open spec fn behind_held_from(
    w: Seq<HostEvent>,
    k: int,
    s: Spent,
    q: Quarry,
    held: Seq<u32>,
    i: int,
    owners: Seq<SocketOwner>,
    snapshot: SnapshotModel,
    store: StoreModel,
    found: Seq<Seq<char>>,
) -> Option<(Result<Seq<Seq<char>>, ErrorModel>, int, Spent)>
    decreases held.len() - i,
{
    if i >= held.len() {
        Some((Ok(found), k, s))
    } else {
        let peers = snapshot.sockets->0.peers;
        if !peers.contains_key(held[i]) {
            behind_held_from(w, k, s, q, held, i + 1, owners, snapshot, store, found)
        } else {
            match behind_owners_from(
                w,
                k,
                s,
                q,
                owners,
                0,
                held[i],
                peers[held[i]],
                snapshot,
                store,
                found,
            ) {
                None => None,
                Some((Err(e), n, after)) => Some((Err(e), n, after)),
                Some((Ok(more), n, after)) => behind_held_from(
                    w,
                    n,
                    after,
                    q,
                    held,
                    i + 1,
                    owners,
                    snapshot,
                    store,
                    more,
                ),
            }
        }
    }
}

/// The threads behind the sockets of a candidate.
pub open spec fn behind_sockets_at(
    w: Seq<HostEvent>,
    k: int,
    s: Spent,
    q: Quarry,
    owners: Seq<SocketOwner>,
    snapshot: SnapshotModel,
    store: StoreModel,
) -> Option<(Result<Seq<Seq<char>>, ErrorModel>, int, Spent)> {
    if snapshot.sockets is None {
        Some((Ok(Seq::empty()), k, s))
    } else {
        match sockets_at(w, k, s, q.candidate.pid) {
            None => None,
            Some((Err(e), n, after)) => Some((Err(e), n, after)),
            Some((Ok(held), n, after)) => behind_held_from(
                w,
                n,
                after,
                q,
                held,
                0,
                owners,
                snapshot,
                store,
                Seq::empty(),
            ),
        }
    }
}

/// The threads that a candidate records itself, where it is the same process before and
/// after they are read.
pub open spec fn recorded_at(
    w: Seq<HostEvent>,
    k: int,
    s: Spent,
    q: Quarry,
    table: Seq<ProcessEntry>,
    store: StoreModel,
) -> Option<(Result<Seq<Seq<char>>, ErrorModel>, int, Spent)> {
    match current_at(w, k, q.candidate, q.pane, q.pane_identity, table, store) {
        None => None,
        Some((false, n)) => Some((Ok(Seq::empty()), n, s)),
        Some((true, n)) => match rollouts_at(w, n, s, q.candidate.pid, store) {
            None => None,
            Some((Err(e), m, after)) => Some((Err(e), m, after)),
            Some((Ok(threads), m, after)) => match current_at(
                w,
                m,
                q.candidate,
                q.pane,
                q.pane_identity,
                table,
                store,
            ) {
                None => None,
                Some((false, j)) => Some((Ok(Seq::empty()), j, after)),
                Some((true, j)) => Some((Ok(threads), j, after)),
            },
        },
    }
}

// ---------------------------------------------------------------------------
// One pane
// ---------------------------------------------------------------------------

/// What the first look at the candidates gives, from one on: the threads behind their
/// sockets, and the candidates that record something themselves.
pub open spec fn first_look_from(
    w: Seq<HostEvent>,
    k: int,
    s: Spent,
    candidates: Seq<ProcessEntry>,
    i: int,
    pane: u32,
    pane_identity: (u32, u64),
    owners: Seq<SocketOwner>,
    snapshot: SnapshotModel,
    store: StoreModel,
    found: Seq<Seq<char>>,
    direct: Seq<ProcessEntry>,
) -> Option<(Result<(Seq<Seq<char>>, Seq<ProcessEntry>), ErrorModel>, int, Spent)>
    decreases candidates.len() - i,
{
    if i >= candidates.len() {
        Some((Ok((found, direct)), k, s))
    } else {
        let q = Quarry { candidate: candidates[i], pane, pane_identity };
        match rollouts_at(w, k, s, q.candidate.pid, store) {
            None => None,
            Some((Err(e), n, after)) => Some((Err(e), n, after)),
            Some((Ok(held), n, after)) => match current_at(
                w,
                n,
                q.candidate,
                pane,
                pane_identity,
                snapshot.table,
                store,
            ) {
                None => None,
                Some((false, m)) => first_look_from(
                    w,
                    m,
                    after,
                    candidates,
                    i + 1,
                    pane,
                    pane_identity,
                    owners,
                    snapshot,
                    store,
                    found,
                    direct,
                ),
                Some((true, m)) => match behind_sockets_at(
                    w,
                    m,
                    after,
                    q,
                    owners,
                    snapshot,
                    store,
                ) {
                    None => None,
                    Some((Err(e), j, rest)) => Some((Err(e), j, rest)),
                    Some((Ok(threads), j, rest)) => first_look_from(
                        w,
                        j,
                        rest,
                        candidates,
                        i + 1,
                        pane,
                        pane_identity,
                        owners,
                        snapshot,
                        store,
                        merged(found, threads),
                        if held.len() > 0 {
                            direct.push(q.candidate)
                        } else {
                            direct
                        },
                    ),
                },
            },
        }
    }
}

/// Adds what some candidates record themselves, from one on.
pub open spec fn direct_from(
    w: Seq<HostEvent>,
    k: int,
    s: Spent,
    direct: Seq<ProcessEntry>,
    i: int,
    pane: u32,
    pane_identity: (u32, u64),
    table: Seq<ProcessEntry>,
    store: StoreModel,
    found: Seq<Seq<char>>,
) -> Option<(Result<Seq<Seq<char>>, ErrorModel>, int, Spent)>
    decreases direct.len() - i,
{
    if i >= direct.len() {
        Some((Ok(found), k, s))
    } else {
        match recorded_at(
            w,
            k,
            s,
            Quarry { candidate: direct[i], pane, pane_identity },
            table,
            store,
        ) {
            None => None,
            Some((Err(e), n, after)) => Some((Err(e), n, after)),
            Some((Ok(threads), n, after)) => direct_from(
                w,
                n,
                after,
                direct,
                i + 1,
                pane,
                pane_identity,
                table,
                store,
                merged(found, threads),
            ),
        }
    }
}

/// The processes that own the peers of the sockets of some candidates.
pub open spec fn owners_at(
    w: Seq<HostEvent>,
    k: int,
    s: Spent,
    candidates: Seq<ProcessEntry>,
    snapshot: SnapshotModel,
) -> Option<(Result<Seq<SocketOwner>, ErrorModel>, int, Spent)> {
    if snapshot.sockets is None {
        Some((Ok(Seq::empty()), k, s))
    } else {
        match peer_inodes_from(
            w,
            k,
            s,
            candidates,
            0,
            snapshot.sockets->0.peers,
            Seq::empty(),
        ) {
            None => None,
            Some((Err(e), n, after)) => Some((Err(e), n, after)),
            Some((Ok(wanted), n, after)) => if wanted.len() == 0 {
                Some((Ok(Seq::empty()), n, after))
            } else {
                owners_from(w, n, after, snapshot.table, 0, wanted, 0, Seq::empty())
            },
        }
    }
}

/// The thread of a pane in a snapshot: the one that its candidates prove, where the
/// leader of the pane is still who it was.
pub open spec fn thread_at(
    w: Seq<HostEvent>,
    k: int,
    s: Spent,
    leader: u32,
    snapshot: SnapshotModel,
    store: StoreModel,
) -> Option<(Result<Option<Seq<char>>, ErrorModel>, int, Spent)> {
    match processes::identity_of(snapshot.table, leader) {
        None => Some((Ok(None), k, s)),
        Some(identity) => match candidates_from(
            w,
            k,
            leader,
            snapshot.table,
            0,
            store,
            Seq::empty(),
        ) {
            None => None,
            Some((candidates, n)) => match owners_at(w, n, s, candidates, snapshot) {
                None => None,
                Some((Err(e), m, after)) => Some((Err(e), m, after)),
                Some((Ok(owners), m, after)) => match first_look_from(
                    w,
                    m,
                    after,
                    candidates,
                    0,
                    leader,
                    identity,
                    owners,
                    snapshot,
                    store,
                    Seq::empty(),
                    Seq::empty(),
                ) {
                    None => None,
                    Some((Err(e), j, rest)) => Some((Err(e), j, rest)),
                    Some((Ok((found, direct)), j, rest)) => match direct_from(
                        w,
                        j,
                        rest,
                        direct,
                        0,
                        leader,
                        identity,
                        snapshot.table,
                        store,
                        found,
                    ) {
                        None => None,
                        Some((Err(e), l, left)) => Some((Err(e), l, left)),
                        Some((Ok(all), l, left)) => settled_at(w, l, left, leader, identity, all),
                    },
                },
            },
        },
    }
}

/// What all proved threads of a pane come to.
pub open spec fn settled_at(
    w: Seq<HostEvent>,
    k: int,
    s: Spent,
    leader: u32,
    identity: (u32, u64),
    found: Seq<Seq<char>>,
) -> Option<(Result<Option<Seq<char>>, ErrorModel>, int, Spent)> {
    match cancelled_at(w, k) {
        None => None,
        Some((true, n)) => Some((Err(ErrorModel::Cancelled), n, s)),
        Some((false, n)) => match same_at(w, n, leader, identity) {
            None => None,
            Some((false, m)) => Some((Ok(None), m, s)),
            Some((true, m)) => Some((process_store::sole_thread(found), m, s)),
        },
    }
}

// ---------------------------------------------------------------------------
// Several panes
// ---------------------------------------------------------------------------

pub open spec fn in_some_pane(table: Seq<ProcessEntry>, pid: u32, leaders: Seq<u32>) -> bool {
    exists|i: int|
        0 <= i < leaders.len() && processes::is_descendant(table, pid, #[trigger] leaders[i])
}

pub open spec fn some_has_peer(held: Seq<u32>, peers: Map<u32, u32>) -> bool {
    exists|i: int| 0 <= i < held.len() && peers.contains_key(#[trigger] held[i])
}

/// Whether some process of some panes, from an entry on, has a socket with a peer.
pub open spec fn has_peer_from(
    w: Seq<HostEvent>,
    k: int,
    s: Spent,
    leaders: Seq<u32>,
    table: Seq<ProcessEntry>,
    i: int,
    peers: Map<u32, u32>,
    store: StoreModel,
) -> Option<(Result<bool, ErrorModel>, int, Spent)>
    decreases table.len() - i,
{
    if i >= table.len() {
        Some((Ok(false), k, s))
    } else if !in_some_pane(table, table[i].pid, leaders) {
        has_peer_from(w, k, s, leaders, table, i + 1, peers, store)
    } else {
        match matches_at(w, k, table[i].pid, store) {
            None => None,
            Some((false, n)) => has_peer_from(w, n, s, leaders, table, i + 1, peers, store),
            Some((true, n)) => match sockets_at(w, n, s, table[i].pid) {
                None => None,
                Some((Err(e), m, after)) => Some((Err(e), m, after)),
                Some((Ok(held), m, after)) => if some_has_peer(held, peers) {
                    Some((Ok(true), m, after))
                } else {
                    has_peer_from(w, m, after, leaders, table, i + 1, peers, store)
                },
            },
        }
    }
}

/// The unix sockets, where they can be asked for.
pub open spec fn ask_at(w: Seq<HostEvent>, k: int, s: Spent) -> Option<
    (Result<Option<SocketsModel>, ErrorModel>, int, Spent),
> {
    match diagnostics_at(w, k) {
        None => None,
        Some((Err(e), n)) => Some(
            (
                if e == ErrorModel::Cancelled {
                    Err(e)
                } else {
                    Ok(None)
                },
                n,
                s,
            ),
        ),
        Some((Ok((sockets, scanned)), n)) => match cancelled_at(w, n) {
            None => None,
            Some((cancelled, m)) => match processes::bytes_spent(cancelled, scanned, s) {
                (Err(e), after) => Some((Err(e), m, after)),
                (Ok(_), after) => Some((Ok(Some(sockets)), m, after)),
            },
        },
    }
}

/// The kernel's list of unix sockets.
pub open spec fn list_at(w: Seq<HostEvent>, k: int, s: Spent) -> Option<
    (Result<Seq<char>, ErrorModel>, int, Spent),
> {
    match unix_list_at(w, k) {
        None => None,
        Some((Err(e), n)) => Some((Err(e), n, s)),
        Some((Ok(bytes), n)) => match cancelled_at(w, n) {
            None => None,
            Some((cancelled, m)) => match processes::bytes_spent(cancelled, bytes.len(), s) {
                (Err(e), after) => Some((Err(e), m, after)),
                (Ok(_), after) => match text::utf8_decoded(bytes) {
                    Some(list) => Some((Ok(list), m, after)),
                    None => Some(
                        (
                            Err(title::protocol_error("/proc/net/unix was not valid UTF-8"@)),
                            m,
                            after,
                        ),
                    ),
                },
            },
        },
    }
}

/// A snapshot for some panes.
pub open spec fn snapshot_at(
    w: Seq<HostEvent>,
    k: int,
    s: Spent,
    leaders: Seq<u32>,
    store: StoreModel,
) -> Option<(Result<SnapshotModel, ErrorModel>, int, Spent)> {
    match cancelled_at(w, k) {
        None => None,
        Some((true, n)) => Some((Err(ErrorModel::Cancelled), n, s)),
        Some((false, n)) => match entries_at(w, n) {
            None => None,
            Some((Err(e), m)) => Some((Err(e), m, s)),
            Some((Ok(entries), m)) => if entries.len() > processes::MAX_PROCESS_ENTRIES {
                Some(
                    (
                        Err(
                            title::protocol_error("process discovery exceeded its entry limit"@),
                        ),
                        m,
                        s,
                    ),
                )
            } else {
                let table = process_store::table_of(entries);
                match ask_at(w, m, s) {
                    None => None,
                    Some((Err(e), j, after)) => Some((Err(e), j, after)),
                    Some((Ok(None), j, after)) => Some(
                        (
                            Ok(SnapshotModel { table, sockets: None, fresh: None, proc_unix: None }),
                            j,
                            after,
                        ),
                    ),
                    Some((Ok(Some(sockets)), j, after)) => match has_peer_from(
                        w,
                        j,
                        after,
                        leaders,
                        table,
                        0,
                        sockets.peers,
                        store,
                    ) {
                        None => None,
                        Some((Err(e), l, rest)) => Some((Err(e), l, rest)),
                        Some((Ok(false), l, rest)) => Some(
                            (
                                Ok(
                                    SnapshotModel {
                                        table,
                                        sockets: Some(sockets),
                                        fresh: None,
                                        proc_unix: None,
                                    },
                                ),
                                l,
                                rest,
                            ),
                        ),
                        Some((Ok(true), l, rest)) => fresh_at(w, l, rest, table, sockets),
                    },
                }
            },
        },
    }
}

/// The rest of a snapshot, where a process of the panes has a peer.
pub open spec fn fresh_at(
    w: Seq<HostEvent>,
    k: int,
    s: Spent,
    table: Seq<ProcessEntry>,
    sockets: SocketsModel,
) -> Option<(Result<SnapshotModel, ErrorModel>, int, Spent)> {
    match ask_at(w, k, s) {
        None => None,
        Some((Err(e), n, after)) => Some((Err(e), n, after)),
        Some((Ok(None), n, after)) => Some(
            (
                Ok(
                    SnapshotModel {
                        table,
                        sockets: Some(sockets),
                        fresh: None,
                        proc_unix: None,
                    },
                ),
                n,
                after,
            ),
        ),
        Some((Ok(Some(fresh)), n, after)) => match list_at(w, n, after) {
            None => None,
            Some((Err(e), m, rest)) => Some((Err(e), m, rest)),
            Some((Ok(list), m, rest)) => Some(
                (
                    Ok(
                        SnapshotModel {
                            table,
                            sockets: Some(sockets),
                            fresh: Some(fresh),
                            proc_unix: Some(list),
                        },
                    ),
                    m,
                    rest,
                ),
            ),
        },
    }
}

/// The threads of some panes in a snapshot, from one on.
pub open spec fn threads_from(
    w: Seq<HostEvent>,
    k: int,
    s: Spent,
    leaders: Seq<u32>,
    i: int,
    snapshot: SnapshotModel,
    store: StoreModel,
    found: Seq<Option<Seq<char>>>,
) -> Option<(Result<Seq<Option<Seq<char>>>, ErrorModel>, int, Spent)>
    decreases leaders.len() - i,
{
    if i >= leaders.len() {
        Some((Ok(found), k, s))
    } else {
        match thread_at(w, k, s, leaders[i], snapshot, store) {
            None => None,
            Some((Err(e), n, after)) => Some((Err(e), n, after)),
            Some((Ok(id), n, after)) => threads_from(
                w,
                n,
                after,
                leaders,
                i + 1,
                snapshot,
                store,
                found.push(id),
            ),
        }
    }
}

/// The threads of some panes, each the one root conversation that its processes record.
pub open spec fn panes_at(w: Seq<HostEvent>, k: int, leaders: Seq<u32>, store: StoreModel) -> Option<
    (Result<Seq<Option<Seq<char>>>, ErrorModel>, int),
> {
    match snapshot_at(w, k, Spent { fds: 0, bytes: 0 }, leaders, store) {
        None => None,
        Some((Err(e), n, _)) => Some((Err(e), n)),
        Some((Ok(snapshot), n, after)) => match threads_from(
            w,
            n,
            after,
            leaders,
            0,
            snapshot,
            store,
            Seq::empty(),
        ) {
            None => None,
            Some((found, m, _)) => Some((found, m)),
        },
    }
}

/// The thread of one pane.
pub open spec fn pane_at(w: Seq<HostEvent>, k: int, leader: u32, store: StoreModel) -> Option<
    (Result<Option<Seq<char>>, ErrorModel>, int),
> {
    match panes_at(w, k, seq![leader], store) {
        None => None,
        Some((Err(e), n)) => Some((Err(e), n)),
        Some((Ok(found), n)) => Some((Ok(found[0]), n)),
    }
}

} // verus!
