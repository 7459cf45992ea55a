//! What a search of the tree of rollouts gives, as a function of what the file system
//! answered.
//!
//! Every function here reads a log of questions and answers from a place on. It gives
//! the result and the place behind the last question; `None` where the log holds other
//! questions than the search asks.

use vstd::prelude::*;
use crate::error::ErrorModel;
use crate::path;
use crate::smart_naming::rollout;
use crate::smart_naming::rollout::{
    EntryFacts, MAX_ROLLOUT_IDENTITY_BYTES, MAX_ROLLOUT_TRANSCRIPT_BYTES,
};
use crate::smart_naming::rollout_store::{EntryKind, MAX_ROLLOUT_DEPTH, MAX_ROLLOUT_ENTRIES};
use crate::smart_naming::thread;
use crate::smart_naming::title;

verus! {

/// An entry of a directory, or the error in its place.
pub type EntryModel = Result<(Seq<u8>, EntryKind), ErrorModel>;

/// A question to the file system, with its answer.
pub enum TreeEvent {
    Cancelled(bool),
    User(u32),
    Root { path: Seq<u8>, reply: Result<Option<EntryFacts>, ErrorModel> },
    Directory { path: Seq<u8>, reply: Result<EntryFacts, ErrorModel> },
    Entries { path: Seq<u8>, reply: Result<Seq<EntryModel>, ErrorModel> },
    File { path: Seq<u8>, reply: Result<EntryFacts, ErrorModel> },
    Read { path: Seq<u8>, from: u64, limit: u64, reply: Result<Seq<u8>, ErrorModel> },
}

/// A log begins with another.
pub open spec fn agrees(w: Seq<TreeEvent>, log: Seq<TreeEvent>) -> bool {
    &&& log.len() <= w.len()
    &&& forall|i: int| 0 <= i < log.len() ==> #[trigger] w[i] == log[i]
}

/// What a search looks for, and what it has found.
#[verifier::ext_equal]
pub enum QuestModel {
    Prefix { prefix: Seq<char>, matched: Option<Seq<char>> },
    Thread { id: Seq<char>, found: Option<Seq<char>> },
}

// ---------------------------------------------------------------------------
// Single questions
// ---------------------------------------------------------------------------

pub open spec fn cancelled_at(w: Seq<TreeEvent>, k: int) -> Option<(bool, int)> {
    if 0 <= k < w.len() {
        match w[k] {
            TreeEvent::Cancelled(reply) => Some((reply, k + 1)),
            _ => None,
        }
    } else {
        None
    }
}

pub open spec fn user_at(w: Seq<TreeEvent>, k: int) -> Option<(u32, int)> {
    if 0 <= k < w.len() {
        match w[k] {
            TreeEvent::User(reply) => Some((reply, k + 1)),
            _ => None,
        }
    } else {
        None
    }
}

pub open spec fn root_at(w: Seq<TreeEvent>, k: int, path: Seq<u8>) -> Option<
    (Result<Option<EntryFacts>, ErrorModel>, int),
> {
    if 0 <= k < w.len() {
        match w[k] {
            TreeEvent::Root { path: asked, reply } => if asked == path {
                Some((reply, k + 1))
            } else {
                None
            },
            _ => None,
        }
    } else {
        None
    }
}

pub open spec fn directory_at(w: Seq<TreeEvent>, k: int, path: Seq<u8>) -> Option<
    (Result<EntryFacts, ErrorModel>, int),
> {
    if 0 <= k < w.len() {
        match w[k] {
            TreeEvent::Directory { path: asked, reply } => if asked == path {
                Some((reply, k + 1))
            } else {
                None
            },
            _ => None,
        }
    } else {
        None
    }
}

pub open spec fn entries_at(w: Seq<TreeEvent>, k: int, path: Seq<u8>) -> Option<
    (Result<Seq<EntryModel>, ErrorModel>, int),
> {
    if 0 <= k < w.len() {
        match w[k] {
            TreeEvent::Entries { path: asked, reply } => if asked == path {
                Some((reply, k + 1))
            } else {
                None
            },
            _ => None,
        }
    } else {
        None
    }
}

pub open spec fn file_at(w: Seq<TreeEvent>, k: int, path: Seq<u8>) -> Option<
    (Result<EntryFacts, ErrorModel>, int),
> {
    if 0 <= k < w.len() {
        match w[k] {
            TreeEvent::File { path: asked, reply } => if asked == path {
                Some((reply, k + 1))
            } else {
                None
            },
            _ => None,
        }
    } else {
        None
    }
}

pub open spec fn bytes_at(w: Seq<TreeEvent>, k: int, path: Seq<u8>, from: u64, limit: int) -> Option<
    (Result<Seq<u8>, ErrorModel>, int),
> {
    if 0 <= k < w.len() {
        match w[k] {
            TreeEvent::Read { path: asked, from: start, limit: most, reply } => if asked == path
                && start == from && most == limit {
                Some((reply, k + 1))
            } else {
                None
            },
            _ => None,
        }
    } else {
        None
    }
}

// ---------------------------------------------------------------------------
// One rollout
// ---------------------------------------------------------------------------

/// Part of a file, where the caller has not given up.
pub open spec fn part_at(w: Seq<TreeEvent>, k: int, path: Seq<u8>, from: u64, limit: int) -> Option<
    (Result<Seq<u8>, ErrorModel>, int),
> {
    match cancelled_at(w, k) {
        None => None,
        Some((true, n)) => Some((Err(ErrorModel::Cancelled), n)),
        Some((false, n)) => bytes_at(w, n, path, from, limit),
    }
}

/// Whether a search wants a thread.
pub open spec fn wants(quest: QuestModel, thread: Seq<char>) -> bool {
    match quest {
        QuestModel::Prefix { prefix, .. } => prefix.is_prefix_of(thread),
        QuestModel::Thread { id, .. } => thread == id,
    }
}

/// One rollout of a thread: what the search has found then.
pub open spec fn visit_at(
    w: Seq<TreeEvent>,
    k: int,
    thread: Seq<char>,
    facts: EntryFacts,
    file: Seq<u8>,
    quest: QuestModel,
) -> Option<(Result<QuestModel, ErrorModel>, int)> {
    if !wants(quest, thread) {
        Some((Ok(quest), k))
    } else {
        match part_at(w, k, file, 0, MAX_ROLLOUT_IDENTITY_BYTES + 1) {
            None => None,
            Some((Err(e), n)) => Some((Err(e), n)),
            Some((Ok(bytes), n)) => match rollout::identity(bytes, thread) {
                Err(e) => Some((Err(e), n)),
                Ok(false) => Some((Ok(quest), n)),
                Ok(true) => match quest {
                    QuestModel::Prefix { prefix, matched } => Some(
                        (
                            if matched is Some && matched->0 != thread {
                                Err(
                                    title::protocol_error(
                                        "truncated pane title matches multiple rollouts"@,
                                    ),
                                )
                            } else {
                                Ok(QuestModel::Prefix { prefix, matched: Some(thread) })
                            },
                            n,
                        ),
                    ),
                    QuestModel::Thread { id, found } => match part_at(
                        w,
                        n,
                        file,
                        rollout::start_of(facts.size),
                        MAX_ROLLOUT_TRANSCRIPT_BYTES + 1,
                    ) {
                        None => None,
                        Some((Err(e), m)) => Some((Err(e), m)),
                        Some((Ok(body), m)) => Some(
                            (
                                if found is Some {
                                    Err(
                                        title::protocol_error(
                                            "thread id matches multiple rollout files"@,
                                        ),
                                    )
                                } else {
                                    Ok(
                                        QuestModel::Thread {
                                            id,
                                            found: Some(
                                                rollout::transcript_text(
                                                    body,
                                                    facts.size > MAX_ROLLOUT_TRANSCRIPT_BYTES,
                                                ),
                                            ),
                                        },
                                    )
                                },
                                m,
                            ),
                        ),
                    },
                },
            },
        }
    }
}

// ---------------------------------------------------------------------------
// The tree
// ---------------------------------------------------------------------------

/// The entries that stand for a directory itself and for the one above it.
pub open spec fn is_dots(name: Seq<u8>) -> bool {
    name == seq![0x2eu8] || name == seq![0x2eu8, 0x2eu8]
}

/// What a search of an opened directory gives: what was found, and how many entries
/// were looked at by then.
pub open spec fn walk_at(
    w: Seq<TreeEvent>,
    k: int,
    directory: Seq<u8>,
    depth: int,
    visited: int,
    quest: QuestModel,
    user: u32,
) -> Option<(Result<(QuestModel, int), ErrorModel>, int)>
    decreases MAX_ROLLOUT_DEPTH + 1 - depth, 1int, 0int,
{
    if depth < 0 || depth > MAX_ROLLOUT_DEPTH {
        Some((Err(title::protocol_error("rollout discovery exceeded its depth limit"@)), k))
    } else {
        match entries_at(w, k, directory) {
            None => None,
            Some((Err(e), n)) => Some((Err(e), n)),
            Some((Ok(entries), n)) => walk_from(
                w,
                n,
                directory,
                depth,
                entries,
                0,
                visited,
                quest,
                user,
            ),
        }
    }
}

/// What a search of the entries of a directory gives, from one on.
pub open spec fn walk_from(
    w: Seq<TreeEvent>,
    k: int,
    directory: Seq<u8>,
    depth: int,
    entries: Seq<EntryModel>,
    i: int,
    visited: int,
    quest: QuestModel,
    user: u32,
) -> Option<(Result<(QuestModel, int), ErrorModel>, int)>
    decreases MAX_ROLLOUT_DEPTH + 1 - depth, 0int, entries.len() - i,
{
    if depth < 0 || depth > MAX_ROLLOUT_DEPTH {
        None
    } else if i >= entries.len() {
        Some((Ok((quest, visited)), k))
    } else {
        match cancelled_at(w, k) {
            None => None,
            Some((true, n)) => Some((Err(ErrorModel::Cancelled), n)),
            Some((false, n)) => if visited >= MAX_ROLLOUT_ENTRIES {
                Some(
                    (Err(title::protocol_error("rollout discovery exceeded its entry limit"@)), n),
                )
            } else {
                match entries[i] {
                    Err(e) => Some((Err(e), n)),
                    Ok((name, kind)) => {
                        let place = path::joined(directory, name);
                        if is_dots(name) {
                            walk_from(
                                w,
                                n,
                                directory,
                                depth,
                                entries,
                                i + 1,
                                visited + 1,
                                quest,
                                user,
                            )
                        } else {
                            match kind {
                                EntryKind::Directory => match directory_at(w, n, place) {
                                    None => None,
                                    Some((Err(e), m)) => Some((Err(e), m)),
                                    Some((Ok(facts), m)) => match rollout::directory_check(
                                        facts,
                                        user,
                                    ) {
                                        Err(e) => Some((Err(e), m)),
                                        Ok(_) => match walk_at(
                                            w,
                                            m,
                                            place,
                                            depth + 1,
                                            visited + 1,
                                            quest,
                                            user,
                                        ) {
                                            None => None,
                                            Some((Err(e), j)) => Some((Err(e), j)),
                                            Some((Ok((later, count)), j)) => walk_from(
                                                w,
                                                j,
                                                directory,
                                                depth,
                                                entries,
                                                i + 1,
                                                count,
                                                later,
                                                user,
                                            ),
                                        },
                                    },
                                },
                                EntryKind::File => match rollout::path_thread(place) {
                                    None => walk_from(
                                        w,
                                        n,
                                        directory,
                                        depth,
                                        entries,
                                        i + 1,
                                        visited + 1,
                                        quest,
                                        user,
                                    ),
                                    Some(thread) => match file_at(w, n, place) {
                                        None => None,
                                        Some((Err(e), m)) => Some((Err(e), m)),
                                        Some((Ok(facts), m)) => match rollout::file_check(
                                            facts,
                                            user,
                                        ) {
                                            Err(e) => Some((Err(e), m)),
                                            Ok(_) => match visit_at(
                                                w,
                                                m,
                                                thread,
                                                facts,
                                                place,
                                                quest,
                                            ) {
                                                None => None,
                                                Some((Err(e), j)) => Some((Err(e), j)),
                                                Some((Ok(later), j)) => walk_from(
                                                    w,
                                                    j,
                                                    directory,
                                                    depth,
                                                    entries,
                                                    i + 1,
                                                    visited + 1,
                                                    later,
                                                    user,
                                                ),
                                            },
                                        },
                                    },
                                },
                                EntryKind::Symlink => Some(
                                    (
                                        Err(
                                            title::protocol_error(
                                                "rollout tree contains a symlink"@,
                                            ),
                                        ),
                                        n,
                                    ),
                                ),
                                EntryKind::Unknown => Some(
                                    (
                                        Err(
                                            title::protocol_error(
                                                "rollout tree contains an unknown entry type"@,
                                            ),
                                        ),
                                        n,
                                    ),
                                ),
                                EntryKind::Other => walk_from(
                                    w,
                                    n,
                                    directory,
                                    depth,
                                    entries,
                                    i + 1,
                                    visited + 1,
                                    quest,
                                    user,
                                ),
                            }
                        }
                    },
                }
            },
        }
    }
}

/// What a search of the whole tree gives.
pub open spec fn search_at(w: Seq<TreeEvent>, k: int, root: Seq<u8>, quest: QuestModel) -> Option<
    (Result<QuestModel, ErrorModel>, int),
> {
    match cancelled_at(w, k) {
        None => None,
        Some((true, n)) => Some((Err(ErrorModel::Cancelled), n)),
        Some((false, n)) => match user_at(w, n) {
            None => None,
            Some((user, m)) => match root_at(w, m, root) {
                None => None,
                Some((Err(e), j)) => Some((Err(e), j)),
                Some((Ok(None), j)) => Some((Ok(quest), j)),
                Some((Ok(Some(facts)), j)) => match rollout::directory_check(facts, user) {
                    Err(e) => Some((Err(e), j)),
                    Ok(_) => match walk_at(w, j, root, 0, 0, quest, user) {
                        None => None,
                        Some((Err(e), l)) => Some((Err(e), l)),
                        Some((Ok((found, _)), l)) => Some((Ok(found), l)),
                    },
                },
            },
        },
    }
}

/// The one thread that a shortened identity stands for.
pub open spec fn prefix_at(w: Seq<TreeEvent>, k: int, root: Seq<u8>, prefix: Seq<char>) -> Option<
    (Result<Option<Seq<char>>, ErrorModel>, int),
> {
    match search_at(w, k, root, QuestModel::Prefix { prefix, matched: None }) {
        None => None,
        Some((Err(e), n)) => Some((Err(e), n)),
        Some((Ok(quest), n)) => Some((Ok(quest->matched), n)),
    }
}

/// The transcript of a thread.
pub open spec fn thread_at(w: Seq<TreeEvent>, k: int, root: Seq<u8>, id: Seq<char>) -> Option<
    (Result<Seq<char>, ErrorModel>, int),
> {
    match search_at(w, k, root, QuestModel::Thread { id, found: None }) {
        None => None,
        Some((Err(e), n)) => Some((Err(e), n)),
        Some((Ok(quest), n)) => Some(
            (
                match quest->found {
                    Some(transcript) => Ok(transcript),
                    None => Err(title::protocol_error("verified rollout file was not found"@)),
                },
                n,
            ),
        ),
    }
}

// ---------------------------------------------------------------------------
// Laws
// ---------------------------------------------------------------------------

/// A file was read from its start at some place, and it belongs to a thread.
pub open spec fn holds_rollout(w: Seq<TreeEvent>, i: int, file: Seq<u8>, id: Seq<char>) -> bool {
    part_at(w, i, file, 0, MAX_ROLLOUT_IDENTITY_BYTES + 1) matches Some((Ok(bytes), _))
        && rollout::identity(bytes, id) == Ok::<bool, ErrorModel>(true)
}

/// What a search for a prefix found has that prefix, is a thread, and was read.
pub open spec fn is_backed(w: Seq<TreeEvent>, quest: QuestModel) -> bool {
    quest matches QuestModel::Prefix { prefix, matched: Some(id) } ==> {
        &&& prefix.is_prefix_of(id)
        &&& thread::is_thread_id(id)
        &&& exists|i: int, file: Seq<u8>| #[trigger] holds_rollout(w, i, file, id)
    }
}

/// A search goes on for the same, and what it found stays found.
pub open spec fn goes_on(earlier: QuestModel, later: QuestModel) -> bool {
    match (earlier, later) {
        (
            QuestModel::Prefix { prefix, matched },
            QuestModel::Prefix { prefix: other, matched: then },
        ) => prefix == other && (matched is Some ==> then == matched),
        (
            QuestModel::Thread { id, found },
            QuestModel::Thread { id: other, found: then },
        ) => id == other && (found is Some ==> then == found),
        _ => false,
    }
}

proof fn a_visit_is_backed(
    w: Seq<TreeEvent>,
    k: int,
    id: Seq<char>,
    facts: EntryFacts,
    file: Seq<u8>,
    quest: QuestModel,
)
    requires
        thread::is_thread_id(id),
        is_backed(w, quest),
    ensures
        visit_at(w, k, id, facts, file, quest) matches Some((Ok(later), _)) ==> is_backed(w, later)
            && goes_on(quest, later),
{
    if let Some((Ok(bytes), _)) = part_at(w, k, file, 0, MAX_ROLLOUT_IDENTITY_BYTES + 1) {
        if rollout::identity(bytes, id) == Ok::<bool, ErrorModel>(true) {
            assert(holds_rollout(w, k, file, id));
        }
    }
}

proof fn a_walk_is_backed(
    w: Seq<TreeEvent>,
    k: int,
    directory: Seq<u8>,
    depth: int,
    visited: int,
    quest: QuestModel,
    user: u32,
)
    requires
        is_backed(w, quest),
    ensures
        walk_at(w, k, directory, depth, visited, quest, user) matches Some((Ok((later, _)), _))
            ==> is_backed(w, later) && goes_on(quest, later),
    decreases MAX_ROLLOUT_DEPTH + 1 - depth, 1int, 0int,
{
    if 0 <= depth <= MAX_ROLLOUT_DEPTH {
        if let Some((Ok(entries), n)) = entries_at(w, k, directory) {
            entries_are_backed(w, n, directory, depth, entries, 0, visited, quest, user);
        }
    }
}

proof fn entries_are_backed(
    w: Seq<TreeEvent>,
    k: int,
    directory: Seq<u8>,
    depth: int,
    entries: Seq<EntryModel>,
    i: int,
    visited: int,
    quest: QuestModel,
    user: u32,
)
    requires
        is_backed(w, quest),
    ensures
        walk_from(w, k, directory, depth, entries, i, visited, quest, user) matches Some(
            (Ok((later, _)), _),
        ) ==> is_backed(w, later) && goes_on(quest, later),
    decreases MAX_ROLLOUT_DEPTH + 1 - depth, 0int, entries.len() - i,
{
    if 0 <= depth <= MAX_ROLLOUT_DEPTH && i < entries.len() {
        let n = k + 1;
        entries_are_backed(w, n, directory, depth, entries, i + 1, visited + 1, quest, user);
        if let Ok((name, kind)) = entries[i] {
            let place = path::joined(directory, name);
            if kind == EntryKind::Directory {
                let m = n + 1;
                a_walk_is_backed(w, m, place, depth + 1, visited + 1, quest, user);
                let below = walk_at(w, m, place, depth + 1, visited + 1, quest, user);
                if let Some((Ok((later, count)), j)) = below {
                    entries_are_backed(
                        w,
                        j,
                        directory,
                        depth,
                        entries,
                        i + 1,
                        count,
                        later,
                        user,
                    );
                }
            } else if kind == EntryKind::File {
                if let Some(id) = rollout::path_thread(place) {
                    if let Some((Ok(facts), m)) = file_at(w, n, place) {
                        a_visit_is_backed(w, m, id, facts, place, quest);
                        if let Some((Ok(later), j)) = visit_at(w, m, id, facts, place, quest) {
                            entries_are_backed(
                                w,
                                j,
                                directory,
                                depth,
                                entries,
                                i + 1,
                                visited + 1,
                                later,
                                user,
                            );
                        }
                    }
                }
            }
        }
    }
}

/// A search ends with what it was made for, and with what was read.
pub proof fn a_search_goes_on(w: Seq<TreeEvent>, k: int, root: Seq<u8>, quest: QuestModel)
    requires
        is_backed(w, quest),
    ensures
        search_at(w, k, root, quest) matches Some((Ok(later), _)) ==> is_backed(w, later)
            && goes_on(quest, later),
{
    if let Some((user, m)) = user_at(w, k + 1) {
        a_walk_is_backed(w, m + 1, root, 0, 0, quest, user);
    }
}

/// A thread that a prefix stands for begins with it, and a rollout of that thread was
/// read.
pub proof fn a_found_thread_was_read(w: Seq<TreeEvent>, k: int, root: Seq<u8>, prefix: Seq<char>)
    ensures
        prefix_at(w, k, root, prefix) matches Some((Ok(Some(id)), _)) ==> {
            &&& prefix.is_prefix_of(id)
            &&& thread::is_thread_id(id)
            &&& exists|i: int, file: Seq<u8>| #[trigger] holds_rollout(w, i, file, id)
        },
{
    a_search_goes_on(w, k, root, QuestModel::Prefix { prefix, matched: None });
}

/// A second thread with the same prefix is never found in place of the first: the rest
/// of the search keeps what was found, or refuses.
pub proof fn a_found_thread_stays(
    w: Seq<TreeEvent>,
    k: int,
    directory: Seq<u8>,
    depth: int,
    entries: Seq<EntryModel>,
    i: int,
    visited: int,
    quest: QuestModel,
    user: u32,
)
    requires
        is_backed(w, quest),
    ensures
        walk_from(w, k, directory, depth, entries, i, visited, quest, user) matches Some(
            (Ok((later, _)), _),
        ) ==> goes_on(quest, later),
{
    entries_are_backed(w, k, directory, depth, entries, i, visited, quest, user);
}

} // verus!
