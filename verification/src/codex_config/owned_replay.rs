//! What replacing, removing and restoring a managed file comes to, as a function of
//! what the file system answered.
//!
//! Every function here reads a log of operations and answers from a place on. It gives
//! the result and the place behind the last operation; `None` where the log holds other
//! operations than these.

use vstd::prelude::*;
use crate::codex_config::owned;
use crate::codex_config::owned::{OwnedEvent, SnapshotModel, MAX_ROLLBACK_DEPTH, MAX_ROLLBACK_ROUNDS};
use crate::codex_config::transaction;
use crate::codex_config::transaction::PRIVATE_MODE;
use crate::error::ErrorModel;
use crate::text;

verus! {

/// A log begins with another.
pub open spec fn agrees(w: Seq<OwnedEvent>, log: Seq<OwnedEvent>) -> bool {
    &&& log.len() <= w.len()
    &&& forall|i: int| 0 <= i < log.len() ==> #[trigger] w[i] == log[i]
}

// ---------------------------------------------------------------------------
// Single operations
// ---------------------------------------------------------------------------

pub open spec fn nonce_at(w: Seq<OwnedEvent>, k: int) -> Option<(Seq<char>, int)> {
    if 0 <= k < w.len() {
        match w[k] {
            OwnedEvent::Nonce(nonce) => Some((nonce, k + 1)),
            _ => None,
        }
    } else {
        None
    }
}

pub open spec fn directory_at(w: Seq<OwnedEvent>, k: int, path: Seq<u8>) -> Option<
    (Result<(), ErrorModel>, int),
> {
    if 0 <= k < w.len() {
        match w[k] {
            OwnedEvent::Directory { path: given_path, reply } => if given_path == path {
                Some((reply, k + 1))
            } else {
                None
            },
            _ => None,
        }
    } else {
        None
    }
}

pub open spec fn create_at(w: Seq<OwnedEvent>, k: int, path: Seq<u8>, bytes: Seq<u8>, mode: u32) -> Option<
    (Result<SnapshotModel, ErrorModel>, int),
> {
    if 0 <= k < w.len() {
        match w[k] {
            OwnedEvent::Create { path: given_path, bytes: given_bytes, mode: given_mode, reply } => if given_path == path && given_bytes == bytes && given_mode == mode {
                Some((reply, k + 1))
            } else {
                None
            },
            _ => None,
        }
    } else {
        None
    }
}

pub open spec fn empty_at(w: Seq<OwnedEvent>, k: int, path: Seq<u8>) -> Option<
    (Result<SnapshotModel, ErrorModel>, int),
> {
    if 0 <= k < w.len() {
        match w[k] {
            OwnedEvent::CreateEmpty { path: given_path, reply } => if given_path == path {
                Some((reply, k + 1))
            } else {
                None
            },
            _ => None,
        }
    } else {
        None
    }
}

pub open spec fn look_at(w: Seq<OwnedEvent>, k: int, path: Seq<u8>) -> Option<
    (Result<Option<SnapshotModel>, ErrorModel>, int),
> {
    if 0 <= k < w.len() {
        match w[k] {
            OwnedEvent::Look { path: given_path, reply } => if given_path == path {
                Some((reply, k + 1))
            } else {
                None
            },
            _ => None,
        }
    } else {
        None
    }
}

pub open spec fn exchange_at(w: Seq<OwnedEvent>, k: int, a: Seq<u8>, b: Seq<u8>) -> Option<
    (Result<(), ErrorModel>, int),
> {
    if 0 <= k < w.len() {
        match w[k] {
            OwnedEvent::Exchange { a: given_a, b: given_b, reply } => if given_a == a && given_b == b {
                Some((reply, k + 1))
            } else {
                None
            },
            _ => None,
        }
    } else {
        None
    }
}

pub open spec fn move_at(w: Seq<OwnedEvent>, k: int, from: Seq<u8>, to: Seq<u8>) -> Option<
    (Result<(), ErrorModel>, int),
> {
    if 0 <= k < w.len() {
        match w[k] {
            OwnedEvent::Move { from: given_from, to: given_to, reply } => if given_from == from && given_to == to {
                Some((reply, k + 1))
            } else {
                None
            },
            _ => None,
        }
    } else {
        None
    }
}

pub open spec fn gone_at(w: Seq<OwnedEvent>, k: int, path: Seq<u8>) -> Option<
    (Result<(), ErrorModel>, int),
> {
    if 0 <= k < w.len() {
        match w[k] {
            OwnedEvent::Remove { path: given_path, reply } => if given_path == path {
                Some((reply, k + 1))
            } else {
                None
            },
            _ => None,
        }
    } else {
        None
    }
}

pub open spec fn sync_at(w: Seq<OwnedEvent>, k: int, path: Seq<u8>) -> Option<
    (Result<(), ErrorModel>, int),
> {
    if 0 <= k < w.len() {
        match w[k] {
            OwnedEvent::Sync { path: given_path, reply } => if given_path == path {
                Some((reply, k + 1))
            } else {
                None
            },
            _ => None,
        }
    } else {
        None
    }
}

// ---------------------------------------------------------------------------
// Putting a displaced file back
// ---------------------------------------------------------------------------

/// Some more rounds of putting files back.
pub open spec fn rounds_at(
    w: Seq<OwnedEvent>,
    k: int,
    t: Seq<u8>,
    p: Seq<u8>,
    public: SnapshotModel,
    rounds: nat,
) -> Option<(Result<(), ErrorModel>, int)>
    decreases rounds,
{
    if rounds == 0 {
        Some(
            (
                Err(
                    owned::about(
                        p,
                        " kept changing during rollback; preserved every displaced file"@,
                    ),
                ),
                k,
            ),
        )
    } else {
        match look_at(w, k, p) {
            None => None,
            Some((Err(e), n)) => Some((Err(e), n)),
            Some((Ok(current), n)) => if current != Some(public) {
                Some((Err(newer(p)), n))
            } else {
                match exchange_at(w, n, t, p) {
                    None => None,
                    Some((Err(e), m)) => Some((Err(e), m)),
                    Some((Ok(_), m)) => match look_at(w, m, t) {
                        None => None,
                        Some((Err(e), j)) => Some((Err(e), j)),
                        Some((Ok(displaced), j)) => if displaced == Some(public) {
                            Some(
                                (
                                    Err(
                                        owned::about(
                                            p,
                                            " changed during rollback; restored the newer public file"@,
                                        ),
                                    ),
                                    j,
                                ),
                            )
                        } else {
                            match look_at(w, j, p) {
                                None => None,
                                Some((Err(e), l)) => Some((Err(e), l)),
                                Some((Ok(None), l)) => Some((Err(newer(p)), l)),
                                Some((Ok(Some(next)), l)) => rounds_at(
                                    w,
                                    l,
                                    t,
                                    p,
                                    next,
                                    (rounds - 1) as nat,
                                ),
                            }
                        },
                    },
                }
            },
        }
    }
}

pub open spec fn newer(p: Seq<u8>) -> ErrorModel {
    owned::about(p, " changed during rollback; preserved the newer public file"@)
}

/// The exchange of a file that was put in place with the one that it displaced.
pub open spec fn back_at(
    w: Seq<OwnedEvent>,
    k: int,
    t: Seq<u8>,
    p: Seq<u8>,
    installed: SnapshotModel,
    target: SnapshotModel,
) -> Option<(Result<(), ErrorModel>, int)> {
    match look_at(w, k, p) {
        None => None,
        Some((Err(e), n)) => Some((Err(e), n)),
        Some((Ok(current), n)) => if current != Some(installed) {
            Some((Err(newer(p)), n))
        } else {
            match exchange_at(w, n, t, p) {
                None => None,
                Some((Err(e), m)) => Some((Err(e), m)),
                Some((Ok(_), m)) => match look_at(w, m, t) {
                    None => None,
                    Some((Err(e), j)) => Some((Err(e), j)),
                    Some((Ok(displaced), j)) => if displaced == Some(installed) {
                        Some((Ok(()), j))
                    } else {
                        rounds_at(w, j, t, p, target, MAX_ROLLBACK_ROUNDS as nat)
                    },
                },
            }
        },
    }
}

/// The removal of a temporary file that is still what it was.
pub open spec fn clean_at(w: Seq<OwnedEvent>, k: int, t: Seq<u8>, expected: SnapshotModel) -> Option<
    int,
> {
    match look_at(w, k, t) {
        None => None,
        Some((found, n)) => if found == Ok::<Option<SnapshotModel>, ErrorModel>(Some(expected)) {
            match gone_at(w, n, t) {
                None => None,
                Some((_, m)) => Some(m),
            }
        } else {
            Some(n)
        },
    }
}

// ---------------------------------------------------------------------------
// Replacing
// ---------------------------------------------------------------------------

/// How a replacement ended: its result, the file that was prepared for it, and whether
/// that file was in place by then.
#[verifier::ext_equal]
pub struct Replacement {
    pub result: Result<SnapshotModel, ErrorModel>,
    pub prepared: Option<SnapshotModel>,
    pub committed: bool,
}

pub open spec fn overwritten(p: Seq<u8>) -> ErrorModel {
    owned::about(p, " changed concurrently; refusing to overwrite it"@)
}

/// The steps of a replacement.
pub open spec fn replace_at(
    w: Seq<OwnedEvent>,
    k: int,
    t: Seq<u8>,
    p: Seq<u8>,
    bytes: Seq<u8>,
    mode: u32,
    expected: Option<SnapshotModel>,
) -> Option<(Replacement, int)> {
    match create_at(w, k, t, bytes, mode & 0x1ff) {
        None => None,
        Some((Err(e), n)) => Some(
            (Replacement { result: Err(e), prepared: None, committed: false }, n),
        ),
        Some((Ok(installed), n)) => {
            let early = |e: ErrorModel|
                Replacement { result: Err(e), prepared: Some(installed), committed: false };
            let late = |e: ErrorModel|
                Replacement { result: Err(e), prepared: Some(installed), committed: true };
            let done = Replacement {
                result: Ok(installed),
                prepared: Some(installed),
                committed: true,
            };
            match expected {
                Some(wanted) => match exchange_at(w, n, t, p) {
                    None => None,
                    Some((Err(e), m)) => Some((early(e), m)),
                    Some((Ok(_), m)) => match look_at(w, m, t) {
                        None => None,
                        Some((Err(e), j)) => Some((early(e), j)),
                        Some((Ok(None), j)) => Some((early(overwritten(p)), j)),
                        Some((Ok(Some(target)), j)) => if target != wanted {
                            match back_at(w, j, t, p, installed, target) {
                                None => None,
                                Some((Err(e), l)) => Some((early(e), l)),
                                Some((Ok(_), l)) => Some((early(overwritten(p)), l)),
                            }
                        } else {
                            match gone_at(w, j, t) {
                                None => None,
                                Some((Err(e), l)) => Some((late(e), l)),
                                Some((Ok(_), l)) => match sync_at(w, l, p) {
                                    None => None,
                                    Some((Err(e), end)) => Some((late(e), end)),
                                    Some((Ok(_), end)) => Some((done, end)),
                                },
                            }
                        },
                    },
                },
                None => match move_at(w, n, t, p) {
                    None => None,
                    Some((Err(e), m)) => Some((early(e), m)),
                    Some((Ok(_), m)) => match sync_at(w, m, p) {
                        None => None,
                        Some((Err(e), end)) => Some((late(e), end)),
                        Some((Ok(_), end)) => Some((done, end)),
                    },
                },
            }
        },
    }
}

/// What is reported, with a rollback that failed as well.
pub open spec fn reported(first: ErrorModel, p: Seq<u8>, rollback: Result<(), ErrorModel>) -> ErrorModel {
    match rollback {
        Ok(_) => first,
        Err(second) => owned::with_rollback(first, p, second),
    }
}

/// A replacement from the start, with what follows where it fails: a file that is in
/// place is taken back, and the temporary file is removed.
#[verifier::opaque]
pub open spec fn write_at(
    w: Seq<OwnedEvent>,
    k: int,
    p: Seq<u8>,
    bytes: Seq<u8>,
    mode: u32,
    expected: Option<SnapshotModel>,
    depth: nat,
) -> Option<(Result<SnapshotModel, ErrorModel>, int)>
    decreases depth, 1int,
{
    match directory_at(w, k, p) {
        None => None,
        Some((Err(e), n)) => Some((Err(e), n)),
        Some((Ok(_), n)) => match nonce_at(w, n) {
            None => None,
            Some((nonce, m)) => match owned::temporary_place(p, "replace"@, nonce) {
                Err(e) => Some((Err(e), m)),
                Ok(t) => match replace_at(w, m, t, p, bytes, mode, expected) {
                    None => None,
                    Some((end, j)) => match (end.result, end.prepared) {
                        (Ok(installed), _) => Some((Ok(installed), j)),
                        (Err(e), None) => Some((Err(e), j)),
                        (Err(e), Some(prepared)) => {
                            let rolled = if end.committed {
                                rolled_at(w, j, p, expected, Some(prepared), depth)
                            } else {
                                Some((Ok(()), j))
                            };
                            match rolled {
                                None => None,
                                Some((rollback, l)) => match clean_at(w, l, t, prepared) {
                                    None => None,
                                    Some(last) => Some((Err(reported(e, p, rollback)), last)),
                                },
                            }
                        },
                    },
                },
            },
        },
    }
}

/// A rollback, as deep as is allowed.
#[verifier::opaque]
pub open spec fn rolled_at(
    w: Seq<OwnedEvent>,
    k: int,
    p: Seq<u8>,
    original: Option<SnapshotModel>,
    current: Option<SnapshotModel>,
    depth: nat,
) -> Option<(Result<(), ErrorModel>, int)>
    decreases depth, 0int,
{
    if depth == 0 {
        Some((Err(owned::about(p, " failed to roll back too often"@)), k))
    } else {
        restore_at(w, k, p, original, current, (depth - 1) as nat)
    }
}

// ---------------------------------------------------------------------------
// Removing
// ---------------------------------------------------------------------------

/// How a removal ended: its result, and what is in place where it has to be taken back.
#[verifier::ext_equal]
pub struct Removal {
    pub result: Result<(), ErrorModel>,
    pub current: Option<Option<SnapshotModel>>,
}

pub open spec fn kept(p: Seq<u8>) -> ErrorModel {
    owned::about(p, " changed concurrently; refusing to remove it"@)
}

/// The steps of a removal.
pub open spec fn removal_at(
    w: Seq<OwnedEvent>,
    k: int,
    tomb: Seq<u8>,
    grave: Seq<u8>,
    empty: SnapshotModel,
    p: Seq<u8>,
    expected: SnapshotModel,
) -> Option<(Removal, int)> {
    let untouched = |e: ErrorModel| Removal { result: Err(e), current: None };
    let displaced = |e: ErrorModel| Removal { result: Err(e), current: Some(Some(empty)) };
    let emptied = |e: ErrorModel| Removal { result: Err(e), current: Some(None) };
    match exchange_at(w, k, tomb, p) {
        None => None,
        Some((Err(e), n)) => Some((untouched(e), n)),
        Some((Ok(_), n)) => match look_at(w, n, tomb) {
            None => None,
            Some((Err(e), m)) => Some((untouched(e), m)),
            Some((Ok(found), m)) => if found != Some(expected) {
                match found {
                    None => Some((untouched(kept(p)), m)),
                    Some(target) => match back_at(w, m, tomb, p, empty, target) {
                        None => None,
                        Some((Err(_), j)) => Some((untouched(kept(p)), j)),
                        Some((Ok(_), j)) => match clean_at(w, j, tomb, empty) {
                            None => None,
                            Some(l) => Some((untouched(kept(p)), l)),
                        },
                    },
                }
            } else {
                match move_at(w, m, p, grave) {
                    None => None,
                    Some((Err(e), j)) => Some((displaced(e), j)),
                    Some((Ok(_), j)) => match look_at(w, j, grave) {
                        None => None,
                        Some((Err(e), l)) => Some((emptied(e), l)),
                        Some((Ok(away), l)) => if away != Some(empty) {
                            match move_at(w, l, grave, p) {
                                None => None,
                                Some((_, end)) => Some((emptied(kept(p)), end)),
                            }
                        } else {
                            buried_at(w, l, tomb, grave, p)
                        },
                    },
                }
            },
        },
    }
}

/// The last steps of a removal.
pub open spec fn buried_at(
    w: Seq<OwnedEvent>,
    k: int,
    tomb: Seq<u8>,
    grave: Seq<u8>,
    p: Seq<u8>,
) -> Option<(Removal, int)> {
    let emptied = |e: ErrorModel| Removal { result: Err(e), current: Some(None) };
    match gone_at(w, k, grave) {
        None => None,
        Some((Err(e), n)) => Some((emptied(e), n)),
        Some((Ok(_), n)) => match gone_at(w, n, tomb) {
            None => None,
            Some((Err(e), m)) => Some((emptied(e), m)),
            Some((Ok(_), m)) => match sync_at(w, m, p) {
                None => None,
                Some((Err(e), j)) => Some((emptied(e), j)),
                Some((Ok(_), j)) => Some((Removal { result: Ok(()), current: Some(None) }, j)),
            },
        },
    }
}

/// A removal from the start, with what follows where it fails: the file is put back,
/// and the temporary files are removed.
#[verifier::opaque]
pub open spec fn remove_at(
    w: Seq<OwnedEvent>,
    k: int,
    p: Seq<u8>,
    expected: Option<SnapshotModel>,
    depth: nat,
) -> Option<(Result<(), ErrorModel>, int)>
    decreases depth, 1int,
{
    match expected {
        None => match look_at(w, k, p) {
            None => None,
            Some((Err(e), n)) => Some((Err(e), n)),
            Some((Ok(None), n)) => Some((Ok(()), n)),
            Some((Ok(Some(_)), n)) => Some(
                (Err(owned::about(p, " appeared concurrently; refusing to remove it"@)), n),
            ),
        },
        Some(wanted) => match nonce_at(w, k) {
            None => None,
            Some((first, n)) => match nonce_at(w, n) {
                None => None,
                Some((second, m)) => match owned::temporary_place(p, "remove"@, first) {
                    Err(e) => Some((Err(e), m)),
                    Ok(tomb) => match owned::temporary_place(p, "removed"@, second) {
                        Err(e) => Some((Err(e), m)),
                        Ok(grave) => match empty_at(w, m, tomb) {
                            None => None,
                            Some((Err(e), j)) => Some((Err(e), j)),
                            Some((Ok(empty), j)) => match removal_at(
                                w,
                                j,
                                tomb,
                                grave,
                                empty,
                                p,
                                wanted,
                            ) {
                                None => None,
                                Some((end, l)) => match end.result {
                                    Ok(_) => Some((Ok(()), l)),
                                    Err(e) => {
                                        let rolled = match end.current {
                                            None => Some((Ok(()), l)),
                                            Some(current) => rolled_at(
                                                w,
                                                l,
                                                p,
                                                Some(wanted),
                                                current,
                                                depth,
                                            ),
                                        };
                                        match rolled {
                                            None => None,
                                            Some((Err(second), last)) => Some(
                                                (Err(owned::with_rollback(e, p, second)), last),
                                            ),
                                            Some((Ok(_), last)) => cleared_at(
                                                w,
                                                last,
                                                tomb,
                                                grave,
                                                empty,
                                                wanted,
                                                e,
                                            ),
                                        }
                                    },
                                },
                            },
                        },
                    },
                },
            },
        },
    }
}

/// The removal of what a failed removal leaves.
pub open spec fn cleared_at(
    w: Seq<OwnedEvent>,
    k: int,
    tomb: Seq<u8>,
    grave: Seq<u8>,
    empty: SnapshotModel,
    wanted: SnapshotModel,
    e: ErrorModel,
) -> Option<(Result<(), ErrorModel>, int)> {
    match clean_at(w, k, grave, empty) {
        None => None,
        Some(n) => match clean_at(w, n, tomb, wanted) {
            None => None,
            Some(m) => match clean_at(w, m, tomb, empty) {
                None => None,
                Some(j) => Some((Err(e), j)),
            },
        },
    }
}

/// A file gets its earlier contents back, or is removed where there was none.
#[verifier::opaque]
pub open spec fn restore_at(
    w: Seq<OwnedEvent>,
    k: int,
    p: Seq<u8>,
    original: Option<SnapshotModel>,
    current: Option<SnapshotModel>,
    depth: nat,
) -> Option<(Result<(), ErrorModel>, int)>
    decreases depth, 2int,
{
    match original {
        Some(before) => match write_at(w, k, p, before.bytes, before.mode, current, depth) {
            None => None,
            Some((Ok(_), n)) => Some((Ok(()), n)),
            Some((Err(e), n)) => Some((Err(e), n)),
        },
        None => remove_at(w, k, p, current, depth),
    }
}

// ---------------------------------------------------------------------------
// Step by step
// ---------------------------------------------------------------------------

/// What a replacement comes to, step by step.
pub open spec fn written(
    w: Seq<OwnedEvent>,
    k: int,
    p: Seq<u8>,
    bytes: Seq<u8>,
    mode: u32,
    expected: Option<SnapshotModel>,
    depth: nat,
) -> Option<(Result<SnapshotModel, ErrorModel>, int)> {
    match directory_at(w, k, p) {
        None => None,
        Some((Err(e), n)) => Some((Err(e), n)),
        Some((Ok(_), n)) => match nonce_at(w, n) {
            None => None,
            Some((nonce, m)) => match owned::temporary_place(p, "replace"@, nonce) {
                Err(e) => Some((Err(e), m)),
                Ok(t) => match replace_at(w, m, t, p, bytes, mode, expected) {
                    None => None,
                    Some((end, j)) => match (end.result, end.prepared) {
                        (Ok(installed), _) => Some((Ok(installed), j)),
                        (Err(e), None) => Some((Err(e), j)),
                        (Err(e), Some(prepared)) => {
                            let rolled = if end.committed {
                                rolled_at(w, j, p, expected, Some(prepared), depth)
                            } else {
                                Some((Ok(()), j))
                            };
                            match rolled {
                                None => None,
                                Some((rollback, l)) => match clean_at(w, l, t, prepared) {
                                    None => None,
                                    Some(last) => Some((Err(reported(e, p, rollback)), last)),
                                },
                            }
                        },
                    },
                },
            },
        },
    }
}

/// The same, for the whole.
pub broadcast proof fn written_is(
    w: Seq<OwnedEvent>,
    k: int,
    p: Seq<u8>,
    bytes: Seq<u8>,
    mode: u32,
    expected: Option<SnapshotModel>,
    depth: nat,
)
    ensures
        #[trigger] write_at(w, k, p, bytes, mode, expected, depth) == written(w, k, p, bytes, mode, expected, depth),
{
    reveal(write_at);
    reveal(rolled_at);
    reveal(remove_at);
    reveal(restore_at);
}

/// What a rollback comes to, step by step.
pub open spec fn rolled(
    w: Seq<OwnedEvent>,
    k: int,
    p: Seq<u8>,
    original: Option<SnapshotModel>,
    current: Option<SnapshotModel>,
    depth: nat,
) -> Option<(Result<(), ErrorModel>, int)> {
    if depth == 0 {
        Some((Err(owned::about(p, " failed to roll back too often"@)), k))
    } else {
        restore_at(w, k, p, original, current, (depth - 1) as nat)
    }
}

/// The same, for the whole.
pub broadcast proof fn rolled_is(
    w: Seq<OwnedEvent>,
    k: int,
    p: Seq<u8>,
    original: Option<SnapshotModel>,
    current: Option<SnapshotModel>,
    depth: nat,
)
    ensures
        #[trigger] rolled_at(w, k, p, original, current, depth) == rolled(w, k, p, original, current, depth),
{
    reveal(write_at);
    reveal(rolled_at);
    reveal(remove_at);
    reveal(restore_at);
}

/// What a removal comes to, step by step.
pub open spec fn removed(
    w: Seq<OwnedEvent>,
    k: int,
    p: Seq<u8>,
    expected: Option<SnapshotModel>,
    depth: nat,
) -> Option<(Result<(), ErrorModel>, int)> {
    match expected {
        None => match look_at(w, k, p) {
            None => None,
            Some((Err(e), n)) => Some((Err(e), n)),
            Some((Ok(None), n)) => Some((Ok(()), n)),
            Some((Ok(Some(_)), n)) => Some(
                (Err(owned::about(p, " appeared concurrently; refusing to remove it"@)), n),
            ),
        },
        Some(wanted) => match nonce_at(w, k) {
            None => None,
            Some((first, n)) => match nonce_at(w, n) {
                None => None,
                Some((second, m)) => match owned::temporary_place(p, "remove"@, first) {
                    Err(e) => Some((Err(e), m)),
                    Ok(tomb) => match owned::temporary_place(p, "removed"@, second) {
                        Err(e) => Some((Err(e), m)),
                        Ok(grave) => match empty_at(w, m, tomb) {
                            None => None,
                            Some((Err(e), j)) => Some((Err(e), j)),
                            Some((Ok(empty), j)) => match removal_at(
                                w,
                                j,
                                tomb,
                                grave,
                                empty,
                                p,
                                wanted,
                            ) {
                                None => None,
                                Some((end, l)) => match end.result {
                                    Ok(_) => Some((Ok(()), l)),
                                    Err(e) => {
                                        let rolled = match end.current {
                                            None => Some((Ok(()), l)),
                                            Some(current) => rolled_at(
                                                w,
                                                l,
                                                p,
                                                Some(wanted),
                                                current,
                                                depth,
                                            ),
                                        };
                                        match rolled {
                                            None => None,
                                            Some((Err(second), last)) => Some(
                                                (Err(owned::with_rollback(e, p, second)), last),
                                            ),
                                            Some((Ok(_), last)) => cleared_at(
                                                w,
                                                last,
                                                tomb,
                                                grave,
                                                empty,
                                                wanted,
                                                e,
                                            ),
                                        }
                                    },
                                },
                            },
                        },
                    },
                },
            },
        },
    }
}

/// The same, for the whole.
pub broadcast proof fn removed_is(
    w: Seq<OwnedEvent>,
    k: int,
    p: Seq<u8>,
    expected: Option<SnapshotModel>,
    depth: nat,
)
    ensures
        #[trigger] remove_at(w, k, p, expected, depth) == removed(w, k, p, expected, depth),
{
    reveal(write_at);
    reveal(rolled_at);
    reveal(remove_at);
    reveal(restore_at);
}

/// What a restoration comes to, step by step.
pub open spec fn restored(
    w: Seq<OwnedEvent>,
    k: int,
    p: Seq<u8>,
    original: Option<SnapshotModel>,
    current: Option<SnapshotModel>,
    depth: nat,
) -> Option<(Result<(), ErrorModel>, int)> {
    match original {
        Some(before) => match write_at(w, k, p, before.bytes, before.mode, current, depth) {
            None => None,
            Some((Ok(_), n)) => Some((Ok(()), n)),
            Some((Err(e), n)) => Some((Err(e), n)),
        },
        None => remove_at(w, k, p, current, depth),
    }
}

/// The same, for the whole.
pub broadcast proof fn restored_is(
    w: Seq<OwnedEvent>,
    k: int,
    p: Seq<u8>,
    original: Option<SnapshotModel>,
    current: Option<SnapshotModel>,
    depth: nat,
)
    ensures
        #[trigger] restore_at(w, k, p, original, current, depth) == restored(w, k, p, original, current, depth),
{
    reveal(write_at);
    reveal(rolled_at);
    reveal(remove_at);
    reveal(restore_at);
}

// ---------------------------------------------------------------------------
// Both files
// ---------------------------------------------------------------------------

/// Both files are written: what is kept, then the configuration. Where the
/// configuration cannot be written, what is kept is taken back.
pub open spec fn install_at(
    w: Seq<OwnedEvent>,
    k: int,
    config_path: Seq<u8>,
    state_path: Seq<u8>,
    config: Option<SnapshotModel>,
    state: Option<SnapshotModel>,
    replacement: Seq<char>,
    kept: Seq<u8>,
) -> Option<(Result<(SnapshotModel, SnapshotModel), ErrorModel>, int)> {
    let depth = MAX_ROLLBACK_DEPTH as nat;
    match write_at(w, k, state_path, kept, PRIVATE_MODE, state, depth) {
        None => None,
        Some((Err(e), n)) => Some((Err(e), n)),
        Some((Ok(written), n)) => match write_at(
            w,
            n,
            config_path,
            text::utf8(replacement),
            transaction::config_mode(config),
            config,
            depth,
        ) {
            None => None,
            Some((Ok(installed), m)) => Some((Ok((written, installed)), m)),
            Some((Err(e), m)) => match restore_at(w, m, state_path, state, Some(written), depth) {
                None => None,
                Some((Err(back), j)) => Some((Err(back), j)),
                Some((Ok(_), j)) => Some((Err(e), j)),
            },
        },
    }
}

/// Both files get their earlier contents back, the configuration first.
pub open spec fn rollback_at(
    w: Seq<OwnedEvent>,
    k: int,
    config_path: Seq<u8>,
    state_path: Seq<u8>,
    config: Option<SnapshotModel>,
    state: Option<SnapshotModel>,
    installed_config: SnapshotModel,
    installed_state: SnapshotModel,
) -> Option<(Result<(), ErrorModel>, int)> {
    let depth = MAX_ROLLBACK_DEPTH as nat;
    match restore_at(w, k, config_path, config, Some(installed_config), depth) {
        None => None,
        Some((Err(e), n)) => Some((Err(e), n)),
        Some((Ok(_), n)) => restore_at(w, n, state_path, state, Some(installed_state), depth),
    }
}

/// The configuration is written and what was kept is removed. Where that cannot be
/// removed, the configuration is given back.
pub open spec fn uninstall_at(
    w: Seq<OwnedEvent>,
    k: int,
    config_path: Seq<u8>,
    state_path: Seq<u8>,
    config: SnapshotModel,
    state: SnapshotModel,
    replacement: Seq<char>,
) -> Option<(Result<(), ErrorModel>, int)> {
    let depth = MAX_ROLLBACK_DEPTH as nat;
    match write_at(
        w,
        k,
        config_path,
        text::utf8(replacement),
        config.mode,
        Some(config),
        depth,
    ) {
        None => None,
        Some((Err(e), n)) => Some((Err(e), n)),
        Some((Ok(written), n)) => match remove_at(w, n, state_path, Some(state), depth) {
            None => None,
            Some((Ok(_), m)) => Some((Ok(()), m)),
            Some((Err(removal), m)) => match restore_at(
                w,
                m,
                config_path,
                Some(config),
                Some(written),
                depth,
            ) {
                None => None,
                Some((Ok(_), j)) => Some((Err(removal), j)),
                Some((Err(rollback), j)) => Some(
                    (Err(transaction::with_restoration(removal, rollback)), j),
                ),
            },
        },
    }
}

} // verus!
