//! When a file that others may change is replaced.

use vstd::prelude::*;
use crate::codex_config::owned::{OwnedEvent, SnapshotModel};
use crate::codex_config::owned_replay;
use crate::codex_config::owned_replay::Replacement;

verus! {

/// A file counts as replaced only where the new contents were written aside, changed
/// places with the file, and what came out is exactly the file that was expected. It is
/// the written file that is given back.
pub proof fn only_the_expected_file_is_replaced(
    w: Seq<OwnedEvent>,
    k: int,
    t: Seq<u8>,
    p: Seq<u8>,
    bytes: Seq<u8>,
    mode: u32,
    wanted: SnapshotModel,
    r: Replacement,
    end: int,
)
    requires
        owned_replay::replace_at(w, k, t, p, bytes, mode, Some(wanted)) == Some((r, end)),
        r.committed,
    ensures
        0 <= k && k + 3 < w.len(),
        w[k] matches OwnedEvent::Create { path, bytes: written, mode: with, reply: Ok(installed) }
            && path == t && written == bytes && with == mode & 0o777 && (r.result matches Ok(done)
            ==> done == installed),
        w[k + 1] matches OwnedEvent::Exchange { a, b, reply: Ok(_) } && a == t && b == p,
        w[k + 2] matches OwnedEvent::Look { path, reply: Ok(Some(out)) } && path == t && out
            == wanted,
        w[k + 3] matches OwnedEvent::Remove { path, .. } && path == t,
        r.result is Ok ==> (w[end - 1] matches OwnedEvent::Sync { path, reply: Ok(_) } && path == p),
{
}

/// A file that is not there yet is only ever moved into an empty place.
pub proof fn a_new_file_is_moved_into_place(
    w: Seq<OwnedEvent>,
    k: int,
    t: Seq<u8>,
    p: Seq<u8>,
    bytes: Seq<u8>,
    mode: u32,
    r: Replacement,
    end: int,
)
    requires
        owned_replay::replace_at(w, k, t, p, bytes, mode, None) == Some((r, end)),
        r.committed,
    ensures
        0 <= k && k + 2 < w.len(),
        w[k] matches OwnedEvent::Create { path, bytes: written, .. } && path == t && written
            == bytes,
        w[k + 1] matches OwnedEvent::Move { from, to, reply: Ok(_) } && from == t && to == p,
        w[k + 2] matches OwnedEvent::Sync { path, .. } && path == p,
{
}

/// Where something else came out, nothing is committed.
pub proof fn a_changed_file_is_not_replaced(
    w: Seq<OwnedEvent>,
    k: int,
    t: Seq<u8>,
    p: Seq<u8>,
    bytes: Seq<u8>,
    mode: u32,
    wanted: SnapshotModel,
    r: Replacement,
    end: int,
)
    requires
        owned_replay::replace_at(w, k, t, p, bytes, mode, Some(wanted)) == Some((r, end)),
        0 <= k && k + 2 < w.len(),
        w[k + 2] matches OwnedEvent::Look { reply: Ok(Some(out)), .. } && out != wanted,
    ensures
        !r.committed,
        r.result is Err,
{
}

/// A file that was displaced is cleared away only where it is the one that is expected.
pub proof fn only_the_expected_file_is_cleared_away(
    w: Seq<OwnedEvent>,
    k: int,
    t: Seq<u8>,
    expected: SnapshotModel,
    end: int,
)
    requires
        owned_replay::clean_at(w, k, t, expected) == Some(end),
        0 <= k < w.len(),
        w[k] matches OwnedEvent::Look { reply: Ok(Some(out)), .. } && out != expected,
    ensures
        end == k + 1,
{
}

} // verus!
