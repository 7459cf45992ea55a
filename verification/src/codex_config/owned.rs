//! Files that are replaced or removed only while they are exactly what was
//! seen before. A file is put in place by exchanging it with another one, so
//! that what it displaces can be looked at and put back.

use vstd::prelude::*;
use crate::codex_config::owned_log::LoggedOwned;
use crate::codex_config::owned_replay;
use crate::codex_config::owned_replay::{Removal, Replacement};
use crate::error;
use crate::error::{command_error, ErrorModel, MuxError};
use crate::path;
use crate::path::UnixPath;
use crate::text;
use crate::text::bytes_equal;

verus! {

/// The largest file that is managed.
pub const MAX_OWNED_FILE_BYTES: u64 = 4194304;

/// How often a displaced file is put back while others keep changing it.
pub const MAX_ROLLBACK_ROUNDS: usize = 16;

/// How deep a failed rollback is rolled back itself: deeper than any stack.
pub const MAX_ROLLBACK_DEPTH: usize = 4294967295;

/// What a file was when it was looked at.
#[derive(Debug)]
pub struct FileSnapshot {
    pub bytes: Vec<u8>,
    pub mode: u32,
    pub device: u64,
    pub inode: u64,
}

#[verifier::ext_equal]
pub struct SnapshotModel {
    pub bytes: Seq<u8>,
    pub mode: u32,
    pub device: u64,
    pub inode: u64,
}

impl View for FileSnapshot {
    type V = SnapshotModel;

    open spec fn view(&self) -> SnapshotModel {
        SnapshotModel {
            bytes: self.bytes@,
            mode: self.mode,
            device: self.device,
            inode: self.inode,
        }
    }
}

impl Clone for FileSnapshot {
    fn clone(&self) -> (r: Self)
        ensures
            r@ == self@,
    {
        FileSnapshot {
            bytes: text::copy_bytes(&self.bytes),
            mode: self.mode,
            device: self.device,
            inode: self.inode,
        }
    }
}

pub open spec fn option_snapshot(o: Option<FileSnapshot>) -> Option<SnapshotModel> {
    match o {
        Some(s) => Some(s@),
        None => None,
    }
}

pub open spec fn reference_snapshot(o: Option<&FileSnapshot>) -> Option<SnapshotModel> {
    match o {
        Some(s) => Some(s@),
        None => None,
    }
}

/// Whether a file is still what it was: the same file with the same permissions
/// and bytes.
pub fn same_snapshot(left: &Option<FileSnapshot>, right: Option<&FileSnapshot>) -> (r: bool)
    ensures
        r == (option_snapshot(*left) == reference_snapshot(right)),
{
    match (left, right) {
        (None, None) => true,
        (Some(a), Some(b)) => {
            let r = a.device == b.device && a.inode == b.inode && a.mode == b.mode && bytes_equal(
                &a.bytes,
                &b.bytes,
            );
            assert(r ==> a@ =~= b@);
            r
        },
        _ => false,
    }
}

// ---------------------------------------------------------------------------
// Reading a file
// ---------------------------------------------------------------------------

/// What was found when a file was opened without following a link.
#[derive(Debug)]
pub enum OpenedOwned {
    Missing,
    Link,
    Unavailable(MuxError),
    Other,
    Regular { length: u64, mode: u32, device: u64, inode: u64, contents: Result<Vec<u8>, MuxError> },
}

pub open spec fn about(p: Seq<u8>, rest: Seq<char>) -> ErrorModel {
    ErrorModel::Command(text::lossy_text(p) + rest)
}

/// What an opened file stands for: only regular files of a bounded size are
/// managed.
pub open spec fn snapshot_of(p: Seq<u8>, opened: OpenedOwned) -> Result<
    Option<SnapshotModel>,
    ErrorModel,
> {
    match opened {
        OpenedOwned::Missing => Ok(None),
        OpenedOwned::Link => Err(
            about(p, " must be a regular file and must not be a symlink"@),
        ),
        OpenedOwned::Unavailable(e) => Err(e@),
        OpenedOwned::Other => Err(
            about(p, " must be a regular file and must not be a symlink"@),
        ),
        OpenedOwned::Regular { length, mode, device, inode, contents } => if length
            > MAX_OWNED_FILE_BYTES {
            Err(about(p, " exceeds the managed-file size limit"@))
        } else {
            match contents {
                Err(e) => Err(e@),
                Ok(bytes) => if bytes@.len() > MAX_OWNED_FILE_BYTES {
                    Err(about(p, " grew beyond the managed-file size limit"@))
                } else {
                    Ok(Some(SnapshotModel { bytes: bytes@, mode: mode & 0x1ff, device, inode }))
                },
            }
        },
    }
}

pub open spec fn snapshot_outcome(r: Result<Option<FileSnapshot>, MuxError>) -> Result<
    Option<SnapshotModel>,
    ErrorModel,
> {
    match r {
        Ok(o) => Ok(option_snapshot(o)),
        Err(e) => Err(e@),
    }
}

fn refusal(p: &UnixPath, rest: &str) -> (r: MuxError)
    ensures
        r@ == about(p@, rest@),
{
    let mut message = p.display();
    message.append(rest);
    command_error(&message)
}

/// Decides what an opened file stands for.
pub fn take_snapshot(p: &UnixPath, opened: OpenedOwned) -> (r: Result<
    Option<FileSnapshot>,
    MuxError,
>)
    ensures
        snapshot_outcome(r) == snapshot_of(p@, opened),
{
    match opened {
        OpenedOwned::Missing => Ok(None),
        OpenedOwned::Link => Err(
            refusal(p, " must be a regular file and must not be a symlink"),
        ),
        OpenedOwned::Unavailable(e) => Err(e),
        OpenedOwned::Other => Err(
            refusal(p, " must be a regular file and must not be a symlink"),
        ),
        OpenedOwned::Regular { length, mode, device, inode, contents } => {
            if length > MAX_OWNED_FILE_BYTES {
                return Err(refusal(p, " exceeds the managed-file size limit"));
            }
            match contents {
                Err(e) => Err(e),
                Ok(bytes) => if bytes.len() as u64 > MAX_OWNED_FILE_BYTES {
                    Err(refusal(p, " grew beyond the managed-file size limit"))
                } else {
                    Ok(Some(FileSnapshot { bytes, mode: mode & 0x1ff, device, inode }))
                },
            }
        },
    }
}

// ---------------------------------------------------------------------------
// The file system
// ---------------------------------------------------------------------------

/// The operations that managing a file takes. Each of them is atomic; others
/// may change files between two of them.
pub trait OwnedFiles {
    /// Makes the directory of a file.
    fn make_directory(&mut self, p: &UnixPath) -> Result<(), MuxError>;

    /// A text that no other temporary file carries.
    fn nonce(&mut self) -> String;

    /// Creates a file that is not there yet, with bytes and permissions, and
    /// makes it durable.
    fn create(&mut self, p: &UnixPath, bytes: &Vec<u8>, mode: u32) -> Result<
        FileSnapshot,
        MuxError,
    >;

    /// Creates an empty file that is not there yet.
    fn create_empty(&mut self, p: &UnixPath) -> Result<FileSnapshot, MuxError>;

    /// Looks at a file.
    fn snapshot(&mut self, p: &UnixPath) -> Result<Option<FileSnapshot>, MuxError>;

    /// Exchanges two files.
    fn exchange(&mut self, a: &UnixPath, b: &UnixPath) -> Result<(), MuxError>;

    /// Gives a file a name that is not taken.
    fn move_new(&mut self, from: &UnixPath, to: &UnixPath) -> Result<(), MuxError>;

    fn remove(&mut self, p: &UnixPath) -> Result<(), MuxError>;

    /// Makes the directory of a file durable.
    fn sync_directory(&mut self, p: &UnixPath) -> Result<(), MuxError>;
}

/// An operation and what came of it.
pub enum OwnedEvent {
    Directory { path: Seq<u8>, reply: Result<(), ErrorModel> },
    Nonce(Seq<char>),
    Create { path: Seq<u8>, bytes: Seq<u8>, mode: u32, reply: Result<SnapshotModel, ErrorModel> },
    CreateEmpty { path: Seq<u8>, reply: Result<SnapshotModel, ErrorModel> },
    Look { path: Seq<u8>, reply: Result<Option<SnapshotModel>, ErrorModel> },
    Exchange { a: Seq<u8>, b: Seq<u8>, reply: Result<(), ErrorModel> },
    Move { from: Seq<u8>, to: Seq<u8>, reply: Result<(), ErrorModel> },
    Remove { path: Seq<u8>, reply: Result<(), ErrorModel> },
    Sync { path: Seq<u8>, reply: Result<(), ErrorModel> },
}

pub open spec fn created_outcome(r: Result<FileSnapshot, MuxError>) -> Result<
    SnapshotModel,
    ErrorModel,
> {
    match r {
        Ok(s) => Ok(s@),
        Err(e) => Err(e@),
    }
}

pub open spec fn acted(before: Seq<OwnedEvent>, after: Seq<OwnedEvent>) -> Seq<OwnedEvent> {
    after.skip(before.len() as int)
}

// ---------------------------------------------------------------------------
// Temporary names
// ---------------------------------------------------------------------------

/// A temporary name beside a managed file.
pub open spec fn temporary_place(p: Seq<u8>, role: Seq<char>, nonce: Seq<char>) -> Result<
    Seq<u8>,
    ErrorModel,
> {
    match path::parent(p) {
        None => Err(ErrorModel::Command("managed path has no parent"@)),
        Some(parent) => match path::file_name(p) {
            None => Err(ErrorModel::Command("managed path has no file name"@)),
            Some(name) => Ok(
                path::joined(
                    parent,
                    text::utf8(
                        "."@ + text::lossy_text(name) + ".codex-mux-"@ + role + "-"@ + nonce,
                    ),
                ),
            ),
        },
    }
}

/// A name that serves one of the roles beside a managed file.
pub open spec fn is_temporary(p: Seq<u8>, t: Seq<u8>) -> bool {
    exists|role: Seq<char>, nonce: Seq<char>| #[trigger]
        temporary_place(p, role, nonce) == Ok::<Seq<u8>, ErrorModel>(t)
}

pub open spec fn place_outcome(r: Result<UnixPath, MuxError>) -> Result<Seq<u8>, ErrorModel> {
    match r {
        Ok(p) => Ok(p@),
        Err(e) => Err(e@),
    }
}

/// A temporary name beside a managed file.
pub fn temporary_path(p: &UnixPath, role: &str, nonce: &str) -> (r: Result<UnixPath, MuxError>)
    ensures
        place_outcome(r) == temporary_place(p@, role@, nonce@),
{
    let parent = match p.parent() {
        Some(parent) => parent,
        None => return Err(command_error("managed path has no parent")),
    };
    let name = match p.file_name() {
        Some(name) => name,
        None => return Err(command_error("managed path has no file name")),
    };
    let mut leaf = ".".to_owned();
    leaf.append(&text::utf8_lossy(&name));
    leaf.append(".codex-mux-");
    leaf.append(role);
    leaf.append("-");
    leaf.append(nonce);
    Ok(parent.join(&UnixPath::new(&leaf)))
}

// ---------------------------------------------------------------------------
// Putting a displaced file back
// ---------------------------------------------------------------------------

pub open spec fn looked(e: OwnedEvent) -> Result<Option<SnapshotModel>, ErrorModel> {
    e->Look_reply
}

/// One more round of putting files back: the public file has to be the one that
/// was put there last; what the exchange displaces has to be it.
pub open spec fn rounds_went(
    t: Seq<u8>,
    p: Seq<u8>,
    public: SnapshotModel,
    rounds: nat,
    seen: Seq<OwnedEvent>,
    result: Result<(), ErrorModel>,
) -> bool
    decreases rounds,
{
    if rounds == 0 {
        seen.len() == 0 && result == Err::<(), ErrorModel>(
            about(p, " kept changing during rollback; preserved every displaced file"@),
        )
    } else {
        &&& seen.len() >= 1
        &&& seen[0] matches OwnedEvent::Look { path: first, reply: found }
        &&& first == p
        &&& match found {
            Err(e) => seen.len() == 1 && result == Err::<(), ErrorModel>(e),
            Ok(current) => if current != Some(public) {
                seen.len() == 1 && result == Err::<(), ErrorModel>(
                    about(p, " changed during rollback; preserved the newer public file"@),
                )
            } else {
                &&& seen.len() >= 2
                &&& seen[1] matches OwnedEvent::Exchange { a, b, reply: swapped }
                &&& a == t && b == p
                &&& match swapped {
                    Err(e) => seen.len() == 2 && result == Err::<(), ErrorModel>(e),
                    Ok(_) => {
                        &&& seen.len() >= 3
                        &&& seen[2] matches OwnedEvent::Look { path: second, reply: displaced }
                        &&& second == t
                        &&& match displaced {
                            Err(e) => seen.len() == 3 && result == Err::<(), ErrorModel>(e),
                            Ok(old_file) => if old_file == Some(public) {
                                seen.len() == 3 && result == Err::<(), ErrorModel>(
                                    about(
                                        p,
                                        " changed during rollback; restored the newer public file"@,
                                    ),
                                )
                            } else {
                                &&& seen.len() >= 4
                                &&& seen[3] matches OwnedEvent::Look { path: third, reply: now }
                                &&& third == p
                                &&& match now {
                                    Err(e) => seen.len() == 4 && result == Err::<
                                        (),
                                        ErrorModel,
                                    >(e),
                                    Ok(None) => seen.len() == 4 && result == Err::<
                                        (),
                                        ErrorModel,
                                    >(
                                        about(
                                            p,
                                            " changed during rollback; preserved the newer public file"@,
                                        ),
                                    ),
                                    Ok(Some(next)) => rounds_went(
                                        t,
                                        p,
                                        next,
                                        (rounds - 1) as nat,
                                        seen.skip(4),
                                        result,
                                    ),
                                }
                            },
                        }
                    },
                }
            },
        }
    }
}

/// Putting a displaced file back: the public file has to be the one that was
/// installed, before the exchange and as seen after it.
pub open spec fn rollback_went(
    t: Seq<u8>,
    p: Seq<u8>,
    installed: SnapshotModel,
    target: SnapshotModel,
    seen: Seq<OwnedEvent>,
    result: Result<(), ErrorModel>,
) -> bool {
    &&& seen.len() >= 1
    &&& seen[0] matches OwnedEvent::Look { path: first, reply: found }
    &&& first == p
    &&& match found {
        Err(e) => seen.len() == 1 && result == Err::<(), ErrorModel>(e),
        Ok(current) => if current != Some(installed) {
            seen.len() == 1 && result == Err::<(), ErrorModel>(
                about(p, " changed during rollback; preserved the newer public file"@),
            )
        } else {
            &&& seen.len() >= 2
            &&& seen[1] matches OwnedEvent::Exchange { a, b, reply: swapped }
            &&& a == t && b == p
            &&& match swapped {
                Err(e) => seen.len() == 2 && result == Err::<(), ErrorModel>(e),
                Ok(_) => {
                    &&& seen.len() >= 3
                    &&& seen[2] matches OwnedEvent::Look { path: second, reply: displaced }
                    &&& second == t
                    &&& match displaced {
                        Err(e) => seen.len() == 3 && result == Err::<(), ErrorModel>(e),
                        Ok(old_file) => if old_file == Some(installed) {
                            seen.len() == 3 && result == Ok::<(), ErrorModel>(())
                        } else {
                            rounds_went(
                                t,
                                p,
                                target,
                                MAX_ROLLBACK_ROUNDS as nat,
                                seen.skip(3),
                                result,
                            )
                        },
                    }
                },
            }
        },
    }
}

fn more_rounds<F: OwnedFiles>(
    files: &mut LoggedOwned<F>,
    t: &UnixPath,
    p: &UnixPath,
    public: FileSnapshot,
    rounds: usize,
) -> (r: Result<(), MuxError>)
    ensures
        old(files).events().is_prefix_of(final(files).events()),
        rounds_went(
            t@,
            p@,
            public@,
            rounds as nat,
            acted(old(files).events(), final(files).events()),
            error::outcome(r),
        ),
        owned_replay::agrees(final(files).events(), old(files).events()),
        forall|w: Seq<OwnedEvent>|
            owned_replay::agrees(w, final(files).events()) ==> #[trigger] owned_replay::rounds_at(
                w,
                old(files).events().len() as int,
                t@,
                p@,
                public@,
                rounds as nat,
            ) == Some((error::outcome(r), final(files).events().len() as int)),
    decreases rounds,
{
    let ghost s = files.events();
    assert(acted(s, s) =~= Seq::empty());
    if rounds == 0 {
        return Err(
            refusal(p, " kept changing during rollback; preserved every displaced file"),
        );
    }
    let found = files.snapshot(p);
    let ghost a = files.events();
    assert(acted(s, a) =~= seq![a.last()]);
    match found {
        Err(e) => return Err(e),
        Ok(current) => {
            if !same_snapshot(&current, Some(&public)) {
                return Err(
                    refusal(p, " changed during rollback; preserved the newer public file"),
                );
            }
        },
    }
    let swapped = files.exchange(t, p);
    let ghost b = files.events();
    assert(acted(s, b) =~= seq![a.last(), b.last()]);
    if let Err(e) = swapped {
        return Err(e);
    }
    let displaced = files.snapshot(t);
    let ghost c = files.events();
    assert(acted(s, c) =~= seq![a.last(), b.last(), c.last()]);
    match displaced {
        Err(e) => return Err(e),
        Ok(old_file) => {
            if same_snapshot(&old_file, Some(&public)) {
                return Err(
                    refusal(p, " changed during rollback; restored the newer public file"),
                );
            }
        },
    }
    let now = files.snapshot(p);
    let ghost d = files.events();
    assert(acted(s, d) =~= seq![a.last(), b.last(), c.last(), d.last()]);
    match now {
        Err(e) => Err(e),
        Ok(None) => Err(
            refusal(p, " changed during rollback; preserved the newer public file"),
        ),
        Ok(Some(next)) => {
            let ghost now_public = next@;
            let r = more_rounds(files, t, p, next, rounds - 1);
            proof {
                let end = files.events();
                let seen = acted(s, end);
                assert(seen.skip(4) =~= acted(d, end));
                assert(seen[0] == a.last() && seen[1] == b.last() && seen[2] == c.last()
                    && seen[3] == d.last());
                assert forall|w: Seq<OwnedEvent>| owned_replay::agrees(w, end) implies #[trigger]
                    owned_replay::rounds_at(
                    w,
                    s.len() as int,
                    t@,
                    p@,
                    public@,
                    rounds as nat,
                ) == Some((error::outcome(r), end.len() as int)) by {
                    let inner = owned_replay::rounds_at(
                        w,
                        d.len() as int,
                        t@,
                        p@,
                        now_public,
                        (rounds - 1) as nat,
                    );
                    assert(inner is Some);
                    assert(owned_replay::agrees(w, d));
                }
            }
            r
        },
    }
}

/// Exchanges a file that was put in place with the one that it displaced, unless
/// the public file is a newer one by then.
pub fn rollback_exchange<F: OwnedFiles>(
    files: &mut LoggedOwned<F>,
    t: &UnixPath,
    p: &UnixPath,
    installed: &FileSnapshot,
    target: &FileSnapshot,
) -> (r: Result<(), MuxError>)
    ensures
        old(files).events().is_prefix_of(final(files).events()),
        rollback_went(
            t@,
            p@,
            installed@,
            target@,
            acted(old(files).events(), final(files).events()),
            error::outcome(r),
        ),
        owned_replay::agrees(final(files).events(), old(files).events()),
        forall|w: Seq<OwnedEvent>|
            owned_replay::agrees(w, final(files).events()) ==> #[trigger] owned_replay::back_at(
                w,
                old(files).events().len() as int,
                t@,
                p@,
                installed@,
                target@,
            ) == Some((error::outcome(r), final(files).events().len() as int)),
{
    let ghost s = files.events();
    let found = files.snapshot(p);
    let ghost a = files.events();
    assert(acted(s, a) =~= seq![a.last()]);
    match found {
        Err(e) => return Err(e),
        Ok(current) => {
            if !same_snapshot(&current, Some(installed)) {
                return Err(
                    refusal(p, " changed during rollback; preserved the newer public file"),
                );
            }
        },
    }
    let swapped = files.exchange(t, p);
    let ghost b = files.events();
    assert(acted(s, b) =~= seq![a.last(), b.last()]);
    if let Err(e) = swapped {
        return Err(e);
    }
    let displaced = files.snapshot(t);
    let ghost c = files.events();
    assert(acted(s, c) =~= seq![a.last(), b.last(), c.last()]);
    match displaced {
        Err(e) => return Err(e),
        Ok(old_file) => {
            if same_snapshot(&old_file, Some(installed)) {
                return Ok(());
            }
        },
    }
    let r = more_rounds(files, t, p, target.clone(), MAX_ROLLBACK_ROUNDS);
    proof {
        let end = files.events();
        let seen = acted(s, end);
        assert(seen.skip(3) =~= acted(c, end));
        assert(seen[0] == a.last() && seen[1] == b.last() && seen[2] == c.last());
    }
    r
}

/// Putting a displaced file back never removes, moves or creates anything; it
/// only looks and exchanges.
pub open spec fn only_exchanges(seen: Seq<OwnedEvent>) -> bool {
    forall|i: int| 0 <= i < seen.len() ==> (#[trigger] seen[i] is Look || seen[i] is Exchange)
}

proof fn rounds_only_exchange(
    t: Seq<u8>,
    p: Seq<u8>,
    public: SnapshotModel,
    rounds: nat,
    seen: Seq<OwnedEvent>,
    result: Result<(), ErrorModel>,
)
    requires
        rounds_went(t, p, public, rounds, seen, result),
    ensures
        only_exchanges(seen),
    decreases rounds,
{
    if rounds > 0 && seen.len() > 4 {
        let next = looked(seen[3])->Ok_0->0;
        rounds_only_exchange(t, p, next, (rounds - 1) as nat, seen.skip(4), result);
        assert forall|i: int| 0 <= i < seen.len() implies (#[trigger] seen[i] is Look
            || seen[i] is Exchange) by {
            if i >= 4 {
                assert(seen.skip(4)[i - 4] == seen[i]);
            }
        }
    }
}

/// Putting a displaced file back never deletes a later edit: it removes nothing
/// at all.
pub proof fn rollback_only_exchanges(
    t: Seq<u8>,
    p: Seq<u8>,
    installed: SnapshotModel,
    target: SnapshotModel,
    seen: Seq<OwnedEvent>,
    result: Result<(), ErrorModel>,
)
    requires
        rollback_went(t, p, installed, target, seen, result),
    ensures
        only_exchanges(seen),
{
    if seen.len() > 3 {
        rounds_only_exchange(t, p, target, MAX_ROLLBACK_ROUNDS as nat, seen.skip(3), result);
        assert forall|i: int| 0 <= i < seen.len() implies (#[trigger] seen[i] is Look
            || seen[i] is Exchange) by {
            if i >= 3 {
                assert(seen.skip(3)[i - 3] == seen[i]);
            }
        }
    }
}

// ---------------------------------------------------------------------------
// Replacing and removing
// ---------------------------------------------------------------------------

/// Only temporary names of a managed file are removed.
pub open spec fn removes_temporaries(p: Seq<u8>, seen: Seq<OwnedEvent>) -> bool {
    forall|i: int|
        0 <= i < seen.len() ==> (#[trigger] seen[i] matches OwnedEvent::Remove { path, .. }
            ==> is_temporary(p, path))
}

/// How far a replacement came.
struct Progress {
    prepared: Option<FileSnapshot>,
    committed: bool,
}

/// A file was created under a temporary name.
pub open spec fn created(t: Seq<u8>, bytes: Seq<u8>, mode: u32, e: OwnedEvent) -> bool {
    e matches OwnedEvent::Create { path, bytes: written, mode: given, reply } && path == t
        && written == bytes && given == mode && reply is Ok
}

pub open spec fn exchanged_ok(a: Seq<u8>, b: Seq<u8>, e: OwnedEvent) -> bool {
    e matches OwnedEvent::Exchange { a: x, b: y, reply } && x == a && y == b && reply is Ok
}

pub open spec fn moved_ok(a: Seq<u8>, b: Seq<u8>, e: OwnedEvent) -> bool {
    e matches OwnedEvent::Move { from, to, reply } && from == a && to == b && reply is Ok
}

pub open spec fn removed_ok(p: Seq<u8>, e: OwnedEvent) -> bool {
    e matches OwnedEvent::Remove { path, reply } && path == p && reply is Ok
}

pub open spec fn synced_ok(p: Seq<u8>, e: OwnedEvent) -> bool {
    e matches OwnedEvent::Sync { path, reply } && path == p && reply is Ok
}

pub open spec fn shows(p: Seq<u8>, found: Option<SnapshotModel>, e: OwnedEvent) -> bool {
    e matches OwnedEvent::Look { path, reply } && path == p && reply == Ok::<
        Option<SnapshotModel>,
        ErrorModel,
    >(found)
}

/// A replacement that succeeded: what the exchange displaced was exactly what
/// was expected, or nothing was in the way.
pub open spec fn replaced_well(
    t: Seq<u8>,
    p: Seq<u8>,
    bytes: Seq<u8>,
    mode: u32,
    expected: Option<SnapshotModel>,
    seen: Seq<OwnedEvent>,
) -> bool {
    match expected {
        Some(e) => {
            &&& seen.len() == 5
            &&& created(t, bytes, mode & 0x1ff, seen[0])
            &&& exchanged_ok(t, p, seen[1])
            &&& shows(t, Some(e), seen[2])
            &&& removed_ok(t, seen[3])
            &&& synced_ok(p, seen[4])
        },
        None => {
            &&& seen.len() == 3
            &&& created(t, bytes, mode & 0x1ff, seen[0])
            &&& moved_ok(t, p, seen[1])
            &&& synced_ok(p, seen[2])
        },
    }
}

/// Why a replacement failed: the first operation that failed says so, and a file
/// that is not what was expected is put back and reported.
pub open spec fn replacement_failed(
    t: Seq<u8>,
    p: Seq<u8>,
    expected: Option<SnapshotModel>,
    seen: Seq<OwnedEvent>,
    e: ErrorModel,
) -> bool {
    let stranger = about(p, " changed concurrently; refusing to overwrite it"@);
    &&& seen.len() >= 1
    &&& seen[0] matches OwnedEvent::Create { reply, .. }
    &&& match reply {
        Err(x) => e == x,
        Ok(installed) => match expected {
            Some(wanted) => {
                &&& seen.len() >= 2
                &&& seen[1] matches OwnedEvent::Exchange { reply: swapped, .. }
                &&& match swapped {
                    Err(x) => e == x,
                    Ok(_) => {
                        &&& seen.len() >= 3
                        &&& seen[2] matches OwnedEvent::Look { reply: found, .. }
                        &&& match found {
                            Err(x) => e == x,
                            Ok(None) => e == stranger,
                            Ok(Some(target)) => if target == wanted {
                                ||| failed_step(seen, 3, e)
                                ||| failed_step(seen, 4, e)
                            } else {
                                ||| rollback_went(
                                    t,
                                    p,
                                    installed,
                                    target,
                                    seen.skip(3),
                                    Ok(()),
                                ) && e == stranger
                                ||| rollback_went(t, p, installed, target, seen.skip(3), Err(e))
                            },
                        }
                    },
                }
            },
            None => {
                ||| failed_step(seen, 1, e)
                ||| failed_step(seen, 2, e)
            },
        },
    }
}

/// A step is the last one, and failed.
pub open spec fn failed_step(seen: Seq<OwnedEvent>, i: int, e: ErrorModel) -> bool {
    seen.len() == i + 1 && match seen[i] {
        OwnedEvent::Exchange { reply, .. } => reply == Err::<(), ErrorModel>(e),
        OwnedEvent::Move { reply, .. } => reply == Err::<(), ErrorModel>(e),
        OwnedEvent::Remove { reply, .. } => reply == Err::<(), ErrorModel>(e),
        OwnedEvent::Sync { reply, .. } => reply == Err::<(), ErrorModel>(e),
        _ => false,
    }
}

proof fn exchanges_remove_nothing(p: Seq<u8>, seen: Seq<OwnedEvent>)
    requires
        only_exchanges(seen),
    ensures
        removes_temporaries(p, seen),
{
    assert forall|i: int| 0 <= i < seen.len() implies (#[trigger] seen[i] matches OwnedEvent::Remove {
        path,
        ..
    } ==> is_temporary(p, path)) by {
        assert(seen[i] is Look || seen[i] is Exchange);
    }
}

proof fn removals_add_up(
    p: Seq<u8>,
    a: Seq<OwnedEvent>,
    b: Seq<OwnedEvent>,
    c: Seq<OwnedEvent>,
)
    requires
        a.is_prefix_of(b),
        b.is_prefix_of(c),
        removes_temporaries(p, acted(a, b)),
        removes_temporaries(p, acted(b, c)),
    ensures
        a.is_prefix_of(c),
        removes_temporaries(p, acted(a, c)),
{
    let seen = acted(a, c);
    let n = b.len() - a.len();
    assert forall|i: int| 0 <= i < seen.len() implies (#[trigger] seen[i] matches OwnedEvent::Remove {
        path,
        ..
    } ==> is_temporary(p, path)) by {
        if i < n {
            assert(acted(a, b)[i] == seen[i]);
        } else {
            assert(acted(b, c)[i - n] == seen[i]);
        }
    }
}

fn replace_steps<F: OwnedFiles>(
    files: &mut LoggedOwned<F>,
    t: &UnixPath,
    p: &UnixPath,
    bytes: &Vec<u8>,
    mode: u32,
    expected: Option<&FileSnapshot>,
    progress: &mut Progress,
) -> (r: Result<FileSnapshot, MuxError>)
    requires
        is_temporary(p@, t@),
        old(progress).prepared is None,
        !old(progress).committed,
    ensures
        old(files).events().is_prefix_of(final(files).events()),
        removes_temporaries(p@, acted(old(files).events(), final(files).events())),
        r is Ok <==> replaced_well(
            t@,
            p@,
            bytes@,
            mode,
            reference_snapshot(expected),
            acted(old(files).events(), final(files).events()),
        ),
        r matches Ok(s) ==> acted(
            old(files).events(),
            final(files).events(),
        )[0]->Create_reply == Ok::<SnapshotModel, ErrorModel>(s@),
        r matches Err(e) ==> replacement_failed(
            t@,
            p@,
            reference_snapshot(expected),
            acted(old(files).events(), final(files).events()),
            e@,
        ),
        final(progress).committed ==> final(progress).prepared is Some,
        owned_replay::agrees(final(files).events(), old(files).events()),
        forall|w: Seq<OwnedEvent>|
            owned_replay::agrees(w, final(files).events()) ==> #[trigger] owned_replay::replace_at(
                w,
                old(files).events().len() as int,
                t@,
                p@,
                bytes@,
                mode,
                reference_snapshot(expected),
            ) == Some((Replacement {
                result: created_outcome(r),
                prepared: option_snapshot(final(progress).prepared),
                committed: final(progress).committed,
            }, final(files).events().len() as int)),
{
    let ghost s = files.events();
    let ghost e = reference_snapshot(expected);
    let made = files.create(t, bytes, mode & 0x1ff);
    let ghost a = files.events();
    assert(acted(s, a) =~= seq![a.last()]);
    let installed = match made {
        Ok(installed) => installed,
        Err(error) => {
            assert(!replaced_well(t@, p@, bytes@, mode, e, acted(s, a)));
            return Err(error);
        },
    };
    progress.prepared = Some(installed.clone());
    match expected {
        Some(wanted) => {
            let swapped = files.exchange(t, p);
            let ghost b = files.events();
            assert(acted(s, b) =~= seq![a.last(), b.last()]);
            if let Err(error) = swapped {
                return Err(error);
            }
            let looked_at = files.snapshot(t);
            let ghost c = files.events();
            assert(acted(s, c) =~= seq![a.last(), b.last(), c.last()]);
            let displaced = match looked_at {
                Ok(displaced) => displaced,
                Err(error) => return Err(error),
            };
            if !same_snapshot(&displaced, Some(wanted)) {
                if let Some(target) = displaced {
                    let rolled = rollback_exchange(files, t, p, &installed, &target);
                    proof {
                        let end = files.events();
                        let back = acted(c, end);
                        rollback_only_exchanges(
                            t@,
                            p@,
                            installed@,
                            target@,
                            back,
                            error::outcome(rolled),
                        );
                        exchanges_remove_nothing(p@, back);
                        removals_add_up(p@, s, c, end);
                        assert(acted(s, end)[0] == a.last());
                        assert(acted(s, end)[1] == b.last());
                        assert(acted(s, end)[2] == c.last());
                        assert(acted(s, end).skip(3) =~= back);
                    }
                    if let Err(error) = rolled {
                        return Err(error);
                    }
                }
                return Err(refusal(p, " changed concurrently; refusing to overwrite it"));
            }
            progress.committed = true;
            let gone = files.remove(t);
            let ghost d = files.events();
            assert(acted(s, d) =~= seq![a.last(), b.last(), c.last(), d.last()]);
            if let Err(error) = gone {
                return Err(error);
            }
            let synced = files.sync_directory(p);
            let ghost f = files.events();
            assert(acted(s, f) =~= seq![a.last(), b.last(), c.last(), d.last(), f.last()]);
            match synced {
                Ok(()) => Ok(installed),
                Err(error) => Err(error),
            }
        },
        None => {
            let moved = files.move_new(t, p);
            let ghost b = files.events();
            assert(acted(s, b) =~= seq![a.last(), b.last()]);
            if let Err(error) = moved {
                return Err(error);
            }
            progress.committed = true;
            let synced = files.sync_directory(p);
            let ghost c = files.events();
            assert(acted(s, c) =~= seq![a.last(), b.last(), c.last()]);
            match synced {
                Ok(()) => Ok(installed),
                Err(error) => Err(error),
            }
        },
    }
}

/// Removes a file while it is still what it was.
fn remove_if_snapshot<F: OwnedFiles>(
    files: &mut LoggedOwned<F>,
    t: &UnixPath,
    expected: &FileSnapshot,
)
    ensures
        old(files).events().is_prefix_of(final(files).events()),
        ({
            let seen = acted(old(files).events(), final(files).events());
            &&& seen.len() >= 1
            &&& seen[0] is Look
            &&& if shows(t@, Some(expected@), seen[0]) {
                &&& seen.len() == 2
                &&& seen[1] matches OwnedEvent::Remove { path, .. }
                &&& path == t@
            } else {
                seen.len() == 1
            }
        }),
        owned_replay::agrees(final(files).events(), old(files).events()),
        forall|w: Seq<OwnedEvent>|
            owned_replay::agrees(w, final(files).events()) ==> #[trigger] owned_replay::clean_at(
                w,
                old(files).events().len() as int,
                t@,
                expected@,
            ) == Some(final(files).events().len() as int),
{
    let ghost s = files.events();
    let found = files.snapshot(t);
    let ghost a = files.events();
    assert(acted(s, a) =~= seq![a.last()]);
    if let Ok(current) = found {
        if current.is_some() && same_snapshot(&current, Some(expected)) {
            let _ = files.remove(t);
            let ghost b = files.events();
            assert(acted(s, b) =~= seq![a.last(), b.last()]);
        }
    }
}

proof fn cleaning_removes_temporaries(p: Seq<u8>, t: Seq<u8>, seen: Seq<OwnedEvent>)
    requires
        is_temporary(p, t),
        seen.len() == 1 || seen.len() == 2,
        seen[0] is Look,
        seen.len() == 2 ==> (seen[1] matches OwnedEvent::Remove { path, .. } && path == t),
    ensures
        removes_temporaries(p, seen),
{
}

/// What is reported where a rollback failed as well.
pub open spec fn with_rollback(error: ErrorModel, p: Seq<u8>, rollback: ErrorModel) -> ErrorModel {
    ErrorModel::Command(
        error::error_text(error) + "; additionally failed to roll back "@ + text::lossy_text(p)
            + ": "@ + error::error_text(rollback),
    )
}

fn report_rollback(error: &MuxError, p: &UnixPath, rollback: &MuxError) -> (r: MuxError)
    ensures
        r@ == with_rollback(error@, p@, rollback@),
{
    let mut message = error.to_text();
    message.append("; additionally failed to roll back ");
    message.append(&p.display());
    message.append(": ");
    message.append(&rollback.to_text());
    command_error(&message)
}

/// A replacement from the start that succeeded.
pub open spec fn written_well(
    p: Seq<u8>,
    bytes: Seq<u8>,
    mode: u32,
    expected: Option<SnapshotModel>,
    seen: Seq<OwnedEvent>,
) -> bool {
    &&& seen.len() >= 2
    &&& seen[0] matches OwnedEvent::Directory { path, reply }
    &&& path == p && reply is Ok
    &&& seen[1] matches OwnedEvent::Nonce(nonce)
    &&& temporary_place(p, "replace"@, nonce) is Ok
    &&& replaced_well(
        temporary_place(p, "replace"@, nonce)->Ok_0,
        p,
        bytes,
        mode,
        expected,
        seen.skip(2),
    )
}

/// An error that is reported alone, or together with a failed rollback.
pub open spec fn reports(first: ErrorModel, p: Seq<u8>, e: ErrorModel) -> bool {
    e == first || exists|second: ErrorModel| e == #[trigger] with_rollback(first, p, second)
}

/// The first `n` operations of a replacement ended in an error.
pub open spec fn write_stopped(
    p: Seq<u8>,
    expected: Option<SnapshotModel>,
    seen: Seq<OwnedEvent>,
    n: int,
    first: ErrorModel,
) -> bool {
    &&& 1 <= n <= seen.len()
    &&& seen[0] matches OwnedEvent::Directory { reply: ready, .. }
    &&& match ready {
        Err(x) => first == x,
        Ok(_) => {
            &&& n >= 2
            &&& seen[1] matches OwnedEvent::Nonce(nonce)
            &&& match temporary_place(p, "replace"@, nonce) {
                Err(x) => first == x,
                Ok(t) => replacement_failed(t, p, expected, seen.subrange(2, n), first),
            }
        },
    }
}

/// Why a replacement from the start failed.
pub open spec fn write_failed(
    p: Seq<u8>,
    expected: Option<SnapshotModel>,
    seen: Seq<OwnedEvent>,
    e: ErrorModel,
) -> bool {
    exists|n: int, first: ErrorModel| #[trigger]
        write_stopped(p, expected, seen, n, first) && reports(first, p, e)
}

fn rolled_back<F: OwnedFiles>(
    files: &mut LoggedOwned<F>,
    p: &UnixPath,
    original: Option<&FileSnapshot>,
    current: Option<&FileSnapshot>,
    depth: usize,
) -> (r: Result<(), MuxError>)
    ensures
        old(files).events().is_prefix_of(final(files).events()),
        removes_temporaries(p@, acted(old(files).events(), final(files).events())),
        owned_replay::agrees(final(files).events(), old(files).events()),
        forall|w: Seq<OwnedEvent>|
            owned_replay::agrees(w, final(files).events()) ==> #[trigger] owned_replay::rolled_at(
                w,
                old(files).events().len() as int,
                p@,
                reference_snapshot(original),
                reference_snapshot(current),
                depth as nat,
            ) == Some((error::outcome(r), final(files).events().len() as int)),
    decreases depth, 0int,
{
    broadcast use owned_replay::rolled_is;

    if depth == 0 {
        assert(acted(files.events(), files.events()) =~= Seq::empty());
        return Err(refusal(p, " failed to roll back too often"));
    }
    restore_within(files, p, original, current, depth - 1)
}

/// Replaces a file while it is still what is expected, or creates it where
/// nothing is expected. Where the replacement is in place but not durable, the
/// expected file is put back.
#[verifier::spinoff_prover]
#[verifier::rlimit(60)]
fn write_within<F: OwnedFiles>(
    files: &mut LoggedOwned<F>,
    p: &UnixPath,
    bytes: &Vec<u8>,
    mode: u32,
    expected: Option<&FileSnapshot>,
    depth: usize,
) -> (r: Result<FileSnapshot, MuxError>)
    ensures
        old(files).events().is_prefix_of(final(files).events()),
        removes_temporaries(p@, acted(old(files).events(), final(files).events())),
        r is Ok <==> written_well(
            p@,
            bytes@,
            mode,
            reference_snapshot(expected),
            acted(old(files).events(), final(files).events()),
        ),
        r matches Ok(s) ==> acted(
            old(files).events(),
            final(files).events(),
        )[2]->Create_reply == Ok::<SnapshotModel, ErrorModel>(s@),
        r matches Err(e) ==> write_failed(
            p@,
            reference_snapshot(expected),
            acted(old(files).events(), final(files).events()),
            e@,
        ),
        owned_replay::agrees(final(files).events(), old(files).events()),
        forall|w: Seq<OwnedEvent>|
            owned_replay::agrees(w, final(files).events()) ==> #[trigger] owned_replay::write_at(
                w,
                old(files).events().len() as int,
                p@,
                bytes@,
                mode,
                reference_snapshot(expected),
                depth as nat,
            ) == Some((created_outcome(r), final(files).events().len() as int)),
    decreases depth, 1int,
{
    broadcast use owned_replay::written_is;

    let ghost s = files.events();
    let ready = files.make_directory(p);
    let ghost a = files.events();
    assert(acted(s, a) =~= seq![a.last()]);
    if let Err(error) = ready {
        assert(write_stopped(p@, reference_snapshot(expected), acted(s, a), 1, error@));
        return Err(error);
    }
    let nonce = files.nonce();
    let ghost b = files.events();
    assert(acted(s, b) =~= seq![a.last(), b.last()]);
    let t = match temporary_path(p, "replace", &nonce) {
        Ok(t) => t,
        Err(error) => {
            assert(write_stopped(p@, reference_snapshot(expected), acted(s, b), 2, error@));
            return Err(error);
        },
    };
    assert(temporary_place(p@, "replace"@, nonce@) == Ok::<Seq<u8>, ErrorModel>(t@));
    let mut progress = Progress { prepared: None, committed: false };
    let result = replace_steps(files, &t, p, bytes, mode, expected, &mut progress);
    let ghost c = files.events();
    proof {
        removals_add_up(p@, s, b, c);
        assert(acted(s, c).skip(2) =~= acted(b, c));
        assert(acted(s, c)[0] == a.last() && acted(s, c)[1] == b.last());
        if result is Ok {
            assert(acted(s, c)[2] == acted(b, c)[0]);
        }
    }
    let error = match result {
        Ok(installed) => return Ok(installed),
        Err(error) => error,
    };
    let ghost n = c.len() - s.len();
    assert(acted(s, c).subrange(2, n) =~= acted(b, c));
    let prepared = match progress.prepared {
        Some(prepared) => prepared,
        None => {
            assert(write_stopped(p@, reference_snapshot(expected), acted(s, c), n, error@));
            return Err(error);
        },
    };
    let rollback = if progress.committed {
        rolled_back(files, p, expected, Some(&prepared), depth)
    } else {
        assert(acted(c, c) =~= Seq::empty());
        Ok(())
    };
    let ghost d = files.events();
    proof {
        removals_add_up(p@, s, c, d);
    }
    remove_if_snapshot(files, &t, &prepared);
    proof {
        let end = files.events();
        cleaning_removes_temporaries(p@, t@, acted(d, end));
        removals_add_up(p@, s, d, end);
        longer_is_not_well(p@, bytes@, mode, reference_snapshot(expected), s, c, end);
        assert(acted(s, end).subrange(2, n) =~= acted(b, c));
        assert(acted(s, end)[0] == a.last() && acted(s, end)[1] == b.last());
        assert(write_stopped(p@, reference_snapshot(expected), acted(s, end), n, error@));
    }
    match rollback {
        Err(second) => Err(report_rollback(&error, p, &second)),
        Ok(()) => Err(error),
    }
}

proof fn longer_is_not_well(
    p: Seq<u8>,
    bytes: Seq<u8>,
    mode: u32,
    expected: Option<SnapshotModel>,
    s: Seq<OwnedEvent>,
    c: Seq<OwnedEvent>,
    end: Seq<OwnedEvent>,
)
    requires
        s.is_prefix_of(c),
        c.is_prefix_of(end),
        c.len() < end.len(),
        end[end.len() - 1] is Look || end[end.len() - 1] is Remove,
    ensures
        !written_well(p, bytes, mode, expected, acted(s, end)),
{
    let seen = acted(s, end);
    if written_well(p, bytes, mode, expected, seen) {
        assert(seen.skip(2).last() == seen.last());
        assert(seen.last() == end[end.len() - 1]);
    }
}

/// A removal that succeeded: what the empty file displaced was exactly what was
/// expected, and what was moved away was that empty file.
pub open spec fn removed_well(p: Seq<u8>, expected: SnapshotModel, seen: Seq<OwnedEvent>) -> bool {
    &&& seen.len() == 10
    &&& seen[0] matches OwnedEvent::Nonce(first)
    &&& seen[1] matches OwnedEvent::Nonce(second)
    &&& temporary_place(p, "remove"@, first) matches Ok(tomb)
    &&& temporary_place(p, "removed"@, second) matches Ok(grave)
    &&& seen[2] matches OwnedEvent::CreateEmpty { path, reply }
    &&& path == tomb
    &&& reply matches Ok(empty)
    &&& exchanged_ok(tomb, p, seen[3])
    &&& shows(tomb, Some(expected), seen[4])
    &&& moved_ok(p, grave, seen[5])
    &&& shows(grave, Some(empty), seen[6])
    &&& removed_ok(grave, seen[7])
    &&& removed_ok(tomb, seen[8])
    &&& synced_ok(p, seen[9])
}

/// A step of a removal that did not go as it should.
pub open spec fn broken_removal(
    tomb: Seq<u8>,
    grave: Seq<u8>,
    empty: SnapshotModel,
    p: Seq<u8>,
    expected: SnapshotModel,
    seen: Seq<OwnedEvent>,
) -> bool {
    ||| seen.len() >= 1 && !exchanged_ok(tomb, p, seen[0])
    ||| seen.len() >= 2 && !shows(tomb, Some(expected), seen[1])
    ||| seen.len() >= 3 && !moved_ok(p, grave, seen[2])
    ||| seen.len() >= 4 && !shows(grave, Some(empty), seen[3])
    ||| seen.len() >= 5 && !removed_ok(grave, seen[4])
    ||| seen.len() >= 6 && !removed_ok(tomb, seen[5])
    ||| seen.len() >= 7 && !synced_ok(p, seen[6])
}

/// Why a removal failed once its empty file was there.
pub open spec fn removal_failed(
    empty: SnapshotModel,
    p: Seq<u8>,
    expected: SnapshotModel,
    seen: Seq<OwnedEvent>,
    e: ErrorModel,
) -> bool {
    let stranger = about(p, " changed concurrently; refusing to remove it"@);
    &&& seen.len() >= 1
    &&& seen[0] matches OwnedEvent::Exchange { reply: swapped, .. }
    &&& match swapped {
        Err(x) => e == x,
        Ok(_) => {
            &&& seen.len() >= 2
            &&& seen[1] matches OwnedEvent::Look { reply: found, .. }
            &&& match found {
                Err(x) => e == x,
                Ok(target) => if target != Some(expected) {
                    e == stranger
                } else {
                    &&& seen.len() >= 3
                    &&& seen[2] matches OwnedEvent::Move { reply: moved, .. }
                    &&& match moved {
                        Err(x) => e == x,
                        Ok(_) => {
                            &&& seen.len() >= 4
                            &&& seen[3] matches OwnedEvent::Look { reply: away, .. }
                            &&& match away {
                                Err(x) => e == x,
                                Ok(there) => if there != Some(empty) {
                                    e == stranger
                                } else {
                                    ||| failed_step(seen, 4, e)
                                    ||| failed_step(seen, 5, e)
                                    ||| failed_step(seen, 6, e)
                                },
                            }
                        },
                    }
                },
            }
        },
    }
}

/// The first `n` operations of a removal ended in an error.
pub open spec fn removal_stopped(
    p: Seq<u8>,
    expected: SnapshotModel,
    seen: Seq<OwnedEvent>,
    n: int,
    first: ErrorModel,
) -> bool {
    &&& 2 <= n <= seen.len()
    &&& seen[0] matches OwnedEvent::Nonce(one)
    &&& seen[1] matches OwnedEvent::Nonce(two)
    &&& match temporary_place(p, "remove"@, one) {
        Err(x) => first == x,
        Ok(_) => match temporary_place(p, "removed"@, two) {
            Err(x) => first == x,
            Ok(_) => {
                &&& n >= 3
                &&& seen[2] matches OwnedEvent::CreateEmpty { reply, .. }
                &&& match reply {
                    Err(x) => first == x,
                    Ok(empty) => removal_failed(empty, p, expected, seen.subrange(3, n), first),
                }
            },
        },
    }
}

/// Why a removal from the start failed.
pub open spec fn remove_failed(
    p: Seq<u8>,
    expected: SnapshotModel,
    seen: Seq<OwnedEvent>,
    e: ErrorModel,
) -> bool {
    exists|n: int, first: ErrorModel| #[trigger]
        removal_stopped(p, expected, seen, n, first) && reports(first, p, e)
}

/// How far a removal came: nothing is in place, the empty file is, or nothing is
/// there any more.
enum RemovalProgress {
    Untouched,
    Displaced,
    Emptied,
}

/// What has to be taken back where a removal came that far.
spec fn in_place(progress: RemovalProgress, empty: SnapshotModel) -> Option<
    Option<SnapshotModel>,
> {
    match progress {
        RemovalProgress::Untouched => None,
        RemovalProgress::Displaced => Some(Some(empty)),
        RemovalProgress::Emptied => Some(None),
    }
}

fn removal_steps<F: OwnedFiles>(
    files: &mut LoggedOwned<F>,
    tomb: &UnixPath,
    grave: &UnixPath,
    empty: &FileSnapshot,
    p: &UnixPath,
    expected: &FileSnapshot,
    progress: &mut RemovalProgress,
) -> (r: Result<(), MuxError>)
    requires
        is_temporary(p@, tomb@),
        is_temporary(p@, grave@),
        *old(progress) is Untouched,
    ensures
        owned_replay::agrees(final(files).events(), old(files).events()),
        forall|w: Seq<OwnedEvent>|
            owned_replay::agrees(w, final(files).events()) ==> #[trigger] owned_replay::removal_at(
                w,
                old(files).events().len() as int,
                tomb@,
                grave@,
                empty@,
                p@,
                expected@,
            ) == Some((Removal {
                result: error::outcome(r),
                current: in_place(*final(progress), empty@),
            }, final(files).events().len() as int)),
        old(files).events().is_prefix_of(final(files).events()),
        removes_temporaries(p@, acted(old(files).events(), final(files).events())),
        ({
            let seen = acted(old(files).events(), final(files).events());
            r is Ok <==> {
                &&& seen.len() == 7
                &&& exchanged_ok(tomb@, p@, seen[0])
                &&& shows(tomb@, Some(expected@), seen[1])
                &&& moved_ok(p@, grave@, seen[2])
                &&& shows(grave@, Some(empty@), seen[3])
                &&& removed_ok(grave@, seen[4])
                &&& removed_ok(tomb@, seen[5])
                &&& synced_ok(p@, seen[6])
            }
        }),
        r matches Err(e) ==> removal_failed(
            empty@,
            p@,
            expected@,
            acted(old(files).events(), final(files).events()),
            e@,
        ),
        r is Err ==> broken_removal(
            tomb@,
            grave@,
            empty@,
            p@,
            expected@,
            acted(old(files).events(), final(files).events()),
        ),
{
    let ghost s = files.events();
    let swapped = files.exchange(tomb, p);
    let ghost a = files.events();
    assert(acted(s, a) =~= seq![a.last()]);
    if let Err(error) = swapped {
        return Err(error);
    }
    let looked_at = files.snapshot(tomb);
    let ghost b = files.events();
    assert(acted(s, b) =~= seq![a.last(), b.last()]);
    let displaced = match looked_at {
        Ok(displaced) => displaced,
        Err(error) => return Err(error),
    };
    if !same_snapshot(&displaced, Some(expected)) {
        if let Some(target) = displaced {
            let rolled = rollback_exchange(files, tomb, p, empty, &target);
            let ghost c = files.events();
            proof {
                let back = acted(b, c);
                rollback_only_exchanges(
                    tomb@,
                    p@,
                    empty@,
                    target@,
                    back,
                    error::outcome(rolled),
                );
                exchanges_remove_nothing(p@, back);
                removals_add_up(p@, s, b, c);
                assert(acted(s, c)[1] == b.last());
            }
            if rolled.is_ok() {
                remove_if_snapshot(files, tomb, empty);
                proof {
                    let end = files.events();
                    cleaning_removes_temporaries(p@, tomb@, acted(c, end));
                    removals_add_up(p@, s, c, end);
                    assert(acted(s, end)[1] == b.last());
                }
            }
        }
        return Err(refusal(p, " changed concurrently; refusing to remove it"));
    }
    *progress = RemovalProgress::Displaced;
    let moved = files.move_new(p, grave);
    let ghost c = files.events();
    assert(acted(s, c) =~= seq![a.last(), b.last(), c.last()]);
    if let Err(error) = moved {
        return Err(error);
    }
    *progress = RemovalProgress::Emptied;
    let buried = files.snapshot(grave);
    let ghost d = files.events();
    assert(acted(s, d) =~= seq![a.last(), b.last(), c.last(), d.last()]);
    let away = match buried {
        Ok(away) => away,
        Err(error) => return Err(error),
    };
    if !same_snapshot(&away, Some(empty)) {
        let _ = files.move_new(grave, p);
        let ghost f = files.events();
        assert(acted(s, f) =~= seq![a.last(), b.last(), c.last(), d.last(), f.last()]);
        return Err(refusal(p, " changed concurrently; refusing to remove it"));
    }
    let first = files.remove(grave);
    let ghost f = files.events();
    assert(acted(s, f) =~= seq![a.last(), b.last(), c.last(), d.last(), f.last()]);
    if let Err(error) = first {
        return Err(error);
    }
    let second = files.remove(tomb);
    let ghost g = files.events();
    assert(acted(s, g) =~= seq![a.last(), b.last(), c.last(), d.last(), f.last(), g.last()]);
    if let Err(error) = second {
        return Err(error);
    }
    let synced = files.sync_directory(p);
    let ghost h = files.events();
    assert(acted(s, h) =~= seq![
        a.last(),
        b.last(),
        c.last(),
        d.last(),
        f.last(),
        g.last(),
        h.last(),
    ]);
    synced
}

/// Removes what a failed removal leaves.
fn clear_removal<F: OwnedFiles>(
    files: &mut LoggedOwned<F>,
    p: &UnixPath,
    tomb: &UnixPath,
    grave: &UnixPath,
    empty: &FileSnapshot,
    wanted: &FileSnapshot,
    Ghost(e): Ghost<ErrorModel>,
)
    requires
        is_temporary(p@, tomb@),
        is_temporary(p@, grave@),
    ensures
        old(files).events().is_prefix_of(final(files).events()),
        removes_temporaries(p@, acted(old(files).events(), final(files).events())),
        owned_replay::agrees(final(files).events(), old(files).events()),
        forall|w: Seq<OwnedEvent>|
            owned_replay::agrees(w, final(files).events()) ==> #[trigger] owned_replay::cleared_at(
                w,
                old(files).events().len() as int,
                tomb@,
                grave@,
                empty@,
                wanted@,
                e,
            ) == Some((Err::<(), ErrorModel>(e), final(files).events().len() as int)),
{
    let ghost f = files.events();
    remove_if_snapshot(files, grave, empty);
    let ghost g = files.events();
    remove_if_snapshot(files, tomb, wanted);
    let ghost h = files.events();
    remove_if_snapshot(files, tomb, empty);
    proof {
        let end = files.events();
        cleaning_removes_temporaries(p@, grave@, acted(f, g));
        cleaning_removes_temporaries(p@, tomb@, acted(g, h));
        cleaning_removes_temporaries(p@, tomb@, acted(h, end));
        removals_add_up(p@, f, g, h);
        removals_add_up(p@, f, h, end);
    }
}

/// Puts back what a removal has displaced.
fn undo_removal<F: OwnedFiles>(
    files: &mut LoggedOwned<F>,
    p: &UnixPath,
    wanted: &FileSnapshot,
    empty: &FileSnapshot,
    progress: RemovalProgress,
    depth: usize,
) -> (r: Result<(), MuxError>)
    ensures
        old(files).events().is_prefix_of(final(files).events()),
        removes_temporaries(p@, acted(old(files).events(), final(files).events())),
        owned_replay::agrees(final(files).events(), old(files).events()),
        in_place(progress, empty@) is None ==> r is Ok && final(files).events() == old(
            files,
        ).events(),
        in_place(progress, empty@) matches Some(current) ==> forall|w: Seq<OwnedEvent>|
            owned_replay::agrees(w, final(files).events()) ==> #[trigger] owned_replay::rolled_at(
                w,
                old(files).events().len() as int,
                p@,
                Some(wanted@),
                current,
                depth as nat,
            ) == Some((error::outcome(r), final(files).events().len() as int)),
    decreases depth, 1int,
{
    match progress {
        RemovalProgress::Untouched => {
            assert(acted(files.events(), files.events()) =~= Seq::empty());
            Ok(())
        },
        RemovalProgress::Displaced => rolled_back(files, p, Some(wanted), Some(empty), depth),
        RemovalProgress::Emptied => rolled_back(files, p, Some(wanted), None, depth),
    }
}

/// Removes a file while it is still what is expected.
#[verifier::spinoff_prover]
#[verifier::rlimit(100)]
fn remove_expected<F: OwnedFiles>(
    files: &mut LoggedOwned<F>,
    p: &UnixPath,
    wanted: &FileSnapshot,
    depth: usize,
) -> (r: Result<(), MuxError>)
    ensures
        old(files).events().is_prefix_of(final(files).events()),
        removes_temporaries(p@, acted(old(files).events(), final(files).events())),
        r is Ok <==> removed_well(
            p@,
            wanted@,
            acted(old(files).events(), final(files).events()),
        ),
        r matches Err(e) ==> remove_failed(
            p@,
            wanted@,
            acted(old(files).events(), final(files).events()),
            e@,
        ),
        owned_replay::agrees(final(files).events(), old(files).events()),
        forall|w: Seq<OwnedEvent>|
            owned_replay::agrees(w, final(files).events()) ==> #[trigger] owned_replay::remove_at(
                w,
                old(files).events().len() as int,
                p@,
                Some(wanted@),
                depth as nat,
            ) == Some((error::outcome(r), final(files).events().len() as int)),
    decreases depth, 2int,
{
    broadcast use owned_replay::removed_is;

    let ghost s = files.events();
    let first = files.nonce();
    let ghost a = files.events();
    let second = files.nonce();
    let ghost b = files.events();
    assert(acted(s, b) =~= seq![a.last(), b.last()]);
    let tomb = match temporary_path(p, "remove", &first) {
        Ok(tomb) => tomb,
        Err(error) => {
            assert(removal_stopped(p@, wanted@, acted(s, b), 2, error@));
            return Err(error);
        },
    };
    let grave = match temporary_path(p, "removed", &second) {
        Ok(grave) => grave,
        Err(error) => {
            assert(removal_stopped(p@, wanted@, acted(s, b), 2, error@));
            return Err(error);
        },
    };
    assert(temporary_place(p@, "remove"@, first@) == Ok::<Seq<u8>, ErrorModel>(tomb@));
    assert(temporary_place(p@, "removed"@, second@) == Ok::<Seq<u8>, ErrorModel>(grave@));
    let made = files.create_empty(&tomb);
    let ghost c = files.events();
    assert(acted(s, c) =~= seq![a.last(), b.last(), c.last()]);
    let empty = match made {
        Ok(empty) => empty,
        Err(error) => {
            assert(removal_stopped(p@, wanted@, acted(s, c), 3, error@));
            return Err(error);
        },
    };
    let mut progress = RemovalProgress::Untouched;
    let result = removal_steps(files, &tomb, &grave, &empty, p, wanted, &mut progress);
    let ghost d = files.events();
    proof {
        removals_add_up(p@, s, c, d);
        let seen = acted(s, d);
        let steps = acted(c, d);
        assert(seen[0] == a.last() && seen[1] == b.last() && seen[2] == c.last());
        assert forall|i: int| 0 <= i < steps.len() implies seen[i + 3] == #[trigger] steps[i] by {}
        assert(seen.len() == steps.len() + 3);
        if steps.len() == 7 {
            assert(seen[3] == steps[0] && seen[4] == steps[1] && seen[5] == steps[2] && seen[6]
                == steps[3] && seen[7] == steps[4] && seen[8] == steps[5] && seen[9] == steps[6]);
        }
    }
    let error = match result {
        Ok(()) => return Ok(()),
        Err(error) => error,
    };
    let rollback = undo_removal(files, p, wanted, &empty, progress, depth);
    let ghost f = files.events();
    proof {
        removals_add_up(p@, s, d, f);
        removal_did_not_end(tomb@, grave@, empty@, p@, wanted@, s, c, d, f);
        removal_stops(empty@, p@, wanted@, s, c, d, f, error@);
    }
    if let Err(second) = rollback {
        return Err(report_rollback(&error, p, &second));
    }
    clear_removal(files, p, &tomb, &grave, &empty, wanted, Ghost(error@));
    proof {
        let end = files.events();
        removals_add_up(p@, s, f, end);
        removal_did_not_end(tomb@, grave@, empty@, p@, wanted@, s, c, d, end);
        removal_stops(empty@, p@, wanted@, s, c, d, end, error@);
    }
    Err(error)
}

/// Removes a file while it is still what is expected; where nothing is expected,
/// nothing may be there.
fn remove_within<F: OwnedFiles>(
    files: &mut LoggedOwned<F>,
    p: &UnixPath,
    expected: Option<&FileSnapshot>,
    depth: usize,
) -> (r: Result<(), MuxError>)
    ensures
        old(files).events().is_prefix_of(final(files).events()),
        removes_temporaries(p@, acted(old(files).events(), final(files).events())),
        match expected {
            None => {
                let seen = acted(old(files).events(), final(files).events());
                &&& seen.len() == 1
                &&& seen[0] matches OwnedEvent::Look { path, reply }
                &&& path == p@
                &&& error::outcome(r) == match reply {
                    Err(e) => Err(e),
                    Ok(None) => Ok(()),
                    Ok(Some(_)) => Err(
                        about(p@, " appeared concurrently; refusing to remove it"@),
                    ),
                }
            },
            Some(wanted) => {
                let seen = acted(old(files).events(), final(files).events());
                &&& r is Ok <==> removed_well(p@, wanted@, seen)
                &&& r matches Err(e) ==> remove_failed(p@, wanted@, seen, e@)
            },
        },
        owned_replay::agrees(final(files).events(), old(files).events()),
        forall|w: Seq<OwnedEvent>|
            owned_replay::agrees(w, final(files).events()) ==> #[trigger] owned_replay::remove_at(
                w,
                old(files).events().len() as int,
                p@,
                reference_snapshot(expected),
                depth as nat,
            ) == Some((error::outcome(r), final(files).events().len() as int)),
    decreases depth, 3int,
{
    broadcast use owned_replay::removed_is;

    let ghost s = files.events();
    match expected {
        None => {
            let found = files.snapshot(p);
            assert(acted(s, files.events()) =~= seq![files.events().last()]);
            match found {
                Err(error) => Err(error),
                Ok(None) => Ok(()),
                Ok(Some(_)) => Err(refusal(p, " appeared concurrently; refusing to remove it")),
            }
        },
        Some(wanted) => remove_expected(files, p, wanted, depth),
    }
}

proof fn removal_did_not_end(
    tomb: Seq<u8>,
    grave: Seq<u8>,
    empty: SnapshotModel,
    p: Seq<u8>,
    expected: SnapshotModel,
    s: Seq<OwnedEvent>,
    c: Seq<OwnedEvent>,
    d: Seq<OwnedEvent>,
    end: Seq<OwnedEvent>,
)
    requires
        s.is_prefix_of(c),
        c.is_prefix_of(d),
        d.is_prefix_of(end),
        c.len() == s.len() + 3,
        c[s.len() as int] matches OwnedEvent::Nonce(first) && temporary_place(
            p,
            "remove"@,
            first,
        ) == Ok::<Seq<u8>, ErrorModel>(tomb),
        c[s.len() as int + 1] matches OwnedEvent::Nonce(second) && temporary_place(
            p,
            "removed"@,
            second,
        ) == Ok::<Seq<u8>, ErrorModel>(grave),
        c[s.len() as int + 2] matches OwnedEvent::CreateEmpty { reply, .. } && reply == Ok::<
            SnapshotModel,
            ErrorModel,
        >(empty),
        broken_removal(tomb, grave, empty, p, expected, acted(c, d)),
    ensures
        !removed_well(p, expected, acted(s, end)),
{
    let seen = acted(s, end);
    let steps = acted(c, d);
    assert forall|i: int| 0 <= i < steps.len() implies seen[i + 3] == #[trigger] steps[i] by {
        assert(seen[i + 3] == end[s.len() + 3 + i]);
    }
    assert(seen[0] == c[s.len() as int]);
    assert(seen[1] == c[s.len() as int + 1]);
    assert(seen[2] == c[s.len() as int + 2]);
    assert forall|i: int| 0 <= i < steps.len() && i < 7 implies seen[i + 3]
        == #[trigger] steps[i] by {}
}

proof fn removal_stops(
    empty: SnapshotModel,
    p: Seq<u8>,
    expected: SnapshotModel,
    s: Seq<OwnedEvent>,
    c: Seq<OwnedEvent>,
    d: Seq<OwnedEvent>,
    end: Seq<OwnedEvent>,
    e: ErrorModel,
)
    requires
        s.is_prefix_of(c),
        c.is_prefix_of(d),
        d.is_prefix_of(end),
        c.len() == s.len() + 3,
        c[s.len() as int] matches OwnedEvent::Nonce(first) && temporary_place(
            p,
            "remove"@,
            first,
        ) is Ok,
        c[s.len() as int + 1] matches OwnedEvent::Nonce(second) && temporary_place(
            p,
            "removed"@,
            second,
        ) is Ok,
        c[s.len() as int + 2] matches OwnedEvent::CreateEmpty { reply, .. } && reply == Ok::<
            SnapshotModel,
            ErrorModel,
        >(empty),
        removal_failed(empty, p, expected, acted(c, d), e),
    ensures
        removal_stopped(p, expected, acted(s, end), d.len() - s.len(), e),
{
    let seen = acted(s, end);
    assert(seen.subrange(3, d.len() - s.len()) =~= acted(c, d));
    assert(seen[0] == c[s.len() as int]);
    assert(seen[1] == c[s.len() as int + 1]);
    assert(seen[2] == c[s.len() as int + 2]);
}

/// A file that got its earlier contents back, or that is gone as it was before.
pub open spec fn restored_well(
    p: Seq<u8>,
    original: Option<SnapshotModel>,
    current: Option<SnapshotModel>,
    seen: Seq<OwnedEvent>,
) -> bool {
    match original {
        Some(before) => written_well(p, before.bytes, before.mode, current, seen),
        None => match current {
            Some(now) => removed_well(p, now, seen),
            None => seen.len() == 1 && shows(p, None, seen[0]),
        },
    }
}

/// Why a file did not get its earlier contents back.
pub open spec fn restore_failed(
    p: Seq<u8>,
    original: Option<SnapshotModel>,
    current: Option<SnapshotModel>,
    seen: Seq<OwnedEvent>,
    e: ErrorModel,
) -> bool {
    match original {
        Some(before) => write_failed(p, current, seen, e),
        None => match current {
            Some(now) => remove_failed(p, now, seen, e),
            None => {
                &&& seen.len() == 1
                &&& seen[0] matches OwnedEvent::Look { reply, .. }
                &&& match reply {
                    Err(x) => e == x,
                    Ok(found) => found is Some && e == about(
                        p,
                        " appeared concurrently; refusing to remove it"@,
                    ),
                }
            },
        },
    }
}

/// Gives a file its earlier contents, while it is what it became; a file that was
/// not there before is removed.
fn restore_within<F: OwnedFiles>(
    files: &mut LoggedOwned<F>,
    p: &UnixPath,
    original: Option<&FileSnapshot>,
    current: Option<&FileSnapshot>,
    depth: usize,
) -> (r: Result<(), MuxError>)
    ensures
        old(files).events().is_prefix_of(final(files).events()),
        removes_temporaries(p@, acted(old(files).events(), final(files).events())),
        r is Ok <==> restored_well(
            p@,
            reference_snapshot(original),
            reference_snapshot(current),
            acted(old(files).events(), final(files).events()),
        ),
        r matches Err(e) ==> restore_failed(
            p@,
            reference_snapshot(original),
            reference_snapshot(current),
            acted(old(files).events(), final(files).events()),
            e@,
        ),
        owned_replay::agrees(final(files).events(), old(files).events()),
        forall|w: Seq<OwnedEvent>|
            owned_replay::agrees(w, final(files).events()) ==> #[trigger] owned_replay::restore_at(
                w,
                old(files).events().len() as int,
                p@,
                reference_snapshot(original),
                reference_snapshot(current),
                depth as nat,
            ) == Some((error::outcome(r), final(files).events().len() as int)),
    decreases depth, 4int,
{
    broadcast use owned_replay::restored_is;

    match original {
        Some(before) => match write_within(files, p, &before.bytes, before.mode, current, depth) {
            Ok(_) => Ok(()),
            Err(error) => Err(error),
        },
        None => remove_within(files, p, current, depth),
    }
}

/// Replaces a file while it is still what is expected, or creates it where
/// nothing is expected; where the replacement is in place but not durable, the
/// expected file is put back.
pub fn write_owned<F: OwnedFiles>(
    files: &mut LoggedOwned<F>,
    p: &UnixPath,
    bytes: &Vec<u8>,
    mode: u32,
    expected: Option<&FileSnapshot>,
) -> (r: Result<FileSnapshot, MuxError>)
    ensures
        old(files).events().is_prefix_of(final(files).events()),
        owned_replay::agrees(final(files).events(), old(files).events()),
        forall|w: Seq<OwnedEvent>|
            owned_replay::agrees(w, final(files).events()) ==> #[trigger] owned_replay::write_at(
                w,
                old(files).events().len() as int,
                p@,
                bytes@,
                mode,
                reference_snapshot(expected),
                MAX_ROLLBACK_DEPTH as nat,
            ) == Some((created_outcome(r), final(files).events().len() as int)),
        ({
            let seen = acted(old(files).events(), final(files).events());
            let wanted = reference_snapshot(expected);
            &&& removes_temporaries(p@, seen)
            &&& r is Ok <==> written_well(p@, bytes@, mode, wanted, seen)
            &&& r matches Ok(s) ==> seen[2]->Create_reply == Ok::<SnapshotModel, ErrorModel>(s@)
            &&& r matches Err(e) ==> write_failed(p@, wanted, seen, e@)
        }),
{
    write_within(files, p, bytes, mode, expected, MAX_ROLLBACK_DEPTH)
}

/// Removes a file while it is still what is expected; where nothing is expected,
/// nothing may be there.
pub fn remove_owned<F: OwnedFiles>(
    files: &mut LoggedOwned<F>,
    p: &UnixPath,
    expected: Option<&FileSnapshot>,
) -> (r: Result<(), MuxError>)
    ensures
        old(files).events().is_prefix_of(final(files).events()),
        owned_replay::agrees(final(files).events(), old(files).events()),
        forall|w: Seq<OwnedEvent>|
            owned_replay::agrees(w, final(files).events()) ==> #[trigger] owned_replay::remove_at(
                w,
                old(files).events().len() as int,
                p@,
                reference_snapshot(expected),
                MAX_ROLLBACK_DEPTH as nat,
            ) == Some((error::outcome(r), final(files).events().len() as int)),
        ({
            let seen = acted(old(files).events(), final(files).events());
            &&& removes_temporaries(p@, seen)
            &&& match expected {
                None => {
                    &&& seen.len() == 1
                    &&& seen[0] matches OwnedEvent::Look { path, reply }
                    &&& path == p@
                    &&& error::outcome(r) == match reply {
                        Err(e) => Err(e),
                        Ok(None) => Ok(()),
                        Ok(Some(_)) => Err(
                            about(p@, " appeared concurrently; refusing to remove it"@),
                        ),
                    }
                },
                Some(wanted) => {
                    &&& r is Ok <==> removed_well(p@, wanted@, seen)
                    &&& r matches Err(e) ==> remove_failed(p@, wanted@, seen, e@)
                },
            }
        }),
{
    remove_within(files, p, expected, MAX_ROLLBACK_DEPTH)
}

/// Gives a file its earlier contents, while it is what it became; a file that was
/// not there before is removed.
pub fn restore<F: OwnedFiles>(
    files: &mut LoggedOwned<F>,
    p: &UnixPath,
    original: Option<&FileSnapshot>,
    current: Option<&FileSnapshot>,
) -> (r: Result<(), MuxError>)
    ensures
        old(files).events().is_prefix_of(final(files).events()),
        owned_replay::agrees(final(files).events(), old(files).events()),
        forall|w: Seq<OwnedEvent>|
            owned_replay::agrees(w, final(files).events()) ==> #[trigger] owned_replay::restore_at(
                w,
                old(files).events().len() as int,
                p@,
                reference_snapshot(original),
                reference_snapshot(current),
                MAX_ROLLBACK_DEPTH as nat,
            ) == Some((error::outcome(r), final(files).events().len() as int)),
        ({
            let seen = acted(old(files).events(), final(files).events());
            &&& removes_temporaries(p@, seen)
            &&& r is Ok <==> restored_well(
                p@,
                reference_snapshot(original),
                reference_snapshot(current),
                seen,
            )
            &&& r matches Err(e) ==> restore_failed(
                p@,
                reference_snapshot(original),
                reference_snapshot(current),
                seen,
                e@,
            )
        }),
{
    restore_within(files, p, original, current, MAX_ROLLBACK_DEPTH)
}

} // verus!
