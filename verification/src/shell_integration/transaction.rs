//! Edits of several startup files that are applied together or not at all.

use vstd::prelude::*;
use crate::domain;
use crate::files::{FileExchange, FileReply, FileRequest, HostFiles, LoggedFiles};
use crate::install::failure;
use crate::install::failure::{
    unsafe_path, validate_regular_writable, value_failure, FailureModel, InstallError, PathFacts,
};
use crate::path;
use crate::path::UnixPath;
use crate::scan;
use crate::shell_integration::block;
use crate::shell_integration::block::{change_contents, Operation, ShellKind};
use crate::text;
use crate::text::{bytes_equal, copy_bytes};

verus! {

/// A startup file to be managed.
#[derive(Debug)]
pub struct ShellTarget {
    pub kind: ShellKind,
    pub path: UnixPath,
}

/// What the file system said of the directory of a missing file.
#[derive(Debug)]
pub enum ParentFacts {
    /// The path names no directory.
    Nameless,
    /// Its metadata could not be read, and why.
    Unavailable(String),
    /// A symbolic link, or no directory.
    NotADirectory,
    Directory { mode: u32 },
}

/// What the file system said of a startup file.
#[derive(Debug)]
pub enum TargetProbe {
    /// Something is there: what it is, and its bytes where it was read.
    Present { facts: PathFacts, contents: Result<Vec<u8>, String> },
    Missing { parent: ParentFacts },
    /// Not even that could be told, and why.
    Unavailable(String),
}

/// Why a missing startup file is not created.
pub open spec fn parent_problem(path: Seq<u8>, parent: ParentFacts) -> Option<FailureModel> {
    match parent {
        ParentFacts::Nameless => Some(
            FailureModel::UnsafePath { path, reason: "path has no parent directory"@ },
        ),
        ParentFacts::Unavailable(source) => Some(
            FailureModel::UnsafePath {
                path,
                reason: "parent directory is unavailable: "@ + source@,
            },
        ),
        ParentFacts::NotADirectory => Some(
            FailureModel::UnsafePath { path, reason: "parent must be a real directory"@ },
        ),
        ParentFacts::Directory { mode } => if mode & 0x80 == 0 {
            Some(FailureModel::UnsafePath { path, reason: "parent owner write bit is not set"@ })
        } else {
            None
        },
    }
}

/// Accepts the directory of a missing startup file.
pub fn validate_missing_target(path: &UnixPath, parent: &ParentFacts) -> (r: Result<
    (),
    InstallError,
>)
    ensures
        match r {
            Ok(_) => parent_problem(path@, *parent) is None,
            Err(e) => parent_problem(path@, *parent) == Some(e@),
        },
{
    match parent {
        ParentFacts::Nameless => Err(unsafe_path(path, "path has no parent directory")),
        ParentFacts::Unavailable(source) => {
            let mut reason = "parent directory is unavailable: ".to_owned();
            reason.append(source);
            Err(unsafe_path(path, &reason))
        },
        ParentFacts::NotADirectory => Err(unsafe_path(path, "parent must be a real directory")),
        ParentFacts::Directory { mode } => if *mode & 0x80 == 0 {
            Err(unsafe_path(path, "parent owner write bit is not set"))
        } else {
            Ok(())
        },
    }
}

/// The permissions of a startup file that is created.
pub const NEW_FILE_MODE: u32 = 0x1a4;

/// The bytes, the permissions and the existence of a startup file, or why it is
/// not touched.
pub open spec fn target_state(path: Seq<u8>, probe: TargetProbe) -> Result<
    (Seq<u8>, u32, bool),
    FailureModel,
> {
    if !path::is_absolute(path) {
        Err(FailureModel::UnsafePath { path, reason: "path must be absolute"@ })
    } else {
        match probe {
            TargetProbe::Present { facts, contents } => match failure::path_problem(path, facts) {
                Some(problem) => Err(problem),
                None => match contents {
                    Ok(bytes) => Ok((bytes@, facts->Regular_mode, true)),
                    Err(source) => Err(FailureModel::Filesystem { path, source: source@ }),
                },
            },
            TargetProbe::Missing { parent } => match parent_problem(path, parent) {
                Some(problem) => Err(problem),
                None => Ok((Seq::empty(), NEW_FILE_MODE, false)),
            },
            TargetProbe::Unavailable(source) => Err(
                FailureModel::Filesystem { path, source: source@ },
            ),
        }
    }
}

/// One prepared edit.
#[derive(Debug)]
pub struct ShellEdit {
    pub kind: ShellKind,
    pub path: UnixPath,
    pub original: Vec<u8>,
    pub replacement: Vec<u8>,
    pub mode: u32,
    pub existed: bool,
    pub backup_on_apply: bool,
    pub backup: Option<UnixPath>,
    pub applied: bool,
}

#[verifier::ext_equal]
pub struct EditModel {
    pub kind: ShellKind,
    pub path: Seq<u8>,
    pub original: Seq<u8>,
    pub replacement: Seq<u8>,
    pub mode: u32,
    pub existed: bool,
    pub backup_on_apply: bool,
    pub backup: Option<Seq<u8>>,
    pub applied: bool,
}

impl View for ShellEdit {
    type V = EditModel;

    open spec fn view(&self) -> EditModel {
        EditModel {
            kind: self.kind,
            path: self.path@,
            original: self.original@,
            replacement: self.replacement@,
            mode: self.mode,
            existed: self.existed,
            backup_on_apply: self.backup_on_apply,
            backup: domain::path_view(self.backup),
            applied: self.applied,
        }
    }
}

pub open spec fn edit_list(edits: Seq<ShellEdit>) -> Seq<EditModel> {
    Seq::new(edits.len(), |i: int| edits[i]@)
}

/// The edit of one startup file, or why there is none.
pub open spec fn prepared_edit(
    kind: ShellKind,
    path: Seq<u8>,
    probe: TargetProbe,
    operation: Operation,
) -> Result<EditModel, FailureModel> {
    match target_state(path, probe) {
        Err(problem) => Err(problem),
        Ok((original, mode, existed)) => match block::contents_problem(original, kind) {
            Some(problem) => Err(problem),
            None => {
                let contents = text::utf8_decoded(original)->0;
                Ok(
                    EditModel {
                        kind,
                        path,
                        original,
                        replacement: text::utf8(block::changed_text(contents, kind, operation)),
                        mode,
                        existed,
                        backup_on_apply: operation == Operation::Install && existed && !(
                        block::block_in(contents, kind) is At),
                        backup: None,
                        applied: false,
                    },
                )
            },
        },
    }
}

/// Two targets are the same file.
pub open spec fn repeats(targets: Seq<ShellTarget>) -> bool {
    exists|i: int, j: int|
        0 <= i < j < targets.len() && path::same_path(
            #[trigger] targets[i].path@,
            #[trigger] targets[j].path@,
        )
}

/// The edits of the first `n` targets, or why there are none: the first problem.
pub open spec fn prepared_edits(
    targets: Seq<ShellTarget>,
    probes: Seq<TargetProbe>,
    operation: Operation,
    n: nat,
) -> Result<Seq<EditModel>, FailureModel>
    decreases n,
{
    if n == 0 {
        Ok(Seq::empty())
    } else {
        match prepared_edits(targets, probes, operation, (n - 1) as nat) {
            Err(problem) => Err(problem),
            Ok(edits) => match prepared_edit(
                targets[n - 1].kind,
                targets[n - 1].path@,
                probes[n - 1],
                operation,
            ) {
                Err(problem) => Err(problem),
                Ok(edit) => Ok(edits.push(edit)),
            },
        }
    }
}

pub open spec fn prepared(
    targets: Seq<ShellTarget>,
    probes: Seq<TargetProbe>,
    operation: Operation,
) -> Result<Seq<EditModel>, FailureModel> {
    if repeats(targets) {
        Err(
            FailureModel::InvalidValue {
                field: "shell configuration paths"@,
                reason: "Bash and Zsh targets must be distinct"@,
            },
        )
    } else {
        prepared_edits(targets, probes, operation, targets.len())
    }
}

// ---------------------------------------------------------------------------
// What applying and rolling back do
// ---------------------------------------------------------------------------

/// Whether an edit changes anything: an existing file by other bytes, a missing
/// file by any bytes.
pub open spec fn changes(e: EditModel) -> bool {
    if e.existed {
        e.replacement != e.original
    } else {
        e.replacement.len() > 0
    }
}

/// What one step of a run came to.
#[verifier::ext_equal]
pub struct EditRun {
    pub edit: EditModel,
    pub failure: Option<FailureModel>,
    /// How many of the exchanges belong to it.
    pub used: nat,
    /// Whether those exchanges are the ones it makes.
    pub fits: bool,
}

/// Replacing the file of an edit, seen from the first exchange on.
pub open spec fn replace_run(e: EditModel, seen: Seq<FileExchange>, used: nat) -> EditRun {
    let request = FileRequest::Replace { path: e.path, bytes: e.replacement, mode: e.mode };
    if seen.len() <= used || seen[used as int].request != request {
        EditRun { edit: e, failure: None, used, fits: false }
    } else {
        match seen[used as int].reply {
            FileReply::Failed { error, committed } => EditRun {
                edit: EditModel { applied: committed, ..e },
                failure: Some(error),
                used: used + 1,
                fits: true,
            },
            _ => EditRun {
                edit: EditModel { applied: true, ..e },
                failure: None,
                used: used + 1,
                fits: true,
            },
        }
    }
}

/// Applying one edit: nothing where it changes nothing; else the first
/// installation into an existing file is backed up, and the file is replaced.
pub open spec fn edit_run(e: EditModel, seen: Seq<FileExchange>) -> EditRun {
    let request = FileRequest::Backup { path: e.path, bytes: e.original, mode: e.mode };
    if !changes(e) {
        EditRun { edit: e, failure: None, used: 0, fits: true }
    } else if !e.backup_on_apply {
        replace_run(e, seen, 0)
    } else if seen.len() == 0 || seen[0].request != request {
        EditRun { edit: e, failure: None, used: 0, fits: false }
    } else {
        match seen[0].reply {
            FileReply::Failed { error, committed } => EditRun {
                edit: e,
                failure: Some(error),
                used: 1,
                fits: true,
            },
            FileReply::Copied(copy) => replace_run(
                EditModel { backup: Some(copy), ..e },
                seen,
                1,
            ),
            FileReply::Done => EditRun { edit: e, failure: None, used: 1, fits: false },
        }
    }
}

/// What a run over several edits came to.
#[verifier::ext_equal]
pub struct Run {
    pub edits: Seq<EditModel>,
    pub failure: Option<FailureModel>,
    pub used: nat,
    pub fits: bool,
}

/// Applying the edits from the `k`-th on, up to the first failure.
pub open spec fn apply_run(edits: Seq<EditModel>, k: nat, seen: Seq<FileExchange>) -> Run
    decreases edits.len() - k,
{
    if k >= edits.len() {
        Run { edits, failure: None, used: 0, fits: true }
    } else {
        let one = edit_run(edits[k as int], seen);
        let now = edits.update(k as int, one.edit);
        if !one.fits || one.failure is Some {
            Run { edits: now, failure: one.failure, used: one.used, fits: one.fits }
        } else {
            let rest = apply_run(now, k + 1, seen.skip(one.used as int));
            Run { used: one.used + rest.used, ..rest }
        }
    }
}

/// The request that takes an applied edit back.
pub open spec fn restore_request(e: EditModel) -> FileRequest {
    if e.existed {
        FileRequest::Replace { path: e.path, bytes: e.original, mode: e.mode }
    } else {
        FileRequest::Remove { path: e.path }
    }
}

#[verifier::ext_equal]
pub struct RollbackRun {
    pub edits: Seq<EditModel>,
    pub failures: Seq<Seq<char>>,
    pub used: nat,
    pub fits: bool,
}

/// Taking the first `k` edits back, the last one first. A file that cannot be
/// restored is noted, and the others are still restored.
pub open spec fn rollback_run(edits: Seq<EditModel>, k: nat, seen: Seq<FileExchange>) -> RollbackRun
    decreases k,
{
    if k == 0 {
        RollbackRun { edits, failures: Seq::empty(), used: 0, fits: true }
    } else {
        let e = edits[k - 1];
        if !e.applied {
            rollback_run(edits, (k - 1) as nat, seen)
        } else if seen.len() == 0 || seen[0].request != restore_request(e) {
            RollbackRun { edits, failures: Seq::empty(), used: 0, fits: false }
        } else {
            match seen[0].reply {
                FileReply::Failed { error, committed } => {
                    let rest = rollback_run(edits, (k - 1) as nat, seen.skip(1));
                    RollbackRun {
                        failures: seq![
                            text::lossy_text(e.path) + ": "@ + failure::failure_text(error),
                        ] + rest.failures,
                        used: rest.used + 1,
                        ..rest
                    }
                },
                _ => {
                    let rest = rollback_run(
                        edits.update(k - 1, EditModel { applied: false, ..e }),
                        (k - 1) as nat,
                        seen.skip(1),
                    );
                    RollbackRun { used: rest.used + 1, ..rest }
                },
            }
        }
    }
}

/// How failures to restore are reported.
pub open spec fn rollback_failure(failures: Seq<Seq<char>>) -> Option<FailureModel> {
    if failures.len() == 0 {
        None
    } else {
        Some(
            FailureModel::InvalidValue {
                field: "shell configuration rollback"@,
                reason: scan::join_with(failures, "; "@),
            },
        )
    }
}

/// How a failed application is reported, with its rollback where that failed too.
pub open spec fn apply_failure(error: FailureModel, rollback: Option<FailureModel>) -> FailureModel {
    match rollback {
        None => error,
        Some(problem) => FailureModel::InvalidValue {
            field: "shell configuration rollback"@,
            reason: failure::failure_text(error) + "; rollback also failed: "@
                + failure::failure_text(problem),
        },
    }
}

// ---------------------------------------------------------------------------
// Laws
// ---------------------------------------------------------------------------

/// A rollback without failures leaves no edit applied, and changes nothing else
/// about the edits.
pub proof fn rolled_back_edits_are_restored(edits: Seq<EditModel>, k: nat, seen: Seq<FileExchange>)
    requires
        k <= edits.len(),
        rollback_run(edits, k, seen).fits,
        rollback_run(edits, k, seen).failures.len() == 0,
    ensures
        ({
            let run = rollback_run(edits, k, seen);
            &&& run.edits.len() == edits.len()
            &&& forall|i: int|
                0 <= i < k ==> #[trigger] run.edits[i] == (EditModel { applied: false, ..edits[i] })
            &&& forall|i: int| k <= i < edits.len() ==> #[trigger] run.edits[i] == edits[i]
        }),
    decreases k,
{
    if k > 0 {
        let e = edits[k - 1];
        if !e.applied {
            rolled_back_edits_are_restored(edits, (k - 1) as nat, seen);
        } else {
            let now = edits.update(k - 1, EditModel { applied: false, ..e });
            rolled_back_edits_are_restored(now, (k - 1) as nat, seen.skip(1));
        }
    }
}

/// An application changes nothing about an edit but its backup and whether it is
/// applied, and every edit before the first failure that changes anything is
/// applied.
pub proof fn applying_keeps_the_edits(edits: Seq<EditModel>, k: nat, seen: Seq<FileExchange>)
    requires
        k <= edits.len(),
    ensures
        ({
            let run = apply_run(edits, k, seen);
            &&& run.edits.len() == edits.len()
            &&& forall|i: int|
                0 <= i < edits.len() ==> (EditModel {
                    backup: edits[i].backup,
                    applied: edits[i].applied,
                    ..#[trigger] run.edits[i]
                }) == edits[i]
            &&& forall|i: int| 0 <= i < k ==> #[trigger] run.edits[i] == edits[i]
            &&& run.fits && run.failure is None ==> forall|i: int|
                k <= i < edits.len() ==> #[trigger] run.edits[i].applied == (edits[i].applied
                    || changes(edits[i]))
        }),
    decreases edits.len() - k,
{
    if k < edits.len() {
        let one = edit_run(edits[k as int], seen);
        let now = edits.update(k as int, one.edit);
        if one.fits && one.failure is None {
            applying_keeps_the_edits(now, k + 1, seen.skip(one.used as int));
            let run = apply_run(edits, k, seen);
            assert forall|i: int| 0 <= i < edits.len() implies (EditModel {
                backup: edits[i].backup,
                applied: edits[i].applied,
                ..#[trigger] run.edits[i]
            }) == edits[i] by {
                assert((EditModel {
                    backup: now[i].backup,
                    applied: now[i].applied,
                    ..run.edits[i]
                }) == now[i]);
            }
        }
    }
}

/// What the file of an edit holds: `None` where it is missing.
pub open spec fn file_of(e: EditModel) -> Option<Seq<u8>> {
    if e.applied {
        Some(e.replacement)
    } else if e.existed {
        Some(e.original)
    } else {
        None
    }
}

/// The files after an exchange, where a change that is reported done, or reported
/// failed but in place, was made, and no other.
pub open spec fn disk_after(disk: Map<Seq<u8>, Seq<u8>>, x: FileExchange) -> Map<
    Seq<u8>,
    Seq<u8>,
> {
    let in_place = match x.reply {
        FileReply::Failed { error, committed } => committed,
        _ => true,
    };
    match x.request {
        FileRequest::Backup { path, bytes, mode } => disk,
        FileRequest::Replace { path, bytes, mode } => if in_place {
            disk.insert(path, bytes)
        } else {
            disk
        },
        FileRequest::Remove { path } => if in_place {
            disk.remove(path)
        } else {
            disk
        },
    }
}

/// The files after several exchanges.
pub open spec fn disk_after_all(disk: Map<Seq<u8>, Seq<u8>>, seen: Seq<FileExchange>) -> Map<
    Seq<u8>,
    Seq<u8>,
>
    decreases seen.len(),
{
    if seen.len() == 0 {
        disk
    } else {
        disk_after_all(disk_after(disk, seen[0]), seen.skip(1))
    }
}

/// The files hold what the edits say.
pub open spec fn disk_agrees(disk: Map<Seq<u8>, Seq<u8>>, edits: Seq<EditModel>) -> bool {
    forall|i: int|
        0 <= i < edits.len() ==> match file_of(#[trigger] edits[i]) {
            Some(bytes) => disk.dom().contains(edits[i].path) && disk[edits[i].path] == bytes,
            None => !disk.dom().contains(edits[i].path),
        }
}

/// No two edits are of one file.
pub open spec fn own_files(edits: Seq<EditModel>) -> bool {
    forall|i: int, j: int|
        0 <= i < j < edits.len() ==> #[trigger] edits[i].path != #[trigger] edits[j].path
}

/// While edits are applied, the files hold what the edits say.
pub proof fn applying_keeps_track(
    disk: Map<Seq<u8>, Seq<u8>>,
    edits: Seq<EditModel>,
    k: nat,
    seen: Seq<FileExchange>,
)
    requires
        k <= edits.len(),
        own_files(edits),
        disk_agrees(disk, edits),
        forall|i: int| k <= i < edits.len() ==> !(#[trigger] edits[i]).applied,
        apply_run(edits, k, seen).fits,
        apply_run(edits, k, seen).used == seen.len(),
    ensures
        disk_agrees(disk_after_all(disk, seen), apply_run(edits, k, seen).edits),
        own_files(apply_run(edits, k, seen).edits),
    decreases edits.len() - k,
{
    if k < edits.len() {
        let e = edits[k as int];
        let one = edit_run(e, seen);
        let now = edits.update(k as int, one.edit);
        let rest = seen.skip(one.used as int);
        let then = disk_after_all(disk, seen.take(one.used as int));
        edit_keeps_track(disk, e, seen);
        assert(now[k as int].path == e.path);
        assert forall|i: int, j: int| 0 <= i < j < now.len() implies #[trigger] now[i].path
            != #[trigger] now[j].path by {
            assert(now[i].path == edits[i].path && now[j].path == edits[j].path);
        }
        assert(disk_agrees(then, now)) by {
            assert forall|i: int| 0 <= i < now.len() implies match file_of(#[trigger] now[i]) {
                Some(bytes) => then.dom().contains(now[i].path) && then[now[i].path] == bytes,
                None => !then.dom().contains(now[i].path),
            } by {
                if i != k {
                    assert(now[i] == edits[i]);
                    assert(edits[i].path != edits[k as int].path);
                    let p = edits[i].path;
                    assert(then.dom().contains(p) == disk.dom().contains(p));
                    assert(then[p] == disk[p]);
                } else {
                    assert(now[i] == one.edit);
                }
            }
        }
        if one.failure is None {
            assert forall|i: int| k + 1 <= i < now.len() implies !(#[trigger] now[i]).applied by {
                assert(now[i] == edits[i]);
            }
            applying_keeps_track(then, now, k + 1, rest);
            disk_in_parts(disk, seen, one.used as int);
        } else {
            assert(seen.take(one.used as int) =~= seen);
        }
    }
}

proof fn disk_in_parts(disk: Map<Seq<u8>, Seq<u8>>, seen: Seq<FileExchange>, n: int)
    requires
        0 <= n <= seen.len(),
    ensures
        disk_after_all(disk, seen) == disk_after_all(
            disk_after_all(disk, seen.take(n)),
            seen.skip(n),
        ),
    decreases n,
{
    if n == 0 {
        assert(seen.skip(0) =~= seen);
    } else {
        let first = seen.take(n);
        assert(first.skip(1) =~= seen.skip(1).take(n - 1));
        assert(seen.skip(1).skip(n - 1) =~= seen.skip(n));
        disk_in_parts(disk_after(disk, seen[0]), seen.skip(1), n - 1);
        assert(first[0] == seen[0]);
    }
}

/// One edit: its own file holds what the edit says, other files stay.
proof fn edit_keeps_track(disk: Map<Seq<u8>, Seq<u8>>, e: EditModel, seen: Seq<FileExchange>)
    requires
        !e.applied,
        edit_run(e, seen).fits,
        match file_of(e) {
            Some(bytes) => disk.dom().contains(e.path) && disk[e.path] == bytes,
            None => !disk.dom().contains(e.path),
        },
    ensures
        ({
            let one = edit_run(e, seen);
            let then = disk_after_all(disk, seen.take(one.used as int));
            &&& one.used <= seen.len()
            &&& one.edit.path == e.path
            &&& match file_of(one.edit) {
                Some(bytes) => then.dom().contains(e.path) && then[e.path] == bytes,
                None => !then.dom().contains(e.path),
            }
            &&& forall|p: Seq<u8>|
                p != e.path ==> (#[trigger] then.dom().contains(p) == disk.dom().contains(p))
                    && then[p] == disk[p]
        }),
{
    let one = edit_run(e, seen);
    let part = seen.take(one.used as int);
    if one.used == 0 {
        assert(part.len() == 0);
    } else if one.used == 1 {
        assert(part.skip(1).len() == 0);
        assert(part[0] == seen[0]);
        assert(disk_after_all(disk, part) == disk_after_all(disk_after(disk, seen[0]), part.skip(1)));
    } else {
        assert(part[0] == seen[0]);
        assert(part.skip(1)[0] == seen[1]);
        assert(part.skip(1).skip(1).len() == 0);
        let first = disk_after(disk, seen[0]);
        assert(disk_after_all(disk, part) == disk_after_all(first, part.skip(1)));
        assert(disk_after_all(first, part.skip(1)) == disk_after_all(
            disk_after(first, seen[1]),
            part.skip(1).skip(1),
        ));
    }
}

/// While edits are taken back, the files hold what the edits say.
pub proof fn rolling_back_keeps_track(
    disk: Map<Seq<u8>, Seq<u8>>,
    edits: Seq<EditModel>,
    k: nat,
    seen: Seq<FileExchange>,
)
    requires
        k <= edits.len(),
        own_files(edits),
        disk_agrees(disk, edits),
        rollback_run(edits, k, seen).fits,
        rollback_run(edits, k, seen).failures.len() == 0,
        rollback_run(edits, k, seen).used == seen.len(),
    ensures
        disk_agrees(disk_after_all(disk, seen), rollback_run(edits, k, seen).edits),
    decreases k,
{
    if k > 0 {
        let e = edits[k - 1];
        if !e.applied {
            rolling_back_keeps_track(disk, edits, (k - 1) as nat, seen);
        } else {
            let now = edits.update(k - 1, EditModel { applied: false, ..e });
            let then = disk_after(disk, seen[0]);
            assert forall|i: int, j: int| 0 <= i < j < now.len() implies #[trigger] now[i].path
                != #[trigger] now[j].path by {
                assert(now[i].path == edits[i].path && now[j].path == edits[j].path);
            }
            assert(disk_agrees(then, now)) by {
                assert forall|i: int| 0 <= i < now.len() implies match file_of(#[trigger] now[i]) {
                    Some(bytes) => then.dom().contains(now[i].path) && then[now[i].path] == bytes,
                    None => !then.dom().contains(now[i].path),
                } by {
                    if i != k - 1 {
                        assert(now[i] == edits[i]);
                        assert(edits[i].path != e.path);
                        assert(file_of(edits[i]) == file_of(now[i]));
                    }
                }
            }
            rolling_back_keeps_track(then, now, (k - 1) as nat, seen.skip(1));
        }
    }
}

/// Whatever fails: once a rollback reports no failure, every startup file holds
/// exactly what it held before.
pub proof fn rollback_restores_every_file(
    disk: Map<Seq<u8>, Seq<u8>>,
    edits: Seq<EditModel>,
    applying: Seq<FileExchange>,
    rolling: Seq<FileExchange>,
    i: int,
)
    requires
        own_files(edits),
        disk_agrees(disk, edits),
        forall|j: int| 0 <= j < edits.len() ==> !(#[trigger] edits[j]).applied,
        apply_run(edits, 0, applying).fits,
        apply_run(edits, 0, applying).used == applying.len(),
        ({
            let run = rollback_run(apply_run(edits, 0, applying).edits, edits.len(), rolling);
            run.fits && run.failures.len() == 0 && run.used == rolling.len()
        }),
        0 <= i < edits.len(),
    ensures
        ({
            let then = disk_after_all(disk_after_all(disk, applying), rolling);
            let p = edits[i].path;
            then.dom().contains(p) == disk.dom().contains(p) && (disk.dom().contains(p)
                ==> then[p] == disk[p])
        }),
{
    let done = apply_run(edits, 0, applying).edits;
    applying_keeps_the_edits(edits, 0, applying);
    applying_keeps_track(disk, edits, 0, applying);
    rolled_back_edits_are_restored(done, edits.len(), rolling);
    rolling_back_keeps_track(disk_after_all(disk, applying), done, edits.len(), rolling);
    let back = rollback_run(done, edits.len(), rolling).edits;
    assert(back[i] == (EditModel { applied: false, ..done[i] }));
    assert((EditModel { backup: edits[i].backup, applied: edits[i].applied, ..done[i] }) == edits[i]);
    assert(file_of(back[i]) == file_of(edits[i]));
}

// ---------------------------------------------------------------------------
// The transaction
// ---------------------------------------------------------------------------

/// What came of one startup file.
#[derive(Debug)]
pub struct ShellOutcome {
    /// Shell whose integration was changed.
    pub kind: ShellKind,
    /// Exact startup file.
    pub path: UnixPath,
    /// Whether its bytes changed.
    pub changed: bool,
    /// Copy made by the first installation, if any.
    pub backup: Option<UnixPath>,
}

#[verifier::ext_equal]
pub struct OutcomeModel {
    pub kind: ShellKind,
    pub path: Seq<u8>,
    pub changed: bool,
    pub backup: Option<Seq<u8>>,
}

impl View for ShellOutcome {
    type V = OutcomeModel;

    open spec fn view(&self) -> OutcomeModel {
        OutcomeModel {
            kind: self.kind,
            path: self.path@,
            changed: self.changed,
            backup: domain::path_view(self.backup),
        }
    }
}

pub open spec fn outcome_list(outcomes: Seq<ShellOutcome>) -> Seq<OutcomeModel> {
    Seq::new(outcomes.len(), |i: int| outcomes[i]@)
}

pub open spec fn outcomes_of(edits: Seq<EditModel>) -> Seq<OutcomeModel> {
    Seq::new(
        edits.len(),
        |i: int|
            OutcomeModel {
                kind: edits[i].kind,
                path: edits[i].path,
                changed: edits[i].applied,
                backup: edits[i].backup,
            },
    )
}

/// Prepared edits of distinct startup files that can be taken back.
#[derive(Debug)]
pub struct ShellTransaction {
    pub edits: Vec<ShellEdit>,
}

/// What happened between two records of a boundary.
pub open spec fn happened(before: Seq<FileExchange>, after: Seq<FileExchange>) -> Seq<FileExchange> {
    after.skip(before.len() as int)
}

fn clone_option_path(p: &Option<UnixPath>) -> (r: Option<UnixPath>)
    ensures
        domain::path_view(r) == domain::path_view(*p),
{
    match p {
        Some(p) => Some(p.clone()),
        None => None,
    }
}

/// Prepares the edit of one startup file.
pub fn prepare_edit(target: &ShellTarget, probe: &TargetProbe, operation: Operation) -> (r: Result<
    ShellEdit,
    InstallError,
>)
    ensures
        match r {
            Ok(edit) => prepared_edit(target.kind, target.path@, *probe, operation) == Ok::<
                EditModel,
                FailureModel,
            >(edit@),
            Err(e) => prepared_edit(target.kind, target.path@, *probe, operation) == Err::<
                EditModel,
                FailureModel,
            >(e@),
        },
{
    if !target.path.is_absolute() {
        return Err(unsafe_path(&target.path, "path must be absolute"));
    }
    let mut original: Vec<u8> = Vec::new();
    let mut mode: u32 = NEW_FILE_MODE;
    let mut existed = false;
    match probe {
        TargetProbe::Present { facts, contents } => {
            match validate_regular_writable(&target.path, facts) {
                Ok(found) => {
                    mode = found;
                },
                Err(e) => return Err(e),
            }
            match contents {
                Ok(bytes) => {
                    original = copy_bytes(bytes);
                },
                Err(source) => return Err(
                    InstallError::Filesystem {
                        path: target.path.clone(),
                        source: source.clone(),
                    },
                ),
            }
            existed = true;
        },
        TargetProbe::Missing { parent } => {
            match validate_missing_target(&target.path, parent) {
                Ok(()) => {},
                Err(e) => return Err(e),
            }
            assert(original@ =~= Seq::<u8>::empty());
        },
        TargetProbe::Unavailable(source) => return Err(
            InstallError::Filesystem { path: target.path.clone(), source: source.clone() },
        ),
    }
    let (replacement, had_block) = match change_contents(&original, target.kind, operation) {
        Ok(changed) => changed,
        Err(e) => return Err(e),
    };
    Ok(
        ShellEdit {
            kind: target.kind,
            path: target.path.clone(),
            original,
            replacement,
            mode,
            existed,
            backup_on_apply: operation == Operation::Install && existed && !had_block,
            backup: None,
            applied: false,
        },
    )
}

fn targets_repeat(targets: &Vec<ShellTarget>) -> (r: bool)
    ensures
        r == repeats(targets@),
{
    let mut i: usize = 0;
    while i < targets.len()
        invariant
            i <= targets.len(),
            forall|a: int, b: int|
                0 <= a < i && a < b < targets@.len() ==> !path::same_path(
                    #[trigger] targets@[a].path@,
                    #[trigger] targets@[b].path@,
                ),
        decreases targets.len() - i,
    {
        let mut j: usize = i + 1;
        while j < targets.len()
            invariant
                i < j <= targets.len(),
                forall|b: int|
                    i < b < j ==> !path::same_path(
                        targets@[i as int].path@,
                        #[trigger] targets@[b].path@,
                    ),
            decreases targets.len() - j,
        {
            if targets[i].path.same_as(&targets[j].path) {
                return true;
            }
            j += 1;
        }
        i += 1;
    }
    false
}

impl ShellTransaction {
    pub open spec fn model(&self) -> Seq<EditModel> {
        edit_list(self.edits@)
    }

    /// Prepares an installation in every target, given what each target is.
    pub fn prepare_install(targets: &Vec<ShellTarget>, probes: &Vec<TargetProbe>) -> (r: Result<
        ShellTransaction,
        InstallError,
    >)
        requires
            targets@.len() == probes@.len(),
        ensures
            match r {
                Ok(transaction) => prepared(targets@, probes@, Operation::Install) == Ok::<
                    Seq<EditModel>,
                    FailureModel,
                >(transaction.model()),
                Err(e) => prepared(targets@, probes@, Operation::Install) == Err::<
                    Seq<EditModel>,
                    FailureModel,
                >(e@),
            },
    {
        Self::prepare(targets, probes, Operation::Install)
    }

    /// Prepares a removal from every target, given what each target is.
    pub fn prepare_remove(targets: &Vec<ShellTarget>, probes: &Vec<TargetProbe>) -> (r: Result<
        ShellTransaction,
        InstallError,
    >)
        requires
            targets@.len() == probes@.len(),
        ensures
            match r {
                Ok(transaction) => prepared(targets@, probes@, Operation::Remove) == Ok::<
                    Seq<EditModel>,
                    FailureModel,
                >(transaction.model()),
                Err(e) => prepared(targets@, probes@, Operation::Remove) == Err::<
                    Seq<EditModel>,
                    FailureModel,
                >(e@),
            },
    {
        Self::prepare(targets, probes, Operation::Remove)
    }

    fn prepare(targets: &Vec<ShellTarget>, probes: &Vec<TargetProbe>, operation: Operation) -> (r:
        Result<ShellTransaction, InstallError>)
        requires
            targets@.len() == probes@.len(),
        ensures
            match r {
                Ok(transaction) => prepared(targets@, probes@, operation) == Ok::<
                    Seq<EditModel>,
                    FailureModel,
                >(transaction.model()),
                Err(e) => prepared(targets@, probes@, operation) == Err::<
                    Seq<EditModel>,
                    FailureModel,
                >(e@),
            },
    {
        if targets_repeat(targets) {
            return Err(
                value_failure(
                    "shell configuration paths",
                    "Bash and Zsh targets must be distinct",
                ),
            );
        }
        let mut edits: Vec<ShellEdit> = Vec::new();
        let mut i: usize = 0;
        assert(edit_list(edits@) =~= Seq::<EditModel>::empty());
        while i < targets.len()
            invariant
                i <= targets.len(),
                prepared_edits(targets@, probes@, operation, i as nat) == Ok::<
                    Seq<EditModel>,
                    FailureModel,
                >(edit_list(edits@)),
            decreases targets.len() - i,
        {
            match prepare_edit(&targets[i], &probes[i], operation) {
                Ok(edit) => {
                    let ghost before = edit_list(edits@);
                    let ghost one = edit@;
                    edits.push(edit);
                    assert(edit_list(edits@) =~= before.push(one));
                },
                Err(e) => {
                    proof {
                        problem_stays(
                            targets@,
                            probes@,
                            operation,
                            (i + 1) as nat,
                            targets@.len(),
                        );
                    }
                    return Err(e);
                },
            }
            i += 1;
        }
        Ok(ShellTransaction { edits })
    }

    fn set_edit(&mut self, k: usize, edit: ShellEdit)
        requires
            k < old(self).edits@.len(),
        ensures
            final(self).model() == old(self).model().update(k as int, edit@),
    {
        let ghost before = self.model();
        let ghost one = edit@;
        self.edits.set(k, edit);
        assert(self.model() =~= before.update(k as int, one));
    }

    /// Applies one edit.
    fn apply_edit<F: HostFiles>(&mut self, k: usize, files: &mut LoggedFiles<F>) -> (r: Result<
        (),
        InstallError,
    >)
        requires
            k < old(self).edits@.len(),
        ensures
            old(files).history().is_prefix_of(final(files).history()),
            ({
                let run = edit_run(
                    old(self).model()[k as int],
                    happened(old(files).history(), final(files).history()),
                );
                &&& run.fits
                &&& run.used == happened(old(files).history(), final(files).history()).len()
                &&& final(self).model() == old(self).model().update(k as int, run.edit)
                &&& match r {
                    Ok(_) => run.failure is None,
                    Err(e) => run.failure == Some(e@),
                }
            }),
    {
        let ghost start = files.history();
        let ghost e = self.model()[k as int];
        let ghost all = self.model();
        assert(e == self.edits@[k as int]@);
        let unchanged = bytes_equal(&self.edits[k].replacement, &self.edits[k].original);
        let existed = self.edits[k].existed;
        if (existed && unchanged) || (!existed && self.edits[k].replacement.len() == 0) {
            assert(happened(start, files.history()).len() == 0);
            assert(all.update(k as int, e) =~= all);
            return Ok(());
        }
        let mut backup: Option<UnixPath> = clone_option_path(&self.edits[k].backup);
        if self.edits[k].backup_on_apply {
            let reply = files.create_backup(
                &self.edits[k].path,
                &self.edits[k].original,
                self.edits[k].mode,
            );
            match reply {
                Ok(copy) => {
                    backup = Some(copy);
                },
                Err(error) => {
                    assert(happened(start, files.history()) =~= seq![files.history().last()]);
                    assert(all.update(k as int, e) =~= all);
                    return Err(error);
                },
            }
        }
        let ghost middle = files.history();
        let reply = files.atomic_replace(
            &self.edits[k].path,
            &self.edits[k].replacement,
            self.edits[k].mode,
        );
        let applied = match &reply {
            Ok(()) => true,
            Err(failure) => failure.committed(),
        };
        let edit = ShellEdit {
            kind: self.edits[k].kind,
            path: self.edits[k].path.clone(),
            original: copy_bytes(&self.edits[k].original),
            replacement: copy_bytes(&self.edits[k].replacement),
            mode: self.edits[k].mode,
            existed,
            backup_on_apply: self.edits[k].backup_on_apply,
            backup,
            applied,
        };
        self.set_edit(k, edit);
        proof {
            let seen = happened(start, files.history());
            if e.backup_on_apply {
                assert(seen =~= seq![middle.last(), files.history().last()]);
            } else {
                assert(seen =~= seq![files.history().last()]);
            }
        }
        match reply {
            Ok(()) => Ok(()),
            Err(failure) => Err(failure.into_error()),
        }
    }

    fn apply_from<F: HostFiles>(&mut self, k: usize, files: &mut LoggedFiles<F>) -> (r: Result<
        (),
        InstallError,
    >)
        requires
            k <= old(self).edits@.len(),
        ensures
            final(self).edits@.len() == old(self).edits@.len(),
            old(files).history().is_prefix_of(final(files).history()),
            ({
                let seen = happened(old(files).history(), final(files).history());
                let run = apply_run(old(self).model(), k as nat, seen);
                &&& run.fits
                &&& run.used == seen.len()
                &&& final(self).model() == run.edits
                &&& match r {
                    Ok(_) => run.failure is None,
                    Err(e) => run.failure == Some(e@),
                }
            }),
        decreases old(self).edits@.len() - k,
    {
        let ghost start = files.history();
        let ghost edits = self.model();
        if k >= self.edits.len() {
            assert(happened(start, files.history()).len() == 0);
            return Ok(());
        }
        let reply = self.apply_edit(k, files);
        let ghost middle = files.history();
        let ghost first = happened(start, middle);
        assert(self.edits@.len() == self.model().len());
        match reply {
            Err(e) => Err(e),
            Ok(()) => {
                let r = self.apply_from(k + 1, files);
                proof {
                    let seen = happened(start, files.history());
                    let one = edit_run(edits[k as int], first);
                    assert(seen.skip(first.len() as int) =~= happened(middle, files.history()));
                    assert forall|i: int| 0 <= i < first.len() implies seen[i] == first[i] by {}
                    assert(edit_run(edits[k as int], seen) == one);
                }
                r
            },
        }
    }

    /// Applies every edit; where one fails, those already applied are taken back.
    pub fn apply<F: HostFiles>(&mut self, files: &mut LoggedFiles<F>) -> (r: Result<
        Vec<ShellOutcome>,
        InstallError,
    >)
        ensures
            old(files).history().is_prefix_of(final(files).history()),
            ({
                let seen = happened(old(files).history(), final(files).history());
                let run = apply_run(old(self).model(), 0, seen);
                &&& run.fits
                &&& run.used <= seen.len()
                &&& match run.failure {
                    None => {
                        &&& run.used == seen.len()
                        &&& final(self).model() == run.edits
                        &&& r is Ok
                        &&& outcome_list(r->Ok_0@) == outcomes_of(run.edits)
                    },
                    Some(error) => {
                        let back = rollback_run(
                            run.edits,
                            run.edits.len(),
                            seen.skip(run.used as int),
                        );
                        &&& back.fits
                        &&& back.used == seen.len() - run.used
                        &&& final(self).model() == back.edits
                        &&& r is Err
                        &&& r->Err_0@ == apply_failure(error, rollback_failure(back.failures))
                    },
                }
            }),
    {
        let ghost start = files.history();
        let ghost edits = self.model();
        let reply = self.apply_from(0, files);
        let ghost middle = files.history();
        let ghost first = happened(start, middle);
        match reply {
            Ok(()) => Ok(self.outcomes()),
            Err(error) => {
                let rollback = self.rollback(files);
                proof {
                    let seen = happened(start, files.history());
                    let run = apply_run(edits, 0, first);
                    run_of_prefix(edits, 0, first, happened(middle, files.history()));
                    assert(seen =~= first + happened(middle, files.history()));
                    assert(seen.skip(first.len() as int) =~= happened(middle, files.history()));
                }
                match rollback {
                    Ok(()) => Err(error),
                    Err(problem) => {
                        let mut reason = error.to_text();
                        reason.append("; rollback also failed: ");
                        reason.append(&problem.to_text());
                        Err(
                            InstallError::InvalidValue {
                                field: "shell configuration rollback",
                                reason,
                            },
                        )
                    },
                }
            },
        }
    }

    fn rollback_from<F: HostFiles>(&mut self, k: usize, files: &mut LoggedFiles<F>) -> (r: Vec<
        String,
    >)
        requires
            k <= old(self).edits@.len(),
        ensures
            final(self).edits@.len() == old(self).edits@.len(),
            old(files).history().is_prefix_of(final(files).history()),
            ({
                let seen = happened(old(files).history(), final(files).history());
                let run = rollback_run(old(self).model(), k as nat, seen);
                &&& run.fits
                &&& run.used == seen.len()
                &&& final(self).model() == run.edits
                &&& text::texts(r@) == run.failures
            }),
        decreases k,
    {
        let ghost start = files.history();
        let ghost edits = self.model();
        if k == 0 {
            assert(happened(start, files.history()).len() == 0);
            return text::no_texts();
        }
        let i: usize = k - 1;
        let ghost e = edits[i as int];
        assert(e == self.edits@[i as int]@);
        if !self.edits[i].applied {
            return self.rollback_from(i, files);
        }
        let restored: Result<(), InstallError> = if self.edits[i].existed {
            match files.atomic_replace(
                &self.edits[i].path,
                &self.edits[i].original,
                self.edits[i].mode,
            ) {
                Ok(()) => Ok(()),
                Err(failure) => Err(failure.into_error()),
            }
        } else {
            files.remove(&self.edits[i].path)
        };
        let ghost middle = files.history();
        let ghost x = middle.last();
        match restored {
            Ok(()) => {
                let edit = ShellEdit {
                    kind: self.edits[i].kind,
                    path: self.edits[i].path.clone(),
                    original: copy_bytes(&self.edits[i].original),
                    replacement: copy_bytes(&self.edits[i].replacement),
                    mode: self.edits[i].mode,
                    existed: self.edits[i].existed,
                    backup_on_apply: self.edits[i].backup_on_apply,
                    backup: clone_option_path(&self.edits[i].backup),
                    applied: false,
                };
                self.set_edit(i, edit);
                assert(self.edits@.len() == self.model().len());
                let r = self.rollback_from(i, files);
                proof {
                    let seen = happened(start, files.history());
                    assert(seen[0] == x);
                    assert(seen.skip(1) =~= happened(middle, files.history()));
                }
                r
            },
            Err(error) => {
                let mut note = self.edits[i].path.display();
                note.append(": ");
                note.append(&error.to_text());
                let ghost shown = note@;
                let mut rest = self.rollback_from(i, files);
                let mut r = text::no_texts();
                text::push_text(&mut r, note);
                let ghost more = text::texts(rest@);
                text::put_all(&mut r, &rest);
                proof {
                    let seen = happened(start, files.history());
                    assert(seen[0] == x);
                    assert(seen.skip(1) =~= happened(middle, files.history()));
                    assert(text::texts(r@) =~= seq![shown] + more);
                }
                r
            },
        }
    }

    /// Restores every file that this transaction changed.
    pub fn rollback<F: HostFiles>(&mut self, files: &mut LoggedFiles<F>) -> (r: Result<
        (),
        InstallError,
    >)
        ensures
            old(files).history().is_prefix_of(final(files).history()),
            ({
                let seen = happened(old(files).history(), final(files).history());
                let run = rollback_run(old(self).model(), old(self).model().len(), seen);
                &&& run.fits
                &&& run.used == seen.len()
                &&& final(self).model() == run.edits
                &&& match r {
                    Ok(_) => rollback_failure(run.failures) is None,
                    Err(e) => rollback_failure(run.failures) == Some(e@),
                }
            }),
    {
        let n: usize = self.edits.len();
        assert(n == self.model().len());
        let failures = self.rollback_from(n, files);
        assert(text::texts(failures@).len() == failures@.len());
        if failures.len() == 0 {
            Ok(())
        } else {
            Err(
                InstallError::InvalidValue {
                    field: "shell configuration rollback",
                    reason: text::join_texts(&failures, "; "),
                },
            )
        }
    }

    /// What came of each startup file.
    pub fn outcomes(&self) -> (r: Vec<ShellOutcome>)
        ensures
            outcome_list(r@) == outcomes_of(self.model()),
    {
        let mut r: Vec<ShellOutcome> = Vec::new();
        let mut i: usize = 0;
        assert(outcome_list(r@) =~= outcomes_of(self.model()).take(0));
        while i < self.edits.len()
            invariant
                i <= self.edits.len(),
                outcome_list(r@) == outcomes_of(self.model()).take(i as int),
            decreases self.edits.len() - i,
        {
            let ghost before = outcome_list(r@);
            let edit = &self.edits[i];
            let outcome = ShellOutcome {
                kind: edit.kind,
                path: edit.path.clone(),
                changed: edit.applied,
                backup: clone_option_path(&edit.backup),
            };
            let ghost one = outcome@;
            r.push(outcome);
            proof {
                assert(outcome_list(r@) =~= before.push(one));
                assert(self.model()[i as int] == edit@);
                assert(outcomes_of(self.model()).take(i + 1) =~= before.push(one));
            }
            i += 1;
        }
        assert(outcomes_of(self.model()).take(i as int) =~= outcomes_of(self.model()));
        r
    }
}

proof fn problem_stays(
    targets: Seq<ShellTarget>,
    probes: Seq<TargetProbe>,
    operation: Operation,
    m: nat,
    n: nat,
)
    requires
        m <= n,
        prepared_edits(targets, probes, operation, m) is Err,
    ensures
        prepared_edits(targets, probes, operation, n) == prepared_edits(
            targets,
            probes,
            operation,
            m,
        ),
    decreases n,
{
    if m < n {
        problem_stays(targets, probes, operation, m, (n - 1) as nat);
    }
}

/// What follows a run does not change what the run was.
proof fn run_of_prefix(
    edits: Seq<EditModel>,
    k: nat,
    first: Seq<FileExchange>,
    more: Seq<FileExchange>,
)
    requires
        apply_run(edits, k, first).fits,
        apply_run(edits, k, first).used == first.len(),
        apply_run(edits, k, first).failure is Some,
    ensures
        apply_run(edits, k, first + more) == apply_run(edits, k, first),
    decreases edits.len() - k,
{
    if k < edits.len() {
        let one = edit_run(edits[k as int], first);
        let all = first + more;
        assert forall|i: int| 0 <= i < first.len() implies all[i] == first[i] by {}
        if first.len() > 0 {
            assert(all[0] == first[0]);
        }
        if first.len() > 1 {
            assert(all[1] == first[1]);
        }
        assert(edit_run(edits[k as int], all) == one);
        if one.failure is None {
            let now = edits.update(k as int, one.edit);
            assert(all.skip(one.used as int) =~= first.skip(one.used as int) + more);
            run_of_prefix(now, k + 1, first.skip(one.used as int), more);
        }
    }
}

} // verus!
