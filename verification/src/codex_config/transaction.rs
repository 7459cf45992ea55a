//! Owning the terminal title takes two files: the configuration and what is kept
//! about it. Both change, or neither does.

use vstd::prelude::*;
use crate::codex_config::owned;
use crate::codex_config::owned::{
    remove_owned, restore, write_owned, FileSnapshot, OwnedEvent, OwnedFiles, SnapshotModel,
};
use crate::codex_config::owned_log::LoggedOwned;
use crate::codex_config::owned_replay;
use crate::error;
use crate::error::{command_error, ErrorModel, MuxError};
use crate::path::UnixPath;
use crate::text;
use crate::text::bytes_of;

verus! {

/// The permissions of a file that was not there before.
pub const PRIVATE_MODE: u32 = 0x180;

/// An edit of the configuration that can be taken back.
#[derive(Debug)]
pub struct CodexTitleTransaction {
    pub config_path: UnixPath,
    pub state_path: UnixPath,
    pub original_config: Option<FileSnapshot>,
    pub original_state: Option<FileSnapshot>,
    pub installed_config: FileSnapshot,
    pub installed_state: FileSnapshot,
    pub changed: bool,
}

/// How many operations a replacement that succeeds takes.
pub open spec fn write_length(expected: Option<SnapshotModel>) -> int {
    if expected is Some {
        7
    } else {
        5
    }
}

pub open spec fn config_mode(original: Option<SnapshotModel>) -> u32 {
    match original {
        Some(s) => s.mode,
        None => PRIVATE_MODE,
    }
}

/// Both files were written, first what is kept, then the configuration.
pub open spec fn installed_well(
    config_path: Seq<u8>,
    state_path: Seq<u8>,
    config: Option<SnapshotModel>,
    state: Option<SnapshotModel>,
    replacement: Seq<char>,
    kept: Seq<u8>,
    seen: Seq<OwnedEvent>,
) -> bool {
    let k = write_length(state);
    &&& seen.len() >= k
    &&& owned::written_well(state_path, kept, PRIVATE_MODE, state, seen.take(k))
    &&& owned::written_well(
        config_path,
        text::utf8(replacement),
        config_mode(config),
        config,
        seen.skip(k),
    )
}

/// What was kept was written, and taken back where the configuration could not
/// be written.
pub open spec fn taken_back(
    config_path: Seq<u8>,
    state_path: Seq<u8>,
    config: Option<SnapshotModel>,
    state: Option<SnapshotModel>,
    seen: Seq<OwnedEvent>,
    m: int,
    first: ErrorModel,
    e: ErrorModel,
) -> bool {
    let k = write_length(state);
    &&& k <= m <= seen.len()
    &&& seen[2] matches OwnedEvent::Create { reply, .. }
    &&& reply matches Ok(written)
    &&& owned::write_failed(config_path, config, seen.subrange(k, m), first)
    &&& owned::restored_well(state_path, state, Some(written), seen.skip(m)) ==> e == first
}

pub open spec fn install_failed(
    config_path: Seq<u8>,
    state_path: Seq<u8>,
    config: Option<SnapshotModel>,
    state: Option<SnapshotModel>,
    seen: Seq<OwnedEvent>,
    e: ErrorModel,
) -> bool {
    ||| owned::write_failed(state_path, state, seen, e)
    ||| exists|m: int, first: ErrorModel| #[trigger]
        taken_back(config_path, state_path, config, state, seen, m, first, e)
}

proof fn written_has_its_length(
    p: Seq<u8>,
    bytes: Seq<u8>,
    mode: u32,
    expected: Option<SnapshotModel>,
    seen: Seq<OwnedEvent>,
)
    requires
        owned::written_well(p, bytes, mode, expected, seen),
    ensures
        seen.len() == write_length(expected),
{
    assert(seen.skip(2).len() == seen.len() - 2);
}

/// Operations that ended in an error are not the start of a replacement that
/// succeeded.
proof fn failed_is_not_well(
    p: Seq<u8>,
    bytes: Seq<u8>,
    mode: u32,
    expected: Option<SnapshotModel>,
    seen: Seq<OwnedEvent>,
    m: int,
    e: ErrorModel,
)
    requires
        0 <= m <= seen.len(),
        owned::write_failed(p, expected, seen.take(m), e),
        seen.len() >= write_length(expected),
    ensures
        !owned::written_well(p, bytes, mode, expected, seen.take(write_length(expected))),
{
    let k = write_length(expected);
    let whole = seen.take(k);
    let part = seen.take(m);
    let (n, first) = choose|n: int, first: ErrorModel| #[trigger]
        owned::write_stopped(p, expected, part, n, first) && owned::reports(first, p, e);
    assert(owned::write_stopped(p, expected, part, n, first));
    if owned::written_well(p, bytes, mode, expected, whole) {
        assert(part[0] == whole[0]);
        assert(n >= 2);
        assert(part[1] == whole[1]);
        let steps = whole.skip(2);
        let stopped = part.subrange(2, n);
        assert forall|i: int| 0 <= i < stopped.len() && i < steps.len() implies stopped[i]
            == #[trigger] steps[i] by {}
        assert(stopped[0] == steps[0]);
        if expected is Some {
            assert(stopped.len() >= 2 ==> stopped[1] == steps[1]);
            assert(stopped.len() >= 3 ==> stopped[2] == steps[2]);
            assert(stopped.len() >= 4 ==> stopped[3] == steps[3]);
            assert(stopped.len() >= 5 ==> stopped[4] == steps[4]);
        } else {
            assert(stopped.len() >= 2 ==> stopped[1] == steps[1]);
            assert(stopped.len() >= 3 ==> stopped[2] == steps[2]);
        }
    }
}

/// The files of an installation, or the error in their place.
pub open spec fn installed_files(r: Result<CodexTitleTransaction, MuxError>) -> Result<
    (SnapshotModel, SnapshotModel),
    ErrorModel,
> {
    match r {
        Ok(t) => Ok((t.installed_state@, t.installed_config@)),
        Err(e) => Err(e@),
    }
}

/// Writes what is kept about the title, and then the configuration. Where the
/// configuration cannot be written, what is kept is taken back.
pub fn install<F: OwnedFiles>(
    files: &mut LoggedOwned<F>,
    config_path: &UnixPath,
    state_path: &UnixPath,
    original_config: Option<FileSnapshot>,
    original_state: Option<FileSnapshot>,
    replacement: &str,
    kept: &Vec<u8>,
    changed: bool,
) -> (r: Result<CodexTitleTransaction, MuxError>)
    ensures
        old(files).events().is_prefix_of(final(files).events()),
        forall|w: Seq<OwnedEvent>|
            owned_replay::agrees(w, final(files).events()) ==> #[trigger] owned_replay::install_at(
                w,
                old(files).events().len() as int,
                config_path@,
                state_path@,
                owned::option_snapshot(original_config),
                owned::option_snapshot(original_state),
                replacement@,
                kept@,
            ) == Some((installed_files(r), final(files).events().len() as int)),
        ({
            let seen = owned::acted(old(files).events(), final(files).events());
            let config = owned::option_snapshot(original_config);
            let state = owned::option_snapshot(original_state);
            &&& r is Ok <==> installed_well(
                config_path@,
                state_path@,
                config,
                state,
                replacement@,
                kept@,
                seen,
            )
            &&& r matches Ok(t) ==> {
                &&& t.config_path@ == config_path@
                &&& t.state_path@ == state_path@
                &&& owned::option_snapshot(t.original_config) == config
                &&& owned::option_snapshot(t.original_state) == state
                &&& seen[2]->Create_reply == Ok::<SnapshotModel, ErrorModel>(t.installed_state@)
                &&& seen[write_length(state) + 2]->Create_reply == Ok::<
                    SnapshotModel,
                    ErrorModel,
                >(t.installed_config@)
                &&& t.changed == changed
            }
            &&& r matches Err(e) ==> install_failed(
                config_path@,
                state_path@,
                config,
                state,
                seen,
                e@,
            )
        }),
{
    let ghost s = files.events();
    let ghost config = owned::option_snapshot(original_config);
    let ghost state = owned::option_snapshot(original_state);
    let ghost k = write_length(state);
    let first = write_owned(files, state_path, kept, PRIVATE_MODE, original_state.as_ref());
    let ghost a = files.events();
    let installed_state = match first {
        Ok(installed) => installed,
        Err(error) => {
            proof {
                let seen = owned::acted(s, a);
                if installed_well(
                    config_path@,
                    state_path@,
                    config,
                    state,
                    replacement@,
                    kept@,
                    seen,
                ) {
                    assert(seen.take(seen.len() as int) =~= seen);
                    failed_is_not_well(
                        state_path@,
                        kept@,
                        PRIVATE_MODE,
                        state,
                        seen,
                        seen.len() as int,
                        error@,
                    );
                }
            }
            return Err(error);
        },
    };
    proof {
        written_has_its_length(state_path@, kept@, PRIVATE_MODE, state, owned::acted(s, a));
    }
    let mode: u32 = match &original_config {
        Some(s) => s.mode,
        None => PRIVATE_MODE,
    };
    let bytes = bytes_of(replacement);
    let second = write_owned(files, config_path, &bytes, mode, original_config.as_ref());
    let ghost b = files.events();
    proof {
        assert(owned::acted(s, b).take(k) =~= owned::acted(s, a));
        assert(owned::acted(s, b).skip(k) =~= owned::acted(a, b));
        assert(owned::acted(s, b)[2] == owned::acted(s, a)[2]);
    }
    match second {
        Ok(installed_config) => {
            proof {
                assert(owned::acted(s, b)[k + 2] == owned::acted(a, b)[2]);
            }
            Ok(
                CodexTitleTransaction {
                    config_path: config_path.clone(),
                    state_path: state_path.clone(),
                    original_config,
                    original_state,
                    installed_config,
                    installed_state,
                    changed,
                },
            )
        },
        Err(error) => {
            let back = restore(files, state_path, original_state.as_ref(), Some(&installed_state));
            let ghost c = files.events();
            proof {
                let seen = owned::acted(s, c);
                let m = (b.len() - s.len()) as int;
                assert(seen.subrange(k, m) =~= owned::acted(a, b));
                assert(seen.skip(m) =~= owned::acted(b, c));
                assert(seen[2] == owned::acted(s, a)[2]);
                let e = if back is Err {
                    back->Err_0@
                } else {
                    error@
                };
                assert(taken_back(config_path@, state_path@, config, state, seen, m, error@, e));
                if installed_well(
                    config_path@,
                    state_path@,
                    config,
                    state,
                    replacement@,
                    kept@,
                    seen,
                ) {
                    let rest = seen.skip(k);
                    written_has_its_length(
                        config_path@,
                        text::utf8(replacement@),
                        mode,
                        config,
                        rest,
                    );
                    assert(rest.take(m - k) =~= owned::acted(a, b));
                    assert(rest.take(rest.len() as int) =~= rest);
                    failed_is_not_well(
                        config_path@,
                        text::utf8(replacement@),
                        mode,
                        config,
                        rest,
                        m - k,
                        error@,
                    );
                }
            }
            match back {
                Err(e) => Err(e),
                Ok(()) => Err(error),
            }
        },
    }
}

/// Operations that ended in an error are not the start of a removal that
/// succeeded.
proof fn failed_is_not_removed(
    p: Seq<u8>,
    expected: SnapshotModel,
    seen: Seq<OwnedEvent>,
    m: int,
    e: ErrorModel,
)
    requires
        0 <= m <= seen.len(),
        owned::remove_failed(p, expected, seen.take(m), e),
        seen.len() >= 10,
    ensures
        !owned::removed_well(p, expected, seen.take(10)),
{
    let whole = seen.take(10);
    let part = seen.take(m);
    let (n, first) = choose|n: int, first: ErrorModel| #[trigger]
        owned::removal_stopped(p, expected, part, n, first) && owned::reports(first, p, e);
    assert(owned::removal_stopped(p, expected, part, n, first));
    if owned::removed_well(p, expected, whole) {
        assert(part[0] == whole[0]);
        assert(part[1] == whole[1]);
        assert(part[2] == whole[2]);
        let stopped = part.subrange(3, n);
        assert(stopped[0] == whole[3]);
        assert(stopped.len() >= 2 ==> stopped[1] == whole[4]);
        assert(stopped.len() >= 3 ==> stopped[2] == whole[5]);
        assert(stopped.len() >= 4 ==> stopped[3] == whole[6]);
        assert(stopped.len() >= 5 ==> stopped[4] == whole[7]);
        assert(stopped.len() >= 6 ==> stopped[5] == whole[8]);
        assert(stopped.len() >= 7 ==> stopped[6] == whole[9]);
    }
}

/// How many operations it takes to give a file that was written its earlier
/// contents.
pub open spec fn restore_length(original: Option<SnapshotModel>) -> int {
    if original is Some {
        7
    } else {
        10
    }
}

proof fn restored_has_its_length(
    p: Seq<u8>,
    original: Option<SnapshotModel>,
    current: SnapshotModel,
    seen: Seq<OwnedEvent>,
)
    requires
        owned::restored_well(p, original, Some(current), seen),
    ensures
        seen.len() == restore_length(original),
{
    if let Some(before) = original {
        written_has_its_length(p, before.bytes, before.mode, Some(current), seen);
    }
}

proof fn failed_is_not_restored(
    p: Seq<u8>,
    original: Option<SnapshotModel>,
    current: SnapshotModel,
    seen: Seq<OwnedEvent>,
    m: int,
    e: ErrorModel,
)
    requires
        0 <= m <= seen.len(),
        owned::restore_failed(p, original, Some(current), seen.take(m), e),
        seen.len() >= restore_length(original),
    ensures
        !owned::restored_well(p, original, Some(current), seen.take(restore_length(original))),
{
    match original {
        Some(before) => failed_is_not_well(
            p,
            before.bytes,
            before.mode,
            Some(current),
            seen,
            m,
            e,
        ),
        None => failed_is_not_removed(p, current, seen, m, e),
    }
}

/// Both files got their earlier contents back.
pub open spec fn rolled_back_well(t: CodexTitleTransaction, seen: Seq<OwnedEvent>) -> bool {
    let config = owned::option_snapshot(t.original_config);
    let k = restore_length(config);
    &&& seen.len() >= k
    &&& owned::restored_well(t.config_path@, config, Some(t.installed_config@), seen.take(k))
    &&& owned::restored_well(
        t.state_path@,
        owned::option_snapshot(t.original_state),
        Some(t.installed_state@),
        seen.skip(k),
    )
}

/// The configuration, or what was kept, did not get its earlier contents back.
pub open spec fn rollback_failed(
    t: CodexTitleTransaction,
    seen: Seq<OwnedEvent>,
    e: ErrorModel,
) -> bool {
    let config = owned::option_snapshot(t.original_config);
    let k = restore_length(config);
    ||| owned::restore_failed(t.config_path@, config, Some(t.installed_config@), seen, e)
    ||| {
        &&& seen.len() >= k
        &&& owned::restored_well(t.config_path@, config, Some(t.installed_config@), seen.take(k))
        &&& owned::restore_failed(
            t.state_path@,
            owned::option_snapshot(t.original_state),
            Some(t.installed_state@),
            seen.skip(k),
            e,
        )
    }
}

impl CodexTitleTransaction {
    /// Whether the configuration changed.
    pub fn changed(&self) -> (r: bool)
        ensures
            r == self.changed,
    {
        self.changed
    }

    /// Gives both files their earlier contents.
    pub fn rollback<F: OwnedFiles>(&self, files: &mut LoggedOwned<F>) -> (r: Result<(), MuxError>)
        ensures
            old(files).events().is_prefix_of(final(files).events()),
            forall|w: Seq<OwnedEvent>|
                owned_replay::agrees(w, final(files).events()) ==> #[trigger] owned_replay::rollback_at(
                    w,
                    old(files).events().len() as int,
                    self.config_path@,
                    self.state_path@,
                    owned::option_snapshot(self.original_config),
                    owned::option_snapshot(self.original_state),
                    self.installed_config@,
                    self.installed_state@,
                ) == Some((error::outcome(r), final(files).events().len() as int)),
            r is Ok <==> rolled_back_well(
                *self,
                owned::acted(old(files).events(), final(files).events()),
            ),
            r matches Err(e) ==> rollback_failed(
                *self,
                owned::acted(old(files).events(), final(files).events()),
                e@,
            ),
    {
        let ghost s = files.events();
        let ghost config = owned::option_snapshot(self.original_config);
        let ghost k = restore_length(config);
        let first = restore(
            files,
            &self.config_path,
            self.original_config.as_ref(),
            Some(&self.installed_config),
        );
        let ghost a = files.events();
        if let Err(error) = first {
            proof {
                let seen = owned::acted(s, a);
                if seen.len() >= k {
                    assert(seen.take(seen.len() as int) =~= seen);
                    failed_is_not_restored(
                        self.config_path@,
                        config,
                        self.installed_config@,
                        seen,
                        seen.len() as int,
                        error@,
                    );
                }
            }
            return Err(error);
        }
        proof {
            restored_has_its_length(
                self.config_path@,
                config,
                self.installed_config@,
                owned::acted(s, a),
            );
        }
        let second = restore(
            files,
            &self.state_path,
            self.original_state.as_ref(),
            Some(&self.installed_state),
        );
        proof {
            let end = files.events();
            assert(owned::acted(s, end).take(k) =~= owned::acted(s, a));
            assert(owned::acted(s, end).skip(k) =~= owned::acted(a, end));
        }
        second
    }
}

/// The configuration was written, and then what was kept was removed.
pub open spec fn uninstalled_well(
    config_path: Seq<u8>,
    state_path: Seq<u8>,
    config: SnapshotModel,
    state: SnapshotModel,
    replacement: Seq<char>,
    seen: Seq<OwnedEvent>,
) -> bool {
    &&& seen.len() >= 7
    &&& owned::written_well(
        config_path,
        text::utf8(replacement),
        config.mode,
        Some(config),
        seen.take(7),
    )
    &&& owned::removed_well(state_path, state, seen.skip(7))
}

/// What is reported where the configuration could not be given back either.
pub open spec fn with_restoration(removal: ErrorModel, rollback: ErrorModel) -> ErrorModel {
    ErrorModel::Command(
        error::error_text(removal) + "; additionally failed to restore Codex config: "@
            + error::error_text(rollback),
    )
}

/// What was kept could not be removed, and the configuration was given back.
pub open spec fn given_back(
    config_path: Seq<u8>,
    state_path: Seq<u8>,
    config: SnapshotModel,
    state: SnapshotModel,
    seen: Seq<OwnedEvent>,
    m: int,
    first: ErrorModel,
    e: ErrorModel,
) -> bool {
    &&& 7 <= m <= seen.len()
    &&& seen[2] matches OwnedEvent::Create { reply, .. }
    &&& reply matches Ok(written)
    &&& owned::remove_failed(state_path, state, seen.subrange(7, m), first)
    &&& if owned::restored_well(config_path, Some(config), Some(written), seen.skip(m)) {
        e == first
    } else {
        exists|second: ErrorModel| e == #[trigger] with_restoration(first, second)
    }
}

pub open spec fn uninstall_failed(
    config_path: Seq<u8>,
    state_path: Seq<u8>,
    config: SnapshotModel,
    state: SnapshotModel,
    seen: Seq<OwnedEvent>,
    e: ErrorModel,
) -> bool {
    ||| owned::write_failed(config_path, Some(config), seen, e)
    ||| exists|m: int, first: ErrorModel| #[trigger]
        given_back(config_path, state_path, config, state, seen, m, first, e)
}

/// Writes the configuration as it is to become, and then removes what was kept.
/// Where that cannot be removed, the configuration is given back.
pub fn uninstall<F: OwnedFiles>(
    files: &mut LoggedOwned<F>,
    config_path: &UnixPath,
    state_path: &UnixPath,
    original_config: &FileSnapshot,
    original_state: &FileSnapshot,
    replacement: &str,
) -> (r: Result<(), MuxError>)
    ensures
        old(files).events().is_prefix_of(final(files).events()),
        forall|w: Seq<OwnedEvent>|
            owned_replay::agrees(w, final(files).events()) ==> #[trigger] owned_replay::uninstall_at(
                w,
                old(files).events().len() as int,
                config_path@,
                state_path@,
                original_config@,
                original_state@,
                replacement@,
            ) == Some((error::outcome(r), final(files).events().len() as int)),
        ({
            let seen = owned::acted(old(files).events(), final(files).events());
            &&& r is Ok <==> uninstalled_well(
                config_path@,
                state_path@,
                original_config@,
                original_state@,
                replacement@,
                seen,
            )
            &&& r matches Err(e) ==> uninstall_failed(
                config_path@,
                state_path@,
                original_config@,
                original_state@,
                seen,
                e@,
            )
        }),
{
    let ghost s = files.events();
    let bytes = bytes_of(replacement);
    let ghost config = original_config@;
    let first = write_owned(files, config_path, &bytes, original_config.mode, Some(original_config));
    let ghost a = files.events();
    let restored_config = match first {
        Ok(restored) => restored,
        Err(error) => {
            proof {
                let seen = owned::acted(s, a);
                if seen.len() >= 7 {
                    assert(seen.take(seen.len() as int) =~= seen);
                    failed_is_not_well(
                        config_path@,
                        bytes@,
                        config.mode,
                        Some(config),
                        seen,
                        seen.len() as int,
                        error@,
                    );
                }
            }
            return Err(error);
        },
    };
    proof {
        written_has_its_length(
            config_path@,
            bytes@,
            config.mode,
            Some(config),
            owned::acted(s, a),
        );
    }
    let second = remove_owned(files, state_path, Some(original_state));
    let ghost b = files.events();
    proof {
        assert(owned::acted(s, b).take(7) =~= owned::acted(s, a));
        assert(owned::acted(s, b).skip(7) =~= owned::acted(a, b));
    }
    let removal = match second {
        Ok(()) => return Ok(()),
        Err(removal) => removal,
    };
    let back = restore(files, config_path, Some(original_config), Some(&restored_config));
    let ghost c = files.events();
    proof {
        let seen = owned::acted(s, c);
        let m = (b.len() - s.len()) as int;
        let rest = seen.skip(7);
        assert(seen.subrange(7, m) =~= owned::acted(a, b));
        assert(seen.skip(m) =~= owned::acted(b, c));
        assert(seen[2] == owned::acted(s, a)[2]);
        if owned::removed_well(state_path@, original_state@, rest) {
            assert(rest.take(m - 7) =~= owned::acted(a, b));
            assert(rest.take(10) =~= rest);
            failed_is_not_removed(state_path@, original_state@, rest, m - 7, removal@);
        }
    }
    match back {
        Ok(()) => {
            assert(given_back(
                config_path@,
                state_path@,
                config,
                original_state@,
                owned::acted(s, c),
                b.len() - s.len(),
                removal@,
                removal@,
            ));
            Err(removal)
        },
        Err(rollback) => {
            let mut message = removal.to_text();
            message.append("; additionally failed to restore Codex config: ");
            message.append(&rollback.to_text());
            let e = command_error(&message);
            assert(e@ == with_restoration(removal@, rollback@));
            assert(given_back(
                config_path@,
                state_path@,
                config,
                original_state@,
                owned::acted(s, c),
                b.len() - s.len(),
                removal@,
                e@,
            ));
            Err(e)
        },
    }
}

} // verus!
