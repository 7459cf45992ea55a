//! Owning the terminal title of Codex from end to end: the files are looked at, what is
//! to become of them is decided, and they are changed with care.

use vstd::prelude::*;
use crate::codex_config::format_log::LoggedFormat;
use crate::codex_config::owned;
use crate::codex_config::owned::{FileSnapshot, OwnedEvent, OwnedFiles, SnapshotModel};
use crate::codex_config::owned_log::LoggedOwned;
use crate::codex_config::owned_replay;
use crate::codex_config::title;
use crate::codex_config::title::{SavedModel, SavedState};
use crate::codex_config::transaction;
use crate::codex_config::transaction::CodexTitleTransaction;
use crate::error;
use crate::error::{command_error, ErrorModel, MuxError};
use crate::path::UnixPath;
use crate::text;
use crate::text::{bytes_of, copy_bytes, read_utf8};

verus! {

/// Boundary for the text that keeps what was set before. A failure is the text of it.
pub trait StateFormat {
    fn parse(&mut self, contents: &String) -> Result<SavedState, String>;

    fn render(&mut self, state: &SavedState) -> Result<String, String>;
}

/// A question to the boundary, with its answer.
#[verifier::ext_equal]
pub enum FormatEvent {
    Parse { contents: Seq<char>, reply: Result<SavedModel, Seq<char>> },
    Render { state: SavedModel, reply: Result<Seq<char>, Seq<char>> },
}

pub open spec fn parse_reply(r: Result<SavedState, String>) -> Result<SavedModel, Seq<char>> {
    match r {
        Ok(state) => Ok(state@),
        Err(detail) => Err(detail@),
    }
}

pub open spec fn render_reply(r: Result<String, String>) -> Result<Seq<char>, Seq<char>> {
    match r {
        Ok(contents) => Ok(contents@),
        Err(detail) => Err(detail@),
    }
}

pub open spec fn agrees(w: Seq<FormatEvent>, log: Seq<FormatEvent>) -> bool {
    &&& log.len() <= w.len()
    &&& forall|i: int| 0 <= i < log.len() ==> #[trigger] w[i] == log[i]
}

// ---------------------------------------------------------------------------
// What two records say from a place on each: the result, and the places behind it
// ---------------------------------------------------------------------------

/// What a kept text says.
pub open spec fn parsed_at(w: Seq<FormatEvent>, k: int, p: Seq<u8>, bytes: Seq<u8>) -> Option<
    (Result<SavedModel, ErrorModel>, int),
> {
    match text::utf8_decoded(bytes) {
        None => Some(
            (Err(ErrorModel::Command(text::lossy_text(p) + " is not valid UTF-8"@)), k),
        ),
        Some(decoded) => if !(0 <= k < w.len()) {
            None
        } else {
            match w[k] {
                FormatEvent::Parse { contents, reply } => if contents != decoded {
                    None
                } else {
                    match reply {
                        Ok(state) => Some((Ok(state), k + 1)),
                        Err(detail) => Some(
                            (
                                Err(
                                    ErrorModel::Command(
                                        "could not parse "@ + text::lossy_text(p) + ": "@ + detail,
                                    ),
                                ),
                                k + 1,
                            ),
                        ),
                    }
                },
                _ => None,
            }
        },
    }
}

pub open spec fn rendered_at(w: Seq<FormatEvent>, k: int, s: SavedModel) -> Option<
    (Result<Seq<char>, ErrorModel>, int),
> {
    if !(0 <= k < w.len()) {
        None
    } else {
        match w[k] {
            FormatEvent::Render { state, reply } => if state != s {
                None
            } else {
                match reply {
                    Ok(contents) => Some((Ok(contents), k + 1)),
                    Err(detail) => Some(
                        (
                            Err(
                                ErrorModel::Command(
                                    "could not serialize Codex integration state: "@ + detail,
                                ),
                            ),
                            k + 1,
                        ),
                    ),
                }
            },
            _ => None,
        }
    }
}

pub open spec fn bytes_in(found: Option<SnapshotModel>) -> Option<Seq<u8>> {
    match found {
        Some(file) => Some(file.bytes),
        None => None,
    }
}

/// What was kept before, where something was.
pub open spec fn prior_at(w: Seq<FormatEvent>, k: int, p: Seq<u8>, kept: Option<SnapshotModel>) -> Option<
    (Option<Result<SavedModel, ErrorModel>>, int),
> {
    match kept {
        None => Some((None, k)),
        Some(file) => match parsed_at(w, k, p, file.bytes) {
            None => None,
            Some((prior, n)) => Some((Some(prior), n)),
        },
    }
}

/// Both files of a title that was set up, as they were and as they are.
#[verifier::ext_equal]
pub struct TitleModel {
    pub config_path: Seq<u8>,
    pub state_path: Seq<u8>,
    pub original_config: Option<SnapshotModel>,
    pub original_state: Option<SnapshotModel>,
    pub installed_config: SnapshotModel,
    pub installed_state: SnapshotModel,
    /// Whether the title was not owned before.
    pub changed: bool,
}

pub open spec fn title_outcome(r: Result<CodexTitleTransaction, MuxError>) -> Result<
    TitleModel,
    ErrorModel,
> {
    match r {
        Ok(t) => Ok(
            TitleModel {
                config_path: t.config_path@,
                state_path: t.state_path@,
                original_config: owned::option_snapshot(t.original_config),
                original_state: owned::option_snapshot(t.original_state),
                installed_config: t.installed_config@,
                installed_state: t.installed_state@,
                changed: t.changed,
            },
        ),
        Err(e) => Err(e@),
    }
}

/// The title set up, given both files as they were found.
pub open spec fn set_up_at(
    w: Seq<FormatEvent>,
    k: int,
    v: Seq<OwnedEvent>,
    l: int,
    config: Seq<u8>,
    place: Seq<u8>,
    original: Option<SnapshotModel>,
    kept: Option<SnapshotModel>,
) -> Option<(Result<TitleModel, ErrorModel>, int, int)> {
    match prior_at(w, k, place, kept) {
        None => None,
        Some((prior, n)) => match title::install_outcome(config, bytes_in(original), prior) {
            Err(e) => Some((Err(e), n, l)),
            Ok((replacement, state, changed)) => match rendered_at(w, n, state) {
                None => None,
                Some((Err(e), m)) => Some((Err(e), m, l)),
                Some((Ok(contents), m)) => match owned_replay::install_at(
                    v,
                    l,
                    config,
                    place,
                    original,
                    kept,
                    replacement,
                    text::utf8(contents),
                ) {
                    None => None,
                    Some((Err(e), l2)) => Some((Err(e), m, l2)),
                    Some((Ok((installed_state, installed_config)), l2)) => Some(
                        (
                            Ok(
                                TitleModel {
                                    config_path: config,
                                    state_path: place,
                                    original_config: original,
                                    original_state: kept,
                                    installed_config,
                                    installed_state,
                                    changed,
                                },
                            ),
                            m,
                            l2,
                        ),
                    ),
                },
            },
        },
    }
}

/// The title set up.
pub open spec fn installed_at(
    w: Seq<FormatEvent>,
    k: int,
    v: Seq<OwnedEvent>,
    l: int,
    config: Seq<u8>,
    place: Seq<u8>,
) -> Option<(Result<TitleModel, ErrorModel>, int, int)> {
    match owned_replay::look_at(v, l, config) {
        None => None,
        Some((Err(e), l2)) => Some((Err(e), k, l2)),
        Some((Ok(original), l2)) => match owned_replay::look_at(v, l2, place) {
            None => None,
            Some((Err(e), l3)) => Some((Err(e), k, l3)),
            Some((Ok(kept), l3)) => set_up_at(w, k, v, l3, config, place, original, kept),
        },
    }
}

/// The title given back: whether there was anything to give back.
pub open spec fn removed_at(
    w: Seq<FormatEvent>,
    k: int,
    v: Seq<OwnedEvent>,
    l: int,
    place: Seq<u8>,
) -> Option<(Result<bool, ErrorModel>, int, int)> {
    match owned_replay::look_at(v, l, place) {
        None => None,
        Some((Err(e), l2)) => Some((Err(e), k, l2)),
        Some((Ok(None), l2)) => Some((Ok(false), k, l2)),
        Some((Ok(Some(kept)), l2)) => match parsed_at(w, k, place, kept.bytes) {
            None => None,
            Some((Err(e), n)) => Some((Err(e), n, l2)),
            Some((Ok(state), n)) => match owned_replay::look_at(v, l2, state.config_path) {
                None => None,
                Some((Err(e), l3)) => Some((Err(e), n, l3)),
                Some((Ok(found), l3)) => match title::removal_outcome(state, bytes_in(found)) {
                    Err(e) => Some((Err(e), n, l3)),
                    Ok(replacement) => match owned_replay::uninstall_at(
                        v,
                        l3,
                        state.config_path,
                        place,
                        found->0,
                        kept,
                        replacement,
                    ) {
                        None => None,
                        Some((Err(e), l4)) => Some((Err(e), n, l4)),
                        Some((Ok(_), l4)) => Some((Ok(true), n, l4)),
                    },
                },
            },
        },
    }
}

/// Whether the title is set up, and if so, whether it is free of drift.
pub open spec fn reported_at(
    w: Seq<FormatEvent>,
    k: int,
    v: Seq<OwnedEvent>,
    l: int,
    place: Option<Seq<u8>>,
) -> Option<(Result<Option<bool>, ErrorModel>, int, int)> {
    match place {
        None => Some((Ok(None), k, l)),
        Some(place) => match owned_replay::look_at(v, l, place) {
            None => None,
            Some((Err(e), l2)) => Some((Err(e), k, l2)),
            Some((Ok(None), l2)) => Some((Ok(None), k, l2)),
            Some((Ok(Some(kept)), l2)) => match parsed_at(w, k, place, kept.bytes) {
                None => None,
                Some((Err(e), n)) => Some((Err(e), n, l2)),
                Some((Ok(state), n)) => match owned_replay::look_at(v, l2, state.config_path) {
                    None => None,
                    Some((Err(e), l3)) => Some((Err(e), n, l3)),
                    Some((Ok(found), l3)) => Some(
                        (
                            match title::status_outcome(state, bytes_in(found)) {
                                Ok(intact) => Ok(Some(intact)),
                                Err(e) => Err(e),
                            },
                            n,
                            l3,
                        ),
                    ),
                },
            },
        },
    }
}

/// Nothing is changed to report on the title: the files are only looked at.
pub proof fn a_report_changes_nothing(
    w: Seq<FormatEvent>,
    k: int,
    v: Seq<OwnedEvent>,
    l: int,
    place: Option<Seq<u8>>,
    i: int,
)
    requires
        0 <= l <= i,
        reported_at(w, k, v, l, place) matches Some((_, _, end)) && i < end,
    ensures
        v[i] is Look,
{
}

/// A title that cannot be given back is left alone: where what was kept, or the
/// configuration, cannot be used, the files are only looked at.
pub proof fn a_refused_removal_changes_nothing(
    w: Seq<FormatEvent>,
    k: int,
    v: Seq<OwnedEvent>,
    l: int,
    place: Seq<u8>,
    kept: SnapshotModel,
    state: SavedModel,
    i: int,
)
    requires
        0 <= l <= i,
        owned_replay::look_at(v, l, place) == Some(
            (Ok::<Option<SnapshotModel>, ErrorModel>(Some(kept)), l + 1),
        ),
        parsed_at(w, k, place, kept.bytes) matches Some((Ok(read), _)) && read == state,
        owned_replay::look_at(v, l + 1, state.config_path) matches Some((Ok(found), _))
            && title::removal_outcome(state, bytes_in(found)) is Err,
        removed_at(w, k, v, l, place) matches Some((_, _, end)) && i < end,
    ensures
        v[i] is Look,
        (removed_at(w, k, v, l, place)->0).0 is Err,
{
}

// ---------------------------------------------------------------------------
// The operations
// ---------------------------------------------------------------------------

impl<T: StateFormat> LoggedFormat<T> {
    fn parse_state(&mut self, p: &UnixPath, bytes: &Vec<u8>) -> (r: Result<SavedState, MuxError>)
        ensures
            agrees(final(self).events(), old(self).events()),
            forall|w: Seq<FormatEvent>|
                agrees(w, final(self).events()) ==> #[trigger] parsed_at(
                    w,
                    old(self).events().len() as int,
                    p@,
                    bytes@,
                ) == Some(
                    (
                        match r {
                            Ok(state) => Ok(state@),
                            Err(e) => Err(e@),
                        },
                        final(self).events().len() as int,
                    ),
                ),
    {
        let Some(contents) = read_utf8(bytes) else {
            let mut message = p.display();
            message.append(" is not valid UTF-8");
            return Err(command_error(&message));
        };
        match self.parse(&contents) {
            Ok(state) => Ok(state),
            Err(detail) => {
                let mut message = "could not parse ".to_owned();
                message.append(&p.display());
                message.append(": ");
                message.append(&detail);
                Err(command_error(&message))
            },
        }
    }
}


fn contents_of(found: &Option<FileSnapshot>) -> (r: Option<Vec<u8>>)
    ensures
        bytes_in(owned::option_snapshot(*found)) == match r {
            Some(bytes) => Some(bytes@),
            None => None,
        },
{
    match found {
        Some(file) => Some(copy_bytes(&file.bytes)),
        None => None,
    }
}

fn set_up<T: StateFormat, F: OwnedFiles>(
    config: &UnixPath,
    place: &UnixPath,
    original: Option<FileSnapshot>,
    kept: Option<FileSnapshot>,
    format: &mut LoggedFormat<T>,
    files: &mut LoggedOwned<F>,
) -> (r: Result<CodexTitleTransaction, MuxError>)
    ensures
        agrees(final(format).events(), old(format).events()),
        owned_replay::agrees(final(files).events(), old(files).events()),
        forall|w: Seq<FormatEvent>, v: Seq<OwnedEvent>|
            agrees(w, final(format).events()) && owned_replay::agrees(v, final(files).events())
                ==> #[trigger] set_up_at(
                w,
                old(format).events().len() as int,
                v,
                old(files).events().len() as int,
                config@,
                place@,
                owned::option_snapshot(original),
                owned::option_snapshot(kept),
            ) == Some(
                (
                    title_outcome(r),
                    final(format).events().len() as int,
                    final(files).events().len() as int,
                ),
            ),
{
    let prior = match &kept {
        Some(file) => Some(format.parse_state(place, &file.bytes)),
        None => None,
    };
    let ghost read = format.events();
    let plan = match title::install(config, &contents_of(&original), prior) {
        Ok(plan) => plan,
        Err(e) => return Err(e),
    };
    let rendered = format.render(&plan.state);
    assert(agrees(format.events(), read));
    let contents = match rendered {
        Ok(contents) => contents,
        Err(detail) => {
            let mut message = "could not serialize Codex integration state: ".to_owned();
            message.append(&detail);
            return Err(command_error(&message));
        },
    };
    let ghost before = files.events();
    let r = transaction::install(
        files,
        config,
        place,
        original,
        kept,
        &plan.replacement,
        &bytes_of(&contents),
        plan.changed,
    );
    assert(owned_replay::agrees(files.events(), before)) by {
        assert(before == files.events().subrange(0, before.len() as int));
    }
    r
}

/// Sets the title up: what was set before is kept, and the configuration is written.
pub fn install<T: StateFormat, F: OwnedFiles>(
    config: &UnixPath,
    place: &UnixPath,
    format: &mut LoggedFormat<T>,
    files: &mut LoggedOwned<F>,
) -> (r: Result<CodexTitleTransaction, MuxError>)
    ensures
        agrees(final(format).events(), old(format).events()),
        owned_replay::agrees(final(files).events(), old(files).events()),
        forall|w: Seq<FormatEvent>, v: Seq<OwnedEvent>|
            agrees(w, final(format).events()) && owned_replay::agrees(v, final(files).events())
                ==> #[trigger] installed_at(
                w,
                old(format).events().len() as int,
                v,
                old(files).events().len() as int,
                config@,
                place@,
            ) == Some(
                (
                    title_outcome(r),
                    final(format).events().len() as int,
                    final(files).events().len() as int,
                ),
            ),
{
    let original = match files.snapshot(config) {
        Ok(original) => original,
        Err(e) => return Err(e),
    };
    let kept = match files.snapshot(place) {
        Ok(kept) => kept,
        Err(e) => return Err(e),
    };
    set_up(config, place, original, kept, format, files)
}

/// Gives the title back, where it was set up and is intact; whether there was anything to
/// give back.
pub fn uninstall<T: StateFormat, F: OwnedFiles>(
    place: &UnixPath,
    format: &mut LoggedFormat<T>,
    files: &mut LoggedOwned<F>,
) -> (r: Result<bool, MuxError>)
    ensures
        agrees(final(format).events(), old(format).events()),
        owned_replay::agrees(final(files).events(), old(files).events()),
        forall|w: Seq<FormatEvent>, v: Seq<OwnedEvent>|
            agrees(w, final(format).events()) && owned_replay::agrees(v, final(files).events())
                ==> #[trigger] removed_at(
                w,
                old(format).events().len() as int,
                v,
                old(files).events().len() as int,
                place@,
            ) == Some(
                (
                    error::outcome(r),
                    final(format).events().len() as int,
                    final(files).events().len() as int,
                ),
            ),
{
    let kept = match files.snapshot(place) {
        Ok(Some(kept)) => kept,
        Ok(None) => return Ok(false),
        Err(e) => return Err(e),
    };
    let state = match format.parse_state(place, &kept.bytes) {
        Ok(state) => state,
        Err(e) => return Err(e),
    };
    let found = match files.snapshot(&state.config_path) {
        Ok(found) => found,
        Err(e) => return Err(e),
    };
    let replacement = match title::uninstall(&state, &contents_of(&found)) {
        Ok(replacement) => replacement,
        Err(e) => return Err(e),
    };
    let ghost before = files.events();
    match &found {
        Some(original) => {
            let done = transaction::uninstall(
                files,
                &state.config_path,
                place,
                original,
                &kept,
                &replacement,
            );
            assert(owned_replay::agrees(files.events(), before)) by {
                assert(before == files.events().subrange(0, before.len() as int));
            }
            match done {
                Ok(_) => Ok(true),
                Err(e) => Err(e),
            }
        },
        None => Ok(false),
    }
}

/// Tells whether the title is set up, and if so, whether it is free of drift.
pub fn status<T: StateFormat, F: OwnedFiles>(
    place: &Option<UnixPath>,
    format: &mut LoggedFormat<T>,
    files: &mut LoggedOwned<F>,
) -> (r: Result<Option<bool>, MuxError>)
    ensures
        agrees(final(format).events(), old(format).events()),
        owned_replay::agrees(final(files).events(), old(files).events()),
        forall|w: Seq<FormatEvent>, v: Seq<OwnedEvent>|
            agrees(w, final(format).events()) && owned_replay::agrees(v, final(files).events())
                ==> #[trigger] reported_at(
                w,
                old(format).events().len() as int,
                v,
                old(files).events().len() as int,
                crate::domain::path_view(*place),
            ) == Some(
                (
                    error::outcome(r),
                    final(format).events().len() as int,
                    final(files).events().len() as int,
                ),
            ),
{
    let Some(place) = place else {
        return Ok(None);
    };
    let kept = match files.snapshot(place) {
        Ok(Some(kept)) => kept,
        Ok(None) => return Ok(None),
        Err(e) => return Err(e),
    };
    let state = match format.parse_state(place, &kept.bytes) {
        Ok(state) => state,
        Err(e) => return Err(e),
    };
    let found = match files.snapshot(&state.config_path) {
        Ok(found) => found,
        Err(e) => return Err(e),
    };
    match title::status(&state, &contents_of(&found)) {
        Ok(intact) => Ok(Some(intact)),
        Err(e) => Err(e),
    }
}

} // verus!
