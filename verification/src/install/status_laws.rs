//! What an installation is held against.

use vstd::prelude::*;
use crate::install::block::{
    BINARY_FIELD, LAUNCH_FIELD, MATCH_COMMAND_REGEX_FIELD, MATCH_SCOPE_FIELD,
    PANE_COMMAND_REGEX_FIELD, PathsModel,
};
use crate::install::failure;
use crate::install::failure::{FailureModel, PathFacts};
use crate::install::plan;
use crate::install::status;
use crate::path;
use crate::text;

verus! {

/// Where no drift is noted, what is installed is what is expected, in every setting.
pub proof fn every_drift_is_noted(contents: Seq<char>, expected: PathsModel)
    requires
        status::drift_of(contents, expected).len() == 0,
    ensures
        plan::field_in(contents, BINARY_FIELD@) matches Some(mux) && path::same_path(
            text::utf8(mux),
            expected.mux,
        ),
        plan::field_in(contents, LAUNCH_FIELD@) matches Some(codex) ==> path::same_path(
            text::utf8(codex),
            expected.codex,
        ),
        plan::field_in(contents, MATCH_SCOPE_FIELD@) == Some(expected.match_scope),
        plan::fields_in(contents, MATCH_COMMAND_REGEX_FIELD@) == expected.match_command_regexes,
        plan::fields_in(contents, PANE_COMMAND_REGEX_FIELD@) == expected.pane_command_regexes,
        status::recorded_commands(contents) == expected.pane_commands,
        status::recorded_matches(contents).len() == expected.match_executables.len(),
        forall|i: int|
            0 <= i < expected.match_executables.len() ==> path::same_path(
                #[trigger] status::recorded_matches(contents)[i],
                expected.match_executables[i],
            ),
{
}

/// Only a regular file that its owner may write is safe to change.
pub proof fn only_a_writable_file_is_safe(p: Seq<u8>, mode: u32, source: String)
    ensures
        failure::path_problem(p, PathFacts::Regular { mode }) is None <==> mode & 0o200 != 0,
        failure::path_problem(p, PathFacts::Symlink) matches Some(
            FailureModel::UnsafePath { path: of, .. },
        ) && of == p,
        failure::path_problem(p, PathFacts::Other) matches Some(
            FailureModel::UnsafePath { path: of, .. },
        ) && of == p,
        failure::path_problem(p, PathFacts::Unreadable(source)) == Some(
            FailureModel::UnsafePath { path: p, reason: source@ },
        ),
{
}

/// A failure says what was wrong with what: the text ends in the detail, behind the file
/// that it is about.
pub proof fn a_failure_says_its_detail(p: Seq<u8>, detail: Seq<char>, said: Seq<char>)
    ensures
        failure::failure_text(FailureModel::UnsafePath { path: p, reason: detail })
            == "unsafe configuration "@ + text::lossy_text(p) + ": "@ + detail,
        failure::failure_text(FailureModel::Filesystem { path: p, source: detail })
            == "filesystem operation failed for "@ + text::lossy_text(p) + ": "@ + detail,
        failure::failure_text(FailureModel::ReloadFailed { path: p, message: detail })
            == failure::failure_text(FailureModel::ServerFailed { path: p, message: detail }),
        failure::failure_text(FailureModel::Discovery(detail)) != failure::failure_text(
            FailureModel::Discovery(said),
        ) || detail == said,
        failure::failure_text(FailureModel::Markers(detail)) != failure::failure_text(
            FailureModel::Markers(said),
        ) || detail == said,
        failure::of_the_file(FailureModel::ReloadFailed { path: p, message: detail })
            == (FailureModel::Filesystem { path: p, source: detail }),
        failure::of_the_file(
            FailureModel::NotRestored { path: p, source: detail, rollback: said },
        ) == (FailureModel::Filesystem { path: p, source: detail }),
        failure::of_the_file(FailureModel::UnsafePath { path: p, reason: detail })
            == (FailureModel::UnsafePath { path: p, reason: detail }),
{
    let found = "configuration discovery failed: "@;
    assert((found + detail).skip(found.len() as int) =~= detail);
    assert((found + said).skip(found.len() as int) =~= said);
    let marked = "malformed codex-mux marker block: "@;
    assert((marked + detail).skip(marked.len() as int) =~= detail);
    assert((marked + said).skip(marked.len() as int) =~= said);
}

} // verus!
