//! What the reports say.

use vstd::prelude::*;
use crate::app::report;
use crate::app::report::LogModel;
use crate::error::ErrorModel;
use crate::install::status::StatusModel;
use crate::shell_integration::transaction::OutcomeModel;
use crate::shell_integration::block::ShellKind;
use crate::text;

verus! {

proof fn stands_in_sum(a: Seq<Seq<char>>, b: Seq<Seq<char>>, line: Seq<char>)
    requires
        a.contains(line) || b.contains(line),
    ensures
        (a + b).contains(line),
{
    if a.contains(line) {
        let i = a.index_of(line);
        assert((a + b)[i] == line);
    } else {
        let i = b.index_of(line);
        assert((a + b)[a.len() + i] == line);
    }
}

/// The status of an installation says where it is, what it is bound to, what it looks for
/// and whether it takes the Left key.
pub proof fn a_status_says_what_is_installed(
    p: Seq<u8>,
    s: StatusModel,
    title: Result<Option<bool>, ErrorModel>,
    naming: Option<LogModel>,
    left: Option<LogModel>,
)
    requires
        s.installed,
    ensures
        ({
            let lines = report::status_text(p, s, title, naming, left);
            &&& lines[0] == "installed: "@ + text::lossy_text(p)
            &&& s.key matches Some(key) ==> lines[1] == "key: "@ + key
            &&& s.mux matches Some(mux) ==> lines[2] == "codex-mux: "@ + text::lossy_text(mux)
            &&& s.codex matches Some(codex) ==> lines[3] == "launch-executable: "@
                + text::lossy_text(codex)
            &&& forall|i: int|
                0 <= i < s.match_executables.len() ==> lines[4 + i] == "match-executable: "@
                    + text::lossy_text(#[trigger] s.match_executables[i])
            &&& forall|i: int|
                0 <= i < s.pane_commands.len() ==> lines[4 + s.match_executables.len() + i]
                    == "pane-command: "@ + #[trigger] s.pane_commands[i]
            &&& lines.contains(
                "smart-left: "@ + if s.smart_left {
                    "enabled"@
                } else {
                    "disabled"@
                },
            )
        }),
{
    let lines = report::status_text(p, s, title, naming, left);
    let n = 5 + s.match_executables.len() + s.pane_commands.len() + s.match_command_regexes.len()
        + s.pane_command_regexes.len();
    let said = "smart-left: "@ + (if s.smart_left {
        "enabled"@
    } else {
        "disabled"@
    });
    assert(lines[n as int] == said);
}

/// A status says that nothing drifted exactly where nothing did; else it says each thing
/// that did.
pub proof fn a_status_says_each_drift(drift: Seq<Seq<char>>, title: Option<Seq<char>>)
    ensures
        report::drift_lines(drift, title) == seq!["drift: none"@] || drift.len() > 0
            || title is Some,
        drift.len() == 0 && title is None ==> report::drift_lines(drift, title) == seq![
            "drift: none"@,
        ],
        forall|i: int|
            0 <= i < drift.len() ==> report::drift_lines(drift, title).contains(
                "drift: "@ + #[trigger] drift[i],
            ),
        title matches Some(t) ==> report::drift_lines(drift, title).contains("drift: "@ + t),
{
    let lines = report::drift_lines(drift, title);
    assert forall|i: int| 0 <= i < drift.len() implies lines.contains(
        "drift: "@ + #[trigger] drift[i],
    ) by {
        assert(lines[i] == "drift: "@ + drift[i]);
    }
    if let Some(t) = title {
        assert(lines.last() == "drift: "@ + t);
    }
}

/// A file that was not set up is said not to be; a title setting that stayed behind is a
/// drift.
pub proof fn an_absent_installation_is_said_to_be_absent(
    p: Seq<u8>,
    s: StatusModel,
    title: Result<Option<bool>, ErrorModel>,
    naming: Option<LogModel>,
    left: Option<LogModel>,
)
    requires
        !s.installed,
    ensures
        ({
            let lines = report::status_text(p, s, title, naming, left);
            &&& lines.len() > 0
            &&& lines[0] == "not installed: "@ + text::lossy_text(p)
            &&& lines.len() == 1 <==> title == Ok::<Option<bool>, ErrorModel>(None)
            &&& title == Ok::<Option<bool>, ErrorModel>(Some(true)) ==> lines.contains(
                "drift: Codex title integration remains installed"@,
            )
        }),
{
    let lines = report::status_text(p, s, title, naming, left);
    if title == Ok::<Option<bool>, ErrorModel>(Some(true)) {
        assert(lines[2] == "drift: Codex title integration remains installed"@);
    }
}

/// A shell that was changed is told with its file, and with its backup where one was made;
/// one that was not is told to be current, or not to have been set up.
pub proof fn a_changed_shell_is_told_with_its_file(o: OutcomeModel)
    ensures
        ({
            let place = text::lossy_text(o.path);
            let label = if o.kind == ShellKind::Bash {
                "Bash"@
            } else {
                "Zsh"@
            };
            let installed = report::shell_report(o, false);
            let removed = report::shell_report(o, true);
            &&& o.changed ==> installed[0] == "installed"@ + " codex-mux "@ + label
                + " integration in "@ + place
            &&& o.changed ==> removed[0] == "removed"@ + " codex-mux "@ + label
                + " integration in "@ + place
            &&& !o.changed ==> installed == seq![
                "codex-mux "@ + label + " integration is already current in "@ + place,
            ]
            &&& !o.changed ==> removed == seq![
                "codex-mux "@ + label + " integration was not installed in "@ + place,
            ]
            &&& o.changed ==> (o.backup matches Some(b) ==> installed.len() == 2 && installed[1]
                == "backup: "@ + text::lossy_text(b))
            &&& o.backup is None ==> installed.len() == 1
        }),
{
}

/// Every shell is told.
pub proof fn every_shell_is_told(list: Seq<OutcomeModel>, removing: bool, i: int, k: int)
    requires
        0 <= i < list.len(),
        0 <= k < report::shell_report(list[i], removing).len(),
    ensures
        report::shells_report(list, removing).contains(
            report::shell_report(list[i], removing)[k],
        ),
    decreases list.len(),
{
    let head = list.drop_last();
    let one = report::shell_report(list[i], removing);
    let last = report::shell_report(list.last(), removing);
    if i == list.len() - 1 {
        assert(last[k] == one[k]);
        stands_in_sum(report::shells_report(head, removing), last, one[k]);
    } else {
        assert(head[i] == list[i]);
        every_shell_is_told(head, removing, i, k);
        stands_in_sum(report::shells_report(head, removing), last, one[k]);
    }
}

/// The line on the title setting and the drift that is noted agree.
pub proof fn the_title_setting_is_told_as_it_is(title: Result<Option<bool>, ErrorModel>)
    ensures
        title == Ok::<Option<bool>, ErrorModel>(Some(true)) <==> report::title_line(title)
            == "codex-thread-id-title: installed"@ && report::title_drift(title) is None,
        title == Ok::<Option<bool>, ErrorModel>(Some(false)) ==> report::title_line(title)
            == "codex-thread-id-title: drifted"@ && report::title_drift(title) is Some,
        title is Err ==> report::title_drift(title) is Some,
{
    reveal_strlit("codex-thread-id-title: installed");
    reveal_strlit("codex-thread-id-title: not installed");
    assert("codex-thread-id-title: installed"@.len() == 32);
    assert("codex-thread-id-title: not installed"@.len() == 36);
}

} // verus!
