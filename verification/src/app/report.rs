//! What the management commands print.

use vstd::prelude::*;
use crate::app::setup::{RemovalReport, ReportModel, SetupReport};
use crate::domain;
use crate::error;
use crate::error::{ErrorModel, MuxError};
use crate::install::plan::InstallOutcome;
use crate::install::status::{InstallStatus, StatusModel};
use crate::path::UnixPath;
use crate::shell_integration::block;
use crate::shell_integration::transaction;
use crate::shell_integration::transaction::{OutcomeModel, ShellOutcome};
use crate::text;

verus! {

fn line(lines: &mut Vec<String>, front: &str, rest: &str)
    ensures
        text::texts(final(lines)@) == text::texts(old(lines)@).push(front@ + rest@),
{
    let mut s = front.to_owned();
    s.append(rest);
    text::push_text(lines, s);
}

// ---------------------------------------------------------------------------
// Startup files
// ---------------------------------------------------------------------------

pub open spec fn backup_lines(backup: Option<Seq<u8>>) -> Seq<Seq<char>> {
    match backup {
        Some(p) => seq!["backup: "@ + text::lossy_text(p)],
        None => Seq::empty(),
    }
}

/// What is printed of one startup file.
pub open spec fn shell_report(o: OutcomeModel, removing: bool) -> Seq<Seq<char>> {
    let place = text::lossy_text(o.path);
    if o.changed {
        seq![
            (if removing {
                "removed"@
            } else {
                "installed"@
            }) + " codex-mux "@ + block::shell_label(o.kind) + " integration in "@ + place,
        ] + backup_lines(o.backup)
    } else {
        seq![
            "codex-mux "@ + block::shell_label(o.kind) + (if removing {
                " integration was not installed in "@
            } else {
                " integration is already current in "@
            }) + place,
        ]
    }
}

pub open spec fn shells_report(list: Seq<OutcomeModel>, removing: bool) -> Seq<Seq<char>>
    decreases list.len(),
{
    if list.len() == 0 {
        Seq::empty()
    } else {
        shells_report(list.drop_last(), removing) + shell_report(list.last(), removing)
    }
}

fn put_backup(lines: &mut Vec<String>, backup: &Option<UnixPath>)
    ensures
        text::texts(final(lines)@) == text::texts(old(lines)@) + backup_lines(
            domain::path_view(*backup),
        ),
{
    let ghost before = text::texts(lines@);
    if let Some(p) = backup {
        line(lines, "backup: ", &p.display());
    }
    assert(text::texts(lines@) =~= before + backup_lines(domain::path_view(*backup)));
}

fn put_shell(lines: &mut Vec<String>, outcome: &ShellOutcome, removing: bool)
    ensures
        text::texts(final(lines)@) == text::texts(old(lines)@) + shell_report(
            outcome@,
            removing,
        ),
{
    let ghost before = text::texts(lines@);
    if outcome.changed {
        let mut s = if removing {
            "removed".to_owned()
        } else {
            "installed".to_owned()
        };
        s.append(" codex-mux ");
        s.append(outcome.kind.label());
        s.append(" integration in ");
        line(lines, &s, &outcome.path.display());
        put_backup(lines, &outcome.backup);
    } else {
        let mut s = "codex-mux ".to_owned();
        s.append(outcome.kind.label());
        s.append(
            if removing {
                " integration was not installed in "
            } else {
                " integration is already current in "
            },
        );
        line(lines, &s, &outcome.path.display());
    }
    assert(text::texts(lines@) =~= before + shell_report(outcome@, removing));
}

fn put_shells(lines: &mut Vec<String>, outcomes: &Vec<ShellOutcome>, removing: bool)
    ensures
        text::texts(final(lines)@) == text::texts(old(lines)@) + shells_report(
            transaction::outcome_list(outcomes@),
            removing,
        ),
{
    let ghost before = text::texts(lines@);
    let ghost all = transaction::outcome_list(outcomes@);
    let mut i: usize = 0;
    assert(all.take(0) =~= Seq::empty());
    assert(before + Seq::<Seq<char>>::empty() =~= before);
    while i < outcomes.len()
        invariant
            i <= outcomes.len(),
            text::texts(lines@) == before + shells_report(all.take(i as int), removing),
        decreases outcomes.len() - i,
    {
        let ghost held = shells_report(all.take(i as int), removing);
        put_shell(lines, &outcomes[i], removing);
        proof {
            assert(all.take(i + 1).drop_last() =~= all.take(i as int));
            assert(all.take(i + 1).last() == outcomes@[i as int]@);
            let one = shell_report(outcomes@[i as int]@, removing);
            assert((before + held) + one =~= before + (held + one));
        }
        i += 1;
    }
    assert(all.take(all.len() as int) =~= all);
}

/// What is printed of the startup files.
pub fn shell_outcome_lines(outcomes: &Vec<ShellOutcome>, removing: bool) -> (r: Vec<String>)
    ensures
        text::texts(r@) == shells_report(transaction::outcome_list(outcomes@), removing),
{
    let mut lines = text::no_texts();
    put_shells(&mut lines, outcomes, removing);
    assert(text::texts(lines@) =~= shells_report(
        transaction::outcome_list(outcomes@),
        removing,
    ));
    lines
}

// ---------------------------------------------------------------------------
// Setup, removal and the tmux block
// ---------------------------------------------------------------------------

pub open spec fn when(condition: bool, printed: Seq<char>) -> Seq<Seq<char>> {
    if condition {
        seq![printed]
    } else {
        Seq::empty()
    }
}

pub open spec fn binding_line(changed: bool, p: Seq<u8>) -> Seq<char> {
    (if changed {
        "installed codex-mux binding in "@
    } else {
        "codex-mux binding is already current in "@
    }) + text::lossy_text(p)
}

/// What a setup prints.
pub open spec fn setup_text(r: ReportModel) -> Seq<Seq<char>> {
    shells_report(r.shells, false) + seq![binding_line(r.tmux.changed, r.tmux.path)]
        + backup_lines(r.tmux.backup) + when(r.tmux.reloaded, "reloaded running tmux server"@)
        + when(
        r.title_changed,
        "configured Codex terminal titles to expose exact thread IDs"@,
    ) + seq![
        "open a new Bash/Zsh shell or source its startup file to activate shell Smart Left"@,
    ]
}

fn put_when(lines: &mut Vec<String>, condition: bool, printed: &str)
    ensures
        text::texts(final(lines)@) == text::texts(old(lines)@) + when(condition, printed@),
{
    let ghost before = text::texts(lines@);
    if condition {
        text::put(lines, printed);
    }
    assert(text::texts(lines@) =~= before + when(condition, printed@));
}

fn put_binding(lines: &mut Vec<String>, changed: bool, p: &UnixPath)
    ensures
        text::texts(final(lines)@) == text::texts(old(lines)@) + seq![binding_line(changed, p@)],
{
    let ghost before = text::texts(lines@);
    line(
        lines,
        if changed {
            "installed codex-mux binding in "
        } else {
            "codex-mux binding is already current in "
        },
        &p.display(),
    );
    assert(text::texts(lines@) =~= before + seq![binding_line(changed, p@)]);
}

/// What a setup prints.
pub fn setup_lines(report: &SetupReport) -> (r: Vec<String>)
    ensures
        text::texts(r@) == setup_text(report@),
{
    let mut lines = shell_outcome_lines(&report.shells, false);
    put_binding(&mut lines, report.tmux.changed, &report.tmux.path);
    put_backup(&mut lines, &report.tmux.backup);
    put_when(&mut lines, report.tmux.reloaded, "reloaded running tmux server");
    put_when(
        &mut lines,
        report.title_changed,
        "configured Codex terminal titles to expose exact thread IDs",
    );
    let ghost before = text::texts(lines@);
    text::put(
        &mut lines,
        "open a new Bash/Zsh shell or source its startup file to activate shell Smart Left",
    );
    assert(text::texts(lines@) =~= before + seq![
        "open a new Bash/Zsh shell or source its startup file to activate shell Smart Left"@,
    ]);
    lines
}

pub open spec fn removal_line(removed: bool, p: Seq<u8>) -> Seq<char> {
    (if removed {
        "removed codex-mux binding from "@
    } else {
        "codex-mux binding was not installed in "@
    }) + text::lossy_text(p)
}

/// What taking the tmux block out prints.
pub fn uninstall_line(removed: bool, p: &UnixPath) -> (r: String)
    ensures
        r@ == removal_line(removed, p@),
{
    let mut s = if removed {
        "removed codex-mux binding from ".to_owned()
    } else {
        "codex-mux binding was not installed in ".to_owned()
    };
    s.append(&p.display());
    s
}

/// What a removal prints.
pub fn removal_lines(report: &RemovalReport, tmux_path: &UnixPath) -> (r: Vec<String>)
    ensures
        text::texts(r@) == shells_report(transaction::outcome_list(report.shells@), true) + seq![
            removal_line(report.removed, tmux_path@),
        ] + when(report.title_restored, "restored the prior Codex terminal-title setting"@),
{
    let mut lines = shell_outcome_lines(&report.shells, true);
    let ghost before = text::texts(lines@);
    text::push_text(&mut lines, uninstall_line(report.removed, tmux_path));
    assert(text::texts(lines@) =~= before + seq![removal_line(report.removed, tmux_path@)]);
    put_when(
        &mut lines,
        report.title_restored,
        "restored the prior Codex terminal-title setting",
    );
    lines
}

/// What installing the tmux block alone prints.
pub fn install_lines(outcome: &InstallOutcome) -> (r: Vec<String>)
    ensures
        text::texts(r@) == seq![binding_line(outcome.changed, outcome.path@)] + (
        if outcome.changed {
            backup_lines(domain::path_view(outcome.backup)) + when(
                outcome.reloaded,
                "reloaded running tmux server"@,
            )
        } else {
            Seq::empty()
        }),
{
    let mut lines = text::no_texts();
    put_binding(&mut lines, outcome.changed, &outcome.path);
    let ghost first = text::texts(lines@);
    assert(first =~= seq![binding_line(outcome.changed, outcome.path@)]);
    if outcome.changed {
        put_backup(&mut lines, &outcome.backup);
        put_when(&mut lines, outcome.reloaded, "reloaded running tmux server");
        assert(text::texts(lines@) =~= first + (backup_lines(domain::path_view(outcome.backup))
            + when(outcome.reloaded, "reloaded running tmux server"@)));
    } else {
        assert(first =~= first + Seq::empty());
    }
    lines
}

// ---------------------------------------------------------------------------
// Status
// ---------------------------------------------------------------------------

/// A log and its latest event.
#[derive(Debug)]
pub struct LogStatus {
    pub path: UnixPath,
    pub latest: Option<String>,
}

#[verifier::ext_equal]
pub struct LogModel {
    pub path: Seq<u8>,
    pub latest: Option<Seq<char>>,
}

pub open spec fn log_view(o: Option<LogStatus>) -> Option<LogModel> {
    match o {
        Some(l) => Some(LogModel { path: l.path@, latest: text::option_view(l.latest) }),
        None => None,
    }
}

/// A value, or what stands for a missing one.
pub open spec fn or_text(value: Option<Seq<char>>, otherwise: Seq<char>) -> Seq<char> {
    match value {
        Some(v) => v,
        None => otherwise,
    }
}

pub open spec fn path_or_missing(p: Option<Seq<u8>>) -> Seq<char> {
    match p {
        Some(v) => text::lossy_text(v),
        None => "<missing>"@,
    }
}

/// A line for each value.
pub open spec fn each(front: Seq<char>, values: Seq<Seq<char>>) -> Seq<Seq<char>> {
    Seq::new(values.len(), |i: int| front + values[i])
}

pub open spec fn each_path(front: Seq<char>, paths: Seq<Seq<u8>>) -> Seq<Seq<char>> {
    Seq::new(paths.len(), |i: int| front + text::lossy_text(paths[i]))
}

pub open spec fn log_lines(name: Seq<char>, l: Option<LogModel>) -> Seq<Seq<char>> {
    match l {
        Some(m) => seq![
            name + "-log: "@ + text::lossy_text(m.path),
            name + "-last: "@ + or_text(m.latest, "<none>"@),
        ],
        None => Seq::empty(),
    }
}

/// What is known of the title setting of Codex: whether it is as installed,
/// `None` where it was not installed.
pub open spec fn title_line(title: Result<Option<bool>, ErrorModel>) -> Seq<char> {
    match title {
        Ok(Some(true)) => "codex-thread-id-title: installed"@,
        Ok(Some(false)) => "codex-thread-id-title: drifted"@,
        Ok(None) => "codex-thread-id-title: not installed"@,
        Err(e) => "codex-thread-id-title: unreadable ("@ + error::error_text(e) + ")"@,
    }
}

/// What of that counts as drift beside an installed block.
pub open spec fn title_drift(title: Result<Option<bool>, ErrorModel>) -> Option<Seq<char>> {
    match title {
        Ok(Some(true)) => None,
        Ok(Some(false)) => Some("Codex terminal-title setting"@),
        Ok(None) => None,
        Err(_) => Some("Codex terminal-title ownership is unreadable"@),
    }
}

/// What is printed where there is no block.
pub open spec fn absent_text(p: Seq<u8>, title: Result<Option<bool>, ErrorModel>) -> Seq<
    Seq<char>,
> {
    seq!["not installed: "@ + text::lossy_text(p)] + match title {
        Ok(Some(true)) => seq![
            title_line(title),
            "drift: Codex title integration remains installed"@,
        ],
        Ok(Some(false)) => seq![title_line(title), "drift: Codex terminal-title setting"@],
        Ok(None) => Seq::empty(),
        Err(_) => seq![title_line(title), "drift: Codex terminal-title ownership"@],
    }
}

pub open spec fn drift_lines(drift: Seq<Seq<char>>, title: Option<Seq<char>>) -> Seq<Seq<char>> {
    if drift.len() == 0 && title is None {
        seq!["drift: none"@]
    } else {
        each("drift: "@, drift) + match title {
            Some(d) => seq!["drift: "@ + d],
            None => Seq::empty(),
        }
    }
}

/// What a status command prints.
pub open spec fn status_text(
    p: Seq<u8>,
    s: StatusModel,
    title: Result<Option<bool>, ErrorModel>,
    naming: Option<LogModel>,
    left: Option<LogModel>,
) -> Seq<Seq<char>> {
    if !s.installed {
        absent_text(p, title)
    } else {
        seq![
            "installed: "@ + text::lossy_text(p),
            "key: "@ + or_text(s.key, "<missing>"@),
            "codex-mux: "@ + path_or_missing(s.mux),
            "launch-executable: "@ + path_or_missing(s.codex),
        ] + each_path("match-executable: "@, s.match_executables) + each(
            "pane-command: "@,
            s.pane_commands,
        ) + seq!["match-scope: "@ + or_text(s.match_scope, "<missing>"@)] + each(
            "match-command-regex: "@,
            s.match_command_regexes,
        ) + each("pane-command-regex: "@, s.pane_command_regexes) + seq![
            "smart-left: "@ + (if s.smart_left {
                "enabled"@
            } else {
                "disabled"@
            }),
        ] + log_lines("smart-naming"@, naming) + log_lines("smart-left"@, left) + seq![
            title_line(title),
        ] + drift_lines(s.drift, title_drift(title))
    }
}

fn put_line(lines: &mut Vec<String>, front: &str, rest: &str)
    ensures
        text::texts(final(lines)@) == text::texts(old(lines)@) + seq![front@ + rest@],
{
    let ghost before = text::texts(lines@);
    line(lines, front, rest);
    assert(text::texts(lines@) =~= before + seq![front@ + rest@]);
}

fn put_each(lines: &mut Vec<String>, front: &str, values: &Vec<String>)
    ensures
        text::texts(final(lines)@) == text::texts(old(lines)@) + each(
            front@,
            text::texts(values@),
        ),
{
    let ghost before = text::texts(lines@);
    let ghost all = each(front@, text::texts(values@));
    let mut i: usize = 0;
    assert(before + all.take(0) =~= before);
    while i < values.len()
        invariant
            i <= values.len(),
            text::texts(lines@) =~= before + all.take(i as int),
        decreases values.len() - i,
    {
        line(lines, front, &values[i]);
        assert(all[i as int] == front@ + values@[i as int]@);
        i += 1;
    }
    assert(all.take(all.len() as int) =~= all);
}

fn put_each_path(lines: &mut Vec<String>, front: &str, values: &Vec<UnixPath>)
    ensures
        text::texts(final(lines)@) == text::texts(old(lines)@) + each_path(
            front@,
            domain::path_list(values@),
        ),
{
    let ghost before = text::texts(lines@);
    let ghost all = each_path(front@, domain::path_list(values@));
    let mut i: usize = 0;
    assert(before + all.take(0) =~= before);
    while i < values.len()
        invariant
            i <= values.len(),
            text::texts(lines@) =~= before + all.take(i as int),
        decreases values.len() - i,
    {
        line(lines, front, &values[i].display());
        assert(all[i as int] == front@ + text::lossy_text(values@[i as int]@));
        i += 1;
    }
    assert(all.take(all.len() as int) =~= all);
}

fn text_or(value: &Option<String>, otherwise: &str) -> (r: String)
    ensures
        r@ == or_text(text::option_view(*value), otherwise@),
{
    match value {
        Some(v) => v.clone(),
        None => otherwise.to_owned(),
    }
}

fn path_or(value: &Option<UnixPath>) -> (r: String)
    ensures
        r@ == path_or_missing(domain::path_view(*value)),
{
    match value {
        Some(p) => p.display(),
        None => "<missing>".to_owned(),
    }
}

fn put_log(lines: &mut Vec<String>, name: &str, log: &Option<LogStatus>)
    ensures
        text::texts(final(lines)@) == text::texts(old(lines)@) + log_lines(name@, log_view(*log)),
{
    let ghost before = text::texts(lines@);
    if let Some(l) = log {
        let mut front = name.to_owned();
        front.append("-log: ");
        line(lines, &front, &l.path.display());
        let mut last = name.to_owned();
        last.append("-last: ");
        line(lines, &last, &text_or(&l.latest, "<none>"));
    }
    assert(text::texts(lines@) =~= before + log_lines(name@, log_view(*log)));
}

fn write_title(title: &Result<Option<bool>, MuxError>) -> (r: String)
    ensures
        r@ == title_line(error::outcome(*title)),
{
    match title {
        Ok(Some(true)) => "codex-thread-id-title: installed".to_owned(),
        Ok(Some(false)) => "codex-thread-id-title: drifted".to_owned(),
        Ok(None) => "codex-thread-id-title: not installed".to_owned(),
        Err(e) => {
            let mut s = "codex-thread-id-title: unreadable (".to_owned();
            s.append(&e.to_text());
            s.append(")");
            s
        },
    }
}

fn absent_lines(p: &UnixPath, title: &Result<Option<bool>, MuxError>) -> (r: Vec<String>)
    ensures
        text::texts(r@) == absent_text(p@, error::outcome(*title)),
{
    let mut lines = text::no_texts();
    line(&mut lines, "not installed: ", &p.display());
    let drift = match title {
        Ok(Some(true)) => "drift: Codex title integration remains installed",
        Ok(Some(false)) => "drift: Codex terminal-title setting",
        Ok(None) => {
            assert(text::texts(lines@) =~= absent_text(p@, error::outcome(*title)));
            return lines;
        },
        Err(_) => "drift: Codex terminal-title ownership",
    };
    text::push_text(&mut lines, write_title(title));
    text::put(&mut lines, drift);
    assert(text::texts(lines@) =~= absent_text(p@, error::outcome(*title)));
    lines
}

fn put_drift(lines: &mut Vec<String>, drift: &Vec<String>, title: &Result<Option<bool>, MuxError>)
    ensures
        text::texts(final(lines)@) == text::texts(old(lines)@) + drift_lines(
            text::texts(drift@),
            title_drift(error::outcome(*title)),
        ),
{
    let ghost before = text::texts(lines@);
    let own: Option<&'static str> = match title {
        Ok(Some(true)) => None,
        Ok(Some(false)) => Some("Codex terminal-title setting"),
        Ok(None) => None,
        Err(_) => Some("Codex terminal-title ownership is unreadable"),
    };
    assert(text::texts(drift@).len() == drift.len());
    if drift.len() == 0 && own.is_none() {
        text::put(lines, "drift: none");
        assert(text::texts(lines@) =~= before + seq!["drift: none"@]);
        return;
    }
    put_each(lines, "drift: ", drift);
    if let Some(d) = own {
        put_line(lines, "drift: ", d);
    }
    assert(text::texts(lines@) =~= before + drift_lines(
        text::texts(drift@),
        title_drift(error::outcome(*title)),
    ));
}

/// What a status command prints.
pub fn status_lines(
    report: &InstallStatus,
    title: &Result<Option<bool>, MuxError>,
    naming: &Option<LogStatus>,
    left: &Option<LogStatus>,
) -> (r: Vec<String>)
    ensures
        text::texts(r@) == status_text(
            report.path@,
            report@,
            error::outcome(*title),
            log_view(*naming),
            log_view(*left),
        ),
{
    if !report.installed {
        return absent_lines(&report.path, title);
    }
    let mut lines = text::no_texts();
    line(&mut lines, "installed: ", &report.path.display());
    line(&mut lines, "key: ", &text_or(&report.key, "<missing>"));
    line(&mut lines, "codex-mux: ", &path_or(&report.mux));
    line(&mut lines, "launch-executable: ", &path_or(&report.codex));
    assert(text::texts(lines@) =~= seq![
        "installed: "@ + text::lossy_text(report.path@),
        "key: "@ + or_text(report@.key, "<missing>"@),
        "codex-mux: "@ + path_or_missing(report@.mux),
        "launch-executable: "@ + path_or_missing(report@.codex),
    ]);
    put_each_path(&mut lines, "match-executable: ", &report.match_executables);
    put_each(&mut lines, "pane-command: ", &report.pane_commands);
    put_line(&mut lines, "match-scope: ", &text_or(&report.match_scope, "<missing>"));
    put_each(&mut lines, "match-command-regex: ", &report.match_command_regexes);
    put_each(&mut lines, "pane-command-regex: ", &report.pane_command_regexes);
    put_line(
        &mut lines,
        "smart-left: ",
        if report.smart_left {
            "enabled"
        } else {
            "disabled"
        },
    );
    put_log(&mut lines, "smart-naming", naming);
    put_log(&mut lines, "smart-left", left);
    let ghost before = text::texts(lines@);
    text::push_text(&mut lines, write_title(title));
    assert(text::texts(lines@) =~= before + seq![title_line(error::outcome(*title))]);
    put_drift(&mut lines, &report.drift, title);
    lines
}

} // verus!
