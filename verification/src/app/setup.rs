//! Configuring tmux, the shells and Codex together, and taking all of it back
//! where one part fails.

use vstd::prelude::*;
use crate::app::process;
use crate::app::process::install_error;
use crate::app::setup_log::LoggedSetup;
use crate::domain;
use crate::error;
use crate::error::{command_error, ErrorModel, MuxError};
use crate::install::failure;
use crate::install::failure::{FailureModel, InstallError};
use crate::install::plan::InstallOutcome;
use crate::scan;
use crate::shell_integration::transaction;
use crate::shell_integration::transaction::{OutcomeModel, ShellOutcome};
use crate::text;

verus! {

// ---------------------------------------------------------------------------
// The parts of a setup
// ---------------------------------------------------------------------------

/// The outside work of a setup or a removal.
pub trait SetupHost {
    /// Saves the resolved process settings.
    fn save_process(&mut self) -> Result<(), MuxError>;

    /// Puts back what was saved before.
    fn restore_process(&mut self) -> Result<(), MuxError>;

    /// Has Codex show thread identities; tells whether that changed something.
    fn install_title(&mut self) -> Result<bool, MuxError>;

    /// Takes that back.
    fn rollback_title(&mut self) -> Result<(), MuxError>;

    /// Gives Codex its earlier title setting; tells whether there was one.
    fn remove_title(&mut self) -> Result<bool, MuxError>;

    /// Looks at the startup files.
    fn prepare_shells(&mut self) -> Result<(), InstallError>;

    /// Changes the startup files.
    fn apply_shells(&mut self) -> Result<Vec<ShellOutcome>, InstallError>;

    /// Takes that back.
    fn rollback_shells(&mut self) -> Result<(), InstallError>;

    /// Installs the tmux block.
    fn install_tmux(&mut self) -> Result<InstallOutcome, InstallError>;

    /// Removes the tmux block; tells whether there was one.
    fn uninstall_tmux(&mut self) -> Result<bool, InstallError>;

    /// Whether the tmux configuration has its earlier bytes.
    fn tmux_is_unchanged(&mut self) -> Result<bool, InstallError>;

    /// Gives the tmux configuration its earlier bytes.
    fn restore_tmux(&mut self) -> Result<(), InstallError>;

    fn server_is_running(&mut self) -> bool;

    /// Has the server read the tmux configuration.
    fn reload_tmux(&mut self) -> Result<(), String>;
}

#[verifier::ext_equal]
pub struct InstallModel {
    pub path: Seq<u8>,
    pub backup: Option<Seq<u8>>,
    pub changed: bool,
    pub reloaded: bool,
}

pub open spec fn install_view(o: InstallOutcome) -> InstallModel {
    InstallModel {
        path: o.path@,
        backup: domain::path_view(o.backup),
        changed: o.changed,
        reloaded: o.reloaded,
    }
}

/// A piece of outside work and what came of it.
pub enum SetupEvent {
    SaveProcess(Result<(), ErrorModel>),
    RestoreProcess(Result<(), ErrorModel>),
    InstallTitle(Result<bool, ErrorModel>),
    RollbackTitle(Result<(), ErrorModel>),
    RemoveTitle(Result<bool, ErrorModel>),
    PrepareShells(Result<(), FailureModel>),
    ApplyShells(Result<Seq<OutcomeModel>, FailureModel>),
    RollbackShells(Result<(), FailureModel>),
    InstallTmux(Result<InstallModel, FailureModel>),
    UninstallTmux(Result<bool, FailureModel>),
    CompareTmux(Result<bool, FailureModel>),
    RestoreTmux(Result<(), FailureModel>),
    AskServer(bool),
    ReloadTmux(Result<(), Seq<char>>),
}

pub open spec fn shells_result(r: Result<Vec<ShellOutcome>, InstallError>) -> Result<
    Seq<OutcomeModel>,
    FailureModel,
> {
    match r {
        Ok(v) => Ok(transaction::outcome_list(v@)),
        Err(e) => Err(e@),
    }
}

pub open spec fn tmux_result(r: Result<InstallOutcome, InstallError>) -> Result<
    InstallModel,
    FailureModel,
> {
    match r {
        Ok(o) => Ok(install_view(o)),
        Err(e) => Err(e@),
    }
}

pub open spec fn reload_result(r: Result<(), String>) -> Result<(), Seq<char>> {
    match r {
        Ok(_) => Ok(()),
        Err(m) => Err(m@),
    }
}

/// What was done between two states of a host.
pub open spec fn done_since(before: Seq<SetupEvent>, after: Seq<SetupEvent>) -> Seq<SetupEvent> {
    after.skip(before.len() as int)
}

// ---------------------------------------------------------------------------
// Taking tmux and the shells back
// ---------------------------------------------------------------------------

/// What a piece of taking back adds to the failures.
pub open spec fn failure_lines(e: SetupEvent) -> Seq<Seq<char>> {
    match e {
        SetupEvent::CompareTmux(Err(f)) => seq![
            "reading tmux configuration for rollback failed: "@ + failure::failure_text(f),
        ],
        SetupEvent::RestoreTmux(Err(f)) => seq![
            "restoring tmux configuration failed: "@ + failure::failure_text(f),
        ],
        SetupEvent::ReloadTmux(Err(m)) => seq![
            "restoring live tmux configuration failed: "@ + m,
        ],
        SetupEvent::RollbackShells(Err(f)) => seq![
            "restoring shell configuration failed: "@ + failure::failure_text(f),
        ],
        _ => Seq::empty(),
    }
}

pub open spec fn failures_of(seen: Seq<SetupEvent>) -> Seq<Seq<char>>
    decreases seen.len(),
{
    if seen.len() == 0 {
        Seq::empty()
    } else {
        failures_of(seen.drop_last()) + failure_lines(seen.last())
    }
}

/// The tmux configuration was compared and, where it differs, restored; a
/// running server read it; and the startup files were taken back. None of them
/// keeps the next from being tried.
pub open spec fn aggregate_went(seen: Seq<SetupEvent>) -> bool {
    let differs = seen[0] == SetupEvent::CompareTmux(Ok(false));
    let n: int = if differs {
        2
    } else {
        1
    };
    let running = seen[n] == SetupEvent::AskServer(true);
    let m: int = if running {
        n + 2
    } else {
        n + 1
    };
    &&& seen.len() == m + 1
    &&& seen[0] is CompareTmux
    &&& differs ==> seen[1] is RestoreTmux
    &&& seen[n] is AskServer
    &&& running ==> seen[n + 1] is ReloadTmux
    &&& seen[m] is RollbackShells
}

pub open spec fn aggregate_result(cause: Seq<char>, failures: Seq<Seq<char>>) -> Result<
    (),
    ErrorModel,
> {
    if failures.len() == 0 {
        Ok(())
    } else {
        Err(
            ErrorModel::Command(
                cause + "; aggregate rollback also failed: "@ + scan::join_with(failures, "; "@),
            ),
        )
    }
}

proof fn one_more(seen: Seq<SetupEvent>, e: SetupEvent)
    ensures
        failures_of(seen.push(e)) == failures_of(seen) + failure_lines(e),
{
    assert(seen.push(e).drop_last() =~= seen);
}

fn note(failures: &mut Vec<String>, what: &str, detail: &str)
    ensures
        text::texts(final(failures)@) == text::texts(old(failures)@) + seq![what@ + detail@],
{
    let ghost before = text::texts(failures@);
    let mut line = what.to_owned();
    line.append(detail);
    text::push_text(failures, line);
    assert(text::texts(failures@) =~= before + seq![what@ + detail@]);
}

/// Takes tmux and the startup files back after a failure.
pub fn rollback_aggregate<H: SetupHost>(host: &mut LoggedSetup<H>, cause: &str) -> (r: Result<
    (),
    MuxError,
>)
    ensures
        old(host).events().is_prefix_of(final(host).events()),
        aggregate_went(done_since(old(host).events(), final(host).events())),
        error::outcome(r) == aggregate_result(
            cause@,
            failures_of(done_since(old(host).events(), final(host).events())),
        ),
{
    let ghost start = host.events();
    let mut failures = text::no_texts();
    let ghost mut seen: Seq<SetupEvent> = Seq::empty();
    let compared = host.tmux_is_unchanged();
    let ghost e = SetupEvent::CompareTmux(failure::outcome(compared));
    proof {
        one_more(seen, e);
        seen = seen.push(e);
    }
    match compared {
        Ok(true) => {
            assert(failure_lines(e) =~= Seq::empty());
            assert(text::texts(failures@) =~= failures_of(seen));
        },
        Ok(false) => {
            let restored = host.restore_tmux();
            let ghost e2 = SetupEvent::RestoreTmux(failure::outcome(restored));
            proof {
                one_more(seen, e2);
                seen = seen.push(e2);
            }
            if let Err(error) = restored {
                note(&mut failures, "restoring tmux configuration failed: ", &error.to_text());
            }
            assert(text::texts(failures@) =~= failures_of(seen));
        },
        Err(error) => {
            note(
                &mut failures,
                "reading tmux configuration for rollback failed: ",
                &error.to_text(),
            );
            assert(text::texts(failures@) =~= failures_of(seen));
        },
    }
    assert(host.events() =~= start + seen);
    let running = host.server_is_running();
    proof {
        one_more(seen, SetupEvent::AskServer(running));
        seen = seen.push(SetupEvent::AskServer(running));
    }
    if running {
        let reloaded = host.reload_tmux();
        let ghost e3 = SetupEvent::ReloadTmux(reload_result(reloaded));
        proof {
            one_more(seen, e3);
            seen = seen.push(e3);
        }
        if let Err(message) = reloaded {
            note(&mut failures, "restoring live tmux configuration failed: ", &message);
        }
    }
    assert(text::texts(failures@) =~= failures_of(seen));
    let rolled = host.rollback_shells();
    let ghost e4 = SetupEvent::RollbackShells(failure::outcome(rolled));
    proof {
        one_more(seen, e4);
        seen = seen.push(e4);
    }
    if let Err(error) = rolled {
        note(&mut failures, "restoring shell configuration failed: ", &error.to_text());
    }
    proof {
        assert(text::texts(failures@) =~= failures_of(seen));
        assert(host.events() =~= start + seen);
        assert(done_since(start, host.events()) =~= seen);
        assert(failures_of(seen).len() == failures@.len());
    }
    if failures.len() == 0 {
        return Ok(());
    }
    let mut message = cause.to_owned();
    message.append("; aggregate rollback also failed: ");
    message.append(&text::join_texts(&failures, "; "));
    Err(command_error(&message))
}

// ---------------------------------------------------------------------------
// Setup
// ---------------------------------------------------------------------------

/// What a setup changed.
pub struct SetupReport {
    pub shells: Vec<ShellOutcome>,
    pub tmux: InstallOutcome,
    pub title_changed: bool,
}

#[verifier::ext_equal]
pub struct ReportModel {
    pub shells: Seq<OutcomeModel>,
    pub tmux: InstallModel,
    pub title_changed: bool,
}

impl View for SetupReport {
    type V = ReportModel;

    open spec fn view(&self) -> ReportModel {
        ReportModel {
            shells: transaction::outcome_list(self.shells@),
            tmux: install_view(self.tmux),
            title_changed: self.title_changed,
        }
    }
}

pub open spec fn report_outcome(r: Result<SetupReport, MuxError>) -> Result<
    ReportModel,
    ErrorModel,
> {
    match r {
        Ok(report) => Ok(report@),
        Err(e) => Err(e@),
    }
}

/// The saved settings were put back, where they had been saved; a failure of
/// that goes before the cause.
pub open spec fn process_undone(
    persist: bool,
    seen: Seq<SetupEvent>,
    cause: ErrorModel,
    result: Result<ReportModel, ErrorModel>,
) -> bool {
    if persist {
        &&& seen.len() == 1
        &&& match seen[0] {
            SetupEvent::RestoreProcess(Ok(_)) => result == Err::<ReportModel, ErrorModel>(cause),
            SetupEvent::RestoreProcess(Err(e)) => result == Err::<ReportModel, ErrorModel>(e),
            _ => false,
        }
    } else {
        seen.len() == 0 && result == Err::<ReportModel, ErrorModel>(cause)
    }
}

/// The title setting was taken back, then the saved settings; a failure ends it.
pub open spec fn title_undone(
    persist: bool,
    seen: Seq<SetupEvent>,
    cause: ErrorModel,
    result: Result<ReportModel, ErrorModel>,
) -> bool {
    &&& seen.len() >= 1
    &&& match seen[0] {
        SetupEvent::RollbackTitle(Ok(_)) => process_undone(persist, seen.skip(1), cause, result),
        SetupEvent::RollbackTitle(Err(e)) => seen.len() == 1 && result == Err::<
            ReportModel,
            ErrorModel,
        >(e),
        _ => false,
    }
}

pub open spec fn undo_error(e: SetupEvent) -> Option<ErrorModel> {
    match e {
        SetupEvent::RollbackTitle(Err(x)) => Some(x),
        SetupEvent::RestoreProcess(Err(x)) => Some(x),
        _ => None,
    }
}

/// Everything was taken back, each part whatever became of the others; the
/// first failure of that goes before the cause.
pub open spec fn all_undone(
    persist: bool,
    seen: Seq<SetupEvent>,
    cause: FailureModel,
    result: Result<ReportModel, ErrorModel>,
) -> bool {
    let own: int = if persist {
        2
    } else {
        1
    };
    let n = seen.len() - own;
    let rolled = aggregate_result(failure::failure_text(cause), failures_of(seen.take(n)));
    &&& n >= 0
    &&& aggregate_went(seen.take(n))
    &&& seen[n] is RollbackTitle
    &&& persist ==> seen[n + 1] is RestoreProcess
    &&& result == Err::<ReportModel, ErrorModel>(
        if rolled is Err {
            rolled->Err_0
        } else if undo_error(seen[n]) is Some {
            undo_error(seen[n])->0
        } else if persist && undo_error(seen[n + 1]) is Some {
            undo_error(seen[n + 1])->0
        } else {
            process::as_command(cause)
        },
    )
}

pub open spec fn tmux_went(
    persist: bool,
    seen: Seq<SetupEvent>,
    title_changed: bool,
    shells: Seq<OutcomeModel>,
    result: Result<ReportModel, ErrorModel>,
) -> bool {
    &&& seen.len() >= 1
    &&& match seen[0] {
        SetupEvent::InstallTmux(Ok(tmux)) => seen.len() == 1 && result == Ok::<
            ReportModel,
            ErrorModel,
        >((ReportModel { shells, tmux, title_changed })),
        SetupEvent::InstallTmux(Err(f)) => all_undone(persist, seen.skip(1), f, result),
        _ => false,
    }
}

pub open spec fn apply_went(
    persist: bool,
    seen: Seq<SetupEvent>,
    title_changed: bool,
    result: Result<ReportModel, ErrorModel>,
) -> bool {
    &&& seen.len() >= 1
    &&& match seen[0] {
        SetupEvent::ApplyShells(Ok(shells)) => tmux_went(
            persist,
            seen.skip(1),
            title_changed,
            shells,
            result,
        ),
        SetupEvent::ApplyShells(Err(f)) => title_undone(
            persist,
            seen.skip(1),
            process::as_command(f),
            result,
        ),
        _ => false,
    }
}

pub open spec fn shells_went(
    persist: bool,
    seen: Seq<SetupEvent>,
    title_changed: bool,
    result: Result<ReportModel, ErrorModel>,
) -> bool {
    &&& seen.len() >= 1
    &&& match seen[0] {
        SetupEvent::PrepareShells(Ok(_)) => apply_went(
            persist,
            seen.skip(1),
            title_changed,
            result,
        ),
        SetupEvent::PrepareShells(Err(f)) => title_undone(
            persist,
            seen.skip(1),
            process::as_command(f),
            result,
        ),
        _ => false,
    }
}

pub open spec fn title_went(
    persist: bool,
    seen: Seq<SetupEvent>,
    result: Result<ReportModel, ErrorModel>,
) -> bool {
    &&& seen.len() >= 1
    &&& match seen[0] {
        SetupEvent::InstallTitle(Ok(changed)) => shells_went(
            persist,
            seen.skip(1),
            changed,
            result,
        ),
        SetupEvent::InstallTitle(Err(e)) => process_undone(persist, seen.skip(1), e, result),
        _ => false,
    }
}

/// A setup: process settings where they are to be saved, the title of Codex, the
/// startup files, and tmux last; what a failure undoes depends on how far it
/// came.
pub open spec fn setup_went(
    persist: bool,
    seen: Seq<SetupEvent>,
    result: Result<ReportModel, ErrorModel>,
) -> bool {
    if persist {
        &&& seen.len() >= 1
        &&& match seen[0] {
            SetupEvent::SaveProcess(Ok(_)) => title_went(persist, seen.skip(1), result),
            SetupEvent::SaveProcess(Err(e)) => seen.len() == 1 && result == Err::<
                ReportModel,
                ErrorModel,
            >(e),
            _ => false,
        }
    } else {
        title_went(persist, seen, result)
    }
}

proof fn split_events(a: Seq<SetupEvent>, b: Seq<SetupEvent>, c: Seq<SetupEvent>)
    requires
        a.is_prefix_of(b),
        b.is_prefix_of(c),
    ensures
        a.is_prefix_of(c),
        done_since(a, c).skip((b.len() - a.len()) as int) == done_since(b, c),
        done_since(a, c).take((b.len() - a.len()) as int) == done_since(a, b),
{
    assert(done_since(a, c).skip((b.len() - a.len()) as int) =~= done_since(b, c));
    assert(done_since(a, c).take((b.len() - a.len()) as int) =~= done_since(a, b));
}

fn undo_process<H: SetupHost>(host: &mut LoggedSetup<H>, persist: bool, cause: MuxError) -> (r:
    MuxError)
    ensures
        old(host).events().is_prefix_of(final(host).events()),
        process_undone(
            persist,
            done_since(old(host).events(), final(host).events()),
            cause@,
            Err(r@),
        ),
{
    let ghost start = host.events();
    assert(done_since(start, start) =~= Seq::empty());
    if persist {
        let restored = host.restore_process();
        assert(done_since(start, host.events()) =~= seq![host.events().last()]);
        if let Err(e) = restored {
            return e;
        }
    }
    cause
}

fn undo_title<H: SetupHost>(host: &mut LoggedSetup<H>, persist: bool, cause: MuxError) -> (r:
    MuxError)
    ensures
        old(host).events().is_prefix_of(final(host).events()),
        title_undone(
            persist,
            done_since(old(host).events(), final(host).events()),
            cause@,
            Err(r@),
        ),
{
    let ghost start = host.events();
    let rolled = host.rollback_title();
    let ghost first = host.events();
    assert(done_since(start, first) =~= seq![first.last()]);
    if let Err(e) = rolled {
        return e;
    }
    let r = undo_process(host, persist, cause);
    proof {
        split_events(start, first, host.events());
        assert(done_since(start, host.events())[0] == first.last());
    }
    r
}

fn undo_all<H: SetupHost>(host: &mut LoggedSetup<H>, persist: bool, cause: &InstallError) -> (r:
    MuxError)
    ensures
        old(host).events().is_prefix_of(final(host).events()),
        all_undone(
            persist,
            done_since(old(host).events(), final(host).events()),
            cause@,
            Err(r@),
        ),
{
    let ghost start = host.events();
    let rolled = rollback_aggregate(host, &cause.to_text());
    let ghost middle = host.events();
    let title = host.rollback_title();
    let ghost third = host.events();
    let saved = if persist {
        host.restore_process()
    } else {
        Ok(())
    };
    proof {
        let end = host.events();
        let seen = done_since(start, end);
        let own: int = if persist {
            2
        } else {
            1
        };
        split_events(start, middle, end);
        assert(seen.len() - own == middle.len() - start.len());
        assert(seen[seen.len() - own] == third.last());
        if persist {
            assert(seen[seen.len() - own + 1] == end.last());
        }
    }
    match rolled {
        Err(e) => return e,
        Ok(()) => {},
    }
    match title {
        Err(e) => return e,
        Ok(()) => {},
    }
    match saved {
        Err(e) => return e,
        Ok(()) => {},
    }
    install_error(cause)
}

proof fn one_then(start: Seq<SetupEvent>, e: SetupEvent, end: Seq<SetupEvent>)
    requires
        start.push(e).is_prefix_of(end),
    ensures
        start.is_prefix_of(end),
        done_since(start, end).len() >= 1,
        done_since(start, end)[0] == e,
        done_since(start, end).skip(1) == done_since(start.push(e), end),
{
    assert(end[start.len() as int] == start.push(e)[start.len() as int]);
    assert(done_since(start, end).skip(1) =~= done_since(start.push(e), end));
}

fn setup_tmux<H: SetupHost>(
    host: &mut LoggedSetup<H>,
    persist: bool,
    title_changed: bool,
    shells: Vec<ShellOutcome>,
) -> (r: Result<SetupReport, MuxError>)
    ensures
        old(host).events().is_prefix_of(final(host).events()),
        tmux_went(
            persist,
            done_since(old(host).events(), final(host).events()),
            title_changed,
            transaction::outcome_list(shells@),
            report_outcome(r),
        ),
{
    let ghost start = host.events();
    let installed = host.install_tmux();
    let ghost e = host.events().last();
    match installed {
        Ok(tmux) => {
            assert(done_since(start, host.events()) =~= seq![e]);
            Ok(SetupReport { shells, tmux, title_changed })
        },
        Err(error) => {
            let cause = undo_all(host, persist, &error);
            proof {
                one_then(start, e, host.events());
            }
            Err(cause)
        },
    }
}

fn setup_applied<H: SetupHost>(host: &mut LoggedSetup<H>, persist: bool, title_changed: bool) -> (r:
    Result<SetupReport, MuxError>)
    ensures
        old(host).events().is_prefix_of(final(host).events()),
        apply_went(
            persist,
            done_since(old(host).events(), final(host).events()),
            title_changed,
            report_outcome(r),
        ),
{
    let ghost start = host.events();
    let applied = host.apply_shells();
    let ghost e = host.events().last();
    let r = match applied {
        Ok(shells) => setup_tmux(host, persist, title_changed, shells),
        Err(error) => Err(undo_title(host, persist, install_error(&error))),
    };
    proof {
        one_then(start, e, host.events());
    }
    r
}

fn setup_shells<H: SetupHost>(host: &mut LoggedSetup<H>, persist: bool, title_changed: bool) -> (r:
    Result<SetupReport, MuxError>)
    ensures
        old(host).events().is_prefix_of(final(host).events()),
        shells_went(
            persist,
            done_since(old(host).events(), final(host).events()),
            title_changed,
            report_outcome(r),
        ),
{
    let ghost start = host.events();
    let prepared = host.prepare_shells();
    let ghost e = host.events().last();
    let r = match prepared {
        Ok(()) => setup_applied(host, persist, title_changed),
        Err(error) => Err(undo_title(host, persist, install_error(&error))),
    };
    proof {
        one_then(start, e, host.events());
    }
    r
}

fn setup_title<H: SetupHost>(host: &mut LoggedSetup<H>, persist: bool) -> (r: Result<
    SetupReport,
    MuxError,
>)
    ensures
        old(host).events().is_prefix_of(final(host).events()),
        title_went(
            persist,
            done_since(old(host).events(), final(host).events()),
            report_outcome(r),
        ),
{
    let ghost start = host.events();
    let titled = host.install_title();
    let ghost e = host.events().last();
    let r = match titled {
        Ok(changed) => setup_shells(host, persist, changed),
        Err(error) => Err(undo_process(host, persist, error)),
    };
    proof {
        one_then(start, e, host.events());
    }
    r
}

/// Carries a setup out.
pub fn run_setup<H: SetupHost>(host: &mut LoggedSetup<H>, persist: bool) -> (r: Result<
    SetupReport,
    MuxError,
>)
    ensures
        old(host).events().is_prefix_of(final(host).events()),
        setup_went(
            persist,
            done_since(old(host).events(), final(host).events()),
            report_outcome(r),
        ),
{
    if !persist {
        return setup_title(host, persist);
    }
    let ghost start = host.events();
    let saved = host.save_process();
    let ghost e = host.events().last();
    match saved {
        Ok(()) => {
            let r = setup_title(host, persist);
            proof {
                one_then(start, e, host.events());
            }
            r
        },
        Err(error) => {
            assert(done_since(start, host.events()) =~= seq![e]);
            Err(error)
        },
    }
}

pub open spec fn restored_settings(e: SetupEvent) -> bool {
    e is RestoreProcess && e->RestoreProcess_0 is Ok
}

pub open spec fn restored_title(e: SetupEvent) -> bool {
    e is RollbackTitle && e->RollbackTitle_0 is Ok
}

pub open spec fn restored_shells(e: SetupEvent) -> bool {
    e is RollbackShells && e->RollbackShells_0 is Ok
}

/// No attempt at taking something back failed.
pub open spec fn undo_held(seen: Seq<SetupEvent>) -> bool {
    forall|i: int|
        0 <= i < seen.len() ==> failure_lines(#[trigger] seen[i]).len() == 0 && undo_error(
            seen[i],
        ) is None
}

/// Where what is undone holds, a failed setup has put back the saved settings
/// that it had replaced.
pub proof fn a_failed_setup_restores_the_settings(
    seen: Seq<SetupEvent>,
    result: Result<ReportModel, ErrorModel>,
)
    requires
        setup_went(true, seen, result),
        result is Err,
        seen[0] is SaveProcess,
        seen[0]->SaveProcess_0 is Ok,
        undo_held(seen),
    ensures
        restored_settings(seen.last()),
{
    let a = seen.skip(1);
    assert(undo_error(seen.last()) is None);
    if a[0] is InstallTitle && a[0]->InstallTitle_0 is Ok {
        let b = a.skip(1);
        if b[0] is PrepareShells && b[0]->PrepareShells_0 is Ok {
            let c = b.skip(1);
            if c[0] is ApplyShells && c[0]->ApplyShells_0 is Ok {
                let d = c.skip(1);
                assert(d.skip(1).last() == seen.last());
            } else {
                let u = c.skip(1);
                assert(u[0] == seen[4]);
                assert(undo_error(seen[4]) is None);
                assert(u.skip(1).last() == seen.last());
            }
        } else {
            let u = b.skip(1);
            assert(u[0] == seen[3]);
            assert(undo_error(seen[3]) is None);
            assert(u.skip(1).last() == seen.last());
        }
    } else {
        assert(a.skip(1).last() == seen.last());
    }
}

/// Where tmux could not be installed, the startup files and the title setting
/// were taken back, whether or not process settings had been saved.
pub proof fn a_failed_installation_is_undone(
    persist: bool,
    seen: Seq<SetupEvent>,
    cause: FailureModel,
    result: Result<ReportModel, ErrorModel>,
)
    requires
        all_undone(persist, seen, cause, result),
        undo_held(seen),
    ensures
        result == Err::<ReportModel, ErrorModel>(process::as_command(cause)),
        exists|i: int| 0 <= i < seen.len() && restored_shells(#[trigger] seen[i]),
        exists|i: int| 0 <= i < seen.len() && restored_title(#[trigger] seen[i]),
        persist ==> exists|i: int|
            0 <= i < seen.len() && restored_settings(#[trigger] seen[i]),
{
    let own: int = if persist {
        2
    } else {
        1
    };
    let n = seen.len() - own;
    let part = seen.take(n);
    no_failures(part);
    assert(part.last() == seen[n - 1]);
    assert(failure_lines(seen[n - 1]).len() == 0);
    assert(restored_shells(seen[n - 1]));
    assert(undo_error(seen[n]) is None);
    assert(restored_title(seen[n]));
    if persist {
        assert(undo_error(seen[n + 1]) is None);
        assert(restored_settings(seen[n + 1]));
    }
}

proof fn no_failures(seen: Seq<SetupEvent>)
    requires
        forall|i: int| 0 <= i < seen.len() ==> failure_lines(#[trigger] seen[i]).len() == 0,
    ensures
        failures_of(seen).len() == 0,
    decreases seen.len(),
{
    if seen.len() > 0 {
        no_failures(seen.drop_last());
        assert(failure_lines(seen[seen.len() - 1]).len() == 0);
    }
}

// ---------------------------------------------------------------------------
// Removal
// ---------------------------------------------------------------------------

/// What a removal changed.
pub struct RemovalReport {
    pub shells: Vec<ShellOutcome>,
    pub removed: bool,
    pub title_restored: bool,
}

#[verifier::ext_equal]
pub struct RemovalModel {
    pub shells: Seq<OutcomeModel>,
    pub removed: bool,
    pub title_restored: bool,
}

pub open spec fn removal_outcome(r: Result<RemovalReport, MuxError>) -> Result<
    RemovalModel,
    ErrorModel,
> {
    match r {
        Ok(report) => Ok(
            RemovalModel {
                shells: transaction::outcome_list(report.shells@),
                removed: report.removed,
                title_restored: report.title_restored,
            },
        ),
        Err(e) => Err(e@),
    }
}

/// The earlier state was taken back, and `after` is reported unless that failed.
pub open spec fn taken_back(
    seen: Seq<SetupEvent>,
    cause: Seq<char>,
    after: ErrorModel,
    result: Result<RemovalModel, ErrorModel>,
) -> bool {
    let rolled = aggregate_result(cause, failures_of(seen));
    &&& aggregate_went(seen)
    &&& result == Err::<RemovalModel, ErrorModel>(
        if rolled is Err {
            rolled->Err_0
        } else {
            after
        },
    )
}

/// What is reported of a title setting that could not be given back.
pub open spec fn title_failure(e: ErrorModel) -> FailureModel {
    FailureModel::InvalidValue {
        field: "Codex terminal-title restoration"@,
        reason: error::error_text(e),
    }
}

pub open spec fn removal_ended(
    seen: Seq<SetupEvent>,
    shells: Seq<OutcomeModel>,
    removed: bool,
    result: Result<RemovalModel, ErrorModel>,
) -> bool {
    &&& seen.len() >= 1
    &&& match seen[0] {
        SetupEvent::RemoveTitle(Ok(title_restored)) => seen.len() == 1 && result == Ok::<
            RemovalModel,
            ErrorModel,
        >((RemovalModel { shells, removed, title_restored })),
        SetupEvent::RemoveTitle(Err(e)) => taken_back(
            seen.skip(1),
            failure::failure_text(title_failure(e)),
            e,
            result,
        ),
        _ => false,
    }
}

pub open spec fn removal_of_tmux(
    seen: Seq<SetupEvent>,
    shells: Seq<OutcomeModel>,
    result: Result<RemovalModel, ErrorModel>,
) -> bool {
    &&& seen.len() >= 1
    &&& match seen[0] {
        SetupEvent::UninstallTmux(Ok(removed)) => removal_ended(
            seen.skip(1),
            shells,
            removed,
            result,
        ),
        SetupEvent::UninstallTmux(Err(f)) => taken_back(
            seen.skip(1),
            failure::failure_text(f),
            process::as_command(f),
            result,
        ),
        _ => false,
    }
}

/// A removal: the startup files first, then tmux, then the title of Codex.
pub open spec fn removal_went(
    seen: Seq<SetupEvent>,
    result: Result<RemovalModel, ErrorModel>,
) -> bool {
    &&& seen.len() >= 1
    &&& match seen[0] {
        SetupEvent::PrepareShells(Err(f)) => seen.len() == 1 && result == Err::<
            RemovalModel,
            ErrorModel,
        >(process::as_command(f)),
        SetupEvent::PrepareShells(Ok(_)) => {
            &&& seen.len() >= 2
            &&& match seen[1] {
                SetupEvent::ApplyShells(Err(f)) => seen.len() == 2 && result == Err::<
                    RemovalModel,
                    ErrorModel,
                >(process::as_command(f)),
                SetupEvent::ApplyShells(Ok(shells)) => removal_of_tmux(
                    seen.skip(2),
                    shells,
                    result,
                ),
                _ => false,
            }
        },
        _ => false,
    }
}

fn take_back<H: SetupHost>(host: &mut LoggedSetup<H>, cause: &str, after: MuxError) -> (r: MuxError)
    ensures
        old(host).events().is_prefix_of(final(host).events()),
        taken_back(
            done_since(old(host).events(), final(host).events()),
            cause@,
            after@,
            Err(r@),
        ),
{
    match rollback_aggregate(host, cause) {
        Err(e) => e,
        Ok(()) => after,
    }
}

fn end_removal<H: SetupHost>(
    host: &mut LoggedSetup<H>,
    shells: Vec<ShellOutcome>,
    removed: bool,
) -> (r: Result<RemovalReport, MuxError>)
    ensures
        old(host).events().is_prefix_of(final(host).events()),
        removal_ended(
            done_since(old(host).events(), final(host).events()),
            transaction::outcome_list(shells@),
            removed,
            removal_outcome(r),
        ),
{
    let ghost start = host.events();
    let title = host.remove_title();
    let ghost e = host.events().last();
    match title {
        Ok(title_restored) => {
            assert(done_since(start, host.events()) =~= seq![e]);
            Ok(RemovalReport { shells, removed, title_restored })
        },
        Err(error) => {
            let cause = InstallError::InvalidValue {
                field: "Codex terminal-title restoration",
                reason: error.to_text(),
            };
            assert(cause@ == title_failure(error@));
            let r = take_back(host, &cause.to_text(), error);
            proof {
                one_then(start, e, host.events());
            }
            Err(r)
        },
    }
}

fn remove_tmux<H: SetupHost>(host: &mut LoggedSetup<H>, shells: Vec<ShellOutcome>) -> (r: Result<
    RemovalReport,
    MuxError,
>)
    ensures
        old(host).events().is_prefix_of(final(host).events()),
        removal_of_tmux(
            done_since(old(host).events(), final(host).events()),
            transaction::outcome_list(shells@),
            removal_outcome(r),
        ),
{
    let ghost start = host.events();
    let uninstalled = host.uninstall_tmux();
    let ghost e = host.events().last();
    let r = match uninstalled {
        Ok(removed) => end_removal(host, shells, removed),
        Err(error) => Err(take_back(host, &error.to_text(), install_error(&error))),
    };
    proof {
        one_then(start, e, host.events());
    }
    r
}

/// Carries a removal out.
pub fn run_remove<H: SetupHost>(host: &mut LoggedSetup<H>) -> (r: Result<RemovalReport, MuxError>)
    ensures
        old(host).events().is_prefix_of(final(host).events()),
        removal_went(
            done_since(old(host).events(), final(host).events()),
            removal_outcome(r),
        ),
{
    let ghost start = host.events();
    let prepared = host.prepare_shells();
    let ghost first = host.events();
    assert(done_since(start, first) =~= seq![first.last()]);
    if let Err(e) = prepared {
        return Err(install_error(&e));
    }
    let applied = host.apply_shells();
    let ghost second = host.events();
    assert(done_since(start, second) =~= seq![first.last(), second.last()]);
    let shells = match applied {
        Ok(shells) => shells,
        Err(e) => return Err(install_error(&e)),
    };
    let r = remove_tmux(host, shells);
    proof {
        let end = host.events();
        split_events(start, second, end);
        assert(done_since(start, end)[0] == first.last());
        assert(done_since(start, end)[1] == second.last());
        assert(done_since(start, end).skip(2) =~= done_since(second, end));
    }
    r
}

} // verus!
