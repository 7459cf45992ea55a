//! In what order a setup and a removal act, and what they report.

use vstd::prelude::*;
use crate::app::setup;
use crate::app::setup::{RemovalModel, ReportModel, SetupEvent};
use crate::error::ErrorModel;

verus! {

/// A setup that succeeds has saved the settings where that was asked for, then set the
/// title, then prepared and changed the shells, and last installed the binding, each of them
/// with success; and reports just that.
pub proof fn a_setup_that_succeeds_did_everything(
    persist: bool,
    seen: Seq<SetupEvent>,
    report: ReportModel,
)
    requires
        setup::setup_went(persist, seen, Ok::<ReportModel, ErrorModel>(report)),
    ensures
        ({
            let n: int = if persist {
                1
            } else {
                0
            };
            &&& seen.len() == n + 4
            &&& persist ==> seen[0] is SaveProcess && seen[0]->SaveProcess_0 is Ok
            &&& seen[n] == SetupEvent::InstallTitle(Ok(report.title_changed))
            &&& seen[n + 1] is PrepareShells && seen[n + 1]->PrepareShells_0 is Ok
            &&& seen[n + 2] == SetupEvent::ApplyShells(Ok(report.shells))
            &&& seen[n + 3] == SetupEvent::InstallTmux(Ok(report.tmux))
        }),
{
    let a = if persist {
        seen.skip(1)
    } else {
        seen
    };
    let n: int = if persist {
        1
    } else {
        0
    };
    assert(a.len() == seen.len() - n);
    assert(a[0] == seen[n]);
    let b = a.skip(1);
    let c = b.skip(1);
    let d = c.skip(1);
    assert(b.len() == a.len() - 1 && c.len() == b.len() - 1 && d.len() == c.len() - 1);
    assert(b[0] == seen[n + 1]);
    assert(c[0] == seen[n + 2]);
    assert(d[0] == seen[n + 3]);
}

/// A setup that cannot save the settings touches nothing else.
pub proof fn a_setup_that_cannot_save_stops(
    seen: Seq<SetupEvent>,
    result: Result<ReportModel, ErrorModel>,
    e: ErrorModel,
)
    requires
        setup::setup_went(true, seen, result),
        seen[0] == SetupEvent::SaveProcess(Err(e)),
    ensures
        seen.len() == 1,
        result == Err::<ReportModel, ErrorModel>(e),
{
}

/// A removal that succeeds has prepared and changed the shells, then taken the binding away,
/// and last given the title back; and reports just that.
pub proof fn a_removal_that_succeeds_did_everything(
    seen: Seq<SetupEvent>,
    report: RemovalModel,
)
    requires
        setup::removal_went(seen, Ok::<RemovalModel, ErrorModel>(report)),
    ensures
        seen.len() == 4,
        seen[0] is PrepareShells && seen[0]->PrepareShells_0 is Ok,
        seen[1] == SetupEvent::ApplyShells(Ok(report.shells)),
        seen[2] == SetupEvent::UninstallTmux(Ok(report.removed)),
        seen[3] == SetupEvent::RemoveTitle(Ok(report.title_restored)),
{
    let a = seen.skip(2);
    let b = a.skip(1);
    assert(a.len() == seen.len() - 2 && b.len() == a.len() - 1);
    assert(a[0] == seen[2]);
    assert(b[0] == seen[3]);
}

} // verus!
