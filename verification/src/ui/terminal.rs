//! Terminal entry and restoration boundaries.

use vstd::prelude::*;
use crate::error;
use crate::error::{ErrorModel, MuxError};
use crate::ui::switch_log::LoggedSwitches;
use crate::ui::terminal_log;
use crate::ui::terminal_log::LoggedTerminal;

verus! {

/// Minimal lifecycle of a terminal that an application takes over.
pub trait TerminalControl {
    /// Enters the application's terminal mode.
    fn enter(&mut self) -> Result<(), MuxError>;

    /// Restores the terminal to its caller-owned mode.
    fn leave(&mut self) -> Result<(), MuxError>;
}

/// Something done with a terminal.
pub enum TerminalEvent {
    Enter(Result<(), ErrorModel>),
    /// The operation ran.
    Run,
    Leave(Result<(), ErrorModel>),
}

/// Runs an operation in the application's terminal mode. A terminal that could not be
/// entered is not left, and the operation does not run; otherwise the operation runs
/// once on the terminal that was entered, and the terminal is left once after it,
/// whatever the operation returned.
pub fn with_restoration<C: TerminalControl, T, E, F: FnOnce(&mut C) -> Result<T, E>>(
    control: &mut LoggedTerminal<C>,
    operation: F,
) -> (r: Result<Result<T, E>, MuxError>)
    requires
        forall|c: &mut C| #[trigger] call_requires(operation, (c,)),
    ensures
        old(control).events().is_prefix_of(final(control).events()),
        ({
            let seen = final(control).events().skip(old(control).events().len() as int);
            &&& seen.len() >= 1
            &&& seen[0] matches TerminalEvent::Enter(entered)
            &&& match entered {
                Err(e) => seen.len() == 1 && r is Err && r->Err_0@ == e,
                Ok(_) => {
                    &&& seen.len() == 3
                    &&& seen[1] is Run
                    &&& seen[2] matches TerminalEvent::Leave(left)
                    &&& match left {
                        Err(e) => r is Err && r->Err_0@ == e,
                        Ok(_) => r is Ok && terminal_log::returned::<C, T, E, F>(
                            operation,
                            r->Ok_0,
                        ),
                    }
                },
            }
        }),
{
    let ghost s = control.events();
    let entered = control.enter();
    let ghost a = control.events();
    assert(a.skip(s.len() as int) =~= seq![a.last()]);
    if let Err(error) = entered {
        return Err(error);
    }
    let result = control.run(operation);
    let ghost b = control.events();
    let left = control.leave();
    let ghost c = control.events();
    assert(c.skip(s.len() as int) =~= seq![a.last(), b.last(), c.last()]);
    match left {
        Err(error) => Err(error),
        Ok(()) => Ok(result),
    }
}

/// What an operation and the restoration after it come to: the error of the
/// operation counts first.
pub open spec fn settled<T>(
    result: Result<T, MuxError>,
    restored: Result<(), ErrorModel>,
    r: Result<T, MuxError>,
) -> bool {
    match result {
        Err(e) => r is Err && r->Err_0@ == e@,
        Ok(value) => match restored {
            Err(e) => r is Err && r->Err_0@ == e,
            Ok(_) => r == Ok::<T, MuxError>(value),
        },
    }
}

pub fn settle<T>(result: Result<T, MuxError>, restored: Result<(), MuxError>) -> (r: Result<
    T,
    MuxError,
>)
    ensures
        settled(result, error::outcome(restored), r),
{
    match (result, restored) {
        (Err(error), _) => Err(error),
        (Ok(_), Err(error)) => Err(error),
        (Ok(value), Ok(())) => Ok(value),
    }
}

/// An operation returned something that settles with the restoration to a result.
pub open spec fn settles<C, T, F: FnOnce(&mut C) -> Result<T, MuxError>>(
    operation: F,
    restored: Result<(), ErrorModel>,
    r: Result<T, MuxError>,
) -> bool {
    exists|result: Result<T, MuxError>| #[trigger]
        terminal_log::returned::<C, T, MuxError, F>(operation, result) && settled(
            result,
            restored,
            r,
        )
}

/// Runs an operation in the application's terminal mode, as `with_restoration` does;
/// an error of the operation counts before one of the restoration.
pub fn with_terminal<C: TerminalControl, T, F: FnOnce(&mut C) -> Result<T, MuxError>>(
    control: &mut LoggedTerminal<C>,
    operation: F,
) -> (r: Result<T, MuxError>)
    requires
        forall|c: &mut C| #[trigger] call_requires(operation, (c,)),
    ensures
        old(control).events().is_prefix_of(final(control).events()),
        ({
            let seen = final(control).events().skip(old(control).events().len() as int);
            &&& seen.len() >= 1
            &&& seen[0] matches TerminalEvent::Enter(entered)
            &&& match entered {
                Err(e) => seen.len() == 1 && r is Err && r->Err_0@ == e,
                Ok(_) => {
                    &&& seen.len() == 3
                    &&& seen[1] is Run
                    &&& seen[2] matches TerminalEvent::Leave(left)
                    &&& settles::<C, T, F>(operation, left, r)
                },
            }
        }),
{
    let ghost s = control.events();
    let entered = control.enter();
    let ghost a = control.events();
    assert(a.skip(s.len() as int) =~= seq![a.last()]);
    if let Err(error) = entered {
        return Err(error);
    }
    let result = control.run(operation);
    let ghost b = control.events();
    let ghost given = result;
    let left = control.leave();
    let ghost c = control.events();
    assert(c.skip(s.len() as int) =~= seq![a.last(), b.last(), c.last()]);
    let ghost restored = error::outcome(left);
    let r = settle(result, left);
    proof {
        assert(terminal_log::returned::<C, T, MuxError, F>(operation, given));
        assert(settled(given, restored, r));
    }
    r
}

// ---------------------------------------------------------------------------
// Raw mode, alternate screen and cursor
// ---------------------------------------------------------------------------

/// The switches of a terminal.
#[derive(Clone, Copy, Debug, PartialEq, Eq, Structural)]
pub enum Switch {
    EnableRaw,
    DisableRaw,
    EnterAlternate,
    LeaveAlternate,
    Hide,
    /// Shows the cursor and leaves the alternate screen.
    ShowAndLeave,
}

/// A terminal whose switches can be set.
pub trait Switchboard {
    fn set(&mut self, switch: Switch) -> Result<(), MuxError>;
}

/// A switch that was set, and what came of it.
pub struct Switched {
    pub switch: Switch,
    pub reply: Result<(), ErrorModel>,
}

/// A terminal that is switched between the caller's mode and the application's.
pub struct CrosstermControl<W> {
    switches: LoggedSwitches<W>,
}

/// How entering went: raw mode, then the alternate screen, then no cursor; what
/// was already set is undone where a step fails.
pub open spec fn entering(seen: Seq<Switched>, r: Result<(), ErrorModel>) -> bool {
    &&& seen.len() >= 1
    &&& seen[0].switch == Switch::EnableRaw
    &&& match seen[0].reply {
        Err(e) => seen.len() == 1 && r == Err::<(), ErrorModel>(e),
        Ok(_) => {
            &&& seen.len() >= 2
            &&& seen[1].switch == Switch::EnterAlternate
            &&& match seen[1].reply {
                Err(e) => seen.len() == 3 && seen[2].switch == Switch::DisableRaw && r == Err::<
                    (),
                    ErrorModel,
                >(e),
                Ok(_) => {
                    &&& seen.len() >= 3
                    &&& seen[2].switch == Switch::Hide
                    &&& match seen[2].reply {
                        Err(e) => seen.len() == 5 && seen[3].switch == Switch::LeaveAlternate
                            && seen[4].switch == Switch::DisableRaw && r == Err::<
                            (),
                            ErrorModel,
                        >(e),
                        Ok(_) => seen.len() == 3 && r is Ok,
                    }
                },
            }
        },
    }
}

/// How leaving went: everything is undone, and the first failure is reported.
pub open spec fn leaving(seen: Seq<Switched>, r: Result<(), ErrorModel>) -> bool {
    &&& seen.len() == 2
    &&& seen[0].switch == Switch::ShowAndLeave
    &&& seen[1].switch == Switch::DisableRaw
    &&& match seen[0].reply {
        Err(e) => r == Err::<(), ErrorModel>(e),
        Ok(_) => r == seen[1].reply,
    }
}

impl<W: Switchboard> CrosstermControl<W> {
    pub closed spec fn switched(&self) -> Seq<Switched> {
        self.switches.events()
    }

    /// Wraps a terminal.
    pub fn new(writer: W) -> (r: Self)
        ensures
            r.switched() == Seq::<Switched>::empty(),
    {
        CrosstermControl { switches: LoggedSwitches::new(writer) }
    }

    pub fn writer(&self) -> (r: &W) {
        self.switches.inner()
    }

    fn set(&mut self, switch: Switch) -> (r: Result<(), MuxError>)
        ensures
            final(self).switched() == old(self).switched().push(
                (Switched { switch, reply: error::outcome(r) }),
            ),
    {
        self.switches.set(switch)
    }
}

impl<W: Switchboard> TerminalControl for CrosstermControl<W> {
    fn enter(&mut self) -> (r: Result<(), MuxError>)
        ensures
            old(self).switched().is_prefix_of(final(self).switched()),
            entering(
                final(self).switched().skip(old(self).switched().len() as int),
                error::outcome(r),
            ),
    {
        let ghost s = self.switched();
        let raw = self.set(Switch::EnableRaw);
        let ghost a = self.switched();
        assert(a.skip(s.len() as int) =~= seq![a.last()]);
        if let Err(error) = raw {
            return Err(error);
        }
        let alternate = self.set(Switch::EnterAlternate);
        let ghost b = self.switched();
        if let Err(error) = alternate {
            let _ = self.set(Switch::DisableRaw);
            let ghost c = self.switched();
            assert(c.skip(s.len() as int) =~= seq![a.last(), b.last(), c.last()]);
            return Err(error);
        }
        let hidden = self.set(Switch::Hide);
        let ghost c = self.switched();
        assert(c.skip(s.len() as int) =~= seq![a.last(), b.last(), c.last()]);
        if let Err(error) = hidden {
            let _ = self.set(Switch::LeaveAlternate);
            let ghost d = self.switched();
            let _ = self.set(Switch::DisableRaw);
            let ghost e = self.switched();
            assert(e.skip(s.len() as int) =~= seq![
                a.last(),
                b.last(),
                c.last(),
                d.last(),
                e.last(),
            ]);
            return Err(error);
        }
        Ok(())
    }

    fn leave(&mut self) -> (r: Result<(), MuxError>)
        ensures
            old(self).switched().is_prefix_of(final(self).switched()),
            leaving(
                final(self).switched().skip(old(self).switched().len() as int),
                error::outcome(r),
            ),
    {
        let ghost s = self.switched();
        let screen = self.set(Switch::ShowAndLeave);
        let ghost a = self.switched();
        let raw = self.set(Switch::DisableRaw);
        let ghost b = self.switched();
        assert(b.skip(s.len() as int) =~= seq![a.last(), b.last()]);
        match screen {
            Err(error) => Err(error),
            Ok(()) => raw,
        }
    }
}

/// A terminal that could not be entered is not in raw mode: raw mode was not
/// enabled, or it was disabled last.
pub proof fn a_failed_entry_is_undone(seen: Seq<Switched>, e: ErrorModel)
    requires
        entering(seen, Err(e)),
    ensures
        seen[0].reply is Err || seen.last().switch == Switch::DisableRaw,
{
}

} // verus!
