//! What the naming daemon does, from the moment it holds its lock until it leaves.

use vstd::prelude::*;
use crate::app::cycle;
use crate::app::cycle::{next_retry, FIRST_RETRY_MILLIS, LONGEST_RETRY_MILLIS};

verus! {

/// How long a pause between two looks is.
pub const DAEMON_PAUSE_MILLIS: u64 = 100;

/// What the daemon does next.
#[derive(Clone, Copy, Debug, PartialEq, Eq, Structural)]
pub enum DaemonAction {
    /// Looks whether naming is enabled, the tmux server the same and a round due.
    Look,
    /// Runs a round of reconciliation.
    Reconcile,
    /// Has the worker start its next cycle at once.
    Wake,
    /// Looks whether the worker has finished.
    Inspect,
    /// Stops the finished worker and waits.
    Wait(u64),
    /// Starts another worker.
    Restart,
    /// Does nothing for a while.
    Pause(u64),
    /// Stops the worker, if there is one, and looks whether naming is enabled.
    Stop,
    /// Takes every generated name away.
    Clear,
    /// Is over.
    Leave,
}

/// What came of an action.
#[derive(Clone, Copy, Debug, PartialEq, Eq, Structural)]
pub enum DaemonEvent {
    Looked { enabled: bool, same_server: bool, due: bool },
    Reconciled { pending: bool },
    Inspected { finished: bool },
    /// Whether the wait came to its end.
    Waited { over: bool },
    Stopped { enabled: bool },
    Done,
}

/// The action after an action, by what came of it. An event that belongs to another
/// action changes nothing.
pub open spec fn action_after(action: DaemonAction, retry: u64, event: DaemonEvent) -> DaemonAction {
    match (action, event) {
        (DaemonAction::Look, DaemonEvent::Looked { enabled, same_server, due }) => if !enabled
            || !same_server {
            DaemonAction::Stop
        } else if due {
            DaemonAction::Reconcile
        } else {
            DaemonAction::Inspect
        },
        (DaemonAction::Reconcile, DaemonEvent::Reconciled { pending }) => if pending {
            DaemonAction::Wake
        } else {
            DaemonAction::Inspect
        },
        (DaemonAction::Wake, DaemonEvent::Done) => DaemonAction::Inspect,
        (DaemonAction::Inspect, DaemonEvent::Inspected { finished }) => if finished {
            DaemonAction::Wait(retry)
        } else {
            DaemonAction::Pause(DAEMON_PAUSE_MILLIS)
        },
        (DaemonAction::Wait(_), DaemonEvent::Waited { over }) => if over {
            DaemonAction::Restart
        } else {
            DaemonAction::Stop
        },
        (DaemonAction::Restart, DaemonEvent::Done) => DaemonAction::Pause(DAEMON_PAUSE_MILLIS),
        (DaemonAction::Pause(_), DaemonEvent::Done) => DaemonAction::Look,
        (DaemonAction::Stop, DaemonEvent::Stopped { enabled }) => if enabled {
            DaemonAction::Leave
        } else {
            DaemonAction::Clear
        },
        (DaemonAction::Clear, DaemonEvent::Done) => DaemonAction::Leave,
        _ => action,
    }
}

/// The next wait for a worker: it grows with every wait that came to its end.
pub open spec fn retry_after(action: DaemonAction, retry: u64, event: DaemonEvent) -> u64 {
    if action is Wait && event == (DaemonEvent::Waited { over: true }) {
        cycle::longer_retry(retry)
    } else {
        retry
    }
}

/// The naming daemon.
#[derive(Debug)]
pub struct NamingDaemon {
    action: DaemonAction,
    retry: u64,
}

impl NamingDaemon {
    /// What is done now.
    pub closed spec fn doing(&self) -> DaemonAction {
        self.action
    }

    /// How long the next wait for a worker is.
    pub closed spec fn next_wait(&self) -> u64 {
        self.retry
    }

    #[verifier::type_invariant]
    closed spec fn waits_are_bounded(self) -> bool {
        FIRST_RETRY_MILLIS <= self.retry <= LONGEST_RETRY_MILLIS
    }

    /// A daemon that begins, or that only takes names away where naming is disabled.
    pub fn new(enabled: bool) -> (r: Self)
        ensures
            r.doing() == if enabled {
                DaemonAction::Look
            } else {
                DaemonAction::Clear
            },
            r.next_wait() == FIRST_RETRY_MILLIS,
    {
        let action = if enabled {
            DaemonAction::Look
        } else {
            DaemonAction::Clear
        };
        NamingDaemon { action, retry: FIRST_RETRY_MILLIS }
    }

    /// What to do now.
    pub fn action(&self) -> (r: DaemonAction)
        ensures
            r == self.doing(),
    {
        self.action
    }

    /// Goes on after an action.
    pub fn advance(&mut self, event: DaemonEvent)
        ensures
            final(self).doing() == action_after(old(self).doing(), old(self).next_wait(), event),
            final(self).next_wait() == retry_after(
                old(self).doing(),
                old(self).next_wait(),
                event,
            ),
            FIRST_RETRY_MILLIS <= final(self).next_wait() <= LONGEST_RETRY_MILLIS,
    {
        proof {
            use_type_invariant(&*self);
        }
        let mut retry: u64 = self.retry;
        let action = match (self.action, event) {
            (DaemonAction::Look, DaemonEvent::Looked { enabled, same_server, due }) => {
                if !enabled || !same_server {
                    DaemonAction::Stop
                } else if due {
                    DaemonAction::Reconcile
                } else {
                    DaemonAction::Inspect
                }
            },
            (DaemonAction::Reconcile, DaemonEvent::Reconciled { pending }) => {
                if pending {
                    DaemonAction::Wake
                } else {
                    DaemonAction::Inspect
                }
            },
            (DaemonAction::Wake, DaemonEvent::Done) => DaemonAction::Inspect,
            (DaemonAction::Inspect, DaemonEvent::Inspected { finished }) => {
                if finished {
                    DaemonAction::Wait(retry)
                } else {
                    DaemonAction::Pause(DAEMON_PAUSE_MILLIS)
                }
            },
            (DaemonAction::Wait(_), DaemonEvent::Waited { over }) => {
                if over {
                    retry = next_retry(retry);
                    DaemonAction::Restart
                } else {
                    DaemonAction::Stop
                }
            },
            (DaemonAction::Restart, DaemonEvent::Done) => DaemonAction::Pause(
                DAEMON_PAUSE_MILLIS,
            ),
            (DaemonAction::Pause(_), DaemonEvent::Done) => DaemonAction::Look,
            (DaemonAction::Stop, DaemonEvent::Stopped { enabled }) => {
                if enabled {
                    DaemonAction::Leave
                } else {
                    DaemonAction::Clear
                }
            },
            (DaemonAction::Clear, DaemonEvent::Done) => DaemonAction::Leave,
            (same, _) => same,
        };
        *self = NamingDaemon { action, retry };
    }
}

/// Once it runs, the daemon takes names away only after it saw that naming is
/// disabled: another tmux server alone makes it leave with the names in place.
pub proof fn names_are_taken_away_only_when_disabled(
    action: DaemonAction,
    retry: u64,
    event: DaemonEvent,
)
    requires
        !(action is Clear),
        action_after(action, retry, event) is Clear,
    ensures
        action is Stop,
        event == (DaemonEvent::Stopped { enabled: false }),
{
}

/// The daemon gives up exactly when a look or a wait finds naming disabled or the
/// server gone.
pub proof fn a_daemon_stops_when_it_may_not_go_on(
    action: DaemonAction,
    retry: u64,
    event: DaemonEvent,
)
    requires
        !(action is Stop),
    ensures
        action_after(action, retry, event) is Stop <==> {
            ||| action is Look && (event matches DaemonEvent::Looked {
                enabled,
                same_server,
                ..
            } && (!enabled || !same_server))
            ||| action is Wait && event == (DaemonEvent::Waited { over: false })
        },
{
}

/// A worker is started only after the one before it had finished and the wait that
/// followed came to its end.
pub proof fn a_worker_is_replaced_after_a_full_wait(
    action: DaemonAction,
    retry: u64,
    event: DaemonEvent,
)
    ensures
        action_after(action, retry, event) is Restart && !(action is Restart) ==> action is Wait
            && event == (DaemonEvent::Waited { over: true }),
        action_after(action, retry, event) is Wait && !(action is Wait) ==> action is Inspect
            && event == (DaemonEvent::Inspected { finished: true }),
{
}

} // verus!
