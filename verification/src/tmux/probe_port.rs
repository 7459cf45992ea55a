//! What a Smart Left probe acts on, with one record of everything that happened.
//!
//! Nothing outside this module can add to the record, and nothing can be asked, sent or
//! waited for without adding to it.

use vstd::prelude::*;
use crate::domain;
use crate::domain::{CommandOutput, Exchange, PaneProcess, TmuxCommandRunner};
use crate::error::MuxError;
use crate::text;
use crate::tmux::smart_left;
use crate::tmux::smart_left::{DirectAnswer, DirectCodexInspector, ProbeSleeper};

verus! {

/// Something that happened: an exchange with tmux, an answer about a process, or a wait
/// in milliseconds.
#[verifier::ext_equal]
pub enum Sight {
    Tmux(Exchange),
    Answer(DirectAnswer),
    Nap(u64),
}

/// A runner, an inspector and a sleeper whose use is recorded.
pub struct ProbePort<Runner, Inspector, Sleeper> {
    runner: Runner,
    inspector: Inspector,
    sleeper: Sleeper,
    log: Ghost<Seq<Sight>>,
}

impl<Runner: TmuxCommandRunner, Inspector: DirectCodexInspector, Sleeper: ProbeSleeper> ProbePort<
    Runner,
    Inspector,
    Sleeper,
> {
    /// Everything that happened so far, in order.
    pub closed spec fn seen(&self) -> Seq<Sight> {
        self.log@
    }

    pub closed spec fn runner_model(&self) -> Runner {
        self.runner
    }

    pub closed spec fn inspector_model(&self) -> Inspector {
        self.inspector
    }

    pub closed spec fn sleeper_model(&self) -> Sleeper {
        self.sleeper
    }

    pub fn new(runner: Runner, inspector: Inspector, sleeper: Sleeper) -> (r: Self)
        ensures
            r.runner_model() == runner,
            r.inspector_model() == inspector,
            r.sleeper_model() == sleeper,
            r.seen() == Seq::<Sight>::empty(),
    {
        ProbePort { runner, inspector, sleeper, log: Ghost(Seq::empty()) }
    }

    pub fn runner(&self) -> (r: &Runner)
        ensures
            *r == self.runner_model(),
    {
        &self.runner
    }

    pub fn inspector(&self) -> (r: &Inspector)
        ensures
            *r == self.inspector_model(),
    {
        &self.inspector
    }

    pub fn sleeper(&self) -> (r: &Sleeper)
        ensures
            *r == self.sleeper_model(),
    {
        &self.sleeper
    }

    /// Runs one command.
    pub fn run(&mut self, arguments: &Vec<Vec<u8>>) -> (r: Result<CommandOutput, MuxError>)
        ensures
            final(self).seen() == old(self).seen().push(
                Sight::Tmux(
                    Exchange {
                        request: text::words(arguments@),
                        reply: domain::reply_model(r),
                    },
                ),
            ),
    {
        let r = self.runner.run(arguments);
        proof {
            self.log@ = self.log@.push(
                Sight::Tmux(
                    Exchange {
                        request: text::words(arguments@),
                        reply: domain::reply_model(r),
                    },
                ),
            );
        }
        r
    }

    /// Whether the foreground process of a pane is the exact Codex process.
    pub fn is_direct_codex(&mut self, pane: &PaneProcess) -> (r: Result<bool, MuxError>)
        ensures
            final(self).seen() == old(self).seen().push(
                Sight::Answer(
                    DirectAnswer::Codex {
                        pid: pane.pid,
                        tty: pane.tty@,
                        yes: smart_left::is_yes(r),
                    },
                ),
            ),
    {
        let r = self.inspector.is_direct_codex(pane);
        proof {
            self.log@ = self.log@.push(
                Sight::Answer(
                    DirectAnswer::Codex {
                        pid: pane.pid,
                        tty: pane.tty@,
                        yes: smart_left::is_yes(r),
                    },
                ),
            );
        }
        r
    }

    /// Whether the foreground process of a pane is the exact shell.
    pub fn is_direct_shell(&mut self, pid: u32, command: &str) -> (r: Result<bool, MuxError>)
        ensures
            final(self).seen() == old(self).seen().push(
                Sight::Answer(
                    DirectAnswer::Shell { pid, command: command@, yes: smart_left::is_yes(r) },
                ),
            ),
    {
        let r = self.inspector.is_direct_shell(pid, command);
        proof {
            self.log@ = self.log@.push(
                Sight::Answer(
                    DirectAnswer::Shell { pid, command: command@, yes: smart_left::is_yes(r) },
                ),
            );
        }
        r
    }

    /// Waits.
    pub fn sleep(&mut self, millis: u64)
        ensures
            final(self).seen() == old(self).seen().push(Sight::Nap(millis)),
    {
        self.sleeper.sleep(millis);
        proof {
            self.log@ = self.log@.push(Sight::Nap(millis));
        }
    }
}

} // verus!
