//! Shell-free execution of tmux commands.

use vstd::prelude::*;
use crate::domain::{CommandOutput, TmuxCommandRunner};
use crate::error::{ErrorModel, MuxError};
use crate::path::UnixPath;
use crate::text;
use crate::tmux::start_log::LoggedPrograms;

verus! {

/// Starts a program with an argument vector and waits for it.
pub trait ProgramHost {
    /// What the program printed and how it ended, or why it did not start.
    fn output(&mut self, program: &UnixPath, arguments: &Vec<Vec<u8>>) -> Result<
        CommandOutput,
        String,
    >;
}

/// One start of tmux.
pub struct Start {
    pub program: Seq<u8>,
    pub arguments: Seq<Seq<u8>>,
    pub reply: Result<CommandOutput, String>,
}

/// Runs tmux directly with an argument vector.
pub struct SystemTmuxRunner<H> {
    executable: UnixPath,
    host: LoggedPrograms<H>,
}

/// What a start of tmux comes to.
pub open spec fn comes_to(
    started: Result<CommandOutput, String>,
    r: Result<CommandOutput, MuxError>,
) -> bool {
    match started {
        Ok(output) => r == Ok::<CommandOutput, MuxError>(output),
        Err(source) => r is Err && r->Err_0@ == ErrorModel::Command(
            "could not start tmux: "@ + source@,
        ),
    }
}

/// The result of one start of tmux.
pub fn start_result(started: Result<CommandOutput, String>) -> (r: Result<CommandOutput, MuxError>)
    ensures
        comes_to(started, r),
{
    match started {
        Ok(output) => Ok(output),
        Err(source) => {
            let mut message = "could not start tmux: ".to_owned();
            message.append(&source);
            Err(MuxError::Command(message))
        },
    }
}

impl<H> SystemTmuxRunner<H> {
    pub closed spec fn program(&self) -> Seq<u8> {
        self.executable@
    }

    /// Every start so far.
    pub closed spec fn starts(&self) -> Seq<Start> {
        self.host.events()
    }

    /// A runner using `executable` as the tmux program.
    pub fn new(executable: UnixPath, host: H) -> (r: Self)
        ensures
            r.program() == executable@,
            r.starts() == Seq::<Start>::empty(),
    {
        SystemTmuxRunner { executable, host: LoggedPrograms::new(host) }
    }
}

impl<H: ProgramHost> TmuxCommandRunner for SystemTmuxRunner<H> {
    fn run(&mut self, arguments: &Vec<Vec<u8>>) -> (r: Result<CommandOutput, MuxError>)
        ensures
            final(self).program() == old(self).program(),
            final(self).starts().len() == old(self).starts().len() + 1,
            final(self).starts().drop_last() == old(self).starts(),
            final(self).starts().last().program == old(self).program(),
            final(self).starts().last().arguments == text::words(arguments@),
            comes_to(final(self).starts().last().reply, r),
    {
        let started = self.host.output(&self.executable, arguments);
        assert(self.starts().drop_last() =~= old(self).starts());
        start_result(started)
    }
}

} // verus!
