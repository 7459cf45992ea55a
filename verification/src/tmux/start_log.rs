//! The programs of the system with a record of every start.

use vstd::prelude::*;
use crate::domain::CommandOutput;
use crate::path::UnixPath;
use crate::text;
use crate::tmux::runner::{ProgramHost, Start};

verus! {

/// What starts programs, together with every start so far.
pub struct LoggedPrograms<H> {
    inner: H,
    log: Ghost<Seq<Start>>,
}

impl<H> LoggedPrograms<H> {
    /// Every start so far.
    pub closed spec fn events(&self) -> Seq<Start> {
        self.log@
    }

    pub fn new(inner: H) -> (r: Self)
        ensures
            r.events() == Seq::<Start>::empty(),
    {
        LoggedPrograms { inner, log: Ghost(Seq::empty()) }
    }
}

impl<H: ProgramHost> LoggedPrograms<H> {
    pub fn output(&mut self, program: &UnixPath, arguments: &Vec<Vec<u8>>) -> (r: Result<
        CommandOutput,
        String,
    >)
        ensures
            final(self).events() == old(self).events().push(
                (Start { program: program@, arguments: text::words(arguments@), reply: r }),
            ),
    {
        let r = self.inner.output(program, arguments);
        self.log = Ghost(
            self.log@.push(
                Start { program: program@, arguments: text::words(arguments@), reply: r },
            ),
        );
        r
    }
}

} // verus!
