//! The format of the saved state with a record of every use of it.

use vstd::prelude::*;
use crate::codex_config::integration;
use crate::codex_config::integration::{FormatEvent, StateFormat};
use crate::codex_config::title::SavedState;

verus! {

/// A boundary together with everything that went through it.
pub struct LoggedFormat<T> {
    inner: T,
    log: Ghost<Seq<FormatEvent>>,
}

impl<T: StateFormat> LoggedFormat<T> {
    /// Every question so far and its answer.
    pub closed spec fn events(&self) -> Seq<FormatEvent> {
        self.log@
    }

    pub fn new(inner: T) -> (r: Self)
        ensures
            r.events() == Seq::<FormatEvent>::empty(),
    {
        LoggedFormat { inner, log: Ghost(Seq::empty()) }
    }

    pub fn parse(&mut self, contents: &String) -> (r: Result<SavedState, String>)
        ensures
            final(self).events() == old(self).events().push(
                FormatEvent::Parse { contents: contents@, reply: integration::parse_reply(r) },
            ),
    {
        let r = self.inner.parse(contents);
        self.log = Ghost(
            self.log@.push(
                FormatEvent::Parse { contents: contents@, reply: integration::parse_reply(r) },
            ),
        );
        r
    }

    pub fn render(&mut self, state: &SavedState) -> (r: Result<String, String>)
        ensures
            final(self).events() == old(self).events().push(
                FormatEvent::Render { state: state@, reply: integration::render_reply(r) },
            ),
    {
        let r = self.inner.render(state);
        self.log = Ghost(
            self.log@.push(
                FormatEvent::Render { state: state@, reply: integration::render_reply(r) },
            ),
        );
        r
    }
}

} // verus!
