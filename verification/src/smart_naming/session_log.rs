//! The session with the app-server, with a record of its calls and of the reason codes
//! that were logged.
//!
//! Nothing outside this module can add to the records, and the session cannot be used
//! without adding to them.

use vstd::prelude::*;
use crate::error::MuxError;
use crate::json::Json;
use crate::smart_naming::conversation::{AppServerSession, Call};
use crate::smart_naming::diagnostics::NamingDiagnostics;
use crate::smart_naming::messages;
use crate::text;

verus! {

/// A session whose calls are recorded.
pub struct LoggedSession<S> {
    inner: S,
    calls: Ghost<Seq<Call>>,
    codes: Ghost<Seq<Seq<char>>>,
}

impl<S: AppServerSession> LoggedSession<S> {
    /// The calls so far.
    pub closed spec fn calls(&self) -> Seq<Call> {
        self.calls@
    }

    /// The reason codes that were logged so far.
    pub closed spec fn codes(&self) -> Seq<Seq<char>> {
        self.codes@
    }

    pub closed spec fn wrapped(&self) -> S {
        self.inner
    }

    pub fn new(inner: S) -> (r: Self)
        ensures
            r.wrapped() == inner,
            r.calls() == Seq::<Call>::empty(),
            r.codes() == Seq::<Seq<char>>::empty(),
    {
        LoggedSession { inner, calls: Ghost(Seq::empty()), codes: Ghost(Seq::empty()) }
    }

    pub fn inner(&self) -> (r: &S)
        ensures
            *r == self.wrapped(),
    {
        &self.inner
    }

    /// Sends one request and gives its result.
    pub fn request(&mut self, method: &str, params: &Json) -> (r: Result<Json, MuxError>)
        ensures
            final(self).codes() == old(self).codes(),
            final(self).calls() == old(self).calls().push(
                Call::Request {
                    method: method@,
                    params: params@,
                    reply: messages::json_outcome(r),
                },
            ),
    {
        let r = self.inner.request(method, params);
        proof {
            self.calls@ = self.calls@.push(
                Call::Request {
                    method: method@,
                    params: params@,
                    reply: messages::json_outcome(r),
                },
            );
        }
        r
    }

    /// Waits for a notification about a thread and gives its parameters.
    pub fn wait_for(&mut self, method: &str, thread_id: &str) -> (r: Result<Json, MuxError>)
        ensures
            final(self).codes() == old(self).codes(),
            final(self).calls() == old(self).calls().push(
                Call::Wait {
                    method: method@,
                    thread: thread_id@,
                    reply: messages::json_outcome(r),
                },
            ),
    {
        let r = self.inner.wait_for(method, thread_id);
        proof {
            self.calls@ = self.calls@.push(
                Call::Wait {
                    method: method@,
                    thread: thread_id@,
                    reply: messages::json_outcome(r),
                },
            );
        }
        r
    }

    /// The title in the structured output of the naming model.
    pub fn read_title(&mut self, output: &str) -> (r: Option<String>)
        ensures
            final(self).codes() == old(self).codes(),
            final(self).calls() == old(self).calls().push(
                Call::Title { output: output@, read: text::option_view(r) },
            ),
    {
        let r = self.inner.read_title(output);
        proof {
            self.calls@ = self.calls@.push(
                Call::Title { output: output@, read: text::option_view(r) },
            );
        }
        r
    }

    /// Logs a reason code.
    pub fn log(&mut self, diagnostics: &NamingDiagnostics, code: &'static str)
        ensures
            final(self).calls() == old(self).calls(),
            final(self).codes() == old(self).codes() + seq![code@],
    {
        self.inner.log(diagnostics, code);
        proof {
            self.codes@ = self.codes@ + seq![code@];
        }
    }

    /// Whether the transport can serve another request.
    pub fn is_healthy(&mut self) -> (r: bool)
        ensures
            final(self).calls() == old(self).calls(),
            final(self).codes() == old(self).codes(),
    {
        self.inner.is_healthy()
    }
}

} // verus!
