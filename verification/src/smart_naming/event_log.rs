//! Writing events to a diagnostics log and reading the latest one back.

use vstd::prelude::*;
use crate::path;
use crate::path::UnixPath;
use crate::smart_naming::diagnostics;
use crate::smart_naming::diagnostics::{
    event_line, is_known_code, latest_event, rotates, safe_diagnostics_metadata,
    NamingDiagnostics, NAMING_LOG_MAX_BYTES,
};
use crate::text;

verus! {

/// The mode of a log.
pub const LOG_MODE: u32 = 0o600;

/// What is known of a log file.
#[derive(Clone, Copy, Debug, PartialEq, Eq, Structural)]
pub struct LogFacts {
    pub is_file: bool,
    pub owner: u32,
    pub links: u64,
    pub size: u64,
}

/// Boundary for the operations on a log. Links are never followed.
pub trait LogFiles {
    fn unix_seconds(&mut self) -> u64;

    fn user(&mut self) -> u32;

    /// Creates a directory and those above it.
    fn make_directories(&mut self, path: &UnixPath) -> bool;

    /// The entry of a file, where there is one.
    fn entry(&mut self, path: &UnixPath) -> Option<LogFacts>;

    /// Gives a file another name, in place of what has that name.
    fn rename(&mut self, from: &UnixPath, to: &UnixPath) -> bool;

    /// Opens a file to append to it, and creates it with a mode where it is missing.
    /// The result is what is known of the open file, where it was opened.
    fn open_to_append(&mut self, path: &UnixPath, mode: u32) -> Option<LogFacts>;

    /// Sets the permissions of the open file, as far as possible.
    fn set_mode(&mut self, mode: u32);

    /// Appends to the open file, as far as possible.
    fn append(&mut self, line: &String);

    /// Opens a file to read it. The result is what is known of the open file, where it
    /// was opened.
    fn open_to_read(&mut self, path: &UnixPath) -> Option<LogFacts>;

    /// Reads the open file up to a number of bytes, where it holds text.
    fn read(&mut self, limit: u64) -> Option<String>;
}

/// One operation and its answer.
#[verifier::ext_equal]
pub enum LogStep {
    Seconds(u64),
    User(u32),
    Directories { path: Seq<u8>, made: bool },
    Entry { path: Seq<u8>, found: Option<LogFacts> },
    Rename { from: Seq<u8>, to: Seq<u8>, moved: bool },
    OpenToAppend { path: Seq<u8>, mode: u32, opened: Option<LogFacts> },
    SetMode(u32),
    Append(Seq<char>),
    OpenToRead { path: Seq<u8>, opened: Option<LogFacts> },
    Read { limit: u64, contents: Option<Seq<char>> },
}

/// The file that takes the old events when a log is full.
pub open spec fn rotated(p: Seq<u8>) -> Seq<u8> {
    path::with_extension(p, text::utf8("log.1"@))
}

/// A log file that may be used: a regular file of the user with one link.
pub open spec fn is_safe(facts: LogFacts, user: u32) -> bool {
    facts.is_file && facts.owner == user && facts.links == 1
}

pub open spec fn is_full(found: Option<LogFacts>) -> bool {
    found matches Some(facts) && facts.is_file && facts.size >= NAMING_LOG_MAX_BYTES
}

/// The operations that append an event to an open log, given what is known of it.
pub open spec fn appended(
    opened: Option<LogFacts>,
    user: u32,
    seconds: u64,
    code: Seq<char>,
) -> Seq<LogStep> {
    match opened {
        None => Seq::empty(),
        Some(facts) => if !is_safe(facts, user) {
            seq![LogStep::User(user)]
        } else {
            seq![
                LogStep::User(user),
                LogStep::SetMode(LOG_MODE),
                LogStep::Seconds(seconds),
                LogStep::Append(diagnostics::event_text(seconds, code).push('\n')),
            ]
        },
    }
}

/// The operations that log an event, given the answers to them: a full log is moved
/// aside first, and nothing is written to a file that is not safe.
pub open spec fn logged(
    p: Seq<u8>,
    code: Seq<char>,
    made: bool,
    found: Option<LogFacts>,
    moved: bool,
    opened: Option<LogFacts>,
    user: u32,
    seconds: u64,
) -> Seq<LogStep> {
    if !diagnostics::known_codes().contains(code) {
        Seq::empty()
    } else {
        match path::parent(p) {
            None => Seq::empty(),
            Some(parent) => if !made {
                seq![LogStep::Directories { path: parent, made }]
            } else {
                let looked = seq![
                    LogStep::Directories { path: parent, made },
                    LogStep::Entry { path: p, found },
                ];
                let ready = if is_full(found) {
                    looked.push(LogStep::Rename { from: p, to: rotated(p), moved })
                } else {
                    looked
                };
                if is_full(found) && !moved {
                    ready
                } else {
                    ready.push(LogStep::OpenToAppend { path: p, mode: LOG_MODE, opened })
                        + appended(opened, user, seconds, code)
                }
            },
        }
    }
}

/// Some operations are those that log an event.
pub open spec fn is_logging(p: Seq<u8>, code: Seq<char>, steps: Seq<LogStep>) -> bool {
    exists|made: bool, found: Option<LogFacts>, moved: bool, opened: Option<LogFacts>, user: u32, seconds: u64|
        steps == #[trigger] logged(p, code, made, found, moved, opened, user, seconds)
}

/// Some operations are those that read the latest event, with their result: only a safe
/// log that is not too large is read.
pub open spec fn is_reading(p: Seq<u8>, steps: Seq<LogStep>, result: Option<Seq<char>>) -> bool {
    &&& steps.len() >= 1
    &&& steps[0] matches LogStep::OpenToRead { path, opened }
    &&& path == p
    &&& match opened {
        None => steps.len() == 1 && result is None,
        Some(facts) => {
            &&& steps.len() >= 2
            &&& steps[1] matches LogStep::User(user)
            &&& if !is_safe(facts, user) || facts.size > NAMING_LOG_MAX_BYTES {
                steps.len() == 2 && result is None
            } else {
                &&& steps.len() == 3
                &&& steps[2] matches LogStep::Read { limit, contents }
                &&& limit == NAMING_LOG_MAX_BYTES + 1
                &&& result == match contents {
                    Some(contents) => diagnostics::last_event(contents),
                    None => None,
                }
            }
        },
    }
}

/// Only known reason codes are ever appended, each with a time before it and a line end
/// behind it: no other content can enter a log.
pub proof fn only_codes_are_logged(p: Seq<u8>, code: Seq<char>, steps: Seq<LogStep>, i: int)
    requires
        is_logging(p, code, steps),
        0 <= i < steps.len(),
        steps[i] is Append,
    ensures
        diagnostics::known_codes().contains(code),
        exists|seconds: u64|
            steps[i]->Append_0 == #[trigger] diagnostics::event_text(seconds, code).push('\n'),
{
    let (made, found, moved, opened, user, seconds) = choose|
        made: bool,
        found: Option<LogFacts>,
        moved: bool,
        opened: Option<LogFacts>,
        user: u32,
        seconds: u64,
    | steps == #[trigger] logged(p, code, made, found, moved, opened, user, seconds);
    let tail = appended(opened, user, seconds, code);
    let n = steps.len() - tail.len();
    if i >= n {
        assert(steps[i] == tail[i - n]);
    }
    assert(steps[i]->Append_0 == diagnostics::event_text(seconds, code).push('\n'));
}

/// A log is opened to be written only after its size was looked at and, where it is
/// full, it was moved aside.
pub proof fn a_full_log_is_moved_before_it_is_written(
    p: Seq<u8>,
    code: Seq<char>,
    steps: Seq<LogStep>,
    i: int,
)
    requires
        is_logging(p, code, steps),
        0 <= i < steps.len(),
        steps[i] is OpenToAppend,
    ensures
        i >= 2,
        steps[i]->OpenToAppend_path == p,
        steps[1] matches LogStep::Entry { path, found } && path == p && (is_full(found)
            ==> steps[2] == (LogStep::Rename { from: p, to: rotated(p), moved: true })),
{
    let (made, found, moved, opened, user, seconds) = choose|
        made: bool,
        found: Option<LogFacts>,
        moved: bool,
        opened: Option<LogFacts>,
        user: u32,
        seconds: u64,
    | steps == #[trigger] logged(p, code, made, found, moved, opened, user, seconds);
    let tail = appended(opened, user, seconds, code);
    let n = steps.len() - tail.len();
    if i >= n {
        assert(steps[i] == tail[i - n]);
    }
}

/// A boundary together with everything that went through it.
pub struct LoggedLog<F> {
    inner: F,
    log: Ghost<Seq<LogStep>>,
}

impl<F: LogFiles> LoggedLog<F> {
    pub closed spec fn wrapped(&self) -> F {
        self.inner
    }

    /// Every operation so far and its answer.
    pub closed spec fn steps(&self) -> Seq<LogStep> {
        self.log@
    }

    pub fn new(inner: F) -> (r: Self)
        ensures
            r.wrapped() == inner,
            r.steps() == Seq::<LogStep>::empty(),
    {
        LoggedLog { inner, log: Ghost(Seq::empty()) }
    }

    /// What is wrapped.
    pub fn inner(&self) -> (r: &F)
        ensures
            *r == self.wrapped(),
    {
        &self.inner
    }

    fn unix_seconds(&mut self) -> (r: u64)
        ensures
            final(self).steps() == old(self).steps().push(LogStep::Seconds(r)),
    {
        let r: u64 = self.inner.unix_seconds();
        self.log = Ghost(self.log@.push(LogStep::Seconds(r)));
        r
    }

    fn user(&mut self) -> (r: u32)
        ensures
            final(self).steps() == old(self).steps().push(LogStep::User(r)),
    {
        let r: u32 = self.inner.user();
        self.log = Ghost(self.log@.push(LogStep::User(r)));
        r
    }

    fn make_directories(&mut self, p: &UnixPath) -> (r: bool)
        ensures
            final(self).steps() == old(self).steps().push(
                LogStep::Directories { path: p@, made: r },
            ),
    {
        let r = self.inner.make_directories(p);
        self.log = Ghost(self.log@.push(LogStep::Directories { path: p@, made: r }));
        r
    }

    fn entry(&mut self, p: &UnixPath) -> (r: Option<LogFacts>)
        ensures
            final(self).steps() == old(self).steps().push(LogStep::Entry { path: p@, found: r }),
    {
        let r = self.inner.entry(p);
        self.log = Ghost(self.log@.push(LogStep::Entry { path: p@, found: r }));
        r
    }

    fn rename(&mut self, from: &UnixPath, to: &UnixPath) -> (r: bool)
        ensures
            final(self).steps() == old(self).steps().push(
                LogStep::Rename { from: from@, to: to@, moved: r },
            ),
    {
        let r = self.inner.rename(from, to);
        self.log = Ghost(self.log@.push(LogStep::Rename { from: from@, to: to@, moved: r }));
        r
    }

    fn open_to_append(&mut self, p: &UnixPath, mode: u32) -> (r: Option<LogFacts>)
        ensures
            final(self).steps() == old(self).steps().push(
                LogStep::OpenToAppend { path: p@, mode, opened: r },
            ),
    {
        let r = self.inner.open_to_append(p, mode);
        self.log = Ghost(self.log@.push(LogStep::OpenToAppend { path: p@, mode, opened: r }));
        r
    }

    fn set_mode(&mut self, mode: u32)
        ensures
            final(self).steps() == old(self).steps().push(LogStep::SetMode(mode)),
    {
        self.inner.set_mode(mode);
        self.log = Ghost(self.log@.push(LogStep::SetMode(mode)));
    }

    fn append(&mut self, line: &String)
        ensures
            final(self).steps() == old(self).steps().push(LogStep::Append(line@)),
    {
        self.inner.append(line);
        self.log = Ghost(self.log@.push(LogStep::Append(line@)));
    }

    fn open_to_read(&mut self, p: &UnixPath) -> (r: Option<LogFacts>)
        ensures
            final(self).steps() == old(self).steps().push(
                LogStep::OpenToRead { path: p@, opened: r },
            ),
    {
        let r = self.inner.open_to_read(p);
        self.log = Ghost(self.log@.push(LogStep::OpenToRead { path: p@, opened: r }));
        r
    }

    fn read(&mut self, limit: u64) -> (r: Option<String>)
        ensures
            final(self).steps() == old(self).steps().push(
                LogStep::Read { limit, contents: text::option_view(r) },
            ),
    {
        let r = self.inner.read(limit);
        self.log = Ghost(
            self.log@.push(LogStep::Read { limit, contents: text::option_view(r) }),
        );
        r
    }

    /// Appends an event to the open log.
    fn write_event(&mut self, facts: LogFacts, code: &str) -> (r: Ghost<(u32, u64)>)
        requires
            diagnostics::known_codes().contains(code@),
        ensures
            final(self).steps() == old(self).steps() + appended(
                Some(facts),
                (r@).0,
                (r@).1,
                code@,
            ),
    {
        let ghost start = self.steps();
        let user: u32 = self.user();
        if !safe_diagnostics_metadata(facts.is_file, facts.owner, user, facts.links) {
            assert(self.steps() =~= start + appended(Some(facts), user, 0, code@));
            return Ghost((user, 0));
        }
        self.set_mode(LOG_MODE);
        let seconds: u64 = self.unix_seconds();
        let line = event_line(seconds, code);
        if let Some(line) = &line {
            self.append(line);
        }
        assert(self.steps() =~= start + appended(Some(facts), user, seconds, code@));
        Ghost((user, seconds))
    }
}

impl NamingDiagnostics {
    /// Appends a reason code to the log. What cannot be written is left out.
    pub fn event<F: LogFiles>(&self, code: &str, files: &mut LoggedLog<F>)
        ensures
            old(files).steps().is_prefix_of(final(files).steps()),
            is_logging(
                self@,
                code@,
                final(files).steps().skip(old(files).steps().len() as int),
            ),
    {
        let ghost start = files.steps();
        let ghost n = start.len() as int;
        if !is_known_code(code) {
            assert(start.skip(n) =~= logged(self@, code@, false, None, false, None, 0, 0));
            return;
        }
        let p = self.path();
        let Some(parent) = p.parent() else {
            assert(start.skip(n) =~= logged(self@, code@, false, None, false, None, 0, 0));
            return;
        };
        if !files.make_directories(&parent) {
            assert(files.steps().skip(n) =~= logged(
                self@,
                code@,
                false,
                None,
                false,
                None,
                0,
                0,
            ));
            return;
        }
        let found = files.entry(p);
        let full = match &found {
            Some(facts) => facts.is_file && rotates(facts.size),
            None => false,
        };
        if full && !files.rename(p, &p.with_extension("log.1")) {
            assert(files.steps().skip(n) =~= logged(
                self@,
                code@,
                true,
                found,
                false,
                None,
                0,
                0,
            ));
            return;
        }
        match files.open_to_append(p, LOG_MODE) {
            None => {
                assert(files.steps().skip(n) =~= logged(
                    self@,
                    code@,
                    true,
                    found,
                    true,
                    None,
                    0,
                    0,
                ));
            },
            Some(facts) => {
                let ghost opened = files.steps();
                let last = files.write_event(facts, code);
                assert(files.steps().skip(n) =~= opened.skip(n) + appended(
                    Some(facts),
                    (last@).0,
                    (last@).1,
                    code@,
                ));
                assert(files.steps().skip(n) =~= logged(
                    self@,
                    code@,
                    true,
                    found,
                    true,
                    Some(facts),
                    (last@).0,
                    (last@).1,
                ));
            },
        }
    }

    /// Reads the most recent event of the log.
    pub fn latest<F: LogFiles>(&self, files: &mut LoggedLog<F>) -> (r: Option<String>)
        ensures
            old(files).steps().is_prefix_of(final(files).steps()),
            is_reading(
                self@,
                final(files).steps().skip(old(files).steps().len() as int),
                text::option_view(r),
            ),
    {
        let opened = files.open_to_read(self.path());
        let Some(facts) = opened else {
            return None;
        };
        let user: u32 = files.user();
        if !safe_diagnostics_metadata(facts.is_file, facts.owner, user, facts.links) || facts.size
            > NAMING_LOG_MAX_BYTES {
            return None;
        }
        match files.read(NAMING_LOG_MAX_BYTES + 1) {
            Some(contents) => latest_event(&contents),
            None => None,
        }
    }
}

} // verus!
