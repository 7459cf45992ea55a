//! The settings host and the steps on its files, with one record of both.
//!
//! Nothing outside this module can add to the record, and neither side can be reached
//! without adding to it.

use vstd::prelude::*;
use crate::config::{ConfigFile, FileProbe, XdgThemeStore};
use crate::error;
use crate::error::MuxError;
use crate::path::UnixPath;
use crate::replace;
use crate::replace::{FileSteps, StepEvent};
use crate::step_log::LoggedSteps;
use crate::settings;
use crate::settings::{SettingsEvent, SettingsHost, SettingsRead};

verus! {

/// A boundary together with everything that went through it.
pub struct SettingsPort<H, S> {
    inner: H,
    steps: LoggedSteps<S>,
    log: Ghost<Seq<SettingsEvent>>,
}

impl<H: SettingsHost, S: FileSteps> SettingsPort<H, S> {
    pub closed spec fn wrapped(&self) -> H {
        self.inner
    }

    /// Every question so far and its answer.
    pub closed spec fn events(&self) -> Seq<SettingsEvent> {
        self.log@
    }

    /// What was done to the files so far.
    pub closed spec fn step_events(&self) -> Seq<StepEvent> {
        self.steps.events()
    }

    pub fn new(inner: H, steps: LoggedSteps<S>) -> (r: Self)
        ensures
            r.wrapped() == inner,
            r.step_events() == steps.events(),
            r.events() == Seq::<SettingsEvent>::empty(),
    {
        SettingsPort { inner, steps, log: Ghost(Seq::empty()) }
    }

    /// What is wrapped.
    pub fn inner(&self) -> (r: &H)
        ensures
            *r == self.wrapped(),
    {
        &self.inner
    }

    pub fn read(&mut self, p: &UnixPath) -> (r: SettingsRead)
        ensures
            final(self).events() == old(self).events().push(
                SettingsEvent::Read { path: p@, reply: r@ },
            ),
    {
        let r = self.inner.read(p);
        proof {
            self.log@ = self.log@.push(SettingsEvent::Read { path: p@, reply: r@ });
        }
        r
    }

    pub fn parse(&mut self, contents: &String) -> (r: Result<ConfigFile, String>)
        ensures
            final(self).events() == old(self).events().push(
                SettingsEvent::Parse { contents: contents@, reply: settings::parse_reply(r) },
            ),
    {
        let r = self.inner.parse(contents);
        proof {
            self.log@ = self.log@.push(SettingsEvent::Parse { contents: contents@, reply: settings::parse_reply(r) });
        }
        r
    }

    pub fn render(&mut self, config: &ConfigFile) -> (r: Result<String, String>)
        ensures
            final(self).events() == old(self).events().push(
                SettingsEvent::Render { config: config@, reply: replace::rendered(r) },
            ),
    {
        let r = self.inner.render(config);
        proof {
            self.log@ = self.log@.push(
                SettingsEvent::Render { config: config@, reply: replace::rendered(r) },
            );
        }
        r
    }

    pub fn probe(&mut self, location: &UnixPath) -> (r: FileProbe)
        ensures
            final(self).events() == old(self).events().push(
                SettingsEvent::Probe { location: location@, reply: r },
            ),
    {
        let r = self.inner.probe(location);
        proof {
            self.log@ = self.log@.push(SettingsEvent::Probe { location: location@, reply: r });
        }
        r
    }

    pub fn lock(&mut self, directory: &UnixPath) -> (r: Result<(), String>)
        ensures
            final(self).events() == old(self).events().push(
                SettingsEvent::Lock { directory: directory@, reply: replace::said(r) },
            ),
    {
        let r = self.inner.lock(directory);
        proof {
            self.log@ = self.log@.push(
                SettingsEvent::Lock { directory: directory@, reply: replace::said(r) },
            );
        }
        r
    }

    pub fn unlock(&mut self)
        ensures
            final(self).events() == old(self).events().push(SettingsEvent::Unlock),
    {
        self.inner.unlock();
        proof {
            self.log@ = self.log@.push(SettingsEvent::Unlock);
        }
    }

    pub fn save_number(&mut self) -> (r: (u32, u64))
        ensures
            final(self).events() == old(self).events().push(SettingsEvent::Number(r.0, r.1)),
    {
        let r = self.inner.save_number();
        proof {
            self.log@ = self.log@.push(SettingsEvent::Number(r.0, r.1));
        }
        r
    }

    /// The steps on the files.
    pub fn steps(&self) -> (r: &LoggedSteps<S>)
        ensures
            r.events() == self.step_events(),
    {
        &self.steps
    }

    /// Makes a directory, with those above it.
    pub fn make_directories(&mut self, p: &UnixPath) -> (r: Result<(), String>)
        ensures
            final(self).events() == old(self).events().push(
                SettingsEvent::Directories { path: p@, reply: replace::said(r) },
            ),
    {
        let r = self.steps.make_directories(p);
        proof {
            self.log@ = self.log@.push(
                SettingsEvent::Directories { path: p@, reply: replace::said(r) },
            );
        }
        r
    }

    /// Saves the file.
    pub fn save_atomic(
        &mut self,
        store: &XdgThemeStore,
        contents: &Result<String, String>,
        process: u32,
        count: u64,
    ) -> (r: Result<(), MuxError>)
        ensures
            final(self).events() == old(self).events().push(
                SettingsEvent::Saved {
                    path: store@,
                    contents: replace::rendered(*contents),
                    process,
                    count,
                    before: old(self).step_events(),
                    after: final(self).step_events(),
                    reply: error::outcome(r),
                },
            ),
            replace::agrees(final(self).step_events(), old(self).step_events()),
            replace::saved_at(
                final(self).step_events(),
                old(self).step_events().len() as int,
                store@,
                replace::rendered(*contents),
                process,
                count,
            ) == Some((error::outcome(r), final(self).step_events().len() as int)),
    {
        let r = self.steps.save_atomic(store, contents, process, count);
        proof {
            assert(replace::agrees(self.steps.events(), self.steps.events()));
            self.log@ = self.log@.push(
                SettingsEvent::Saved {
                    path: store@,
                    contents: replace::rendered(*contents),
                    process,
                    count,
                    before: old(self).step_events(),
                    after: self.steps.events(),
                    reply: error::outcome(r),
                },
            );
        }
        r
    }
}

} // verus!
