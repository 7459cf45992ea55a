//! The host of the popup with a record of everything asked of it.

use vstd::prelude::*;
use crate::app::interactive::{PopupEvent, PopupHost};
use crate::config;
use crate::config::LaunchProfile;
use crate::domain::{Pane, ThemeId};
use crate::error;
use crate::error::MuxError;

verus! {

/// A host together with everything it did.
pub struct LoggedPopup<H> {
    inner: H,
    log: Ghost<Seq<PopupEvent>>,
}

impl<H: PopupHost> LoggedPopup<H> {
    pub closed spec fn events(&self) -> Seq<PopupEvent> {
        self.log@
    }

    pub fn new(inner: H) -> (r: Self)
        ensures
            r.events() == Seq::<PopupEvent>::empty(),
    {
        LoggedPopup { inner, log: Ghost(Seq::empty()) }
    }

    pub fn inner(&self) -> (r: &H) {
        &self.inner
    }

    pub fn save_profiles(&mut self, profiles: &Vec<LaunchProfile>) -> (r: Result<(), MuxError>)
        ensures
            final(self).events() == old(self).events().push(
                PopupEvent::SaveProfiles(config::profile_list(profiles@), error::outcome(r)),
            ),
    {
        let r = self.inner.save_profiles(profiles);
        self.log = Ghost(
            self.log@.push(
                PopupEvent::SaveProfiles(config::profile_list(profiles@), error::outcome(r)),
            ),
        );
        r
    }

    pub fn save_smart_naming(&mut self, enabled: bool) -> (r: Result<(), MuxError>)
        ensures
            final(self).events() == old(self).events().push(
                PopupEvent::SaveNaming(enabled, error::outcome(r)),
            ),
    {
        let r = self.inner.save_smart_naming(enabled);
        self.log = Ghost(self.log@.push(PopupEvent::SaveNaming(enabled, error::outcome(r))));
        r
    }

    pub fn save_theme(&mut self, theme: ThemeId) -> (r: Result<(), MuxError>)
        ensures
            final(self).events() == old(self).events().push(
                PopupEvent::SaveTheme(theme, error::outcome(r)),
            ),
    {
        let r = self.inner.save_theme(theme);
        self.log = Ghost(self.log@.push(PopupEvent::SaveTheme(theme, error::outcome(r))));
        r
    }

    pub fn ensure_naming_daemon(&mut self) -> (r: Result<(), MuxError>)
        ensures
            final(self).events() == old(self).events().push(
                PopupEvent::EnsureDaemon(error::outcome(r)),
            ),
    {
        let r = self.inner.ensure_naming_daemon();
        self.log = Ghost(self.log@.push(PopupEvent::EnsureDaemon(error::outcome(r))));
        r
    }

    pub fn begin_shutdown(&mut self)
        ensures
            final(self).events() == old(self).events().push(PopupEvent::BeginShutdown),
    {
        self.inner.begin_shutdown();
        self.log = Ghost(self.log@.push(PopupEvent::BeginShutdown));
    }

    pub fn request_refresh(&mut self, generation: u64)
        ensures
            final(self).events() == old(self).events().push(PopupEvent::Refresh(generation)),
    {
        self.inner.request_refresh(generation);
        self.log = Ghost(self.log@.push(PopupEvent::Refresh(generation)));
    }

    pub fn request_auto_name(&mut self, pane: &Pane) -> (r: Result<(), MuxError>)
        ensures
            final(self).events() == old(self).events().push(
                PopupEvent::AutoName(pane.id@, error::outcome(r)),
            ),
    {
        let r = self.inner.request_auto_name(pane);
        self.log = Ghost(self.log@.push(PopupEvent::AutoName(pane.id@, error::outcome(r))));
        r
    }

    pub fn token(&mut self) -> (r: String)
        ensures
            final(self).events() == old(self).events().push(PopupEvent::Token(r@)),
    {
        let r = self.inner.token();
        self.log = Ghost(self.log@.push(PopupEvent::Token(r@)));
        r
    }
}

} // verus!
