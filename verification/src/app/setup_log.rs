//! The host of a setup with a record of everything it did.

use vstd::prelude::*;
use crate::app::setup;
use crate::app::setup::{SetupEvent, SetupHost};
use crate::error;
use crate::error::MuxError;
use crate::install::failure;
use crate::install::failure::InstallError;
use crate::install::plan::InstallOutcome;
use crate::shell_integration::transaction::ShellOutcome;

verus! {

/// A host together with everything it did.
pub struct LoggedSetup<H> {
    inner: H,
    log: Ghost<Seq<SetupEvent>>,
}

impl<H: SetupHost> LoggedSetup<H> {
    pub closed spec fn events(&self) -> Seq<SetupEvent> {
        self.log@
    }

    pub fn new(inner: H) -> (r: Self)
        ensures
            r.events() == Seq::<SetupEvent>::empty(),
    {
        LoggedSetup { inner, log: Ghost(Seq::empty()) }
    }

    pub fn inner(&self) -> (r: &H) {
        &self.inner
    }

    pub fn save_process(&mut self) -> (r: Result<(), MuxError>)
        ensures
            final(self).events() == old(self).events().push(
                SetupEvent::SaveProcess(error::outcome(r)),
            ),
    {
        let r = self.inner.save_process();
        self.log = Ghost(self.log@.push(SetupEvent::SaveProcess(error::outcome(r))));
        r
    }

    pub fn restore_process(&mut self) -> (r: Result<(), MuxError>)
        ensures
            final(self).events() == old(self).events().push(
                SetupEvent::RestoreProcess(error::outcome(r)),
            ),
    {
        let r = self.inner.restore_process();
        self.log = Ghost(self.log@.push(SetupEvent::RestoreProcess(error::outcome(r))));
        r
    }

    pub fn install_title(&mut self) -> (r: Result<bool, MuxError>)
        ensures
            final(self).events() == old(self).events().push(
                SetupEvent::InstallTitle(error::outcome(r)),
            ),
    {
        let r = self.inner.install_title();
        self.log = Ghost(self.log@.push(SetupEvent::InstallTitle(error::outcome(r))));
        r
    }

    pub fn rollback_title(&mut self) -> (r: Result<(), MuxError>)
        ensures
            final(self).events() == old(self).events().push(
                SetupEvent::RollbackTitle(error::outcome(r)),
            ),
    {
        let r = self.inner.rollback_title();
        self.log = Ghost(self.log@.push(SetupEvent::RollbackTitle(error::outcome(r))));
        r
    }

    pub fn remove_title(&mut self) -> (r: Result<bool, MuxError>)
        ensures
            final(self).events() == old(self).events().push(
                SetupEvent::RemoveTitle(error::outcome(r)),
            ),
    {
        let r = self.inner.remove_title();
        self.log = Ghost(self.log@.push(SetupEvent::RemoveTitle(error::outcome(r))));
        r
    }

    pub fn prepare_shells(&mut self) -> (r: Result<(), InstallError>)
        ensures
            final(self).events() == old(self).events().push(
                SetupEvent::PrepareShells(failure::outcome(r)),
            ),
    {
        let r = self.inner.prepare_shells();
        self.log = Ghost(self.log@.push(SetupEvent::PrepareShells(failure::outcome(r))));
        r
    }

    pub fn apply_shells(&mut self) -> (r: Result<Vec<ShellOutcome>, InstallError>)
        ensures
            final(self).events() == old(self).events().push(
                SetupEvent::ApplyShells(setup::shells_result(r)),
            ),
    {
        let r = self.inner.apply_shells();
        self.log = Ghost(self.log@.push(SetupEvent::ApplyShells(setup::shells_result(r))));
        r
    }

    pub fn rollback_shells(&mut self) -> (r: Result<(), InstallError>)
        ensures
            final(self).events() == old(self).events().push(
                SetupEvent::RollbackShells(failure::outcome(r)),
            ),
    {
        let r = self.inner.rollback_shells();
        self.log = Ghost(self.log@.push(SetupEvent::RollbackShells(failure::outcome(r))));
        r
    }

    pub fn install_tmux(&mut self) -> (r: Result<InstallOutcome, InstallError>)
        ensures
            final(self).events() == old(self).events().push(
                SetupEvent::InstallTmux(setup::tmux_result(r)),
            ),
    {
        let r = self.inner.install_tmux();
        self.log = Ghost(self.log@.push(SetupEvent::InstallTmux(setup::tmux_result(r))));
        r
    }

    pub fn uninstall_tmux(&mut self) -> (r: Result<bool, InstallError>)
        ensures
            final(self).events() == old(self).events().push(
                SetupEvent::UninstallTmux(failure::outcome(r)),
            ),
    {
        let r = self.inner.uninstall_tmux();
        self.log = Ghost(self.log@.push(SetupEvent::UninstallTmux(failure::outcome(r))));
        r
    }

    pub fn tmux_is_unchanged(&mut self) -> (r: Result<bool, InstallError>)
        ensures
            final(self).events() == old(self).events().push(
                SetupEvent::CompareTmux(failure::outcome(r)),
            ),
    {
        let r = self.inner.tmux_is_unchanged();
        self.log = Ghost(self.log@.push(SetupEvent::CompareTmux(failure::outcome(r))));
        r
    }

    pub fn restore_tmux(&mut self) -> (r: Result<(), InstallError>)
        ensures
            final(self).events() == old(self).events().push(
                SetupEvent::RestoreTmux(failure::outcome(r)),
            ),
    {
        let r = self.inner.restore_tmux();
        self.log = Ghost(self.log@.push(SetupEvent::RestoreTmux(failure::outcome(r))));
        r
    }

    pub fn server_is_running(&mut self) -> (r: bool)
        ensures
            final(self).events() == old(self).events().push(SetupEvent::AskServer(r)),
    {
        let r = self.inner.server_is_running();
        self.log = Ghost(self.log@.push(SetupEvent::AskServer(r)));
        r
    }

    pub fn reload_tmux(&mut self) -> (r: Result<(), String>)
        ensures
            final(self).events() == old(self).events().push(
                SetupEvent::ReloadTmux(setup::reload_result(r)),
            ),
    {
        let r = self.inner.reload_tmux();
        self.log = Ghost(self.log@.push(SetupEvent::ReloadTmux(setup::reload_result(r))));
        r
    }
}

} // verus!
