//! Telling a running tmux server about a changed configuration.

use vstd::prelude::*;
use crate::files::HostFiles;
use crate::install::failure::{FailureModel, InstallError};
use crate::install::host::{Deed, InstallHost};
use crate::install::plan;
use crate::install::plan::{StepKind, StepModel};
use crate::path::UnixPath;

verus! {

/// What a server is asked to do.
#[verifier::ext_equal]
pub enum ServerRequest {
    /// Tell whether the server runs.
    IsRunning,
    /// Tell whether the root table binds Left.
    RootLeftBound,
    Unbind(Seq<char>),
    UnbindRootLeft(Seq<u8>),
    Reload(Seq<u8>),
}

/// A request and its reply; only a question is answered by a flag.
#[verifier::ext_equal]
pub struct ServerExchange {
    pub request: ServerRequest,
    pub reply: Result<bool, Seq<char>>,
}

pub open spec fn flag_reply(r: Result<bool, String>) -> Result<bool, Seq<char>> {
    match r {
        Ok(flag) => Ok(flag),
        Err(message) => Err(message@),
    }
}

pub open spec fn done_reply(r: Result<(), String>) -> Result<bool, Seq<char>> {
    match r {
        Ok(_) => Ok(true),
        Err(message) => Err(message@),
    }
}

/// The live tmux server. A message that comes back is a diagnostic for the user.
pub trait TmuxReloader {
    /// Whether a server runs.
    fn is_running(&mut self) -> bool;

    /// Removes a live prefix-table binding before its persistent replacement.
    fn unbind(&mut self, key: &str) -> Result<(), String>;

    /// Tells whether the live root table binds Left.
    fn root_left_bound(&mut self) -> Result<bool, String>;

    /// Removes the live root-table binding of Left that the given program owns.
    fn unbind_root_left(&mut self, expected_mux: &UnixPath) -> Result<(), String>;

    /// Has the server read the configuration.
    fn reload(&mut self, path: &UnixPath) -> Result<(), String>;
}

/// Stands in where no server runs: every request succeeds without effect.
#[derive(Clone, Copy, Debug, Default)]
pub struct NoRunningServer;

impl TmuxReloader for NoRunningServer {
    fn is_running(&mut self) -> (r: bool)
        ensures
            !r,
    {
        false
    }

    fn unbind(&mut self, key: &str) -> (r: Result<(), String>)
        ensures
            r is Ok,
    {
        Ok(())
    }

    fn root_left_bound(&mut self) -> (r: Result<bool, String>)
        ensures
            r == Ok::<bool, String>(false),
    {
        Ok(false)
    }

    fn unbind_root_left(&mut self, expected_mux: &UnixPath) -> (r: Result<(), String>)
        ensures
            r is Ok,
    {
        Ok(())
    }

    fn reload(&mut self, path: &UnixPath) -> (r: Result<(), String>)
        ensures
            r is Ok,
    {
        Ok(())
    }
}

/// The request of a step, `None` for a step on the file.
pub open spec fn request_of(kind: StepModel, path: Seq<u8>) -> Option<ServerRequest> {
    match kind {
        StepModel::Backup => None,
        StepModel::Replace => None,
        StepModel::UnbindRootLeft(mux) => Some(ServerRequest::UnbindRootLeft(mux)),
        StepModel::Unbind(key) => Some(ServerRequest::Unbind(key)),
        StepModel::Reload => Some(ServerRequest::Reload(path)),
    }
}

/// The failure of a step on the server: only a reload comes after the file was written.
pub open spec fn failure_of(kind: StepModel, path: Seq<u8>, message: Seq<char>) -> FailureModel {
    if kind is Reload {
        FailureModel::ReloadFailed { path, message }
    } else {
        FailureModel::ServerFailed { path, message }
    }
}

/// Makes the request of a step. A step on the file makes none.
pub fn tell_server<F: HostFiles, R: TmuxReloader>(
    kind: &StepKind,
    path: &UnixPath,
    host: &mut InstallHost<F, R>,
) -> (r: Result<(), InstallError>)
    ensures
        match request_of(kind@, path@) {
            None => r is Ok && final(host).deeds() == old(host).deeds(),
            Some(request) => {
                let deed = final(host).deeds().last();
                &&& final(host).deeds() == old(host).deeds().push(deed)
                &&& deed matches Deed::Server(exchange) && exchange.request == request && match r {
                    Ok(_) => exchange.reply is Ok,
                    Err(e) => exchange.reply is Err && e@ == failure_of(
                        kind@,
                        path@,
                        exchange.reply->Err_0,
                    ),
                }
            },
        },
{
    let reply: Result<(), String> = match kind {
        StepKind::Backup => return Ok(()),
        StepKind::Replace => return Ok(()),
        StepKind::UnbindRootLeft(mux) => host.unbind_root_left(mux),
        StepKind::Unbind(key) => host.unbind(key),
        StepKind::Reload => match host.reload(path) {
            Ok(()) => return Ok(()),
            Err(message) => return Err(
                InstallError::ReloadFailed { path: path.clone(), message },
            ),
        },
    };
    match reply {
        Ok(()) => Ok(()),
        Err(message) => Err(InstallError::ServerFailed { path: path.clone(), message }),
    }
}

/// A plan for a server that does not run asks nothing of it.
pub proof fn no_request_without_a_server(c: plan::ChangeModel, j: int, path: Seq<u8>)
    requires
        !c.running,
        0 <= j < plan::change_steps(c).len(),
    ensures
        request_of(plan::change_steps(c)[j].kind, path) is None,
{
    plan::change_replaces_once(c, j);
}

} // verus!
