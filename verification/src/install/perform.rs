//! Carrying the steps of a plan out.

use vstd::prelude::*;
use crate::domain;
use crate::files::{FileExchange, FileReply, FileRequest, HostFiles};
use crate::install::block;
use crate::install::block::{ExecutablePaths, PathsModel};
use crate::install::failure;
use crate::install::failure::{FailureModel, InstallError, PathFacts};
use crate::install::host::{Deed, InstallHost};
use crate::install::plan;
use crate::install::plan::{
    install_with_options, takes_over_left, uninstall, ChangeModel, InstallOutcome, PlanStep,
    PlanStepModel, ServerState, StepKind, StepModel,
};
use crate::install::reload;
use crate::install::reload::{tell_server, ServerExchange, ServerRequest, TmuxReloader};
use crate::path::UnixPath;
use crate::text;

verus! {

/// The file that a plan changes.
pub struct Change<'a> {
    pub path: &'a UnixPath,
    pub mode: u32,
    pub original: &'a Vec<u8>,
    pub replacement: &'a Vec<u8>,
}

#[verifier::ext_equal]
pub struct HostModel {
    pub path: Seq<u8>,
    pub mode: u32,
    pub original: Seq<u8>,
    pub replacement: Seq<u8>,
}

impl<'a> Change<'a> {
    pub open spec fn model(&self) -> HostModel {
        HostModel {
            path: self.path@,
            mode: self.mode,
            original: self.original@,
            replacement: self.replacement@,
        }
    }
}

/// What follows a step that failed: a reload of the server where the plan wants
/// one, whatever comes of it.
pub open spec fn gave_up(step: PlanStepModel, path: Seq<u8>, done: Seq<Deed>) -> bool {
    if step.reload_on_failure {
        done.len() == 1 && (done[0] matches Deed::Server(exchange) && exchange.request
            == ServerRequest::Reload(path))
    } else {
        done.len() == 0
    }
}

/// The file was replaced, or a failure came when that was already done.
pub open spec fn in_place(reply: FileReply) -> bool {
    reply is Done || reply matches FileReply::Failed { committed: true, .. }
}

/// What follows a replacement that failed with the new file in place: the old bytes and
/// mode are put back, then the plan is given up. Only where they could not be put back
/// does the failure say that the new file is there.
pub open spec fn put_back(
    step: PlanStepModel,
    host: HostModel,
    cause: FailureModel,
    done: Seq<Deed>,
    r: Result<Option<Seq<u8>>, FailureModel>,
) -> bool {
    &&& done.len() >= 1
    &&& gave_up(step, host.path, done.skip(1))
    &&& done[0] matches Deed::File(exchange)
    &&& exchange.request == (FileRequest::Replace {
        path: host.path,
        bytes: host.original,
        mode: host.mode,
    })
    &&& match exchange.reply {
        FileReply::Done => r == Err::<Option<Seq<u8>>, FailureModel>(cause),
        FileReply::Failed { error, committed } => r == Err::<Option<Seq<u8>>, FailureModel>(
            if committed {
                cause
            } else {
                FailureModel::NotRestored {
                    path: host.path,
                    source: failure::failure_text(cause),
                    rollback: failure::failure_text(error),
                }
            },
        ),
        FileReply::Copied(_) => false,
    }
}

/// What the steps of a plan from one on did to the file and told the server, in the
/// order in which it happened, and what came of it: the copy that was made, or the
/// first failure.
pub open spec fn performed(
    steps: Seq<PlanStepModel>,
    k: int,
    host: HostModel,
    copy: Option<Seq<u8>>,
    done: Seq<Deed>,
    r: Result<Option<Seq<u8>>, FailureModel>,
) -> bool
    decreases steps.len() - k,
{
    if k < 0 || k >= steps.len() {
        done.len() == 0 && r == Ok::<Option<Seq<u8>>, FailureModel>(copy)
    } else if done.len() == 0 {
        false
    } else {
        match (steps[k].kind, done[0]) {
            (StepModel::Backup, Deed::File(exchange)) => {
                &&& exchange.request == (FileRequest::Backup {
                    path: host.path,
                    bytes: host.original,
                    mode: host.mode,
                })
                &&& match exchange.reply {
                    FileReply::Copied(place) => performed(
                        steps,
                        k + 1,
                        host,
                        Some(place),
                        done.skip(1),
                        r,
                    ),
                    FileReply::Failed { error, .. } => !failure::says_written(error) && gave_up(
                        steps[k],
                        host.path,
                        done.skip(1),
                    ) && r == Err::<Option<Seq<u8>>, FailureModel>(error),
                    FileReply::Done => false,
                }
            },
            (StepModel::Replace, Deed::File(exchange)) => {
                &&& exchange.request == (FileRequest::Replace {
                    path: host.path,
                    bytes: host.replacement,
                    mode: host.mode,
                })
                &&& match exchange.reply {
                    FileReply::Done => performed(steps, k + 1, host, copy, done.skip(1), r),
                    FileReply::Failed { error, committed } => !failure::says_written(error)
                        && if committed {
                        put_back(steps[k], host, error, done.skip(1), r)
                    } else {
                        gave_up(steps[k], host.path, done.skip(1)) && r == Err::<
                            Option<Seq<u8>>,
                            FailureModel,
                        >(error)
                    },
                    FileReply::Copied(_) => false,
                }
            },
            (kind, Deed::Server(exchange)) => {
                &&& Some(exchange.request) == reload::request_of(kind, host.path)
                &&& match exchange.reply {
                    Ok(_) => performed(steps, k + 1, host, copy, done.skip(1), r),
                    Err(message) => gave_up(steps[k], host.path, done.skip(1)) && r == Err::<
                        Option<Seq<u8>>,
                        FailureModel,
                    >(reload::failure_of(kind, host.path, message)),
                }
            },
            _ => false,
        }
    }
}

pub open spec fn copy_outcome(r: Result<Option<UnixPath>, InstallError>) -> Result<
    Option<Seq<u8>>,
    FailureModel,
> {
    match r {
        Ok(copy) => Ok(domain::path_view(copy)),
        Err(e) => Err(e@),
    }
}

/// What was done since.
pub open spec fn done_since(before: Seq<Deed>, after: Seq<Deed>) -> Seq<Deed> {
    after.skip(before.len() as int)
}

fn give_up<F: HostFiles, R: TmuxReloader>(
    step: &PlanStep,
    path: &UnixPath,
    host: &mut InstallHost<F, R>,
)
    ensures
        old(host).deeds().is_prefix_of(final(host).deeds()),
        gave_up(step@, path@, done_since(old(host).deeds(), final(host).deeds())),
{
    let ghost before = host.deeds();
    if step.reload_on_failure {
        let _ = host.reload(path);
        assert(done_since(before, host.deeds()) =~= seq![host.deeds().last()]);
    } else {
        assert(done_since(before, host.deeds()) =~= Seq::empty());
    }
}

/// One deed, then others.
proof fn one_then(before: Seq<Deed>, one: Seq<Deed>, after: Seq<Deed>)
    requires
        one.len() == before.len() + 1,
        before.is_prefix_of(one),
        one.is_prefix_of(after),
    ensures
        before.is_prefix_of(after),
        done_since(before, after).len() >= 1,
        done_since(before, after)[0] == one.last(),
        done_since(before, after).skip(1) == done_since(one, after),
{
    assert(done_since(before, after).skip(1) =~= done_since(one, after));
    assert(after[before.len() as int] == one[before.len() as int]);
}

/// Puts the old bytes and mode back; the failure that is reported then.
fn restore<F: HostFiles, R: TmuxReloader>(
    step: &PlanStep,
    change: &Change<'_>,
    cause: InstallError,
    host: &mut InstallHost<F, R>,
) -> (r: InstallError)
    ensures
        old(host).deeds().is_prefix_of(final(host).deeds()),
        put_back(
            step@,
            change.model(),
            cause@,
            done_since(old(host).deeds(), final(host).deeds()),
            Err(r@),
        ),
{
    let ghost before = host.deeds();
    let restored = host.atomic_replace(change.path, change.original, change.mode);
    let ghost one = host.deeds();
    give_up(step, change.path, host);
    proof {
        one_then(before, one, host.deeds());
    }
    match restored {
        Ok(()) => cause,
        Err(failed) => if failed.committed() {
            cause
        } else {
            InstallError::NotRestored {
                path: change.path.clone(),
                source: cause.to_text(),
                rollback: failed.into_error().to_text(),
            }
        },
    }
}

fn perform_from<F: HostFiles, R: TmuxReloader>(
    steps: &Vec<PlanStep>,
    k: usize,
    change: &Change<'_>,
    copy: Option<UnixPath>,
    host: &mut InstallHost<F, R>,
) -> (r: Result<Option<UnixPath>, InstallError>)
    ensures
        old(host).deeds().is_prefix_of(final(host).deeds()),
        performed(
            plan::step_list(steps@),
            k as int,
            change.model(),
            domain::path_view(copy),
            done_since(old(host).deeds(), final(host).deeds()),
            copy_outcome(r),
        ),
    decreases steps.len() - k,
{
    let ghost before = host.deeds();
    let ghost list = plan::step_list(steps@);
    if k >= steps.len() {
        assert(done_since(before, host.deeds()) =~= Seq::empty());
        return Ok(copy);
    }
    assert(list[k as int] == steps@[k as int]@);
    let step = &steps[k];
    let ghost one;
    let r = match &step.kind {
        StepKind::Backup => {
            let made = host.create_backup(change.path, change.original, change.mode);
            proof {
                one = host.deeds();
            }
            match made {
                Ok(place) => perform_from(steps, k + 1, change, Some(place), host),
                Err(error) => {
                    give_up(step, change.path, host);
                    Err(error)
                },
            }
        },
        StepKind::Replace => {
            let done = host.atomic_replace(change.path, change.replacement, change.mode);
            proof {
                one = host.deeds();
            }
            match done {
                Ok(()) => perform_from(steps, k + 1, change, copy, host),
                Err(failed) => if failed.committed() {
                    Err(restore(step, change, failed.into_error(), host))
                } else {
                    give_up(step, change.path, host);
                    Err(failed.into_error())
                },
            }
        },
        kind => {
            let done = tell_server(kind, change.path, host);
            proof {
                one = host.deeds();
            }
            match done {
                Ok(()) => perform_from(steps, k + 1, change, copy, host),
                Err(error) => {
                    give_up(step, change.path, host);
                    Err(error)
                },
            }
        },
    };
    proof {
        one_then(before, one, host.deeds());
    }
    r
}

/// Carries the steps of a plan out, one after the other, up to the first that
/// fails; gives the copy that was made of the file.
pub fn perform<F: HostFiles, R: TmuxReloader>(
    steps: &Vec<PlanStep>,
    change: &Change<'_>,
    host: &mut InstallHost<F, R>,
) -> (r: Result<Option<UnixPath>, InstallError>)
    ensures
        old(host).deeds().is_prefix_of(final(host).deeds()),
        performed(
            plan::step_list(steps@),
            0,
            change.model(),
            None,
            done_since(old(host).deeds(), final(host).deeds()),
            copy_outcome(r),
        ),
{
    perform_from(steps, 0, change, None, host)
}

// ---------------------------------------------------------------------------
// A whole installation
// ---------------------------------------------------------------------------

/// The server said whether it runs.
pub open spec fn said_running(deed: Deed, running: bool) -> bool {
    deed == Deed::Server(ServerExchange { request: ServerRequest::IsRunning, reply: Ok(running) })
}

/// What an installation came to, as values.
#[verifier::ext_equal]
pub struct OutcomeModel {
    pub path: Seq<u8>,
    pub backup: Option<Seq<u8>>,
    pub changed: bool,
    pub reloaded: bool,
}

pub open spec fn install_outcome(r: Result<InstallOutcome, InstallError>) -> Result<
    OutcomeModel,
    FailureModel,
> {
    match r {
        Ok(outcome) => Ok(
            OutcomeModel {
                path: outcome.path@,
                backup: domain::path_view(outcome.backup),
                changed: outcome.changed,
                reloaded: outcome.reloaded,
            },
        ),
        Err(e) => Err(e@),
    }
}

pub open spec fn backup_of(r: Result<OutcomeModel, FailureModel>) -> Result<
    Option<Seq<u8>>,
    FailureModel,
> {
    match r {
        Ok(outcome) => Ok(outcome.backup),
        Err(e) => Err(e),
    }
}

/// A server that runs or not, and whose root table does not bind Left.
pub open spec fn free_server(running: bool) -> ServerState {
    if running {
        ServerState::Running { root_left: Ok(false) }
    } else {
        ServerState::NotRunning
    }
}

/// The steps of an accepted installation.
pub open spec fn install_steps(
    contents: Seq<char>,
    key: Seq<char>,
    smart_left: bool,
    p: PathsModel,
    running: bool,
) -> Seq<PlanStepModel> {
    if plan::installed_text(contents, key, smart_left, p) == contents {
        plan::only_reload(running)
    } else {
        plan::change_steps(plan::install_change(contents, key, smart_left, free_server(running)))
    }
}

/// The server is asked whether it runs, the steps are carried out, and the outcome says
/// so.
pub open spec fn installs(
    host: HostModel,
    key: Seq<char>,
    smart_left: bool,
    p: PathsModel,
    done: Seq<Deed>,
    r: Result<OutcomeModel, FailureModel>,
) -> bool {
    let contents = text::utf8_decoded(host.original)->0;
    exists|running: bool|
        {
            &&& done.len() >= 1
            &&& #[trigger] said_running(done[0], running)
            &&& performed(
                install_steps(contents, key, smart_left, p, running),
                0,
                host,
                None,
                done.skip(1),
                backup_of(r),
            )
            &&& r matches Ok(outcome) ==> {
                &&& outcome.path == host.path
                &&& outcome.changed == (plan::installed_text(contents, key, smart_left, p)
                    != contents)
                &&& outcome.reloaded == running
            }
        }
}

/// What an installation does, in order: nothing where the file or the arguments do not
/// allow it; where it newly takes over Left, a running server is asked whether Left is
/// bound, and a server that cannot tell or binds it ends the installation; then the
/// steps of the plan.
pub open spec fn installation(
    path: Seq<u8>,
    facts: PathFacts,
    bytes: Seq<u8>,
    key: Seq<char>,
    smart_left: bool,
    p: PathsModel,
    done: Seq<Deed>,
    r: Result<OutcomeModel, FailureModel>,
) -> bool {
    let contents = text::utf8_decoded(bytes)->0;
    let host = HostModel {
        path,
        mode: facts->mode,
        original: bytes,
        replacement: text::utf8(plan::installed_text(contents, key, smart_left, p)),
    };
    let problem = plan::install_problem(
        path,
        facts,
        bytes,
        key,
        smart_left,
        p,
        ServerState::NotRunning,
    );
    if problem is Some {
        done.len() == 0 && r == Err::<OutcomeModel, FailureModel>(problem->0)
    } else if !plan::takes_left(contents, smart_left) {
        installs(host, key, smart_left, p, done, r)
    } else {
        &&& done.len() >= 1
        &&& ({
            ||| said_running(done[0], false) && installs(host, key, smart_left, p, done.skip(1), r)
            ||| said_running(done[0], true) && done.len() >= 2 && (done[1] matches Deed::Server(
                exchange,
            ) && exchange.request == ServerRequest::RootLeftBound && match exchange.reply {
                Err(message) => done.len() == 2 && r == Err::<OutcomeModel, FailureModel>(
                    FailureModel::ServerFailed { path, message },
                ),
                Ok(true) => done.len() == 2 && r == Err::<OutcomeModel, FailureModel>(
                    FailureModel::InvalidValue {
                        field: "Smart Left binding"@,
                        reason: "the running tmux server already binds root-table Left"@,
                    },
                ),
                Ok(false) => installs(host, key, smart_left, p, done.skip(2), r),
            })
        })
    }
}

fn install_now<F: HostFiles, R: TmuxReloader>(
    path: &UnixPath,
    facts: &PathFacts,
    bytes: &Vec<u8>,
    key: &str,
    smart_left: bool,
    executables: &ExecutablePaths,
    host: &mut InstallHost<F, R>,
) -> (r: Result<InstallOutcome, InstallError>)
    requires
        block::representable(executables@),
        plan::install_problem(
            path@,
            *facts,
            bytes@,
            key@,
            smart_left,
            executables@,
            ServerState::NotRunning,
        ) is None,
    ensures
        old(host).deeds().is_prefix_of(final(host).deeds()),
        installs(
            (HostModel {
                path: path@,
                mode: facts->mode,
                original: bytes@,
                replacement: text::utf8(
                    plan::installed_text(
                        text::utf8_decoded(bytes@)->0,
                        key@,
                        smart_left,
                        executables@,
                    ),
                ),
            }),
            key@,
            smart_left,
            executables@,
            done_since(old(host).deeds(), final(host).deeds()),
            install_outcome(r),
        ),
{
    let ghost before = host.deeds();
    let running = host.is_running();
    let ghost asked = host.deeds();
    let server = if running {
        ServerState::Running { root_left: Ok(false) }
    } else {
        ServerState::NotRunning
    };
    let planned = install_with_options(
        path,
        facts,
        bytes.as_slice(),
        key,
        smart_left,
        executables,
        &server,
    );
    let plan = match planned {
        Ok(plan) => plan,
        Err(e) => {
            assert(false);
            return Err(e);
        },
    };
    let change = Change {
        path,
        mode: plan.mode,
        original: bytes,
        replacement: &plan.replacement,
    };
    let made = perform(&plan.steps, &change, host);
    let r = match made {
        Ok(backup) => Ok(plan.outcome(backup)),
        Err(e) => Err(e),
    };
    proof {
        let all = done_since(before, host.deeds());
        one_then(before, asked, host.deeds());
        assert(said_running(all[0], running));
    }
    r
}

/// Installs the block, from the check of the file to the reload of the server.
pub fn install_in<F: HostFiles, R: TmuxReloader>(
    path: &UnixPath,
    facts: &PathFacts,
    bytes: &Vec<u8>,
    key: &str,
    smart_left: bool,
    executables: &ExecutablePaths,
    host: &mut InstallHost<F, R>,
) -> (r: Result<InstallOutcome, InstallError>)
    requires
        block::representable(executables@),
    ensures
        old(host).deeds().is_prefix_of(final(host).deeds()),
        installation(
            path@,
            *facts,
            bytes@,
            key@,
            smart_left,
            executables@,
            done_since(old(host).deeds(), final(host).deeds()),
            install_outcome(r),
        ),
{
    let ghost before = host.deeds();
    assert(done_since(before, before) =~= Seq::empty());
    let checked = install_with_options(
        path,
        facts,
        bytes.as_slice(),
        key,
        smart_left,
        executables,
        &ServerState::NotRunning,
    );
    if let Err(e) = checked {
        return Err(e);
    }
    if !takes_over_left(bytes.as_slice(), smart_left) {
        return install_now(path, facts, bytes, key, smart_left, executables, host);
    }
    let running = host.is_running();
    let ghost one = host.deeds();
    if !running {
        let r = install_now(path, facts, bytes, key, smart_left, executables, host);
        proof {
            one_then(before, one, host.deeds());
        }
        return r;
    }
    let bound = host.root_left_bound();
    let ghost two = host.deeds();
    proof {
        let all = done_since(before, two);
        assert(all =~= seq![one.last(), two.last()]);
    }
    match bound {
        Err(message) => Err(InstallError::ServerFailed { path: path.clone(), message }),
        Ok(true) => Err(
            failure::value_failure(
                "Smart Left binding",
                "the running tmux server already binds root-table Left",
            ),
        ),
        Ok(false) => {
            let r = install_now(path, facts, bytes, key, smart_left, executables, host);
            proof {
                let all = done_since(before, host.deeds());
                one_then(one, two, host.deeds());
                one_then(before, one, host.deeds());
                assert(all[1] == all.skip(1)[0]);
                assert(all.skip(2) =~= all.skip(1).skip(1));
            }
            r
        },
    }
}

/// What a removal does, in order: nothing where the file does not allow it; else the
/// server is asked whether it runs, and the steps of the plan are carried out.
pub open spec fn removal(
    path: Seq<u8>,
    facts: PathFacts,
    bytes: Seq<u8>,
    done: Seq<Deed>,
    r: Result<bool, FailureModel>,
) -> bool {
    let contents = text::utf8_decoded(bytes)->0;
    let removes = plan::block_in(contents) is At;
    let host = HostModel {
        path,
        mode: facts->mode,
        original: bytes,
        replacement: text::utf8(plan::removed_text(contents)),
    };
    let problem = plan::removal_problem(path, facts, bytes);
    if problem is Some {
        done.len() == 0 && r == Err::<bool, FailureModel>(problem->0)
    } else {
        exists|running: bool|
            {
                &&& done.len() >= 1
                &&& #[trigger] said_running(done[0], running)
                &&& performed(
                    if removes {
                        plan::removal_steps(contents, running)
                    } else {
                        plan::only_reload(running)
                    },
                    0,
                    host,
                    None,
                    done.skip(1),
                    match r {
                        Ok(_) => Ok(None),
                        Err(e) => Err(e),
                    },
                )
                &&& r matches Ok(removed) ==> removed == removes
            }
    }
}

proof fn no_copy_without_a_step(
    steps: Seq<PlanStepModel>,
    k: int,
    host: HostModel,
    done: Seq<Deed>,
    r: Result<Option<Seq<u8>>, FailureModel>,
)
    requires
        0 <= k,
        forall|j: int| k <= j < steps.len() ==> !((#[trigger] steps[j]).kind is Backup),
        performed(steps, k, host, None, done, r),
    ensures
        r matches Ok(copy) ==> copy is None,
    decreases steps.len() - k,
{
    if k < steps.len() {
        assert(!(steps[k].kind is Backup));
        if performed(steps, k + 1, host, None, done.skip(1), r) {
            no_copy_without_a_step(steps, k + 1, host, done.skip(1), r);
        }
    }
}

/// Removes the block, from the check of the file to the reload of the server; whether
/// there was one.
pub fn uninstall_in<F: HostFiles, R: TmuxReloader>(
    path: &UnixPath,
    facts: &PathFacts,
    bytes: &Vec<u8>,
    host: &mut InstallHost<F, R>,
) -> (r: Result<bool, InstallError>)
    ensures
        old(host).deeds().is_prefix_of(final(host).deeds()),
        removal(
            path@,
            *facts,
            bytes@,
            done_since(old(host).deeds(), final(host).deeds()),
            failure::outcome(r),
        ),
{
    let ghost before = host.deeds();
    assert(done_since(before, before) =~= Seq::empty());
    if let Err(e) = uninstall(path, facts, bytes.as_slice(), false) {
        return Err(e);
    }
    let running = host.is_running();
    let ghost asked = host.deeds();
    let plan = match uninstall(path, facts, bytes.as_slice(), running) {
        Ok(plan) => plan,
        Err(e) => {
            assert(false);
            return Err(e);
        },
    };
    let change = Change {
        path,
        mode: plan.mode,
        original: bytes,
        replacement: &plan.replacement,
    };
    let made = perform(&plan.steps, &change, host);
    proof {
        let all = done_since(before, host.deeds());
        one_then(before, asked, host.deeds());
        assert(said_running(all[0], running));
        no_copy_without_a_step(
            plan::step_list(plan.steps@),
            0,
            change.model(),
            all.skip(1),
            copy_outcome(made),
        );
    }
    match made {
        Ok(_) => Ok(plan.removes),
        Err(e) => Err(e),
    }
}

// ---------------------------------------------------------------------------
// Laws
// ---------------------------------------------------------------------------

/// A step was carried out.
pub open spec fn succeeded(step: PlanStepModel, host: HostModel, deed: Deed) -> bool {
    match (step.kind, deed) {
        (StepModel::Backup, Deed::File(exchange)) => exchange.request == (FileRequest::Backup {
            path: host.path,
            bytes: host.original,
            mode: host.mode,
        }) && exchange.reply is Copied,
        (StepModel::Replace, Deed::File(exchange)) => exchange == (FileExchange {
            request: FileRequest::Replace {
                path: host.path,
                bytes: host.replacement,
                mode: host.mode,
            },
            reply: FileReply::Done,
        }),
        (kind, Deed::Server(exchange)) => Some(exchange.request) == reload::request_of(
            kind,
            host.path,
        ) && exchange.reply is Ok,
        _ => false,
    }
}

/// Where a plan succeeds, its steps were carried out one by one, in their order, and
/// nothing else was done.
pub proof fn a_plan_that_succeeds_is_carried_out(
    steps: Seq<PlanStepModel>,
    k: int,
    host: HostModel,
    copy: Option<Seq<u8>>,
    done: Seq<Deed>,
    r: Result<Option<Seq<u8>>, FailureModel>,
)
    requires
        0 <= k <= steps.len(),
        performed(steps, k, host, copy, done, r),
        r is Ok,
    ensures
        done.len() == steps.len() - k,
        forall|j: int|
            0 <= j < done.len() ==> succeeded(steps[k + j], host, #[trigger] done[j]),
    decreases steps.len() - k,
{
    if k < steps.len() {
        let later = if steps[k].kind is Backup {
            Some((done[0]->File_0.reply)->Copied_0)
        } else {
            copy
        };
        a_plan_that_succeeds_is_carried_out(steps, k + 1, host, later, done.skip(1), r);
        assert forall|j: int| 0 <= j < done.len() implies succeeded(
            steps[k + j],
            host,
            #[trigger] done[j],
        ) by {
            if j > 0 {
                assert(done[j] == done.skip(1)[j - 1]);
            }
        }
    }
}

/// Where a plan ends with a failed reload, every step before that reload was carried
/// out.
pub proof fn a_failed_reload_comes_after_its_steps(
    steps: Seq<PlanStepModel>,
    k: int,
    host: HostModel,
    copy: Option<Seq<u8>>,
    done: Seq<Deed>,
    r: Result<Option<Seq<u8>>, FailureModel>,
) -> (i: int)
    requires
        0 <= k <= steps.len(),
        performed(steps, k, host, copy, done, r),
        r matches Err(e) && failure::is_reload_failure(e),
    ensures
        k <= i < steps.len(),
        steps[i].kind is Reload,
        i - k < done.len(),
        r->Err_0 matches FailureModel::ReloadFailed { path, .. } && path == host.path,
        forall|j: int| 0 <= j < i - k ==> succeeded(steps[k + j], host, #[trigger] done[j]),
    decreases steps.len() - k,
{
    if done[0] matches Deed::Server(exchange) && exchange.reply is Err {
        k
    } else {
        let later = if steps[k].kind is Backup {
            Some((done[0]->File_0.reply)->Copied_0)
        } else {
            copy
        };
        let i = a_failed_reload_comes_after_its_steps(steps, k + 1, host, later, done.skip(1), r);
        assert forall|j: int| 0 <= j < i - k implies succeeded(
            steps[k + j],
            host,
            #[trigger] done[j],
        ) by {
            if j > 0 {
                assert(done[j] == done.skip(1)[j - 1]);
            }
        }
        i
    }
}

/// The failure of a reload names the file, and the file already holds what it was to
/// hold: the record has its replacement before the reload.
pub proof fn a_failed_reload_follows_the_write(
    c: ChangeModel,
    host: HostModel,
    done: Seq<Deed>,
    r: Result<Option<Seq<u8>>, FailureModel>,
)
    requires
        performed(plan::change_steps(c), 0, host, None, done, r),
        r matches Err(e) && failure::is_reload_failure(e),
    ensures
        r->Err_0 matches FailureModel::ReloadFailed { path, .. } && path == host.path,
        plan::replace_at(c) < done.len() - 1,
        done[plan::replace_at(c)] == Deed::File(
            FileExchange {
                request: FileRequest::Replace {
                    path: host.path,
                    bytes: host.replacement,
                    mode: host.mode,
                },
                reply: FileReply::Done,
            },
        ),
{
    let steps = plan::change_steps(c);
    let i = a_failed_reload_comes_after_its_steps(steps, 0, host, None, done, r);
    let at = plan::replace_at(c);
    plan::change_replaces_once(c, i);
    plan::change_replaces_once(c, at);
    assert(i == steps.len() - 1);
    assert(succeeded(steps[0 + at], host, done[at]));
}

/// An installation that changes the file and succeeds: what was bound live is unbound
/// before the file is replaced, a running server is reloaded exactly once and last, and
/// a server that does not run is told nothing.
pub proof fn a_change_is_told_in_order(
    c: ChangeModel,
    host: HostModel,
    done: Seq<Deed>,
    r: Result<Option<Seq<u8>>, FailureModel>,
    j: int,
)
    requires
        performed(plan::change_steps(c), 0, host, None, done, r),
        r is Ok,
        0 <= j < done.len(),
    ensures
        done.len() == plan::change_steps(c).len(),
        succeeded(plan::change_steps(c)[j], host, done[j]),
        plan::change_steps(c)[j].kind is Replace <==> j == plan::replace_at(c),
        plan::is_unbind(plan::change_steps(c)[j].kind) ==> c.running && j < plan::replace_at(c),
        plan::change_steps(c)[j].kind is Reload <==> c.running && j == done.len() - 1,
        !c.running ==> done[j] is File,
{
    a_plan_that_succeeds_is_carried_out(plan::change_steps(c), 0, host, None, done, r);
    plan::change_replaces_once(c, j);
    let steps = plan::change_steps(c);
    assert(succeeded(steps[0 + j], host, done[j]));
}

/// `reloaded` tells whether the server runs, and the recorded binding is unbound exactly
/// where it changes.
pub proof fn an_installation_unbinds_what_it_replaces(
    contents: Seq<char>,
    key: Seq<char>,
    smart_left: bool,
    running: bool,
)
    ensures
        ({
            let c = plan::install_change(contents, key, smart_left, free_server(running));
            let recorded = plan::field_in(contents, block::KEY_FIELD@);
            &&& c.running == running
            &&& c.unbind_key == if recorded is Some && recorded->0 != key {
                recorded
            } else {
                None
            }
            &&& smart_left ==> c.unbind_left is None
        }),
{
}

// ---------------------------------------------------------------------------
// What becomes of the file
// ---------------------------------------------------------------------------

/// What the file at a path holds, and its mode, after one deed.
pub open spec fn file_then(path: Seq<u8>, now: Option<(Seq<u8>, u32)>, deed: Deed) -> Option<
    (Seq<u8>, u32),
> {
    match deed {
        Deed::File(exchange) => match exchange.request {
            FileRequest::Replace { path: p, bytes, mode } => if p == path && in_place(
                exchange.reply,
            ) {
                Some((bytes, mode))
            } else {
                now
            },
            FileRequest::Remove { path: p } => if p == path && in_place(exchange.reply) {
                None
            } else {
                now
            },
            FileRequest::Backup { .. } => now,
        },
        Deed::Server(_) => now,
    }
}

/// What the file at a path holds, and its mode, after some deeds.
pub open spec fn file_after(
    path: Seq<u8>,
    now: Option<(Seq<u8>, u32)>,
    done: Seq<Deed>,
) -> Option<(Seq<u8>, u32)>
    decreases done.len(),
{
    if done.len() == 0 {
        now
    } else {
        file_after(path, file_then(path, now, done[0]), done.skip(1))
    }
}

proof fn giving_up_keeps_the_file(
    step: PlanStepModel,
    path: Seq<u8>,
    now: Option<(Seq<u8>, u32)>,
    done: Seq<Deed>,
)
    requires
        gave_up(step, path, done),
    ensures
        file_after(path, now, done) == now,
{
    reveal_with_fuel(file_after, 3);
}

proof fn steps_without_a_replacement_keep_the_file(
    steps: Seq<PlanStepModel>,
    k: int,
    host: HostModel,
    now: Option<(Seq<u8>, u32)>,
    copy: Option<Seq<u8>>,
    done: Seq<Deed>,
    r: Result<Option<Seq<u8>>, FailureModel>,
)
    requires
        0 <= k <= steps.len(),
        forall|j: int| k <= j < steps.len() ==> !((#[trigger] steps[j]).kind is Replace),
        performed(steps, k, host, copy, done, r),
    ensures
        file_after(host.path, now, done) == now,
    decreases steps.len() - k,
{
    if k < steps.len() {
        assert(!(steps[k].kind is Replace));
        let rest = done.skip(1);
        let later = if steps[k].kind is Backup && done[0]->File_0.reply is Copied {
            Some((done[0]->File_0.reply)->Copied_0)
        } else {
            copy
        };
        if performed(steps, k + 1, host, later, rest, r) {
            steps_without_a_replacement_keep_the_file(steps, k + 1, host, now, later, rest, r);
        } else {
            giving_up_keeps_the_file(steps[k], host.path, now, rest);
        }
    }
}

proof fn a_change_keeps_or_writes_the_file(
    c: ChangeModel,
    k: int,
    host: HostModel,
    copy: Option<Seq<u8>>,
    done: Seq<Deed>,
    r: Result<Option<Seq<u8>>, FailureModel>,
)
    requires
        0 <= k <= plan::replace_at(c),
        performed(plan::change_steps(c), k, host, copy, done, r),
    ensures
        file_after(host.path, Some((host.original, host.mode)), done) == if r matches Err(e)
            && !failure::says_written(e) {
            Some((host.original, host.mode))
        } else {
            Some((host.replacement, host.mode))
        },
    decreases plan::replace_at(c) - k,
{
    let steps = plan::change_steps(c);
    let at = plan::replace_at(c);
    let old_file = Some((host.original, host.mode));
    let new_file = Some((host.replacement, host.mode));
    let rest = done.skip(1);
    plan::change_replaces_once(c, at);
    plan::change_replaces_once(c, k);
    if k < at {
        let later = if steps[k].kind is Backup && done[0]->File_0.reply is Copied {
            Some((done[0]->File_0.reply)->Copied_0)
        } else {
            copy
        };
        let failed = match done[0] {
            Deed::File(exchange) => exchange.reply is Failed,
            Deed::Server(exchange) => exchange.reply is Err,
        };
        if failed {
            giving_up_keeps_the_file(steps[k], host.path, old_file, rest);
        } else {
            a_change_keeps_or_writes_the_file(c, k + 1, host, later, rest, r);
        }
    } else {
        let reply = done[0]->File_0.reply;
        if reply is Done {
            assert forall|j: int| k + 1 <= j < steps.len() implies !((
            #[trigger] steps[j]).kind is Replace) by {
                plan::change_replaces_once(c, j);
            }
            steps_without_a_replacement_keep_the_file(
                steps,
                k + 1,
                host,
                new_file,
                copy,
                rest,
                r,
            );
            reveal_with_fuel(performed, 3);
        } else if reply->committed {
            let restored = file_then(host.path, new_file, rest[0]);
            giving_up_keeps_the_file(steps[k], host.path, restored, rest.skip(1));
        } else {
            giving_up_keeps_the_file(steps[k], host.path, old_file, rest);
        }
    }
}

proof fn questions_keep_the_file(path: Seq<u8>, now: Option<(Seq<u8>, u32)>, done: Seq<Deed>, n: int)
    requires
        0 <= n <= done.len(),
        forall|i: int| 0 <= i < n ==> (#[trigger] done[i]) is Server,
    ensures
        file_after(path, now, done) == file_after(path, now, done.skip(n)),
    decreases n,
{
    if n > 0 {
        assert(done[0] is Server);
        let rest = done.skip(1);
        assert forall|i: int| 0 <= i < n - 1 implies (#[trigger] rest[i]) is Server by {
            assert(rest[i] == done[i + 1]);
        }
        questions_keep_the_file(path, now, rest, n - 1);
        assert(rest.skip(n - 1) =~= done.skip(n));
    } else {
        assert(done.skip(0) =~= done);
    }
}

pub open spec fn failure_in<T>(r: Result<T, FailureModel>) -> Option<FailureModel> {
    match r {
        Ok(_) => None,
        Err(e) => Some(e),
    }
}

/// The change left the file with its bytes and its mode: it failed, and the failure does
/// not say that the file was written.
pub open spec fn kept(failed: Option<FailureModel>) -> bool {
    failed is Some && !failure::says_written(failed->0)
}

/// The file is as it was where it was kept, and else holds what it was to hold.
pub open spec fn kept_or_written(
    host: HostModel,
    done: Seq<Deed>,
    failed: Option<FailureModel>,
) -> bool {
    let before = Some((host.original, host.mode));
    file_after(host.path, before, done) == if kept(failed) {
        before
    } else {
        Some((host.replacement, host.mode))
    }
}

proof fn steps_keep_or_write_the_file(
    c: ChangeModel,
    changes: bool,
    running: bool,
    host: HostModel,
    done: Seq<Deed>,
    r: Result<Option<Seq<u8>>, FailureModel>,
)
    requires
        performed(
            if changes {
                plan::change_steps(c)
            } else {
                plan::only_reload(running)
            },
            0,
            host,
            None,
            done,
            r,
        ),
        !changes ==> host.replacement == host.original,
    ensures
        kept_or_written(host, done, failure_in(r)),
{
    if changes {
        a_change_keeps_or_writes_the_file(c, 0, host, None, done, r);
    } else {
        steps_without_a_replacement_keep_the_file(
            plan::only_reload(running),
            0,
            host,
            Some((host.original, host.mode)),
            None,
            done,
            r,
        );
    }
}

proof fn installing_keeps_or_writes_the_file(
    host: HostModel,
    key: Seq<char>,
    smart_left: bool,
    p: PathsModel,
    done: Seq<Deed>,
    r: Result<OutcomeModel, FailureModel>,
)
    requires
        text::utf8_decoded(host.original) is Some,
        host.replacement == text::utf8(
            plan::installed_text(text::utf8_decoded(host.original)->0, key, smart_left, p),
        ),
        installs(host, key, smart_left, p, done, r),
    ensures
        kept_or_written(host, done, failure_in(r)),
{
    let contents = text::utf8_decoded(host.original)->0;
    let running = choose|running: bool|
        #[trigger] said_running(done[0], running) && performed(
            install_steps(contents, key, smart_left, p, running),
            0,
            host,
            None,
            done.skip(1),
            backup_of(r),
        );
    text::decoding_keeps_the_bytes(host.original);
    steps_keep_or_write_the_file(
        plan::install_change(contents, key, smart_left, free_server(running)),
        plan::installed_text(contents, key, smart_left, p) != contents,
        running,
        host,
        done.skip(1),
        backup_of(r),
    );
    questions_keep_the_file(host.path, Some((host.original, host.mode)), done, 1);
}

/// An installation is fail-closed: a failure that does not say that the file was written
/// leaves it with its bytes and its mode. Where it does say so, and where the
/// installation succeeds, the file holds the new text.
pub proof fn a_failed_installation_keeps_the_file(
    path: Seq<u8>,
    facts: PathFacts,
    bytes: Seq<u8>,
    key: Seq<char>,
    smart_left: bool,
    p: PathsModel,
    done: Seq<Deed>,
    r: Result<OutcomeModel, FailureModel>,
)
    requires
        installation(path, facts, bytes, key, smart_left, p, done, r),
    ensures
        ({
            let before = Some((bytes, facts->mode));
            let installed = text::utf8(
                plan::installed_text(text::utf8_decoded(bytes)->0, key, smart_left, p),
            );
            &&& kept(failure_in(r)) ==> file_after(path, before, done) == before
            &&& !kept(failure_in(r)) ==> file_after(path, before, done) == Some(
                (installed, facts->mode),
            )
        }),
{
    let contents = text::utf8_decoded(bytes)->0;
    let host = HostModel {
        path,
        mode: facts->mode,
        original: bytes,
        replacement: text::utf8(plan::installed_text(contents, key, smart_left, p)),
    };
    let before = Some((bytes, facts->mode));
    let problem = plan::install_problem(
        path,
        facts,
        bytes,
        key,
        smart_left,
        p,
        ServerState::NotRunning,
    );
    if problem is None {
        if installs(host, key, smart_left, p, done, r) {
            installing_keeps_or_writes_the_file(host, key, smart_left, p, done, r);
        } else if said_running(done[0], false) {
            questions_keep_the_file(path, before, done, 1);
            installing_keeps_or_writes_the_file(host, key, smart_left, p, done.skip(1), r);
        } else {
            questions_keep_the_file(path, before, done, 2);
            if installs(host, key, smart_left, p, done.skip(2), r) {
                installing_keeps_or_writes_the_file(host, key, smart_left, p, done.skip(2), r);
            }
        }
    }
}

/// A removal is fail-closed in the same way.
pub proof fn a_failed_removal_keeps_the_file(
    path: Seq<u8>,
    facts: PathFacts,
    bytes: Seq<u8>,
    done: Seq<Deed>,
    r: Result<bool, FailureModel>,
)
    requires
        removal(path, facts, bytes, done, r),
    ensures
        ({
            let before = Some((bytes, facts->mode));
            let left = Some(
                (text::utf8(plan::removed_text(text::utf8_decoded(bytes)->0)), facts->mode),
            );
            &&& kept(failure_in(r)) ==> file_after(path, before, done) == before
            &&& !kept(failure_in(r)) ==> file_after(path, before, done) == left
        }),
{
    let contents = text::utf8_decoded(bytes)->0;
    let removes = plan::block_in(contents) is At;
    let host = HostModel {
        path,
        mode: facts->mode,
        original: bytes,
        replacement: text::utf8(plan::removed_text(contents)),
    };
    if plan::removal_problem(path, facts, bytes) is None {
        let result: Result<Option<Seq<u8>>, FailureModel> = match r {
            Ok(_) => Ok(None),
            Err(e) => Err(e),
        };
        let running = choose|running: bool|
            #[trigger] said_running(done[0], running) && performed(
                if removes {
                    plan::removal_steps(contents, running)
                } else {
                    plan::only_reload(running)
                },
                0,
                host,
                None,
                done.skip(1),
                result,
            );
        text::decoding_keeps_the_bytes(bytes);
        steps_keep_or_write_the_file(
            plan::removal_change(contents, running),
            removes,
            running,
            host,
            done.skip(1),
            result,
        );
        questions_keep_the_file(path, Some((bytes, facts->mode)), done, 1);
    }
}

} // verus!
