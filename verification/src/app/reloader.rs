//! The tmux server as it is told about a changed configuration.

use vstd::prelude::*;
use crate::domain;
use crate::domain::{CommandOutput, Exchange, LoggedRunner, OutputModel, TmuxCommandRunner};
use crate::error;
use crate::error::{command_error, ErrorModel, MuxError};
use crate::install::block;
use crate::install::block::{smart_left_owner, PathsModel};
use crate::install::discover::{EvidenceModel, ServerEvidence};
use crate::install::reload;
use crate::install::reload::TmuxReloader;
use crate::number;
use crate::path;
use crate::path::UnixPath;
use crate::scan;
use crate::scan::{contains_text, split_text, trim};
use crate::text;
use crate::text::{list3, list4, read_utf8, to_words, utf8_lossy};

verus! {

// ---------------------------------------------------------------------------
// Which files the server loaded
// ---------------------------------------------------------------------------

pub open spec fn config_query() -> Seq<Seq<char>> {
    seq!["display-message"@, "-p"@, "#{config_files}"@]
}

/// The parts of a list that are not blank, as paths.
pub open spec fn listed_paths(parts: Seq<Seq<char>>) -> Seq<Seq<u8>>
    decreases parts.len(),
{
    if parts.len() == 0 {
        Seq::empty()
    } else {
        let rest = listed_paths(parts.drop_last());
        let part = scan::trimmed(parts.last());
        if part.len() == 0 {
            rest
        } else {
            rest.push(text::utf8(part))
        }
    }
}

/// The message of tmux says that no server runs.
pub open spec fn says_no_server(message: Seq<char>) -> bool {
    scan::occurs(message, "no server running"@) || scan::occurs(message, "failed to connect"@)
        || scan::occurs(message, "No such file or directory"@)
}

/// What a reply says of the server and the files that it loaded.
pub open spec fn evidence(reply: Result<OutputModel, ErrorModel>) -> Result<
    EvidenceModel,
    ErrorModel,
> {
    match reply {
        Err(e) => Err(e),
        Ok(output) => if output.status == Some(0i32) {
            match text::utf8_decoded(output.stdout) {
                None => Err(ErrorModel::Command("tmux returned non-UTF-8 config paths"@)),
                Some(printed) => Ok(
                    EvidenceModel::Running(
                        listed_paths(scan::split_on(scan::trimmed(printed), ',')),
                    ),
                ),
            }
        } else {
            let message = text::lossy_text(output.stderr);
            if says_no_server(message) {
                Ok(EvidenceModel::NotRunning)
            } else {
                Err(
                    ErrorModel::Command(
                        "could not inspect tmux configuration files: "@ + scan::trimmed(message),
                    ),
                )
            }
        },
    }
}

pub open spec fn evidence_view(e: ServerEvidence) -> EvidenceModel {
    match e {
        ServerEvidence::NotRunning => EvidenceModel::NotRunning,
        ServerEvidence::Running(loaded) => EvidenceModel::Running(domain::path_list(loaded@)),
    }
}

pub open spec fn evidence_outcome(r: Result<ServerEvidence, MuxError>) -> Result<
    EvidenceModel,
    ErrorModel,
> {
    match r {
        Ok(e) => Ok(evidence_view(e)),
        Err(e) => Err(e@),
    }
}

fn read_listed(parts: &Vec<String>) -> (r: Vec<UnixPath>)
    ensures
        domain::path_list(r@) == listed_paths(text::texts(parts@)),
{
    let ghost all = text::texts(parts@);
    let mut r: Vec<UnixPath> = Vec::new();
    assert(domain::path_list(r@) =~= Seq::empty());
    assert(all.take(0) =~= Seq::empty());
    let mut i: usize = 0;
    while i < parts.len()
        invariant
            i <= parts.len(),
            domain::path_list(r@) == listed_paths(all.take(i as int)),
        decreases parts.len() - i,
    {
        let ghost before = domain::path_list(r@);
        proof {
            assert(all.take(i + 1).drop_last() =~= all.take(i as int));
            assert(all.take(i + 1).last() == parts@[i as int]@);
        }
        let part = trim(&parts[i]);
        if !part.as_str().is_empty() {
            r.push(UnixPath::new(&part));
            assert(domain::path_list(r@) =~= before.push(text::utf8(part@)));
        }
        i += 1;
    }
    assert(all.take(all.len() as int) =~= all);
    r
}

/// Asks the server for the files that it loaded.
pub fn loaded_configs<R: TmuxCommandRunner>(runner: &mut LoggedRunner<R>) -> (r: Result<
    ServerEvidence,
    MuxError,
>)
    ensures
        final(runner).history() == old(runner).history().push(
            Exchange {
                request: text::utf8_words(config_query()),
                reply: final(runner).history().last().reply,
            },
        ),
        evidence_outcome(r) == evidence(final(runner).history().last().reply),
{
    let output = match runner.run(
        &to_words(&list3("display-message", "-p", "#{config_files}")),
    ) {
        Ok(output) => output,
        Err(e) => return Err(e),
    };
    if let Some(0) = output.status {
        return match read_utf8(&output.stdout) {
            None => Err(command_error("tmux returned non-UTF-8 config paths")),
            Some(printed) => Ok(
                ServerEvidence::Running(read_listed(&split_text(&trim(&printed), ','))),
            ),
        };
    }
    let message = utf8_lossy(&output.stderr);
    if contains_text(&message, "no server running") || contains_text(&message, "failed to connect")
        || contains_text(&message, "No such file or directory") {
        Ok(ServerEvidence::NotRunning)
    } else {
        let mut detail = "could not inspect tmux configuration files: ".to_owned();
        detail.append(&trim(&message));
        Err(command_error(&detail))
    }
}

/// Whether a file is one of those that the server loaded; all paths are
/// canonical.
pub fn is_loaded(selected: &UnixPath, loaded: &Vec<UnixPath>) -> (r: bool)
    ensures
        r == exists|i: int|
            0 <= i < loaded@.len() && path::same_path((#[trigger] loaded@[i])@, selected@),
{
    let mut i: usize = 0;
    while i < loaded.len()
        invariant
            i <= loaded.len(),
            forall|j: int| 0 <= j < i ==> !path::same_path((#[trigger] loaded@[j])@, selected@),
        decreases loaded.len() - i,
    {
        if loaded[i].same_as(selected) {
            return true;
        }
        i += 1;
    }
    false
}

// ---------------------------------------------------------------------------
// Telling the server
// ---------------------------------------------------------------------------

/// A command for effect: it succeeded, or what tmux said of it.
pub open spec fn told(reply: Result<OutputModel, ErrorModel>) -> Result<bool, Seq<char>> {
    match reply {
        Err(e) => Err(error::error_text(e)),
        Ok(output) => if output.status == Some(0i32) {
            Ok(true)
        } else {
            Err(scan::trimmed(text::lossy_text(output.stderr)))
        },
    }
}

/// What a list of the keys says of Left.
pub open spec fn left_bound(reply: Result<OutputModel, ErrorModel>) -> Result<bool, Seq<char>> {
    match told(reply) {
        Ok(_) => Ok(true),
        Err(message) => match reply {
            Err(_) => Err(message),
            Ok(output) => {
                let said = text::lossy_text(output.stderr);
                if scan::occurs(said, "unknown key"@) || scan::occurs(said, "no key binding"@) {
                    Ok(false)
                } else {
                    Err(message)
                }
            },
        },
    }
}

/// A binding carries the mark of the given program and the parts of the managed
/// binding.
pub open spec fn is_own_binding(binding: Seq<char>, mux: Seq<u8>) -> bool {
    &&& scan::occurs(binding, "owner="@ + number::hex(mux) + "; if [ -x "@)
    &&& scan::occurs(binding, " smart-left; else "@)
    &&& scan::occurs(binding, "@codex_mux_smart_left_active"@)
}

pub open spec fn left_query() -> Seq<Seq<char>> {
    seq!["list-keys"@, "-T"@, "root"@, "Left"@]
}

pub open spec fn left_removal() -> Seq<Seq<char>> {
    seq!["unbind-key"@, "-T"@, "root"@, "Left"@]
}

/// Left is unbound only where its binding is the managed one.
pub open spec fn left_removed(
    mux: Seq<u8>,
    trace: Seq<Exchange>,
    result: Result<bool, Seq<char>>,
) -> bool {
    &&& trace.len() >= 1
    &&& trace[0].request == text::utf8_words(left_query())
    &&& match told(trace[0].reply) {
        Err(message) => trace.len() == 1 && result == Err::<bool, Seq<char>>(message),
        Ok(_) => if is_own_binding(text::lossy_text(trace[0].reply->Ok_0.stdout), mux) {
            &&& trace.len() == 2
            &&& trace[1].request == text::utf8_words(left_removal())
            &&& result == told(trace[1].reply)
        } else {
            &&& trace.len() == 1
            &&& result == Err::<bool, Seq<char>>(
                "root-table Left no longer matches the codex-mux-owned binding"@,
            )
        },
    }
}

/// The tmux server behind a command runner.
pub struct SystemTmuxReloader<R> {
    pub runner: LoggedRunner<R>,
    /// Whether a server runs that loaded the managed file.
    pub selected_is_loaded: bool,
}

impl<R: TmuxCommandRunner> SystemTmuxReloader<R> {
    /// A server together with the answer to whether it loaded the managed file.
    pub fn new(runner: R, selected_is_loaded: bool) -> (r: Self)
        ensures
            r.runner.wrapped() == runner,
            r.runner.history() == Seq::<Exchange>::empty(),
            r.selected_is_loaded == selected_is_loaded,
    {
        SystemTmuxReloader { runner: LoggedRunner::new(runner), selected_is_loaded }
    }

    fn tell(&mut self, words: &Vec<Vec<u8>>) -> (r: Result<CommandOutput, String>)
        ensures
            final(self).selected_is_loaded == old(self).selected_is_loaded,
            final(self).runner.history() == old(self).runner.history().push(
                Exchange {
                    request: text::words(words@),
                    reply: final(self).runner.history().last().reply,
                },
            ),
            match r {
                Ok(output) => final(self).runner.history().last().reply == Ok::<
                    OutputModel,
                    ErrorModel,
                >(output@) && output@.status == Some(0i32),
                Err(message) => told(final(self).runner.history().last().reply) == Err::<
                    bool,
                    Seq<char>,
                >(message@),
            },
    {
        match self.runner.run(words) {
            Err(e) => Err(e.to_text()),
            Ok(output) => match output.status {
                Some(0) => Ok(output),
                _ => Err(trim(&utf8_lossy(&output.stderr))),
            },
        }
    }
}

impl<R: TmuxCommandRunner> TmuxReloader for SystemTmuxReloader<R> {
    fn is_running(&mut self) -> (r: bool)
        ensures
            *final(self) == *old(self),
            r == old(self).selected_is_loaded,
    {
        self.selected_is_loaded
    }

    fn unbind(&mut self, key: &str) -> (r: Result<(), String>)
        ensures
            final(self).runner.history() == old(self).runner.history().push(
                Exchange {
                    request: text::utf8_words(seq!["unbind-key"@, "-T"@, "prefix"@, key@]),
                    reply: final(self).runner.history().last().reply,
                },
            ),
            reload::done_reply(r) == told(final(self).runner.history().last().reply),
    {
        match self.tell(&to_words(&list4("unbind-key", "-T", "prefix", key))) {
            Ok(_) => Ok(()),
            Err(message) => Err(message),
        }
    }

    fn root_left_bound(&mut self) -> (r: Result<bool, String>)
        ensures
            final(self).runner.history() == old(self).runner.history().push(
                Exchange {
                    request: text::utf8_words(left_query()),
                    reply: final(self).runner.history().last().reply,
                },
            ),
            reload::flag_reply(r) == left_bound(final(self).runner.history().last().reply),
    {
        match self.runner.run(&to_words(&list4("list-keys", "-T", "root", "Left"))) {
            Err(e) => Err(e.to_text()),
            Ok(output) => {
                if let Some(0) = output.status {
                    return Ok(true);
                }
                let said = utf8_lossy(&output.stderr);
                if contains_text(&said, "unknown key") || contains_text(&said, "no key binding") {
                    Ok(false)
                } else {
                    Err(trim(&said))
                }
            },
        }
    }

    fn unbind_root_left(&mut self, expected_mux: &UnixPath) -> (r: Result<(), String>)
        ensures
            old(self).runner.history().is_prefix_of(final(self).runner.history()),
            left_removed(
                expected_mux@,
                crate::tmux::actions::exchanged(
                    old(self).runner.history(),
                    final(self).runner.history(),
                ),
                reload::done_reply(r),
            ),
    {
        let ghost before = self.runner.history();
        let listed = self.tell(&to_words(&list4("list-keys", "-T", "root", "Left")));
        let ghost first = self.runner.history();
        assert(crate::tmux::actions::exchanged(before, first) =~= seq![first.last()]);
        let output = match listed {
            Ok(output) => output,
            Err(message) => return Err(message),
        };
        let binding = utf8_lossy(&output.stdout);
        let mut signature = "owner=".to_owned();
        signature.append(&smart_left_owner(expected_mux));
        signature.append("; if [ -x ");
        if !contains_text(&binding, &signature) || !contains_text(&binding, " smart-left; else ")
            || !contains_text(&binding, "@codex_mux_smart_left_active") {
            return Err(
                "root-table Left no longer matches the codex-mux-owned binding".to_owned(),
            );
        }
        let r = self.tell(&to_words(&list4("unbind-key", "-T", "root", "Left")));
        let ghost second = self.runner.history();
        assert(crate::tmux::actions::exchanged(before, second) =~= seq![
            first.last(),
            second.last(),
        ]);
        match r {
            Ok(_) => Ok(()),
            Err(message) => Err(message),
        }
    }

    fn reload(&mut self, location: &UnixPath) -> (r: Result<(), String>)
        ensures
            final(self).runner.history() == old(self).runner.history().push(
                Exchange {
                    request: seq![text::utf8("source-file"@), location@],
                    reply: final(self).runner.history().last().reply,
                },
            ),
            reload::done_reply(r) == told(final(self).runner.history().last().reply),
    {
        let mut words = text::no_words();
        text::push_text_word(&mut words, "source-file");
        text::push_word(&mut words, text::copy_bytes(&location.bytes));
        assert(text::words(words@) =~= seq![text::utf8("source-file"@), location@]);
        match self.tell(&words) {
            Ok(_) => Ok(()),
            Err(message) => Err(message),
        }
    }
}

proof fn occurs_between(a: Seq<char>, p: Seq<char>, b: Seq<char>)
    ensures
        scan::occurs(a + p + b, p),
{
    assert((a + p + b).subrange(a.len() as int, (a.len() + p.len()) as int) =~= p);
    assert(scan::occurs_at(a + p + b, p, a.len() as int));
}

/// The command that an installation binds to Left is recognized, for the same
/// program, when the binding is to be removed.
pub proof fn own_binding_is_recognized(p: PathsModel)
    ensures
        is_own_binding(block::probe_text(p), p.mux),
{
    let s = block::probe_text(p);
    let words = block::invocation_words(p);
    let pane = block::shell_variable("pane_id"@);
    let mark = "owner="@ + number::hex(p.mux) + "; if [ -x "@;
    let called = scan::join_with(words.push("smart-left"@), " "@);
    let tail = "; else tmux send-keys -t "@ + pane + " Left; fi; tmux set-option -pu -t "@ + pane
        + " @codex_mux_smart_left_active"@;
    let rest = block::shell_path(p.mux) + " ]; then "@ + called + tail;
    assert(s =~= Seq::<char>::empty() + mark + rest);
    occurs_between(Seq::empty(), mark, rest);
    reveal_strlit(" ");
    reveal_strlit("smart-left");
    reveal_strlit(" smart-left; else ");
    reveal_strlit("; else tmux send-keys -t ");
    reveal_strlit("tmux send-keys -t ");
    reveal_strlit(" @codex_mux_smart_left_active");
    reveal_strlit("@codex_mux_smart_left_active");
    assert(words.push("smart-left"@).drop_last() =~= words);
    assert(words.len() > 0);
    let front = mark + block::shell_path(p.mux) + " ]; then "@ + scan::join_with(words, " "@);
    let behind = "tmux send-keys -t "@ + pane + " Left; fi; tmux set-option -pu -t "@ + pane
        + " @codex_mux_smart_left_active"@;
    assert(called =~= scan::join_with(words, " "@) + " "@ + "smart-left"@);
    assert(" "@ + "smart-left"@ + "; else tmux send-keys -t "@ =~= " smart-left; else "@
        + "tmux send-keys -t "@);
    assert(s =~= front + (" "@ + "smart-left"@ + "; else tmux send-keys -t "@) + pane
        + " Left; fi; tmux set-option -pu -t "@ + pane + " @codex_mux_smart_left_active"@);
    assert(s =~= front + " smart-left; else "@ + behind);
    occurs_between(front, " smart-left; else "@, behind);
    let ahead = s.take(s.len() - "@codex_mux_smart_left_active"@.len());
    assert(s =~= ahead + "@codex_mux_smart_left_active"@ + Seq::<char>::empty()) by {
        let whole = mark + block::shell_path(p.mux) + " ]; then "@ + called
            + "; else tmux send-keys -t "@ + pane + " Left; fi; tmux set-option -pu -t "@ + pane;
        assert(s =~= whole + " @codex_mux_smart_left_active"@);
        assert(" @codex_mux_smart_left_active"@ =~= " "@ + "@codex_mux_smart_left_active"@);
        assert(s =~= whole + " "@ + "@codex_mux_smart_left_active"@);
    }
    occurs_between(ahead, "@codex_mux_smart_left_active"@, Seq::empty());
}

} // verus!
