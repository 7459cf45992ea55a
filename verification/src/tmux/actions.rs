//! Exact-target tmux actions used by the interactive application.

use vstd::prelude::*;
use crate::domain::{
    CodexExecutable, CommandOutput, Exchange, InvocationContext, OutputModel, Pane, PaneId,
    LoggedRunner, TmuxCommandRunner,
};
use crate::domain;
use crate::error;
use crate::error::{command_error, ErrorModel, MuxError};
use crate::launch;
use crate::launch::{
    new_window_arguments, new_window_arguments_with_permissions, LaunchKind,
};
use crate::number;
use crate::number::{decimal_text, parse_u64, signed_text};
use crate::scan;
use crate::scan::trim;
use crate::smart_naming::thread;
use crate::smart_naming::thread::thread_hint;
use crate::text;
use crate::text::{list5, list6, put, put_all, read_utf8, text_equal, to_words, utf8_lossy};
use crate::tmux::options;
use crate::tmux::options::{
    generated_option_list, set_arguments, set_command, unset_arguments, unset_command, IMMEDIATE_NAMING_OPTION,
    MANUAL_NAME_OPTION, MANUAL_NAME_PID_OPTION, MANUAL_NAME_SESSION_OPTION,
    MANUAL_NAME_SOURCE_OPTION, RENAME_COMPLETE_OPTION, UNPIN_COMPLETE_OPTION, UNPIN_READY_OPTION,
    UNPIN_WAITING_OPTION, UNPIN_WAITING_PID_OPTION, UNPIN_WAITING_SESSION_OPTION,
    UNPIN_WAITING_TITLE_OPTION,
};
use crate::tmux::quote;
use crate::tmux::quote::{
    all_of, equals, tmux_command, tmux_format_literal, tmux_quote, tmux_title_literal,
};

verus! {

// ---------------------------------------------------------------------------
// Replies
// ---------------------------------------------------------------------------

/// What is reported of a tmux command that failed.
pub open spec fn failure_detail(output: OutputModel) -> Seq<char> {
    let detail = scan::trimmed(text::lossy_text(output.stderr));
    if detail.len() > 0 {
        detail
    } else {
        match output.status {
            Some(code) => "tmux exited with status "@ + number::signed_decimal(code as int),
            None => "tmux terminated without an exit status"@,
        }
    }
}

/// A reply that counts as success only with exit status zero.
pub open spec fn checked(reply: Result<OutputModel, ErrorModel>) -> Result<
    OutputModel,
    ErrorModel,
> {
    match reply {
        Err(e) => Err(e),
        Ok(output) => if output.status == Some(0i32) {
            Ok(output)
        } else {
            Err(ErrorModel::Command(failure_detail(output)))
        },
    }
}

/// A successful reply whose output does not matter.
pub open spec fn done(reply: Result<OutputModel, ErrorModel>) -> Result<(), ErrorModel> {
    match checked(reply) {
        Ok(_) => Ok(()),
        Err(e) => Err(e),
    }
}

/// The zoom flag that tmux printed.
pub open spec fn zoom_flag(stdout: Seq<u8>) -> Result<bool, ErrorModel> {
    if stdout == seq![48u8] || stdout == seq![48u8, 10u8] {
        Ok(false)
    } else if stdout == seq![49u8] || stdout == seq![49u8, 10u8] {
        Ok(true)
    } else {
        Err(
            ErrorModel::Command(
                "tmux returned an invalid zoom flag "@ + text::debug_text(
                    scan::trimmed(text::lossy_text(stdout)),
                ),
            ),
        )
    }
}

/// The pane identity that tmux printed: `%` and a number.
pub open spec fn printed_pane_id(stdout: Seq<u8>) -> Result<Seq<char>, ErrorModel> {
    match text::utf8_decoded(stdout) {
        None => Err(ErrorModel::Command("tmux returned a non-UTF-8 pane ID"@)),
        Some(decoded) => {
            let value = scan::trimmed(decoded);
            if value.len() > 0 && value[0] == '%' && number::unsigned_value(
                value.skip(1),
                u64::MAX as nat,
            ) is Some {
                Ok(value)
            } else {
                Err(
                    ErrorModel::Command(
                        "tmux returned an invalid pane ID "@ + text::debug_text(value),
                    ),
                )
            }
        },
    }
}

fn output_detail(output: &CommandOutput) -> (r: String)
    ensures
        r@ == failure_detail(output@),
{
    let detail = trim(&utf8_lossy(&output.stderr));
    if !detail.as_str().is_empty() {
        return detail;
    }
    match output.status {
        Some(code) => {
            let mut s = "tmux exited with status ".to_owned();
            s.append(&signed_text(code));
            s
        },
        None => "tmux terminated without an exit status".to_owned(),
    }
}

/// Reads a printed zoom flag.
pub fn parse_zoomed(stdout: &Vec<u8>) -> (r: Result<bool, MuxError>)
    ensures
        error::outcome(r) == zoom_flag(stdout@),
{
    let flag = stdout.len() == 1 || (stdout.len() == 2 && stdout[1] == 10);
    proof {
        if flag && stdout@[0] == 48 {
            assert(stdout@ =~= seq![48u8] || stdout@ =~= seq![48u8, 10u8]);
        }
        if flag && stdout@[0] == 49 {
            assert(stdout@ =~= seq![49u8] || stdout@ =~= seq![49u8, 10u8]);
        }
    }
    if flag && stdout[0] == 48 {
        Ok(false)
    } else if flag && stdout[0] == 49 {
        Ok(true)
    } else {
        let mut message = "tmux returned an invalid zoom flag ".to_owned();
        message.append(&text::debug_quoted(&trim(&utf8_lossy(stdout))));
        Err(MuxError::Command(message))
    }
}

pub open spec fn pane_id_outcome(r: Result<PaneId, MuxError>) -> Result<Seq<char>, ErrorModel> {
    match r {
        Ok(id) => Ok(id@),
        Err(e) => Err(e@),
    }
}

/// Reads a printed pane identity.
pub fn parse_pane_id(stdout: &Vec<u8>) -> (r: Result<PaneId, MuxError>)
    ensures
        pane_id_outcome(r) == printed_pane_id(stdout@),
{
    let value = match read_utf8(stdout) {
        None => return Err(command_error("tmux returned a non-UTF-8 pane ID")),
        Some(decoded) => trim(&decoded),
    };
    let v = text::to_chars(&value);
    if v.len() > 0 && v[0] == '%' {
        let digits = text::slice_text(&v, 1, v.len());
        assert(v@.subrange(1, v@.len() as int) =~= v@.skip(1));
        if parse_u64(&digits).is_some() {
            proof {
                assert(!scan::is_blank(value@)) by {
                    assert(!text::is_space(value@[0]));
                }
            }
            return PaneId::new(&value);
        }
    }
    let mut message = "tmux returned an invalid pane ID ".to_owned();
    message.append(&text::debug_quoted(&value));
    Err(MuxError::Command(message))
}

// ---------------------------------------------------------------------------
// Guarded command sequences
// ---------------------------------------------------------------------------

/// One request of a command sequence. Where a marker is expected, its reply must
/// print exactly that marker.
pub struct Step {
    pub request: Vec<String>,
    pub marker: Option<Marker>,
}

pub struct Marker {
    pub expected: String,
    /// What is reported where the reply prints anything else.
    pub message: String,
}

#[verifier::ext_equal]
pub struct StepModel {
    pub request: Seq<Seq<char>>,
    pub marker: Option<MarkerModel>,
}

#[verifier::ext_equal]
pub struct MarkerModel {
    pub expected: Seq<char>,
    pub message: Seq<char>,
}

impl View for Step {
    type V = StepModel;

    open spec fn view(&self) -> StepModel {
        StepModel {
            request: text::texts(self.request@),
            marker: match self.marker {
                Some(m) => Some(
                    MarkerModel { expected: m.expected@, message: m.message@ },
                ),
                None => None,
            },
        }
    }
}

pub open spec fn step_list(steps: Seq<Step>) -> Seq<StepModel> {
    Seq::new(steps.len(), |i: int| steps[i]@)
}

/// What the reply to a step amounts to.
pub open spec fn step_outcome(step: StepModel, reply: Result<OutputModel, ErrorModel>) -> Result<
    (),
    ErrorModel,
> {
    match checked(reply) {
        Err(e) => Err(e),
        Ok(output) => match step.marker {
            Some(m) => if scan::trimmed(text::lossy_text(output.stdout)) == m.expected {
                Ok(())
            } else {
                Err(ErrorModel::Command(m.message))
            },
            None => Ok(()),
        },
    }
}

/// The steps were requested in order up to the first that failed, whose error is
/// the result; `Ok` where all of them succeeded.
pub open spec fn follows(
    steps: Seq<StepModel>,
    trace: Seq<Exchange>,
    result: Result<(), ErrorModel>,
) -> bool
    decreases steps.len(),
{
    if steps.len() == 0 {
        trace.len() == 0 && result == Ok::<(), ErrorModel>(())
    } else {
        &&& trace.len() > 0
        &&& trace[0].request == text::utf8_words(steps[0].request)
        &&& match step_outcome(steps[0], trace[0].reply) {
            Err(e) => trace.len() == 1 && result == Err::<(), ErrorModel>(e),
            Ok(_) => follows(steps.skip(1), trace.skip(1), result),
        }
    }
}

/// Success means that every step was requested and every marker was read back.
pub proof fn success_means_every_step(
    steps: Seq<StepModel>,
    trace: Seq<Exchange>,
    result: Result<(), ErrorModel>,
)
    requires
        follows(steps, trace, result),
        result is Ok,
    ensures
        trace.len() == steps.len(),
        forall|i: int|
            0 <= i < steps.len() ==> {
                &&& (#[trigger] trace[i]).request == text::utf8_words(steps[i].request)
                &&& step_outcome(steps[i], trace[i].reply) is Ok
            },
    decreases steps.len(),
{
    if steps.len() > 0 {
        success_means_every_step(steps.skip(1), trace.skip(1), result);
        assert forall|i: int| 0 <= i < steps.len() implies {
            &&& (#[trigger] trace[i]).request == text::utf8_words(steps[i].request)
            &&& step_outcome(steps[i], trace[i].reply) is Ok
        } by {
            if i > 0 {
                assert(trace.skip(1)[i - 1] == trace[i]);
                assert(steps.skip(1)[i - 1] == steps[i]);
            }
        }
    }
}

/// What was exchanged between two states of a runner.
pub open spec fn exchanged(before: Seq<Exchange>, after: Seq<Exchange>) -> Seq<Exchange> {
    after.skip(before.len() as int)
}

// ---------------------------------------------------------------------------
// Selecting and launching
// ---------------------------------------------------------------------------

pub open spec fn zoom_query(pane: Seq<char>) -> Seq<Seq<char>> {
    seq!["display-message"@, "-p"@, "-t"@, pane, "#{window_zoomed_flag}"@]
}

/// Selects the window and the pane, then switches exactly the invoking client.
pub open spec fn switch_words(client: Seq<char>, pane: Seq<char>, zoom: bool) -> Seq<Seq<char>> {
    let base = seq![
        "select-window"@,
        "-t"@,
        pane,
        ";"@,
        "select-pane"@,
        "-Z"@,
        "-t"@,
        pane,
        ";"@,
        "switch-client"@,
        "-Z"@,
        "-c"@,
        client,
        "-t"@,
        pane,
    ];
    if zoom {
        base + seq![";"@, "resize-pane"@, "-Z"@, "-t"@, pane]
    } else {
        base
    }
}

/// The zoom flag was asked for; with an answer, the client was switched and the
/// window zoomed where it was not.
pub open spec fn switched(
    client: Seq<char>,
    pane: Seq<char>,
    trace: Seq<Exchange>,
    result: Result<(), ErrorModel>,
) -> bool {
    &&& trace.len() >= 1
    &&& trace[0].request == text::utf8_words(zoom_query(pane))
    &&& match checked(trace[0].reply) {
        Err(e) => trace.len() == 1 && result == Err::<(), ErrorModel>(e),
        Ok(output) => match zoom_flag(output.stdout) {
            Err(e) => trace.len() == 1 && result == Err::<(), ErrorModel>(e),
            Ok(zoomed) => {
                &&& trace.len() == 2
                &&& trace[1].request == text::utf8_words(switch_words(client, pane, !zoomed))
                &&& result == done(trace[1].reply)
            },
        },
    }
}

/// The window was opened; with a pane identity printed, the invoking client was
/// switched to that pane. A failure to switch names the pane that was created.
pub open spec fn launched(
    request: Seq<Seq<u8>>,
    client: Seq<char>,
    trace: Seq<Exchange>,
    result: Result<Seq<char>, ErrorModel>,
) -> bool {
    &&& trace.len() >= 1
    &&& trace[0].request == request
    &&& match checked(trace[0].reply) {
        Err(e) => trace.len() == 1 && result == Err::<Seq<char>, ErrorModel>(e),
        Ok(output) => match printed_pane_id(output.stdout) {
            Err(e) => trace.len() == 1 && result == Err::<Seq<char>, ErrorModel>(e),
            Ok(pane) => {
                &&& trace.len() == 2
                &&& trace[1].request == text::utf8_words(switch_words(client, pane, false))
                &&& result == match done(trace[1].reply) {
                    Ok(_) => Ok(pane),
                    Err(e) => Err(
                        ErrorModel::CreatedPaneNotSelected { pane, detail: error::error_text(e) },
                    ),
                }
            },
        },
    }
}

/// A launch, and after a successful one the request to name the pane at once;
/// what came of that request does not matter.
pub open spec fn launched_and_marked(
    request: Seq<Seq<u8>>,
    client: Seq<char>,
    trace: Seq<Exchange>,
    result: Result<Seq<char>, ErrorModel>,
) -> bool {
    match result {
        Ok(pane) => {
            &&& trace.len() == 3
            &&& launched(request, client, trace.take(2), result)
            &&& trace[2].request == text::utf8_words(
                options::set_words(pane, IMMEDIATE_NAMING_OPTION@, "1"@),
            )
        },
        Err(_) => launched(request, client, trace, result),
    }
}

// ---------------------------------------------------------------------------
// Manual names
// ---------------------------------------------------------------------------

/// The thread title retained with a manual name, where it still belongs to the
/// process and session of the pane.
pub open spec fn retained_source(pane: Pane) -> Option<Seq<char>> {
    match pane.manual_name_source {
        Some(source) => if thread::hint(source@) is Some && pane.manual_name_pid == Some(
            pane.pane_pid,
        ) && domain::session_view(pane.manual_name_session) == Some(pane.session_id@) {
            Some(source@)
        } else {
            None
        },
        None => None,
    }
}

/// The thread title to retain when a pane is renamed.
pub open spec fn rename_source(pane: Pane) -> Option<Seq<char>> {
    if pane.manual_name {
        retained_source(pane)
    } else {
        match pane.title {
            Some(title) => if thread::hint(title@) is Some {
                Some(title@)
            } else {
                None
            },
            None => None,
        }
    }
}

pub open spec fn title_or_empty(pane: Pane) -> Seq<char> {
    match pane.title {
        Some(title) => title@,
        None => Seq::empty(),
    }
}

pub open spec fn pid_text(pane: Pane) -> Seq<char> {
    number::decimal(pane.pane_pid as nat)
}

/// The commands, as one text, that store the retained thread title.
pub open spec fn source_mutation(pane: Pane, source: Seq<char>) -> Seq<char> {
    "set-option -p -t "@ + quote::quoted(pane.id@) + " "@ + MANUAL_NAME_SOURCE_OPTION@ + " "@
        + quote::quoted(source) + "; set-option -p -t "@ + quote::quoted(pane.id@) + " "@
        + MANUAL_NAME_PID_OPTION@ + " "@ + pid_text(pane) + "; set-option -p -t "@ + quote::quoted(
        pane.id@,
    ) + " "@ + MANUAL_NAME_SESSION_OPTION@ + " "@ + quote::quoted(pane.session_id@)
}

/// The same commands as arguments.
pub open spec fn source_words(pane: Pane, source: Seq<char>) -> Seq<Seq<char>> {
    options::set_words(pane.id@, MANUAL_NAME_SOURCE_OPTION@, source) + seq![";"@]
        + options::set_words(pane.id@, MANUAL_NAME_PID_OPTION@, pid_text(pane)) + seq![";"@]
        + options::set_words(pane.id@, MANUAL_NAME_SESSION_OPTION@, pane.session_id@)
}

/// The options besides those of a generated name that a rename clears.
pub open spec fn renamed_options() -> Seq<Seq<char>> {
    seq![
        MANUAL_NAME_SOURCE_OPTION@,
        MANUAL_NAME_PID_OPTION@,
        MANUAL_NAME_SESSION_OPTION@,
        UNPIN_READY_OPTION@,
        UNPIN_WAITING_OPTION@,
        UNPIN_WAITING_TITLE_OPTION@,
        UNPIN_WAITING_PID_OPTION@,
        UNPIN_WAITING_SESSION_OPTION@,
        RENAME_COMPLETE_OPTION@,
    ]
}

/// What of a rename keeps the thread title: nothing where there is none; the
/// commands themselves where the pane was named before; else the commands
/// guarded by the live title.
pub open spec fn keep_source_words(pane: Pane) -> Seq<Seq<char>> {
    match rename_source(pane) {
        None => Seq::empty(),
        Some(source) => if pane.manual_name {
            seq![";"@] + source_words(pane, source)
        } else {
            seq![
                ";"@,
                "if-shell"@,
                "-F"@,
                "-t"@,
                pane.id@,
                quote::equals_clause("pane_title"@, quote::format_literal(source)),
                source_mutation(pane, source),
            ]
        },
    }
}

/// A rename up to the title: every option of a generated name is given up and
/// the pane is marked as manually named before its title changes.
pub open spec fn rename_head(pane: Pane) -> Seq<Seq<char>> {
    options::unset_sequence(pane.id@, options::generated_options() + renamed_options()) + seq![";"@]
        + options::set_words(pane.id@, MANUAL_NAME_OPTION@, "1"@) + keep_source_words(pane) + seq![
        ";"@,
        "select-pane"@,
        "-t"@,
        pane.id@,
        "-T"@,
    ]
}

/// The whole rename: the title, then the token that proves completion.
pub open spec fn rename_words(pane: Pane, title: Seq<char>, token: Seq<char>) -> Seq<Seq<char>> {
    rename_head(pane) + seq![quote::title_literal(title), ";"@] + options::set_words(
        pane.id@,
        RENAME_COMPLETE_OPTION@,
        token,
    )
}

/// The pane is still the one that was shown: same leader, same session, same
/// manual-name state.
pub open spec fn rename_guard(pane: Pane) -> Seq<Seq<char>> {
    let identity = seq![
        quote::equals_clause("pane_pid"@, pid_text(pane)),
        quote::equals_clause("session_id"@, quote::format_literal(pane.session_id@)),
    ];
    if pane.manual_name {
        identity + seq![
            quote::equals_clause(MANUAL_NAME_OPTION@, "1"@),
            quote::equals_clause(
                MANUAL_NAME_SOURCE_OPTION@,
                match pane.manual_name_source {
                    Some(source) => quote::format_literal(source@),
                    None => Seq::empty(),
                },
            ),
            quote::equals_clause(
                MANUAL_NAME_PID_OPTION@,
                match pane.manual_name_pid {
                    Some(pid) => number::decimal(pid as nat),
                    None => Seq::empty(),
                },
            ),
            quote::equals_clause(
                MANUAL_NAME_SESSION_OPTION@,
                match pane.manual_name_session {
                    Some(session) => quote::format_literal(session@),
                    None => Seq::empty(),
                },
            ),
        ]
    } else {
        identity + seq![quote::equals_clause(MANUAL_NAME_OPTION@, ""@)]
    }
}

/// A command sequence that runs only while a condition holds of the pane.
pub open spec fn guarded(
    pane: Seq<char>,
    condition: Seq<char>,
    mutation: Seq<char>,
) -> StepModel {
    StepModel {
        request: seq!["if-shell"@, "-F"@, "-t"@, pane, condition, mutation],
        marker: None,
    }
}

/// Reads a pane-local option back and demands a value.
pub open spec fn read_back(
    pane: Seq<char>,
    option: Seq<char>,
    expected: Seq<char>,
    message: Seq<char>,
) -> StepModel {
    StepModel {
        request: seq!["show-options"@, "-pv"@, "-t"@, pane, option],
        marker: Some(MarkerModel { expected, message }),
    }
}

pub open spec fn unset(pane: Seq<char>, option: Seq<char>) -> StepModel {
    StepModel { request: options::unset_words(pane, option), marker: None }
}

pub open spec fn rename_steps(pane: Pane, title: Seq<char>, token: Seq<char>) -> Seq<StepModel> {
    seq![
        guarded(
            pane.id@,
            quote::all_clauses(rename_guard(pane)),
            quote::command_text(
                rename_words(pane, title, token),
                Some(rename_head(pane).len() as int),
            ),
        ),
        read_back(
            pane.id@,
            RENAME_COMPLETE_OPTION@,
            token,
            "pane changed before it could be renamed"@,
        ),
        unset(pane.id@, RENAME_COMPLETE_OPTION@),
    ]
}

/// The manual name is still the retained one and the pane still the same.
pub open spec fn unpin_guard(
    pane: Pane,
    source: Seq<char>,
    title: Seq<char>,
    ready: Option<Seq<char>>,
) -> Seq<Seq<char>> {
    let clauses = seq![
        quote::equals_clause(MANUAL_NAME_OPTION@, "1"@),
        quote::equals_clause(MANUAL_NAME_SOURCE_OPTION@, quote::format_literal(source)),
        quote::equals_clause(MANUAL_NAME_PID_OPTION@, pid_text(pane)),
        quote::equals_clause(
            MANUAL_NAME_SESSION_OPTION@,
            quote::format_literal(pane.session_id@),
        ),
        quote::equals_clause("pane_pid"@, pid_text(pane)),
        quote::equals_clause("session_id"@, quote::format_literal(pane.session_id@)),
        quote::equals_clause("pane_title"@, quote::format_literal(title)),
    ];
    match ready {
        Some(token) => clauses.push(
            quote::equals_clause(UNPIN_READY_OPTION@, quote::format_literal(token)),
        ),
        None => clauses,
    }
}

/// The same, for a manual name without a usable thread title.
pub open spec fn release_guard(pane: Pane, title: Seq<char>) -> Seq<Seq<char>> {
    seq![
        quote::equals_clause(MANUAL_NAME_OPTION@, "1"@),
        quote::equals_clause(
            MANUAL_NAME_SOURCE_OPTION@,
            quote::format_literal(
                match pane.manual_name_source {
                    Some(source) => source@,
                    None => Seq::empty(),
                },
            ),
        ),
        quote::equals_clause(
            MANUAL_NAME_PID_OPTION@,
            quote::format_literal(pane.manual_name_pid_raw@),
        ),
        quote::equals_clause(
            MANUAL_NAME_SESSION_OPTION@,
            quote::format_literal(pane.manual_name_session_raw@),
        ),
        quote::equals_clause("pane_pid"@, pid_text(pane)),
        quote::equals_clause("session_id"@, quote::format_literal(pane.session_id@)),
        quote::equals_clause("pane_title"@, quote::format_literal(title)),
    ]
}

/// Puts the retained thread title back and proves it with a token.
pub open spec fn restore_text(pane: Pane, source: Seq<char>, token: Seq<char>) -> Seq<char> {
    "select-pane -t "@ + quote::quoted(pane.id@) + " -T "@ + quote::quoted(
        quote::title_literal(source),
    ) + "; "@ + options::set_text(pane.id@, UNPIN_READY_OPTION@, quote::quoted(token))
}

/// Gives up the manual name and asks for a generated one.
pub open spec fn release_commands(pane: Seq<char>, token: Seq<char>) -> Seq<Seq<char>> {
    seq![
        options::unset_text(pane, MANUAL_NAME_OPTION@),
        options::unset_text(pane, MANUAL_NAME_SOURCE_OPTION@),
        options::unset_text(pane, MANUAL_NAME_PID_OPTION@),
        options::unset_text(pane, MANUAL_NAME_SESSION_OPTION@),
        options::unset_text(pane, UNPIN_READY_OPTION@),
        options::set_text(pane, IMMEDIATE_NAMING_OPTION@, "1"@),
        options::set_text(pane, UNPIN_COMPLETE_OPTION@, quote::quoted(token)),
    ]
}

/// Waits for a changed thread title, gives up the manual name and asks for a
/// generated one.
pub open spec fn wait_commands(pane: Pane, title: Seq<char>, token: Seq<char>) -> Seq<Seq<char>> {
    seq![
        options::set_text(pane.id@, UNPIN_WAITING_OPTION@, "1"@),
        options::set_text(pane.id@, UNPIN_WAITING_TITLE_OPTION@, quote::quoted(title)),
        options::set_text(pane.id@, UNPIN_WAITING_PID_OPTION@, pid_text(pane)),
        options::set_text(pane.id@, UNPIN_WAITING_SESSION_OPTION@, quote::quoted(pane.session_id@)),
        options::unset_text(pane.id@, MANUAL_NAME_OPTION@),
        options::unset_text(pane.id@, MANUAL_NAME_SOURCE_OPTION@),
        options::unset_text(pane.id@, MANUAL_NAME_PID_OPTION@),
        options::unset_text(pane.id@, MANUAL_NAME_SESSION_OPTION@),
        options::set_text(pane.id@, IMMEDIATE_NAMING_OPTION@, "1"@),
        options::set_text(pane.id@, UNPIN_COMPLETE_OPTION@, quote::quoted(token)),
    ]
}

pub open spec fn unpin_steps(pane: Pane, token: Seq<char>) -> Seq<StepModel> {
    let before = "pane changed before its manual name could be unpinned"@;
    match retained_source(pane) {
        Some(source) => seq![
            guarded(
                pane.id@,
                quote::all_clauses(unpin_guard(pane, source, title_or_empty(pane), None)),
                restore_text(pane, source, token),
            ),
            read_back(pane.id@, UNPIN_READY_OPTION@, token, before),
            guarded(
                pane.id@,
                quote::all_clauses(unpin_guard(pane, source, source, Some(token))),
                scan::join_with(release_commands(pane.id@, token), "; "@),
            ),
            read_back(
                pane.id@,
                UNPIN_COMPLETE_OPTION@,
                token,
                "pane changed while its manual name was being unpinned"@,
            ),
            unset(pane.id@, UNPIN_COMPLETE_OPTION@),
        ],
        None => seq![
            guarded(
                pane.id@,
                quote::all_clauses(release_guard(pane, title_or_empty(pane))),
                scan::join_with(wait_commands(pane, title_or_empty(pane), token), "; "@),
            ),
            read_back(pane.id@, UNPIN_COMPLETE_OPTION@, token, before),
            unset(pane.id@, UNPIN_COMPLETE_OPTION@),
        ],
    }
}

proof fn unset_sequence_holds(pane: Seq<char>, opts: Seq<Seq<char>>, k: int) -> (at: int)
    requires
        0 <= k < opts.len(),
    ensures
        scan::occurs_at(
            options::unset_sequence(pane, opts),
            options::unset_words(pane, opts[k]),
            at,
        ),
    decreases opts.len(),
{
    let whole = options::unset_sequence(pane, opts);
    let last = options::unset_words(pane, opts.last());
    if opts.len() == 1 {
        assert(whole.subrange(0, 5) =~= last);
        0
    } else {
        let head = options::unset_sequence(pane, opts.drop_last());
        if k == opts.len() - 1 {
            let at = head.len() as int + 1;
            assert(whole.subrange(at, at + 5) =~= last);
            at
        } else {
            let at = unset_sequence_holds(pane, opts.drop_last(), k);
            assert(whole.subrange(at, at + 5) =~= head.subrange(at, at + 5));
            at
        }
    }
}

/// A rename gives up each option of a generated name, and marks the pane as
/// manually named, before it sets the title.
pub proof fn rename_marks_before_title(pane: Pane, title: Seq<char>, token: Seq<char>, k: int)
    requires
        0 <= k < options::generated_options().len(),
    ensures
        rename_words(pane, title, token)[rename_head(pane).len() as int] == quote::title_literal(
            title,
        ),
        scan::occurs(
            rename_head(pane),
            options::unset_words(pane.id@, options::generated_options()[k]),
        ),
        scan::occurs(rename_head(pane), options::set_words(pane.id@, MANUAL_NAME_OPTION@, "1"@)),
{
    let opts = options::generated_options() + renamed_options();
    let unsets = options::unset_sequence(pane.id@, opts);
    let head = rename_head(pane);
    let at = unset_sequence_holds(pane.id@, opts, k);
    let one = options::unset_words(pane.id@, opts[k]);
    assert(head.subrange(at, at + 5) =~= unsets.subrange(at, at + 5));
    assert(scan::occurs_at(head, one, at));
    let mark = options::set_words(pane.id@, MANUAL_NAME_OPTION@, "1"@);
    let from = unsets.len() as int + 1;
    assert(head.subrange(from, from + 6) =~= mark);
    assert(scan::occurs_at(head, mark, from));
}

// ---------------------------------------------------------------------------
// Building the steps
// ---------------------------------------------------------------------------

fn retained_source_text(pane: &Pane) -> (r: Option<String>)
    ensures
        text::option_view(r) == retained_source(*pane),
{
    let source = match &pane.manual_name_source {
        Some(source) => source,
        None => return None,
    };
    if thread_hint(source).is_none() {
        return None;
    }
    let same_process = match pane.manual_name_pid {
        Some(pid) => pid == pane.pane_pid,
        None => false,
    };
    let same_session = match &pane.manual_name_session {
        Some(session) => session.same_as(&pane.session_id),
        None => false,
    };
    if same_process && same_session {
        Some(source.clone())
    } else {
        None
    }
}

fn rename_source_text(pane: &Pane) -> (r: Option<String>)
    ensures
        text::option_view(r) == rename_source(*pane),
{
    if pane.manual_name {
        return retained_source_text(pane);
    }
    match &pane.title {
        Some(title) => if thread_hint(title).is_some() {
            Some(title.clone())
        } else {
            None
        },
        None => None,
    }
}

fn title_text(pane: &Pane) -> (r: String)
    ensures
        r@ == title_or_empty(*pane),
{
    match &pane.title {
        Some(title) => title.clone(),
        None => String::new(),
    }
}

fn pane_pid_text(pane: &Pane) -> (r: String)
    ensures
        r@ == pid_text(*pane),
{
    decimal_text(pane.pane_pid as u64)
}

fn retained_source_mutation(pane: &Pane, source: &str) -> (r: String)
    ensures
        r@ == source_mutation(*pane, source@),
{
    let id = tmux_quote(pane.id.as_str());
    let mut s = "set-option -p -t ".to_owned();
    s.append(&id);
    s.append(" ");
    s.append(MANUAL_NAME_SOURCE_OPTION);
    s.append(" ");
    s.append(&tmux_quote(source));
    s.append("; set-option -p -t ");
    s.append(&id);
    s.append(" ");
    s.append(MANUAL_NAME_PID_OPTION);
    s.append(" ");
    s.append(&pane_pid_text(pane));
    s.append("; set-option -p -t ");
    s.append(&id);
    s.append(" ");
    s.append(MANUAL_NAME_SESSION_OPTION);
    s.append(" ");
    s.append(&tmux_quote(pane.session_id.as_str()));
    s
}

fn retained_source_arguments(pane: &Pane, source: &str) -> (r: Vec<String>)
    ensures
        text::texts(r@) == source_words(*pane, source@),
{
    let id = pane.id.as_str();
    let mut r = set_arguments(id, MANUAL_NAME_SOURCE_OPTION, source);
    put(&mut r, ";");
    put_all(&mut r, &set_arguments(id, MANUAL_NAME_PID_OPTION, &pane_pid_text(pane)));
    put(&mut r, ";");
    put_all(&mut r, &set_arguments(id, MANUAL_NAME_SESSION_OPTION, pane.session_id.as_str()));
    assert(text::texts(r@) =~= source_words(*pane, source@));
    r
}

fn renamed_option_list() -> (r: Vec<String>)
    ensures
        text::texts(r@) == options::generated_options() + renamed_options(),
{
    let mut r = generated_option_list();
    put(&mut r, MANUAL_NAME_SOURCE_OPTION);
    put(&mut r, MANUAL_NAME_PID_OPTION);
    put(&mut r, MANUAL_NAME_SESSION_OPTION);
    put(&mut r, UNPIN_READY_OPTION);
    put(&mut r, UNPIN_WAITING_OPTION);
    put(&mut r, UNPIN_WAITING_TITLE_OPTION);
    put(&mut r, UNPIN_WAITING_PID_OPTION);
    put(&mut r, UNPIN_WAITING_SESSION_OPTION);
    put(&mut r, RENAME_COMPLETE_OPTION);
    assert(text::texts(r@) =~= options::generated_options() + renamed_options());
    r
}

fn keep_source_arguments(pane: &Pane) -> (r: Vec<String>)
    ensures
        text::texts(r@) == keep_source_words(*pane),
{
    let mut r = text::no_texts();
    if let Some(source) = rename_source_text(pane) {
        put(&mut r, ";");
        if pane.manual_name {
            put_all(&mut r, &retained_source_arguments(pane, &source));
        } else {
            put(&mut r, "if-shell");
            put(&mut r, "-F");
            put(&mut r, "-t");
            put(&mut r, pane.id.as_str());
            put(&mut r, &equals("pane_title", &tmux_format_literal(&source)));
            put(&mut r, &retained_source_mutation(pane, &source));
        }
        assert(text::texts(r@) =~= keep_source_words(*pane));
    }
    r
}

fn rename_head_arguments(pane: &Pane) -> (r: Vec<String>)
    ensures
        text::texts(r@) == rename_head(*pane),
{
    let id = pane.id.as_str();
    let mut r = unset_arguments(id, &renamed_option_list());
    put(&mut r, ";");
    put_all(&mut r, &set_arguments(id, MANUAL_NAME_OPTION, "1"));
    put_all(&mut r, &keep_source_arguments(pane));
    put(&mut r, ";");
    put(&mut r, "select-pane");
    put(&mut r, "-t");
    put(&mut r, id);
    put(&mut r, "-T");
    assert(text::texts(r@) =~= rename_head(*pane));
    r
}

/// The condition under which a rename still meets the pane that was shown.
pub fn rename_condition(pane: &Pane) -> (r: String)
    ensures
        r@ == quote::all_clauses(rename_guard(*pane)),
{
    let mut clauses = text::no_texts();
    put(&mut clauses, &equals("pane_pid", &pane_pid_text(pane)));
    put(&mut clauses, &equals("session_id", &tmux_format_literal(pane.session_id.as_str())));
    if pane.manual_name {
        put(&mut clauses, &equals(MANUAL_NAME_OPTION, "1"));
        let source = match &pane.manual_name_source {
            Some(source) => tmux_format_literal(source),
            None => String::new(),
        };
        put(&mut clauses, &equals(MANUAL_NAME_SOURCE_OPTION, &source));
        let pid = match pane.manual_name_pid {
            Some(pid) => decimal_text(pid as u64),
            None => String::new(),
        };
        put(&mut clauses, &equals(MANUAL_NAME_PID_OPTION, &pid));
        let session = match &pane.manual_name_session {
            Some(session) => tmux_format_literal(session.as_str()),
            None => String::new(),
        };
        put(&mut clauses, &equals(MANUAL_NAME_SESSION_OPTION, &session));
    } else {
        put(&mut clauses, &equals(MANUAL_NAME_OPTION, ""));
    }
    assert(text::texts(clauses@) =~= rename_guard(*pane));
    all_of(&clauses)
}

/// The condition under which an unpin still meets the manual name it was shown.
pub fn unpin_condition(
    pane: &Pane,
    source: &str,
    expected_title: &str,
    ready_token: Option<&str>,
) -> (r: String)
    ensures
        r@ == quote::all_clauses(
            unpin_guard(
                *pane,
                source@,
                expected_title@,
                match ready_token {
                    Some(token) => Some(token@),
                    None => None,
                },
            ),
        ),
{
    let session = tmux_format_literal(pane.session_id.as_str());
    let pid = pane_pid_text(pane);
    let mut clauses = text::no_texts();
    put(&mut clauses, &equals(MANUAL_NAME_OPTION, "1"));
    put(&mut clauses, &equals(MANUAL_NAME_SOURCE_OPTION, &tmux_format_literal(source)));
    put(&mut clauses, &equals(MANUAL_NAME_PID_OPTION, &pid));
    put(&mut clauses, &equals(MANUAL_NAME_SESSION_OPTION, &session));
    put(&mut clauses, &equals("pane_pid", &pid));
    put(&mut clauses, &equals("session_id", &session));
    put(&mut clauses, &equals("pane_title", &tmux_format_literal(expected_title)));
    if let Some(token) = ready_token {
        put(&mut clauses, &equals(UNPIN_READY_OPTION, &tmux_format_literal(token)));
    }
    assert(text::texts(clauses@) =~= unpin_guard(
        *pane,
        source@,
        expected_title@,
        match ready_token {
            Some(token) => Some(token@),
            None => None,
        },
    ));
    all_of(&clauses)
}

/// The condition under which a manual name without a thread title is given up.
pub fn manual_release_condition(pane: &Pane, expected_title: &str) -> (r: String)
    ensures
        r@ == quote::all_clauses(release_guard(*pane, expected_title@)),
{
    let source = match &pane.manual_name_source {
        Some(source) => source.clone(),
        None => String::new(),
    };
    let mut clauses = text::no_texts();
    put(&mut clauses, &equals(MANUAL_NAME_OPTION, "1"));
    put(&mut clauses, &equals(MANUAL_NAME_SOURCE_OPTION, &tmux_format_literal(&source)));
    put(
        &mut clauses,
        &equals(MANUAL_NAME_PID_OPTION, &tmux_format_literal(&pane.manual_name_pid_raw)),
    );
    put(
        &mut clauses,
        &equals(MANUAL_NAME_SESSION_OPTION, &tmux_format_literal(&pane.manual_name_session_raw)),
    );
    put(&mut clauses, &equals("pane_pid", &pane_pid_text(pane)));
    put(&mut clauses, &equals("session_id", &tmux_format_literal(pane.session_id.as_str())));
    put(&mut clauses, &equals("pane_title", &tmux_format_literal(expected_title)));
    assert(text::texts(clauses@) =~= release_guard(*pane, expected_title@));
    all_of(&clauses)
}

fn restore_command(pane: &Pane, source: &str, token: &str) -> (r: String)
    ensures
        r@ == restore_text(*pane, source@, token@),
{
    let mut s = "select-pane -t ".to_owned();
    s.append(&tmux_quote(pane.id.as_str()));
    s.append(" -T ");
    s.append(&tmux_quote(&tmux_title_literal(source)));
    s.append("; ");
    s.append(&set_command(pane.id.as_str(), UNPIN_READY_OPTION, &tmux_quote(token)));
    s
}

fn release_command(pane: &str, token: &str) -> (r: String)
    ensures
        r@ == scan::join_with(release_commands(pane@, token@), "; "@),
{
    let mut parts = text::no_texts();
    put(&mut parts, &unset_command(pane, MANUAL_NAME_OPTION));
    put(&mut parts, &unset_command(pane, MANUAL_NAME_SOURCE_OPTION));
    put(&mut parts, &unset_command(pane, MANUAL_NAME_PID_OPTION));
    put(&mut parts, &unset_command(pane, MANUAL_NAME_SESSION_OPTION));
    put(&mut parts, &unset_command(pane, UNPIN_READY_OPTION));
    put(&mut parts, &set_command(pane, IMMEDIATE_NAMING_OPTION, "1"));
    put(&mut parts, &set_command(pane, UNPIN_COMPLETE_OPTION, &tmux_quote(token)));
    assert(text::texts(parts@) =~= release_commands(pane@, token@));
    text::join_texts(&parts, "; ")
}

fn wait_command(pane: &Pane, title: &str, token: &str) -> (r: String)
    ensures
        r@ == scan::join_with(wait_commands(*pane, title@, token@), "; "@),
{
    let id = pane.id.as_str();
    let mut parts = text::no_texts();
    put(&mut parts, &set_command(id, UNPIN_WAITING_OPTION, "1"));
    put(&mut parts, &set_command(id, UNPIN_WAITING_TITLE_OPTION, &tmux_quote(title)));
    put(&mut parts, &set_command(id, UNPIN_WAITING_PID_OPTION, &pane_pid_text(pane)));
    put(
        &mut parts,
        &set_command(id, UNPIN_WAITING_SESSION_OPTION, &tmux_quote(pane.session_id.as_str())),
    );
    put(&mut parts, &unset_command(id, MANUAL_NAME_OPTION));
    put(&mut parts, &unset_command(id, MANUAL_NAME_SOURCE_OPTION));
    put(&mut parts, &unset_command(id, MANUAL_NAME_PID_OPTION));
    put(&mut parts, &unset_command(id, MANUAL_NAME_SESSION_OPTION));
    put(&mut parts, &set_command(id, IMMEDIATE_NAMING_OPTION, "1"));
    put(&mut parts, &set_command(id, UNPIN_COMPLETE_OPTION, &tmux_quote(token)));
    assert(text::texts(parts@) =~= wait_commands(*pane, title@, token@));
    text::join_texts(&parts, "; ")
}

fn guarded_step(pane: &str, condition: &str, mutation: &str) -> (r: Step)
    ensures
        r@ == guarded(pane@, condition@, mutation@),
{
    Step { request: list6("if-shell", "-F", "-t", pane, condition, mutation), marker: None }
}

fn read_back_step(pane: &str, option: &str, expected: &str, message: &str) -> (r: Step)
    ensures
        r@ == read_back(pane@, option@, expected@, message@),
{
    Step {
        request: list5("show-options", "-pv", "-t", pane, option),
        marker: Some(Marker { expected: expected.to_owned(), message: message.to_owned() }),
    }
}

fn unset_step(pane: &str, option: &str) -> (r: Step)
    ensures
        r@ == unset(pane@, option@),
{
    Step { request: list5("set-option", "-pu", "-t", pane, option), marker: None }
}

fn push_step(steps: &mut Vec<Step>, step: Step)
    ensures
        step_list(final(steps)@) == step_list(old(steps)@).push(step@),
{
    steps.push(step);
    assert(step_list(steps@) =~= step_list(old(steps)@).push(step@));
}

fn no_steps() -> (r: Vec<Step>)
    ensures
        step_list(r@) == Seq::<StepModel>::empty(),
{
    let r: Vec<Step> = Vec::new();
    assert(step_list(r@) =~= Seq::<StepModel>::empty());
    r
}

/// The requests of a rename, in order.
pub fn plan_rename(pane: &Pane, title: &str, token: &str) -> (r: Vec<Step>)
    ensures
        step_list(r@) == rename_steps(*pane, title@, token@),
{
    let id = pane.id.as_str();
    let mut arguments = rename_head_arguments(pane);
    let title_index: usize = arguments.len();
    assert(title_index == rename_head(*pane).len());
    put(&mut arguments, &tmux_title_literal(title));
    put(&mut arguments, ";");
    put_all(&mut arguments, &set_arguments(id, RENAME_COMPLETE_OPTION, token));
    assert(text::texts(arguments@) =~= rename_words(*pane, title@, token@));
    let mutation = tmux_command(&arguments, Some(title_index));
    let mut steps = no_steps();
    push_step(&mut steps, guarded_step(id, &rename_condition(pane), &mutation));
    push_step(
        &mut steps,
        read_back_step(
            id,
            RENAME_COMPLETE_OPTION,
            token,
            "pane changed before it could be renamed",
        ),
    );
    push_step(&mut steps, unset_step(id, RENAME_COMPLETE_OPTION));
    steps
}

/// The requests that give up a manual name, in order.
pub fn plan_unpin(pane: &Pane, token: &str) -> (r: Vec<Step>)
    ensures
        step_list(r@) == unpin_steps(*pane, token@),
{
    let id = pane.id.as_str();
    let title = title_text(pane);
    let mut steps = no_steps();
    match retained_source_text(pane) {
        Some(source) => {
            push_step(
                &mut steps,
                guarded_step(
                    id,
                    &unpin_condition(pane, &source, &title, None),
                    &restore_command(pane, &source, token),
                ),
            );
            push_step(
                &mut steps,
                read_back_step(
                    id,
                    UNPIN_READY_OPTION,
                    token,
                    "pane changed before its manual name could be unpinned",
                ),
            );
            push_step(
                &mut steps,
                guarded_step(
                    id,
                    &unpin_condition(pane, &source, &source, Some(token)),
                    &release_command(id, token),
                ),
            );
            push_step(
                &mut steps,
                read_back_step(
                    id,
                    UNPIN_COMPLETE_OPTION,
                    token,
                    "pane changed while its manual name was being unpinned",
                ),
            );
        },
        None => {
            push_step(
                &mut steps,
                guarded_step(
                    id,
                    &manual_release_condition(pane, &title),
                    &wait_command(pane, &title, token),
                ),
            );
            push_step(
                &mut steps,
                read_back_step(
                    id,
                    UNPIN_COMPLETE_OPTION,
                    token,
                    "pane changed before its manual name could be unpinned",
                ),
            );
        },
    }
    push_step(&mut steps, unset_step(id, UNPIN_COMPLETE_OPTION));
    steps
}

fn switch_arguments(client: &str, pane: &str, zoom: bool) -> (r: Vec<String>)
    ensures
        text::texts(r@) == switch_words(client@, pane@, zoom),
{
    let mut r = text::no_texts();
    put(&mut r, "select-window");
    put(&mut r, "-t");
    put(&mut r, pane);
    put(&mut r, ";");
    put(&mut r, "select-pane");
    put(&mut r, "-Z");
    put(&mut r, "-t");
    put(&mut r, pane);
    put(&mut r, ";");
    put(&mut r, "switch-client");
    put(&mut r, "-Z");
    put(&mut r, "-c");
    put(&mut r, client);
    put(&mut r, "-t");
    put(&mut r, pane);
    if zoom {
        put(&mut r, ";");
        put(&mut r, "resize-pane");
        put(&mut r, "-Z");
        put(&mut r, "-t");
        put(&mut r, pane);
        assert(text::texts(r@) =~= switch_words(client@, pane@, zoom));
    }
    r
}

// ---------------------------------------------------------------------------
// The action service
// ---------------------------------------------------------------------------

/// Performs interactive actions through a tmux runner.
pub struct TmuxActions<Runner> {
    pub runner: LoggedRunner<Runner>,
    pub executable: CodexExecutable,
}

impl<Runner: TmuxCommandRunner> TmuxActions<Runner> {
    pub fn new(runner: Runner, executable: CodexExecutable) -> (r: Self)
        ensures
            r.runner.wrapped() == runner,
            r.runner.history() == Seq::<Exchange>::empty(),
            r.executable == executable,
    {
        TmuxActions { runner: LoggedRunner::new(runner), executable }
    }

    /// Runs one command; any exit status but zero is an error.
    fn run_checked(&mut self, arguments: &Vec<Vec<u8>>) -> (r: Result<CommandOutput, MuxError>)
        ensures
            final(self).executable == old(self).executable,
            final(self).runner.history() == old(self).runner.history().push(
                Exchange {
                    request: text::words(arguments@),
                    reply: final(self).runner.history().last().reply,
                },
            ),
            domain::reply_model(r) == checked(final(self).runner.history().last().reply),
    {
        let output = match self.runner.run(arguments) {
            Ok(output) => output,
            Err(e) => return Err(e),
        };
        let success = match output.status {
            Some(code) => code == 0,
            None => false,
        };
        if success {
            return Ok(output);
        }
        Err(MuxError::Command(output_detail(&output)))
    }

    fn run_steps(&mut self, steps: &Vec<Step>) -> (r: Result<(), MuxError>)
        ensures
            final(self).executable == old(self).executable,
            old(self).runner.history().is_prefix_of(final(self).runner.history()),
            follows(
                step_list(steps@),
                exchanged(old(self).runner.history(), final(self).runner.history()),
                error::outcome(r),
            ),
    {
        let ghost start = self.runner.history();
        let ghost all = step_list(steps@);
        let mut i: usize = 0;
        assert(exchanged(start, start) =~= Seq::<Exchange>::empty());
        assert(all.skip(0) =~= all);
        while i < steps.len()
            invariant
                i <= steps.len(),
                self.executable == old(self).executable,
                self.runner.history().len() == start.len() + i,
                start.is_prefix_of(self.runner.history()),
                forall|rest: Seq<Exchange>, result: Result<(), ErrorModel>| #[trigger]
                    follows(all.skip(i as int), rest, result) ==> follows(
                        all,
                        exchanged(start, self.runner.history()) + rest,
                        result,
                    ),
            decreases steps.len() - i,
        {
            let ghost before = self.runner.history();
            let ghost so_far = exchanged(start, before);
            let step = &steps[i];
            let reply = self.run_checked(&to_words(&step.request));
            let ghost after = self.runner.history();
            let ghost entry = after.last();
            let ghost left = all.skip(i as int);
            proof {
                assert(left[0] == step@);
                assert(left.skip(1) =~= all.skip(i + 1));
                assert(exchanged(start, after) =~= so_far.push(entry));
            }
            let output = match reply {
                Ok(output) => output,
                Err(e) => {
                    proof {
                        assert(follows(left, seq![entry], Err::<(), ErrorModel>(e@)));
                        assert(so_far + seq![entry] =~= exchanged(start, after));
                    }
                    return Err(e);
                },
            };
            if let Some(marker) = &step.marker {
                if !text_equal(&trim(&utf8_lossy(&output.stdout)), &marker.expected) {
                    let e = command_error(&marker.message);
                    proof {
                        assert(follows(left, seq![entry], Err::<(), ErrorModel>(e@)));
                        assert(so_far + seq![entry] =~= exchanged(start, after));
                    }
                    return Err(e);
                }
            }
            proof {
                assert forall|rest: Seq<Exchange>, result: Result<(), ErrorModel>| #[trigger]
                    follows(all.skip(i + 1), rest, result) implies follows(
                    all,
                    exchanged(start, after) + rest,
                    result,
                ) by {
                    let longer = seq![entry] + rest;
                    assert(longer.skip(1) =~= rest);
                    assert(longer[0] == entry);
                    assert(follows(left, longer, result));
                    assert(so_far + longer =~= exchanged(start, after) + rest);
                }
            }
            i += 1;
        }
        proof {
            let rest = Seq::<Exchange>::empty();
            assert(follows(all.skip(i as int), rest, Ok::<(), ErrorModel>(())));
            assert(exchanged(start, self.runner.history()) + rest =~= exchanged(
                start,
                self.runner.history(),
            ));
        }
        Ok(())
    }

    /// Switches exactly the invoking client to `pane` and leaves its window
    /// zoomed.
    pub fn switch_and_zoom(&mut self, context: &InvocationContext, pane: &Pane) -> (r: Result<
        (),
        MuxError,
    >)
        ensures
            old(self).runner.history().is_prefix_of(final(self).runner.history()),
            switched(
                context.client_id@,
                pane.id@,
                exchanged(old(self).runner.history(), final(self).runner.history()),
                error::outcome(r),
            ),
    {
        let ghost start = self.runner.history();
        let query = list5(
            "display-message",
            "-p",
            "-t",
            pane.id.as_str(),
            "#{window_zoomed_flag}",
        );
        let reply = self.run_checked(&to_words(&query));
        let ghost first = self.runner.history();
        assert(exchanged(start, first) =~= seq![first.last()]);
        let output = match reply {
            Ok(output) => output,
            Err(e) => return Err(e),
        };
        let zoomed = match parse_zoomed(&output.stdout) {
            Ok(zoomed) => zoomed,
            Err(e) => return Err(e),
        };
        let r = self.switch_client(context, &pane.id, !zoomed);
        assert(exchanged(start, self.runner.history()) =~= seq![
            first.last(),
            self.runner.history().last(),
        ]);
        r
    }

    fn switch_client(
        &mut self,
        context: &InvocationContext,
        pane_id: &PaneId,
        zoom_if_unzoomed: bool,
    ) -> (r: Result<(), MuxError>)
        ensures
            final(self).executable == old(self).executable,
            final(self).runner.history() == old(self).runner.history().push(
                Exchange {
                    request: text::utf8_words(
                        switch_words(context.client_id@, pane_id@, zoom_if_unzoomed),
                    ),
                    reply: final(self).runner.history().last().reply,
                },
            ),
            error::outcome(r) == done(final(self).runner.history().last().reply),
    {
        let arguments = switch_arguments(
            context.client_id.as_str(),
            pane_id.as_str(),
            zoom_if_unzoomed,
        );
        match self.run_checked(&to_words(&arguments)) {
            Ok(_) => Ok(()),
            Err(e) => Err(e),
        }
    }

    /// Opens a window and selects the pane that it holds.
    fn launch_with(&mut self, arguments: &Vec<Vec<u8>>, context: &InvocationContext) -> (r: Result<
        PaneId,
        MuxError,
    >)
        ensures
            old(self).runner.history().is_prefix_of(final(self).runner.history()),
            launched(
                text::words(arguments@),
                context.client_id@,
                exchanged(old(self).runner.history(), final(self).runner.history()),
                pane_id_outcome(r),
            ),
    {
        let ghost start = self.runner.history();
        let reply = self.run_checked(arguments);
        let ghost first = self.runner.history();
        assert(exchanged(start, first) =~= seq![first.last()]);
        let output = match reply {
            Ok(output) => output,
            Err(e) => return Err(e),
        };
        let pane_id = match parse_pane_id(&output.stdout) {
            Ok(pane_id) => pane_id,
            Err(e) => return Err(e),
        };
        let selected = self.switch_client(context, &pane_id, false);
        assert(exchanged(start, self.runner.history()) =~= seq![
            first.last(),
            self.runner.history().last(),
        ]);
        match selected {
            Ok(()) => Ok(pane_id),
            Err(e) => Err(
                MuxError::CreatedPaneNotSelected {
                    pane: pane_id.as_str().to_owned(),
                    detail: e.to_text(),
                },
            ),
        }
    }

    fn launch_and_mark(
        &mut self,
        arguments: &Vec<Vec<u8>>,
        context: &InvocationContext,
    ) -> (r: Result<PaneId, MuxError>)
        ensures
            old(self).runner.history().is_prefix_of(final(self).runner.history()),
            launched_and_marked(
                text::words(arguments@),
                context.client_id@,
                exchanged(old(self).runner.history(), final(self).runner.history()),
                pane_id_outcome(r),
            ),
    {
        let ghost start = self.runner.history();
        let r = self.launch_with(arguments, context);
        let ghost middle = self.runner.history();
        if let Ok(pane_id) = &r {
            self.mark_for_immediate_naming(pane_id);
            proof {
                let end = self.runner.history();
                let trace = exchanged(start, end);
                assert(trace.take(2) =~= exchanged(start, middle));
                assert(trace[2] == end.last());
            }
        }
        r
    }

    fn mark_for_immediate_naming(&mut self, pane_id: &PaneId)
        ensures
            final(self).executable == old(self).executable,
            final(self).runner.history() == old(self).runner.history().push(
                Exchange {
                    request: text::utf8_words(
                        options::set_words(pane_id@, IMMEDIATE_NAMING_OPTION@, "1"@),
                    ),
                    reply: final(self).runner.history().last().reply,
                },
            ),
    {
        let arguments = set_arguments(pane_id.as_str(), IMMEDIATE_NAMING_OPTION, "1");
        let _ = self.run_checked(&to_words(&arguments));
    }

    /// Starts a fresh Codex session in a new window and selects it.
    pub fn new_session(&mut self, context: &InvocationContext, selected: Option<&Pane>) -> (r:
        Result<PaneId, MuxError>)
        ensures
            old(self).runner.history().is_prefix_of(final(self).runner.history()),
            launched(
                launch::new_window_words(
                    old(self).executable@,
                    context.window_id@,
                    launch::directory(launch::selected_path(selected), context.current_path@),
                    LaunchKind::New,
                    false,
                ),
                context.client_id@,
                exchanged(old(self).runner.history(), final(self).runner.history()),
                pane_id_outcome(r),
            ),
    {
        let arguments = new_window_arguments(
            &self.executable,
            context,
            selected,
            LaunchKind::New,
        );
        self.launch_with(&arguments, context)
    }

    /// Starts a fresh session with the executable and permissions of a profile.
    pub fn new_session_with_profile(
        &mut self,
        context: &InvocationContext,
        selected: Option<&Pane>,
        executable: &CodexExecutable,
        yolo: bool,
    ) -> (r: Result<PaneId, MuxError>)
        ensures
            old(self).runner.history().is_prefix_of(final(self).runner.history()),
            launched(
                launch::new_window_words(
                    executable@,
                    context.window_id@,
                    launch::directory(launch::selected_path(selected), context.current_path@),
                    LaunchKind::New,
                    yolo,
                ),
                context.client_id@,
                exchanged(old(self).runner.history(), final(self).runner.history()),
                pane_id_outcome(r),
            ),
    {
        let arguments = new_window_arguments_with_permissions(
            executable,
            context,
            selected,
            LaunchKind::New,
            yolo,
        );
        self.launch_with(&arguments, context)
    }

    /// Opens the session picker in a new window and selects it.
    pub fn resume_all(&mut self, context: &InvocationContext, selected: Option<&Pane>) -> (r:
        Result<PaneId, MuxError>)
        ensures
            old(self).runner.history().is_prefix_of(final(self).runner.history()),
            launched_and_marked(
                launch::new_window_words(
                    old(self).executable@,
                    context.window_id@,
                    launch::directory(launch::selected_path(selected), context.current_path@),
                    LaunchKind::ResumeAll,
                    false,
                ),
                context.client_id@,
                exchanged(old(self).runner.history(), final(self).runner.history()),
                pane_id_outcome(r),
            ),
    {
        let arguments = new_window_arguments(
            &self.executable,
            context,
            selected,
            LaunchKind::ResumeAll,
        );
        self.launch_and_mark(&arguments, context)
    }

    /// Opens the session picker with the executable and permissions of a profile.
    pub fn resume_all_with_profile(
        &mut self,
        context: &InvocationContext,
        selected: Option<&Pane>,
        executable: &CodexExecutable,
        yolo: bool,
    ) -> (r: Result<PaneId, MuxError>)
        ensures
            old(self).runner.history().is_prefix_of(final(self).runner.history()),
            launched_and_marked(
                launch::new_window_words(
                    executable@,
                    context.window_id@,
                    launch::directory(launch::selected_path(selected), context.current_path@),
                    LaunchKind::ResumeAll,
                    yolo,
                ),
                context.client_id@,
                exchanged(old(self).runner.history(), final(self).runner.history()),
                pane_id_outcome(r),
            ),
    {
        let arguments = new_window_arguments_with_permissions(
            executable,
            context,
            selected,
            LaunchKind::ResumeAll,
            yolo,
        );
        self.launch_and_mark(&arguments, context)
    }

    /// Kills exactly `pane`; the caller has obtained confirmation.
    pub fn close_pane(&mut self, pane: &Pane) -> (r: Result<(), MuxError>)
        ensures
            final(self).runner.history() == old(self).runner.history().push(
                Exchange {
                    request: text::utf8_words(seq!["kill-pane"@, "-t"@, pane.id@]),
                    reply: final(self).runner.history().last().reply,
                },
            ),
            error::outcome(r) == done(final(self).runner.history().last().reply),
    {
        let arguments = text::list3("kill-pane", "-t", pane.id.as_str());
        match self.run_checked(&to_words(&arguments)) {
            Ok(_) => Ok(()),
            Err(e) => Err(e),
        }
    }

    /// Sets an exact pane title and gives up any generated name of the pane.
    ///
    /// `token` is a text that no other operation uses. The manual-name marker is
    /// set before the title, so that a partial failure can leave an unchanged
    /// title opted out but never a saved title open to a generated name.
    pub fn rename_pane(&mut self, pane: &Pane, title: &str, token: &str) -> (r: Result<
        (),
        MuxError,
    >)
        ensures
            old(self).runner.history().is_prefix_of(final(self).runner.history()),
            follows(
                rename_steps(*pane, title@, token@),
                exchanged(old(self).runner.history(), final(self).runner.history()),
                error::outcome(r),
            ),
    {
        let steps = plan_rename(pane, title, token);
        self.run_steps(&steps)
    }

    /// Restores the retained thread title and asks for a generated name; where
    /// no thread title survived, gives up the manual name and waits for one.
    pub fn unpin_pane(&mut self, pane: &Pane, token: &str) -> (r: Result<(), MuxError>)
        ensures
            old(self).runner.history().is_prefix_of(final(self).runner.history()),
            follows(
                unpin_steps(*pane, token@),
                exchanged(old(self).runner.history(), final(self).runner.history()),
                error::outcome(r),
            ),
    {
        let steps = plan_unpin(pane, token);
        self.run_steps(&steps)
    }
}

} // verus!
