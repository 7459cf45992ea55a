//! The Smart Left gesture: the key is always delivered, and the popup opens only
//! where the key had nowhere to go.

use vstd::prelude::*;
use crate::domain;
use crate::domain::{
    CodexExecutable, CommandOutput, InvocationContext, OutputModel, PaneProcess, TerminalSize,
    TmuxCommandRunner,
};
use crate::error;
use crate::error::{command_error, ErrorModel, MuxError};
use crate::number;
use crate::number::{decimal_text, parse_u16, parse_u32};
use crate::path;
use crate::path::UnixPath;
use crate::pattern;
use crate::pattern::any_match;
use crate::scan;
use crate::scan::{contains_char, split_bytes, split_text, split_text_by, text_lines, trim};
use crate::smart_naming::diagnostics::NamingDiagnostics;
use crate::text;
use crate::text::{
    copy_bytes, list3, list4, list5, no_words, push_text_word, push_word, put, read_utf8,
    slice_text, text_equal, to_chars, to_words, utf8_lossy,
};
use crate::tmux::inventory;
use crate::tmux::probe_port::{ProbePort, Sight};
use crate::tmux::quote;
use crate::tmux::quote::shell_literal;

verus! {

/// Time that a shell gets to redraw after a key, in milliseconds.
pub const SHELL_SETTLE_MILLIS: u64 = 30;

/// Time that Codex gets to settle after a redraw, in milliseconds.
pub const CODEX_REDRAW_SETTLE_MILLIS: u64 = 30;

/// Observable result of one Smart Left gesture.
#[derive(Clone, Copy, Debug, PartialEq, Eq, Structural)]
pub enum SmartLeftOutcome {
    /// Left was delivered and no popup was opened.
    Forwarded,
    /// Left was delivered at the boundary and the popup was opened.
    Opened,
}

/// One answer about the foreground process of a pane; an error counts as no.
#[verifier::ext_equal]
pub enum DirectAnswer {
    Codex { pid: u32, tty: Seq<u8>, yes: bool },
    Shell { pid: u32, command: Seq<char>, yes: bool },
}

pub open spec fn is_yes(r: Result<bool, MuxError>) -> bool {
    r is Ok && r->Ok_0
}

/// Exact foreground-process identity required before interception.
pub trait DirectCodexInspector {
    /// True only when the pane foreground is the configured Codex executable
    /// itself, never merely a wrapper.
    fn is_direct_codex(&mut self, pane: &PaneProcess) -> Result<bool, MuxError>;

    /// True only for an interactive Bash or Zsh process that is the exact
    /// foreground process of the pane.
    fn is_direct_shell(&mut self, pid: u32, command: &str) -> Result<bool, MuxError>;
}

/// Delay boundary of the probe.
pub trait ProbeSleeper {
    /// Waits between rendered-cursor observations.
    fn sleep(&mut self, millis: u64);
}

/// Three decimal digits of a number below one thousand.
pub open spec fn three_digits(n: nat) -> Seq<char> {
    seq![
        number::digit_char(n / 100),
        number::digit_char((n / 10) % 10),
        number::digit_char(n % 10),
    ]
}

/// The command that waits inside tmux.
pub fn tmux_sleep_command(millis: u64) -> (r: String)
    ensures
        r@ == "sleep "@ + number::decimal((millis / 1000) as nat) + "."@ + three_digits(
            (millis % 1000) as nat,
        ),
{
    let rest: u64 = millis % 1000;
    let mut s = "sleep ".to_owned();
    s.append(&decimal_text(millis / 1000));
    s.append(".");
    let ghost before = s@;
    s.push(number::decimal_digit(rest / 100));
    s.push(number::decimal_digit((rest / 10) % 10));
    s.push(number::decimal_digit(rest % 10));
    assert(s@ =~= before + three_digits(rest as nat));
    s
}

// ---------------------------------------------------------------------------
// Reading replies
// ---------------------------------------------------------------------------

/// A reply that counts as success only with exit status zero.
pub open spec fn checked(reply: Result<OutputModel, ErrorModel>) -> Result<
    OutputModel,
    ErrorModel,
> {
    match reply {
        Err(e) => Err(e),
        Ok(output) => if output.status == Some(0i32) {
            Ok(output)
        } else {
            let detail = scan::trimmed(text::lossy_text(output.stderr));
            Err(
                ErrorModel::Command(
                    if detail.len() == 0 {
                        "tmux command failed"@
                    } else {
                        detail
                    },
                ),
            )
        },
    }
}

/// A text without the line endings at its end.
pub open spec fn without_newlines(s: Seq<char>) -> Seq<char>
    decreases s.len(),
{
    if s.len() > 0 && (s.last() == '\n' || s.last() == '\r') {
        without_newlines(s.drop_last())
    } else {
        s
    }
}

/// The fields of printed probe state.
pub open spec fn probe_fields(output: Seq<u8>) -> Result<Seq<Seq<char>>, ErrorModel> {
    match text::utf8_decoded(output) {
        None => Err(ErrorModel::Command("tmux returned non-UTF-8 probe state"@)),
        Some(decoded) => {
            let line = without_newlines(decoded);
            Ok(
                if line.contains('\x1f') {
                    scan::split_on(line, '\x1f')
                } else {
                    scan::split_by(line, "\\037"@)
                },
            )
        },
    }
}

pub open spec fn fields_outcome(r: Result<Vec<String>, MuxError>) -> Result<
    Seq<Seq<char>>,
    ErrorModel,
> {
    match r {
        Ok(fields) => Ok(text::texts(fields@)),
        Err(e) => Err(e@),
    }
}

fn trim_newlines(s: &str) -> (r: String)
    ensures
        r@ == without_newlines(s@),
{
    let v = to_chars(s);
    let mut end: usize = v.len();
    assert(v@.take(v@.len() as int) =~= v@);
    while end > 0 && (v[end - 1] == '\n' || v[end - 1] == '\r')
        invariant
            end <= v.len(),
            without_newlines(v@) == without_newlines(v@.take(end as int)),
        decreases end,
    {
        proof {
            assert(v@.take(end as int).drop_last() =~= v@.take(end - 1));
        }
        end -= 1;
    }
    assert(v@.subrange(0, end as int) =~= v@.take(end as int));
    slice_text(&v, 0, end)
}

/// Splits printed probe state into its fields.
pub fn split_fields(output: &[u8]) -> (r: Result<Vec<String>, MuxError>)
    ensures
        fields_outcome(r) == probe_fields(output@),
{
    let line = match read_utf8(output) {
        None => return Err(command_error("tmux returned non-UTF-8 probe state")),
        Some(decoded) => trim_newlines(&decoded),
    };
    if contains_char(&line, '\x1f') {
        Ok(split_text(&line, '\x1f'))
    } else {
        proof {
            reveal_strlit("\\037");
        }
        Ok(split_text_by(&line, "\\037"))
    }
}

/// The rendered state of a pane.
#[derive(Debug, PartialEq, Eq)]
pub struct PaneState {
    pub pane_pid: u32,
    pub pane_tty: UnixPath,
    pub cursor_x: u16,
    pub cursor_y: u16,
    pub cursor_visible: bool,
    pub pane_in_mode: bool,
    pub pane_command: String,
    pub shell_prompt: bool,
}

#[verifier::ext_equal]
pub struct StateModel {
    pub pane_pid: u32,
    pub pane_tty: Seq<u8>,
    pub cursor_x: u16,
    pub cursor_y: u16,
    pub cursor_visible: bool,
    pub pane_in_mode: bool,
    pub pane_command: Seq<char>,
    pub shell_prompt: bool,
}

impl View for PaneState {
    type V = StateModel;

    open spec fn view(&self) -> StateModel {
        StateModel {
            pane_pid: self.pane_pid,
            pane_tty: self.pane_tty@,
            cursor_x: self.cursor_x,
            cursor_y: self.cursor_y,
            cursor_visible: self.cursor_visible,
            pane_in_mode: self.pane_in_mode,
            pane_command: self.pane_command@,
            shell_prompt: self.shell_prompt,
        }
    }
}

pub open spec fn unexpected(field: Seq<char>, value: Seq<char>) -> ErrorModel {
    ErrorModel::InvalidValue { field, message: "tmux returned "@ + text::debug_text(value) }
}

pub open spec fn number_field(field: Seq<char>, value: Seq<char>, max: nat) -> Result<
    nat,
    ErrorModel,
> {
    match number::unsigned_value(value, max) {
        Some(n) => Ok(n),
        None => Err(unexpected(field, value)),
    }
}

pub open spec fn flag_field(field: Seq<char>, value: Seq<char>) -> Result<bool, ErrorModel> {
    if value == "0"@ {
        Ok(false)
    } else if value == "1"@ {
        Ok(true)
    } else {
        Err(unexpected(field, value))
    }
}

/// The shell-prompt marker; an empty one counts as unset.
pub open spec fn prompt_field(value: Seq<char>) -> Result<bool, ErrorModel> {
    if value.len() == 0 {
        Ok(false)
    } else {
        flag_field("shell prompt marker"@, value)
    }
}

/// What seven or eight fields say; with eight, the second is the terminal.
pub open spec fn state_of_fields(f: Seq<Seq<char>>) -> Result<StateModel, ErrorModel> {
    let o = if f.len() == 8 {
        1int
    } else {
        0int
    };
    if f.len() != 7 && f.len() != 8 {
        Err(ErrorModel::Command("tmux returned malformed Smart Left pane state"@))
    } else {
        match number_field("pane PID"@, f[0], u32::MAX as nat) {
            Err(e) => Err(e),
            Ok(pid) => match number_field("cursor x"@, f[1 + o], u16::MAX as nat) {
                Err(e) => Err(e),
                Ok(x) => match number_field("cursor y"@, f[2 + o], u16::MAX as nat) {
                    Err(e) => Err(e),
                    Ok(y) => match flag_field("cursor flag"@, f[3 + o]) {
                        Err(e) => Err(e),
                        Ok(visible) => match flag_field("pane mode"@, f[4 + o]) {
                            Err(e) => Err(e),
                            Ok(mode) => match prompt_field(f[6 + o]) {
                                Err(e) => Err(e),
                                Ok(prompt) => Ok(
                                    StateModel {
                                        pane_pid: pid as u32,
                                        pane_tty: if f.len() == 8 {
                                            text::utf8(f[1])
                                        } else {
                                            Seq::empty()
                                        },
                                        cursor_x: x as u16,
                                        cursor_y: y as u16,
                                        cursor_visible: visible,
                                        pane_in_mode: mode,
                                        pane_command: f[5 + o],
                                        shell_prompt: prompt,
                                    },
                                ),
                            },
                        },
                    },
                },
            },
        }
    }
}

pub open spec fn parsed_state(output: Seq<u8>) -> Result<StateModel, ErrorModel> {
    match probe_fields(output) {
        Err(e) => Err(e),
        Ok(f) => state_of_fields(f),
    }
}

pub open spec fn state_outcome(r: Result<PaneState, MuxError>) -> Result<StateModel, ErrorModel> {
    match r {
        Ok(state) => Ok(state@),
        Err(e) => Err(e@),
    }
}

fn unexpected_error(field: &'static str, value: &str) -> (r: MuxError)
    ensures
        r@ == unexpected(field@, value@),
{
    let mut message = "tmux returned ".to_owned();
    message.append(&text::debug_quoted(value));
    MuxError::InvalidValue { field, message }
}

fn read_u32(value: &str, field: &'static str) -> (r: Result<u32, MuxError>)
    ensures
        match r {
            Ok(n) => number_field(field@, value@, u32::MAX as nat) == Ok::<nat, ErrorModel>(
                n as nat,
            ),
            Err(e) => number_field(field@, value@, u32::MAX as nat) == Err::<nat, ErrorModel>(e@),
        },
{
    match parse_u32(value) {
        Some(n) => Ok(n),
        None => Err(unexpected_error(field, value)),
    }
}

fn read_u16(value: &str, field: &'static str) -> (r: Result<u16, MuxError>)
    ensures
        match r {
            Ok(n) => number_field(field@, value@, u16::MAX as nat) == Ok::<nat, ErrorModel>(
                n as nat,
            ),
            Err(e) => number_field(field@, value@, u16::MAX as nat) == Err::<nat, ErrorModel>(e@),
        },
{
    match parse_u16(value) {
        Some(n) => Ok(n),
        None => Err(unexpected_error(field, value)),
    }
}

/// Reads a flag that tmux prints as `0` or `1`.
pub fn parse_flag(value: &str, field: &'static str) -> (r: Result<bool, MuxError>)
    ensures
        error::outcome(r) == flag_field(field@, value@),
{
    if text_equal(value, "0") {
        Ok(false)
    } else if text_equal(value, "1") {
        Ok(true)
    } else {
        Err(unexpected_error(field, value))
    }
}

impl PaneState {
    pub fn parse(output: &[u8]) -> (r: Result<PaneState, MuxError>)
        ensures
            state_outcome(r) == parsed_state(output@),
    {
        let fields = match split_fields(output) {
            Ok(fields) => fields,
            Err(e) => return Err(e),
        };
        let ghost f = text::texts(fields@);
        assert(f.len() == fields@.len());
        if fields.len() != 7 && fields.len() != 8 {
            return Err(command_error("tmux returned malformed Smart Left pane state"));
        }
        assert forall|i: int| 0 <= i < f.len() implies #[trigger] f[i] == fields@[i]@ by {}
        let o: usize = if fields.len() == 8 {
            1
        } else {
            0
        };
        let pane_pid: u32 = match read_u32(&fields[0], "pane PID") {
            Ok(n) => n,
            Err(e) => return Err(e),
        };
        let pane_tty = if o == 1 {
            UnixPath::new(&fields[1])
        } else {
            UnixPath { bytes: Vec::new() }
        };
        let cursor_x: u16 = match read_u16(&fields[1 + o], "cursor x") {
            Ok(n) => n,
            Err(e) => return Err(e),
        };
        let cursor_y: u16 = match read_u16(&fields[2 + o], "cursor y") {
            Ok(n) => n,
            Err(e) => return Err(e),
        };
        let cursor_visible = match parse_flag(&fields[3 + o], "cursor flag") {
            Ok(b) => b,
            Err(e) => return Err(e),
        };
        let pane_in_mode = match parse_flag(&fields[4 + o], "pane mode") {
            Ok(b) => b,
            Err(e) => return Err(e),
        };
        let shell_prompt = if fields[6 + o].as_str().is_empty() {
            false
        } else {
            match parse_flag(&fields[6 + o], "shell prompt marker") {
                Ok(b) => b,
                Err(e) => return Err(e),
            }
        };
        let state = PaneState {
            pane_pid,
            pane_tty,
            cursor_x,
            cursor_y,
            cursor_visible,
            pane_in_mode,
            pane_command: fields[5 + o].clone(),
            shell_prompt,
        };
        assert(state@.pane_tty =~= (if f.len() == 8 {
            text::utf8(f[1])
        } else {
            Seq::empty()
        }));
        Ok(state)
    }
}

/// Nothing about the pane changed and its cursor is still on an editable line.
pub open spec fn unchanged(initial: StateModel, observed: StateModel) -> bool {
    &&& observed.pane_pid == initial.pane_pid
    &&& path::same_path(observed.pane_tty, initial.pane_tty)
    &&& observed.cursor_x == initial.cursor_x
    &&& observed.cursor_y == initial.cursor_y
    &&& observed.cursor_visible
    &&& !observed.pane_in_mode
    &&& observed.pane_command == initial.pane_command
    &&& observed.shell_prompt == initial.shell_prompt
}

pub fn state_is_unchanged(initial: &PaneState, observed: &PaneState) -> (r: bool)
    ensures
        r == unchanged(initial@, observed@),
{
    observed.pane_pid == initial.pane_pid && observed.pane_tty.same_as(&initial.pane_tty)
        && observed.cursor_x == initial.cursor_x && observed.cursor_y == initial.cursor_y
        && observed.cursor_visible && !observed.pane_in_mode && text_equal(
        &observed.pane_command,
        &initial.pane_command,
    ) && observed.shell_prompt == initial.shell_prompt
}

// ---------------------------------------------------------------------------
// The composer boundary
// ---------------------------------------------------------------------------

/// How a cursor stands to the composer.
#[derive(Clone, Copy, Debug, PartialEq, Eq, Structural)]
pub enum ComposerBoundary {
    Exact,
    RowRejected,
    CursorRejected,
}

/// The number of spaces at the start of a line.
pub open spec fn indentation(line: Seq<char>) -> nat
    decreases line.len(),
{
    if line.len() > 0 && line[0] == ' ' {
        1 + indentation(line.skip(1))
    } else {
        0
    }
}

/// The width of the composer prompt that a line starts with: the bare glyph, or
/// the glyph and a space.
pub open spec fn prompt_width(line: Seq<char>) -> Option<nat> {
    if line == "\u{203a}"@ {
        Some(1)
    } else if "\u{203a} "@.is_prefix_of(line) {
        Some(2)
    } else {
        None
    }
}

/// Where a cursor stands on a line: on the prompt, directly behind its glyph, or
/// directly behind the prompt.
pub open spec fn line_boundary(line: Seq<char>, x: nat) -> ComposerBoundary {
    let indent = indentation(line);
    match prompt_width(line.skip(indent as int)) {
        None => ComposerBoundary::RowRejected,
        Some(width) => if x == indent || x == indent + 1 || x == indent + width {
            ComposerBoundary::Exact
        } else {
            ComposerBoundary::CursorRejected
        },
    }
}

/// Where a cursor stands on a captured screen.
pub open spec fn screen_boundary(screen: Seq<u8>, x: u16, y: u16) -> ComposerBoundary {
    match text::utf8_decoded(screen) {
        None => ComposerBoundary::RowRejected,
        Some(decoded) => {
            let rows = scan::lines(decoded);
            if (y as int) < rows.len() {
                line_boundary(rows[y as int], x as nat)
            } else {
                ComposerBoundary::RowRejected
            }
        },
    }
}

pub open spec fn boundary_of(
    reply: Result<OutputModel, ErrorModel>,
    x: u16,
    y: u16,
) -> ComposerBoundary {
    match checked(reply) {
        Ok(output) => screen_boundary(output.stdout, x, y),
        Err(_) => ComposerBoundary::RowRejected,
    }
}

proof fn indentation_is(line: Seq<char>, n: int)
    requires
        0 <= n <= line.len(),
        forall|i: int| 0 <= i < n ==> line[i] == ' ',
        n < line.len() ==> line[n] != ' ',
    ensures
        indentation(line) == n,
    decreases n,
{
    if n > 0 {
        assert forall|i: int| 0 <= i < n - 1 implies line.skip(1)[i] == ' ' by {
            assert(line.skip(1)[i] == line[i + 1]);
        }
        indentation_is(line.skip(1), n - 1);
    }
}

/// Finds where a cursor column stands on a line.
pub fn boundary_on_line(line: &str, cursor_x: u16) -> (r: ComposerBoundary)
    ensures
        r == line_boundary(line@, cursor_x as nat),
{
    let v = to_chars(line);
    let mut indent: usize = 0;
    while indent < v.len() && v[indent] == ' '
        invariant
            indent <= v.len(),
            forall|i: int| 0 <= i < indent ==> v@[i] == ' ',
        decreases v.len() - indent,
    {
        indent += 1;
    }
    proof {
        indentation_is(v@, indent as int);
        assert(v@.subrange(indent as int, v@.len() as int) =~= v@.skip(indent as int));
    }
    let rest = slice_text(&v, indent, v.len());
    let width: usize = if text_equal(&rest, "\u{203a}") {
        1
    } else if scan::starts_with(&rest, "\u{203a} ") {
        2
    } else {
        return ComposerBoundary::RowRejected;
    };
    proof {
        if rest@ == "\u{203a}"@ {
            reveal_strlit("\u{203a}");
        } else {
            reveal_strlit("\u{203a} ");
        }
        assert(rest@.len() >= 1);
        assert(indent + 1 <= v.len());
    }
    let x: usize = cursor_x as usize;
    if x == indent || x == indent + 1 || (x >= width && x - width == indent) {
        ComposerBoundary::Exact
    } else {
        ComposerBoundary::CursorRejected
    }
}

/// Finds where a cursor stands on a captured screen.
pub fn boundary_on_screen(screen: &[u8], cursor_x: u16, cursor_y: u16) -> (r: ComposerBoundary)
    ensures
        r == screen_boundary(screen@, cursor_x, cursor_y),
{
    let decoded = match read_utf8(screen) {
        Some(decoded) => decoded,
        None => return ComposerBoundary::RowRejected,
    };
    let rows = text_lines(&decoded);
    let ghost all = scan::lines(decoded@);
    assert(all.len() == rows@.len());
    let y: usize = cursor_y as usize;
    if y < rows.len() {
        assert(all[y as int] == rows@[y as int]@);
        boundary_on_line(&rows[y], cursor_x)
    } else {
        ComposerBoundary::RowRejected
    }
}

// ---------------------------------------------------------------------------
// The popup
// ---------------------------------------------------------------------------

/// What the probe was set up with.
#[verifier::ext_equal]
pub struct ProbeConfig {
    pub mux: Seq<u8>,
    pub codex: Seq<u8>,
    pub pane_commands: Seq<Seq<char>>,
    pub match_executables: Seq<Seq<u8>>,
    pub pane_command_regexes: Seq<Seq<char>>,
    pub match_scope: Seq<char>,
    pub match_command_regexes: Seq<Seq<char>>,
}

/// The size of the exact client in a printed client list: that of the first line
/// that names it.
pub open spec fn listed_size(lines: Seq<Seq<u8>>, client: Seq<char>) -> Result<
    TerminalSize,
    ErrorModel,
>
    decreases lines.len(),
{
    if lines.len() == 0 {
        Err(ErrorModel::Command("tmux did not return the exact invoking client"@))
    } else {
        let rest = listed_size(lines.skip(1), client);
        if lines[0].len() == 0 {
            rest
        } else {
            match probe_fields(lines[0]) {
                Err(_) => rest,
                Ok(f) => if f.len() == 3 && f[0] == client {
                    match number_field("client width"@, f[1], u16::MAX as nat) {
                        Err(e) => Err(e),
                        Ok(width) => match number_field("client height"@, f[2], u16::MAX as nat) {
                            Err(e) => Err(e),
                            Ok(height) => Ok(
                                TerminalSize { width: width as u16, height: height as u16 },
                            ),
                        },
                    }
                } else {
                    rest
                },
            }
        }
    }
}

pub open spec fn client_size(reply: Result<OutputModel, ErrorModel>, client: Seq<char>) -> Result<
    TerminalSize,
    ErrorModel,
> {
    match checked(reply) {
        Err(e) => Err(e),
        Ok(output) => listed_size(scan::split_on(output.stdout, 10), client),
    }
}

/// An option followed by each value of a list, quoted for the shell.
pub open spec fn repeated(option: Seq<char>, values: Seq<Seq<char>>) -> Seq<Seq<char>>
    decreases values.len(),
{
    if values.len() == 0 {
        Seq::empty()
    } else {
        repeated(option, values.drop_last()).push(option).push(quote::quoted(values.last()))
    }
}

pub open spec fn lossy_list(paths: Seq<Seq<u8>>) -> Seq<Seq<char>> {
    Seq::new(paths.len(), |i: int| text::lossy_text(paths[i]))
}

/// How the popup finds Codex.
pub open spec fn detection_words(config: ProbeConfig) -> Seq<Seq<char>> {
    let codex = quote::quoted(text::lossy_text(config.codex));
    if config.match_executables.len() == 0 {
        seq!["--codex"@, codex]
    } else {
        seq!["--launch-executable"@, codex] + repeated(
            "--match-executable"@,
            lossy_list(config.match_executables),
        ) + repeated("--pane-command"@, config.pane_commands) + seq![
            "--match-scope"@,
            quote::quoted(config.match_scope),
        ] + repeated("--match-command-regex"@, config.match_command_regexes) + repeated(
            "--pane-command-regex"@,
            config.pane_command_regexes,
        )
    }
}

/// The invocation context, handed to the popup.
pub open spec fn context_words(context: InvocationContext) -> Seq<Seq<char>> {
    seq![
        "--client"@,
        quote::quoted(context.client_id@),
        "--invoking-pane"@,
        quote::quoted(context.pane_id@),
        "--invoking-session"@,
        quote::quoted(context.session_id@),
        "--invoking-window"@,
        quote::quoted(context.window_id@),
        "--invoking-path"@,
        quote::quoted(text::lossy_text(context.current_path@)),
    ]
}

/// The shell command that the popup runs.
pub open spec fn popup_command(config: ProbeConfig, context: InvocationContext) -> Seq<char> {
    scan::join_with(
        seq![quote::quoted(text::lossy_text(config.mux))] + detection_words(config)
            + context_words(context),
        " "@,
    )
}

/// The popup on exactly the invoking client; a compact client gives it the whole
/// screen.
pub open spec fn popup_words(
    config: ProbeConfig,
    context: InvocationContext,
    size: TerminalSize,
) -> Seq<Seq<u8>> {
    seq![
        text::utf8("display-popup"@),
        text::utf8("-E"@),
        text::utf8("-c"@),
        text::utf8(context.client_id@),
        text::utf8("-d"@),
        context.current_path@,
        text::utf8("-w"@),
        text::utf8(
            if size.compact() {
                "100%"@
            } else {
                "80%"@
            },
        ),
        text::utf8("-h"@),
        text::utf8(
            if size.compact() {
                "100%"@
            } else {
                "70%"@
            },
        ),
        text::utf8(popup_command(config, context)),
    ]
}

pub open spec fn clients_request() -> Seq<Seq<u8>> {
    text::utf8_words(
        seq![
            "list-clients"@,
            "-F"@,
            "#{client_tty}\x1f#{client_width}\x1f#{client_height}"@,
        ],
    )
}

/// Finds the size of the exact client in a printed client list.
pub fn find_client(stdout: &[u8], client: &str) -> (r: Result<TerminalSize, MuxError>)
    ensures
        error::outcome(r) == listed_size(scan::split_on(stdout@, 10), client@),
{
    let lines = split_bytes(stdout, 10);
    let ghost all = scan::split_on(stdout@, 10u8);
    let mut i: usize = 0;
    assert(all.skip(0) =~= all);
    while i < lines.len()
        invariant
            i <= lines.len(),
            listed_size(all, client@) == listed_size(all.skip(i as int), client@),
        decreases lines.len() - i,
    {
        proof {
            assert(all.skip(i as int).skip(1) =~= all.skip(i + 1));
            assert(all.skip(i as int)[0] == lines@[i as int]@);
        }
        if lines[i].len() > 0 {
            if let Ok(fields) = split_fields(&lines[i]) {
                let ghost f = text::texts(fields@);
                assert(f.len() == fields@.len());
                if fields.len() == 3 {
                    assert(f[0] == fields@[0]@ && f[1] == fields@[1]@ && f[2] == fields@[2]@);
                    if text_equal(&fields[0], client) {
                        let width: u16 = match read_u16(&fields[1], "client width") {
                            Ok(n) => n,
                            Err(e) => return Err(e),
                        };
                        let height: u16 = match read_u16(&fields[2], "client height") {
                            Ok(n) => n,
                            Err(e) => return Err(e),
                        };
                        return Ok(TerminalSize { width, height });
                    }
                }
            }
        }
        i += 1;
    }
    Err(command_error("tmux did not return the exact invoking client"))
}

fn put_repeated(words: &mut Vec<String>, option: &str, values: &Vec<String>)
    ensures
        text::texts(final(words)@) == text::texts(old(words)@) + repeated(
            option@,
            text::texts(values@),
        ),
{
    let ghost before = text::texts(words@);
    let ghost all = text::texts(values@);
    let mut i: usize = 0;
    assert(all.take(0).len() == 0);
    while i < values.len()
        invariant
            i <= values.len(),
            text::texts(words@) =~= before + repeated(option@, all.take(i as int)),
        decreases values.len() - i,
    {
        proof {
            assert(all.take(i + 1).drop_last() =~= all.take(i as int));
            assert(all.take(i + 1).last() == values@[i as int]@);
        }
        put(words, option);
        put(words, &shell_literal(&values[i]));
        i += 1;
    }
    assert(all.take(all.len() as int) =~= all);
}

// ---------------------------------------------------------------------------
// The gesture
// ---------------------------------------------------------------------------

/// What a probe did and was told, in order, and its reason codes.
#[verifier::ext_equal]
pub struct Observed {
    pub seen: Seq<Sight>,
    pub events: Seq<Seq<char>>,
}

/// What was added from one point to a later one.
pub open spec fn since(before: Observed, after: Observed) -> Observed {
    Observed {
        seen: after.seen.skip(before.seen.len() as int),
        events: after.events.skip(before.events.len() as int),
    }
}

/// Nothing was taken back.
pub open spec fn grows(before: Observed, after: Observed) -> bool {
    &&& before.seen.is_prefix_of(after.seen)
    &&& before.events.is_prefix_of(after.events)
}

proof fn since_splits(a: Observed, b: Observed, c: Observed)
    requires
        grows(a, b),
        grows(b, c),
    ensures
        grows(a, c),
        since(a, c).seen == since(a, b).seen + since(b, c).seen,
        since(a, c).events == since(a, b).events + since(b, c).events,
{
    assert(a.seen =~= c.seen.take(a.seen.len() as int));
    assert(a.events =~= c.events.take(a.events.len() as int));
    assert(since(a, c).seen =~= since(a, b).seen + since(b, c).seen);
    assert(since(a, c).events =~= since(a, b).events + since(b, c).events);
}

/// The same observations without the first things that happened.
pub open spec fn past(w: Observed, n: int) -> Observed {
    Observed { seen: w.seen.skip(n), events: w.events }
}

/// Nothing else was observed but the given codes.
pub open spec fn only_events(w: Observed, events: Seq<Seq<char>>) -> bool {
    w.seen.len() == 0 && w.events == events
}

/// A request to tmux stands at a place.
pub open spec fn sent_at(w: Observed, i: int, request: Seq<Seq<u8>>) -> bool {
    0 <= i < w.seen.len() && (w.seen[i] matches Sight::Tmux(exchange) && exchange.request == request)
}

/// What tmux replied at a place.
pub open spec fn reply_at(w: Observed, i: int) -> Result<OutputModel, ErrorModel> {
    (w.seen[i]->Tmux_0).reply
}

/// A question about the process of a pane stands at a place.
pub open spec fn asked_at(w: Observed, i: int, target: SmartLeftTarget, state: StateModel) -> bool {
    0 <= i < w.seen.len() && (w.seen[i] matches Sight::Answer(answer) && asked(
        answer,
        target,
        state,
    ))
}

/// The process at a place was confirmed.
pub open spec fn yes_at(w: Observed, i: int) -> bool {
    said_yes(w.seen[i]->Answer_0)
}

/// A wait stands at a place.
pub open spec fn waited_at(w: Observed, i: int, millis: u64) -> bool {
    0 <= i < w.seen.len() && w.seen[i] == Sight::Nap(millis)
}

pub const STATE_FORMAT: &'static str = "#{pane_pid}\x1f#{pane_tty}\x1f#{cursor_x}\x1f#{cursor_y}\x1f#{cursor_flag}\x1f#{pane_in_mode}\x1f#{pane_current_command}\x1f#{@codex_mux_shell_prompt}";

pub open spec fn state_request(pane: Seq<char>) -> Seq<Seq<u8>> {
    text::utf8_words(seq!["display-message"@, "-p"@, "-t"@, pane, STATE_FORMAT@])
}

pub open spec fn left_request(pane: Seq<char>) -> Seq<Seq<u8>> {
    text::utf8_words(seq!["send-keys"@, "-t"@, pane, "Left"@])
}

pub open spec fn capture_request(pane: Seq<char>) -> Seq<Seq<u8>> {
    text::utf8_words(seq!["capture-pane"@, "-p"@, "-t"@, pane])
}

/// The state that a reply shows.
pub open spec fn shown_state(reply: Result<OutputModel, ErrorModel>) -> Result<
    StateModel,
    ErrorModel,
> {
    match checked(reply) {
        Err(e) => Err(e),
        Ok(output) => parsed_state(output.stdout),
    }
}

/// The command of a pane passes the prefilters.
pub open spec fn command_allowed(config: ProbeConfig, command: Seq<char>) -> bool {
    config.pane_commands.len() == 0 || config.pane_commands.contains(command)
        || pattern::any_matches(config.pane_command_regexes, command)
}

/// What holds the keyboard of the pane.
#[derive(Clone, Copy, Debug, PartialEq, Eq, Structural)]
pub enum SmartLeftTarget {
    Codex,
    Shell,
}

/// The question asked about the process of a pane, and its answer.
pub open spec fn asked(answer: DirectAnswer, target: SmartLeftTarget, state: StateModel) -> bool {
    match target {
        SmartLeftTarget::Codex => answer matches DirectAnswer::Codex { pid, tty, .. } && pid
            == state.pane_pid && tty == state.pane_tty,
        SmartLeftTarget::Shell => answer matches DirectAnswer::Shell { pid, command, .. } && pid
            == state.pane_pid && command == state.pane_command,
    }
}

pub open spec fn said_yes(answer: DirectAnswer) -> bool {
    match answer {
        DirectAnswer::Codex { yes, .. } => yes,
        DirectAnswer::Shell { yes, .. } => yes,
    }
}

/// Left was sent; the result is that it was forwarded, or why it was not.
pub open spec fn left_sent(reply: Result<OutputModel, ErrorModel>) -> Result<
    SmartLeftOutcome,
    ErrorModel,
> {
    match checked(reply) {
        Ok(_) => Ok(SmartLeftOutcome::Forwarded),
        Err(e) => Err(e),
    }
}

/// The popup was opened on the exact client, or why it was not.
pub open spec fn popup_opens(
    config: ProbeConfig,
    context: InvocationContext,
    w: Observed,
    r: Result<SmartLeftOutcome, ErrorModel>,
) -> bool {
    &&& sent_at(w, 0, clients_request())
    &&& match client_size(reply_at(w, 0), context.client_id@) {
        Err(e) => only_events(past(w, 1), Seq::empty()) && r == Err::<
            SmartLeftOutcome,
            ErrorModel,
        >(e),
        Ok(size) => {
            &&& sent_at(w, 1, popup_words(config, context, size))
            &&& match checked(reply_at(w, 1)) {
                Ok(_) => only_events(past(w, 2), seq!["popup_opened"@]) && r == Ok::<
                    SmartLeftOutcome,
                    ErrorModel,
                >(SmartLeftOutcome::Opened),
                Err(e) => only_events(past(w, 2), Seq::empty()) && r == Err::<
                    SmartLeftOutcome,
                    ErrorModel,
                >(e),
            }
        },
    }
}

/// After Left, an unchanged pane whose process is confirmed again gets the popup.
pub open spec fn confirms(
    config: ProbeConfig,
    context: InvocationContext,
    target: SmartLeftTarget,
    initial: StateModel,
    current: StateModel,
    w: Observed,
    r: Result<SmartLeftOutcome, ErrorModel>,
) -> bool {
    if !unchanged(initial, current) {
        only_events(w, seq!["state_changed_after_left"@]) && r == Ok::<SmartLeftOutcome, ErrorModel>(
            SmartLeftOutcome::Forwarded,
        )
    } else {
        &&& asked_at(w, 0, target, current)
        &&& if yes_at(w, 0) {
            popup_opens(config, context, past(w, 1), r)
        } else {
            only_events(past(w, 1), seq!["process_changed_after_left"@]) && r == Ok::<
                SmartLeftOutcome,
                ErrorModel,
            >(SmartLeftOutcome::Forwarded)
        }
    }
}

/// After Left, the pane is read again; Codex gets one chance to settle.
pub open spec fn rechecks(
    config: ProbeConfig,
    context: InvocationContext,
    target: SmartLeftTarget,
    initial: StateModel,
    w: Observed,
    r: Result<SmartLeftOutcome, ErrorModel>,
) -> bool {
    &&& sent_at(w, 0, state_request(context.pane_id@))
    &&& match shown_state(reply_at(w, 0)) {
        Err(_) => only_events(past(w, 1), seq!["state_recheck_failed"@]) && r == Ok::<
            SmartLeftOutcome,
            ErrorModel,
        >(SmartLeftOutcome::Forwarded),
        Ok(current) => if target == SmartLeftTarget::Codex && !unchanged(initial, current) {
            &&& waited_at(w, 1, CODEX_REDRAW_SETTLE_MILLIS)
            &&& sent_at(w, 2, state_request(context.pane_id@))
            &&& match shown_state(reply_at(w, 2)) {
                Err(_) => only_events(past(w, 3), seq!["state_recheck_failed"@]) && r == Ok::<
                    SmartLeftOutcome,
                    ErrorModel,
                >(SmartLeftOutcome::Forwarded),
                Ok(settled) => confirms(config, context, target, initial, settled, past(w, 3), r),
            }
        } else {
            confirms(config, context, target, initial, current, past(w, 1), r)
        },
    }
}

pub open spec fn boundary_events(boundary: ComposerBoundary) -> Seq<Seq<char>> {
    match boundary {
        ComposerBoundary::Exact => Seq::empty(),
        ComposerBoundary::RowRejected => seq!["composer_row_rejected"@],
        ComposerBoundary::CursorRejected => seq!["composer_cursor_rejected"@],
    }
}

/// At a Codex pane, the popup needs the cursor at the composer boundary.
pub open spec fn at_codex(
    config: ProbeConfig,
    context: InvocationContext,
    initial: StateModel,
    w: Observed,
    r: Result<SmartLeftOutcome, ErrorModel>,
) -> bool {
    let boundary = boundary_of(reply_at(w, 0), initial.cursor_x, initial.cursor_y);
    &&& sent_at(w, 0, capture_request(context.pane_id@))
    &&& sent_at(w, 1, left_request(context.pane_id@))
    &&& if boundary == ComposerBoundary::Exact && checked(reply_at(w, 1)) is Ok {
        rechecks(config, context, SmartLeftTarget::Codex, initial, past(w, 2), r)
    } else {
        only_events(past(w, 2), boundary_events(boundary)) && r == left_sent(reply_at(w, 1))
    }
}

/// At a shell, an unchanged pane some time after Left proves the boundary.
pub open spec fn at_shell(
    config: ProbeConfig,
    context: InvocationContext,
    initial: StateModel,
    w: Observed,
    r: Result<SmartLeftOutcome, ErrorModel>,
) -> bool {
    &&& sent_at(w, 0, left_request(context.pane_id@))
    &&& if checked(reply_at(w, 0)) is Ok {
        &&& waited_at(w, 1, SHELL_SETTLE_MILLIS)
        &&& rechecks(config, context, SmartLeftTarget::Shell, initial, past(w, 2), r)
    } else {
        only_events(past(w, 1), Seq::empty()) && r == left_sent(reply_at(w, 0))
    }
}

/// Left was sent and nothing else.
pub open spec fn passes_through(
    context: InvocationContext,
    w: Observed,
    events: Seq<Seq<char>>,
    r: Result<SmartLeftOutcome, ErrorModel>,
) -> bool {
    &&& sent_at(w, 0, left_request(context.pane_id@))
    &&& only_events(past(w, 1), events)
    &&& r == left_sent(reply_at(w, 0))
}

/// The whole gesture.
pub open spec fn gesture(
    config: ProbeConfig,
    context: InvocationContext,
    w: Observed,
    r: Result<SmartLeftOutcome, ErrorModel>,
) -> bool {
    &&& sent_at(w, 0, state_request(context.pane_id@))
    &&& match shown_state(reply_at(w, 0)) {
        Err(_) => passes_through(context, past(w, 1), seq!["state_read_failed"@], r),
        Ok(state) => if state.pane_in_mode {
            passes_through(context, past(w, 1), seq!["pane_mode_active"@], r)
        } else if !state.cursor_visible {
            passes_through(context, past(w, 1), seq!["cursor_hidden"@], r)
        } else if command_allowed(config, state.pane_command) {
            &&& asked_at(w, 1, SmartLeftTarget::Codex, state)
            &&& if yes_at(w, 1) {
                at_codex(config, context, state, past(w, 2), r)
            } else {
                not_codex(config, context, state, "process_rejected"@, past(w, 2), r)
            }
        } else {
            not_codex(config, context, state, "pane_command_rejected"@, past(w, 1), r)
        },
    }
}

/// A pane that is not Codex may still be a marked shell prompt.
pub open spec fn not_codex(
    config: ProbeConfig,
    context: InvocationContext,
    state: StateModel,
    reason: Seq<char>,
    w: Observed,
    r: Result<SmartLeftOutcome, ErrorModel>,
) -> bool {
    if state.shell_prompt {
        &&& asked_at(w, 0, SmartLeftTarget::Shell, state)
        &&& if yes_at(w, 0) {
            at_shell(config, context, state, past(w, 1), r)
        } else {
            passes_through(context, past(w, 1), seq![reason], r)
        }
    } else {
        passes_through(context, w, seq![reason], r)
    }
}

// ---------------------------------------------------------------------------
// What every gesture keeps
// ---------------------------------------------------------------------------

/// How often a request occurs.
pub open spec fn times(seen: Seq<Sight>, request: Seq<Seq<u8>>) -> nat
    decreases seen.len(),
{
    if seen.len() == 0 {
        0
    } else {
        times(seen.skip(1), request) + if seen[0] matches Sight::Tmux(exchange) && exchange.request
            == request {
            1nat
        } else {
            0nat
        }
    }
}

/// How often a popup was asked for.
pub open spec fn popups(seen: Seq<Sight>) -> nat
    decreases seen.len(),
{
    if seen.len() == 0 {
        0
    } else {
        popups(seen.skip(1)) + if is_popup(seen[0]) {
            1nat
        } else {
            0nat
        }
    }
}

/// A request for a popup.
pub open spec fn is_popup(sight: Sight) -> bool {
    sight matches Sight::Tmux(exchange) && exchange.request.len() > 0 && exchange.request[0]
        == text::utf8("display-popup"@)
}

proof fn first_word_differs(a: Seq<Seq<char>>, b: Seq<Seq<char>>)
    requires
        a.len() > 0,
        b.len() > 0,
        a[0] != b[0],
    ensures
        text::utf8_words(a) != text::utf8_words(b),
{
    if text::utf8_words(a) == text::utf8_words(b) {
        assert(text::utf8_words(a)[0] == text::utf8(a[0]));
        assert(text::utf8_words(b)[0] == text::utf8(b[0]));
        text::utf8_injective(a[0], b[0]);
    }
}

proof fn requests_differ_from_left(
    pane: Seq<char>,
    config: ProbeConfig,
    context: InvocationContext,
    size: TerminalSize,
)
    ensures
        state_request(pane) != left_request(pane),
        capture_request(pane) != left_request(pane),
        clients_request() != left_request(pane),
        popup_words(config, context, size) != left_request(pane),
{
    reveal_strlit("send-keys");
    reveal_strlit("display-message");
    reveal_strlit("capture-pane");
    reveal_strlit("list-clients");
    reveal_strlit("display-popup");
    assert("send-keys"@[0] == 's');
    let left = seq!["send-keys"@, "-t"@, pane, "Left"@];
    first_word_differs(
        seq!["display-message"@, "-p"@, "-t"@, pane, STATE_FORMAT@],
        left,
    );
    first_word_differs(seq!["capture-pane"@, "-p"@, "-t"@, pane], left);
    first_word_differs(
        seq![
            "list-clients"@,
            "-F"@,
            "#{client_tty}\x1f#{client_width}\x1f#{client_height}"@,
        ],
        left,
    );
    if popup_words(config, context, size) == left_request(pane) {
        assert(left_request(pane)[0] == text::utf8("send-keys"@));
        assert(popup_words(config, context, size)[0] == text::utf8("display-popup"@));
        text::utf8_injective("send-keys"@, "display-popup"@);
    }
}

proof fn popups_are_popups(
    pane: Seq<char>,
    config: ProbeConfig,
    context: InvocationContext,
    size: TerminalSize,
)
    ensures
        state_request(pane)[0] != text::utf8("display-popup"@),
        capture_request(pane)[0] != text::utf8("display-popup"@),
        left_request(pane)[0] != text::utf8("display-popup"@),
        clients_request()[0] != text::utf8("display-popup"@),
        popup_words(config, context, size).len() > 0,
        popup_words(config, context, size)[0] == text::utf8("display-popup"@),
{
    reveal_strlit("send-keys");
    reveal_strlit("display-message");
    reveal_strlit("capture-pane");
    reveal_strlit("list-clients");
    reveal_strlit("display-popup");
    let popup = "display-popup"@;
    assert("display-message"@[8] == 'm' && popup[8] == 'p');
    if state_request(pane)[0] == text::utf8(popup) {
        text::utf8_injective("display-message"@, popup);
    }
    if capture_request(pane)[0] == text::utf8(popup) {
        text::utf8_injective("capture-pane"@, popup);
    }
    if left_request(pane)[0] == text::utf8(popup) {
        text::utf8_injective("send-keys"@, popup);
    }
    if clients_request()[0] == text::utf8(popup) {
        text::utf8_injective("list-clients"@, popup);
    }
}

/// The last four things that happened: the pane was read, unchanged; its process was
/// confirmed; the clients were listed; and the popup was asked for, with success.
pub open spec fn ends_with_popup(
    config: ProbeConfig,
    context: InvocationContext,
    target: SmartLeftTarget,
    initial: StateModel,
    w: Observed,
) -> bool {
    let n = w.seen.len() as int;
    &&& n >= 4
    &&& sent_at(w, n - 4, state_request(context.pane_id@))
    &&& shown_state(reply_at(w, n - 4)) matches Ok(current) && unchanged(initial, current)
        && asked_at(w, n - 3, target, current)
    &&& yes_at(w, n - 3)
    &&& sent_at(w, n - 2, clients_request())
    &&& client_size(reply_at(w, n - 2), context.client_id@) matches Ok(size) && sent_at(
        w,
        n - 1,
        popup_words(config, context, size),
    )
    &&& checked(reply_at(w, n - 1)) is Ok
}

pub open spec fn opened(r: Result<SmartLeftOutcome, ErrorModel>) -> bool {
    r == Ok::<SmartLeftOutcome, ErrorModel>(SmartLeftOutcome::Opened)
}

pub open spec fn forwarded(r: Result<SmartLeftOutcome, ErrorModel>) -> bool {
    r == Ok::<SmartLeftOutcome, ErrorModel>(SmartLeftOutcome::Forwarded)
}

/// What the part after Left keeps: no further Left; a popup exactly where it opened.
pub open spec fn after_left(
    config: ProbeConfig,
    context: InvocationContext,
    w: Observed,
    r: Result<SmartLeftOutcome, ErrorModel>,
) -> bool {
    &&& times(w.seen, left_request(context.pane_id@)) == 0
    &&& opened(r) ==> popups(w.seen) == 1
    &&& forwarded(r) ==> popups(w.seen) == 0
}

proof fn one_more(w: Observed, left: Seq<Seq<u8>>)
    requires
        w.seen.len() > 0,
    ensures
        times(w.seen, left) == times(past(w, 1).seen, left) + if w.seen[0] matches Sight::Tmux(
            exchange,
        ) && exchange.request == left {
            1nat
        } else {
            0nat
        },
        popups(w.seen) == popups(past(w, 1).seen) + if is_popup(w.seen[0]) {
            1nat
        } else {
            0nat
        },
{
}

proof fn past_twice(w: Observed, a: int, b: int)
    requires
        0 <= a,
        0 <= b,
        a + b <= w.seen.len(),
    ensures
        past(past(w, a), b) == past(w, a + b),
{
    assert(past(past(w, a), b).seen =~= past(w, a + b).seen);
}

proof fn popup_part(
    config: ProbeConfig,
    context: InvocationContext,
    w: Observed,
    r: Result<SmartLeftOutcome, ErrorModel>,
)
    requires
        popup_opens(config, context, w, r),
    ensures
        after_left(config, context, w, r),
        !forwarded(r),
        opened(r) ==> w.seen.len() == 2 && checked(reply_at(w, 1)) is Ok,
{
    let left = left_request(context.pane_id@);
    let size = client_size(reply_at(w, 0), context.client_id@)->Ok_0;
    requests_differ_from_left(context.pane_id@, config, context, size);
    popups_are_popups(context.pane_id@, config, context, size);
    one_more(w, left);
    if client_size(reply_at(w, 0), context.client_id@) is Ok {
        assert(past(w, 1).seen[0] == w.seen[1]);
        one_more(past(w, 1), left);
        past_twice(w, 1, 1);
        assert(past(w, 2).seen.len() == 0);
    } else {
        assert(past(w, 1).seen.len() == 0);
    }
}

proof fn confirm_part(
    config: ProbeConfig,
    context: InvocationContext,
    target: SmartLeftTarget,
    initial: StateModel,
    current: StateModel,
    w: Observed,
    r: Result<SmartLeftOutcome, ErrorModel>,
)
    requires
        confirms(config, context, target, initial, current, w, r),
    ensures
        after_left(config, context, w, r),
        opened(r) ==> {
            &&& w.seen.len() == 3
            &&& unchanged(initial, current)
            &&& asked_at(w, 0, target, current)
            &&& yes_at(w, 0)
            &&& popup_opens(config, context, past(w, 1), r)
        },
{
    if unchanged(initial, current) {
        one_more(w, left_request(context.pane_id@));
        if yes_at(w, 0) {
            popup_part(config, context, past(w, 1), r);
        }
    }
}

proof fn recheck_part(
    config: ProbeConfig,
    context: InvocationContext,
    target: SmartLeftTarget,
    initial: StateModel,
    w: Observed,
    r: Result<SmartLeftOutcome, ErrorModel>,
)
    requires
        rechecks(config, context, target, initial, w, r),
    ensures
        after_left(config, context, w, r),
        opened(r) ==> ends_with_popup(config, context, target, initial, w),
{
    let left = left_request(context.pane_id@);
    let size = TerminalSize { width: 0, height: 0 };
    requests_differ_from_left(context.pane_id@, config, context, size);
    popups_are_popups(context.pane_id@, config, context, size);
    one_more(w, left);
    if let Ok(current) = shown_state(reply_at(w, 0)) {
        if target == SmartLeftTarget::Codex && !unchanged(initial, current) {
            assert(past(w, 1).seen[0] == w.seen[1]);
            one_more(past(w, 1), left);
            past_twice(w, 1, 1);
            assert(past(w, 2).seen[0] == w.seen[2]);
            one_more(past(w, 2), left);
            past_twice(w, 2, 1);
            if let Ok(settled) = shown_state(reply_at(w, 2)) {
                let v = past(w, 3);
                confirm_part(config, context, target, initial, settled, v, r);
                if opened(r) {
                    let n = w.seen.len() as int;
                    assert(n == 6);
                    assert(v.seen[0] == w.seen[3]);
                    assert(past(v, 1).seen[0] == w.seen[4]);
                    assert(past(v, 1).seen[1] == w.seen[5]);
                    popup_part(config, context, past(v, 1), r);
                }
            }
        } else {
            let v = past(w, 1);
            confirm_part(config, context, target, initial, current, v, r);
            if opened(r) {
                let n = w.seen.len() as int;
                assert(n == 4);
                assert(v.seen[0] == w.seen[1]);
                assert(past(v, 1).seen[0] == w.seen[2]);
                assert(past(v, 1).seen[1] == w.seen[3]);
                popup_part(config, context, past(v, 1), r);
            }
        }
    }
}

/// Where Left stands in a gesture.
pub open spec fn left_place(config: ProbeConfig, w: Observed) -> int {
    match shown_state(reply_at(w, 0)) {
        Err(_) => 1,
        Ok(s) => if s.pane_in_mode || !s.cursor_visible {
            1
        } else {
            let allowed = command_allowed(config, s.pane_command);
            if allowed && yes_at(w, 1) {
                3
            } else {
                (if allowed {
                    2int
                } else {
                    1int
                }) + (if s.shell_prompt {
                    1int
                } else {
                    0int
                })
            }
        },
    }
}

proof fn before_left(w: Observed, n: int, left: Seq<Seq<u8>>)
    requires
        0 <= n <= w.seen.len(),
        forall|i: int|
            0 <= i < n ==> !((#[trigger] w.seen[i]) matches Sight::Tmux(exchange)
                && exchange.request == left) && !is_popup(w.seen[i]),
    ensures
        times(w.seen, left) == times(past(w, n).seen, left),
        popups(w.seen) == popups(past(w, n).seen),
    decreases n,
{
    if n == 0 {
        assert(past(w, 0).seen =~= w.seen);
    } else {
        one_more(w, left);
        let v = past(w, 1);
        assert forall|i: int| 0 <= i < n - 1 implies !((#[trigger] v.seen[i]) matches Sight::Tmux(
            exchange,
        ) && exchange.request == left) && !is_popup(v.seen[i]) by {
            assert(v.seen[i] == w.seen[i + 1]);
        }
        before_left(v, n - 1, left);
        past_twice(w, 1, n - 1);
        assert(!is_popup(w.seen[0]));
    }
}

/// What follows Left in a gesture, and where it was sent.
proof fn gesture_parts(
    config: ProbeConfig,
    context: InvocationContext,
    w: Observed,
    r: Result<SmartLeftOutcome, ErrorModel>,
)
    requires
        gesture(config, context, w, r),
    ensures
        sent_at(w, left_place(config, w), left_request(context.pane_id@)),
        times(w.seen, left_request(context.pane_id@)) == 1,
        opened(r) ==> popups(w.seen) == 1,
        forwarded(r) ==> popups(w.seen) == 0,
        opened(r) ==> ({
            let at = left_place(config, w);
            &&& shown_state(reply_at(w, 0)) matches Ok(s) && s.cursor_visible && !s.pane_in_mode
                && ({
                ||| at == 3 && command_allowed(config, s.pane_command) && asked_at(
                    w,
                    1,
                    SmartLeftTarget::Codex,
                    s,
                ) && yes_at(w, 1) && boundary_of(reply_at(w, 2), s.cursor_x, s.cursor_y)
                    == ComposerBoundary::Exact && rechecks(
                    config,
                    context,
                    SmartLeftTarget::Codex,
                    s,
                    past(w, 4),
                    r,
                )
                ||| s.shell_prompt && asked_at(w, at - 1, SmartLeftTarget::Shell, s) && yes_at(
                    w,
                    at - 1,
                ) && waited_at(w, at + 1, SHELL_SETTLE_MILLIS) && rechecks(
                    config,
                    context,
                    SmartLeftTarget::Shell,
                    s,
                    past(w, at + 2),
                    r,
                )
            })
        }),
{
    let pane = context.pane_id@;
    let left = left_request(pane);
    let size = TerminalSize { width: 0, height: 0 };
    requests_differ_from_left(pane, config, context, size);
    popups_are_popups(pane, config, context, size);
    let at = left_place(config, w);
    let v = past(w, 1);
    if let Ok(s) = shown_state(reply_at(w, 0)) {
        if !s.pane_in_mode && s.cursor_visible {
            let allowed = command_allowed(config, s.pane_command);
            if allowed && yes_at(w, 1) {
                let u = past(w, 2);
                assert(u.seen[0] == w.seen[2]);
                assert(u.seen[1] == w.seen[3]);
                past_twice(w, 2, 2);
                if rechecks(config, context, SmartLeftTarget::Codex, s, past(w, 4), r) {
                    recheck_part(config, context, SmartLeftTarget::Codex, s, past(w, 4), r);
                } else {
                    assert(past(w, 4).seen.len() == 0);
                }
            } else {
                let first = if allowed {
                    2int
                } else {
                    1int
                };
                let u = past(w, first);
                if s.shell_prompt {
                    assert(u.seen[0] == w.seen[first]);
                    past_twice(w, first, 1);
                    let t = past(w, first + 1);
                    assert(t.seen[0] == w.seen[first + 1]);
                    if yes_at(u, 0) && checked(reply_at(t, 0)) is Ok {
                        assert(t.seen[1] == w.seen[first + 2]);
                        past_twice(w, first + 1, 2);
                        recheck_part(
                            config,
                            context,
                            SmartLeftTarget::Shell,
                            s,
                            past(w, first + 3),
                            r,
                        );
                        let n = past(w, at + 1);
                        past_twice(w, at + 1, 1);
                        assert(n.seen[0] == w.seen[at + 1]);
                        one_more(n, left);
                    } else {
                        past_twice(w, first + 1, 1);
                        assert(past(w, at + 1).seen.len() == 0);
                    }
                } else {
                    assert(u.seen[0] == w.seen[first]);
                    past_twice(w, first, 1);
                    assert(past(w, at + 1).seen.len() == 0);
                }
            }
        } else {
            assert(v.seen[0] == w.seen[1]);
            past_twice(w, 1, 1);
        }
    } else {
        assert(v.seen[0] == w.seen[1]);
        past_twice(w, 1, 1);
    }
    before_left(w, at, left);
    assert(past(w, at).seen[0] == w.seen[at]);
    one_more(past(w, at), left);
    past_twice(w, at, 1);
}

/// Whatever happens, Left is sent exactly once.
pub proof fn left_is_sent_exactly_once(
    config: ProbeConfig,
    context: InvocationContext,
    w: Observed,
    r: Result<SmartLeftOutcome, ErrorModel>,
)
    requires
        gesture(config, context, w, r),
    ensures
        sent_at(w, left_place(config, w), left_request(context.pane_id@)),
        times(w.seen, left_request(context.pane_id@)) == 1,
{
    gesture_parts(config, context, w, r);
}

/// A popup is asked for exactly once where the gesture opened one, and never where Left
/// was only forwarded.
pub proof fn a_popup_is_asked_for_where_it_opens(
    config: ProbeConfig,
    context: InvocationContext,
    w: Observed,
    r: Result<SmartLeftOutcome, ErrorModel>,
)
    requires
        gesture(config, context, w, r),
    ensures
        opened(r) ==> popups(w.seen) == 1,
        forwarded(r) ==> popups(w.seen) == 0,
{
    gesture_parts(config, context, w, r);
}

/// The popup opens only where the first reading showed an editable pane, and the last
/// reading, after Left, showed the same pane unchanged with its process confirmed once
/// more; for Codex the cursor also stood at the composer boundary, and at a shell the
/// last reading comes after a wait that follows Left.
pub proof fn popup_needs_an_unchanged_boundary(
    config: ProbeConfig,
    context: InvocationContext,
    w: Observed,
    r: Result<SmartLeftOutcome, ErrorModel>,
)
    requires
        gesture(config, context, w, r),
        opened(r),
    ensures
        left_place(config, w) < w.seen.len() - 4,
        shown_state(reply_at(w, 0)) matches Ok(s) && s.cursor_visible && !s.pane_in_mode && ({
            ||| ({
                &&& command_allowed(config, s.pane_command)
                &&& asked_at(w, 1, SmartLeftTarget::Codex, s)
                &&& yes_at(w, 1)
                &&& boundary_of(reply_at(w, 2), s.cursor_x, s.cursor_y) == ComposerBoundary::Exact
                &&& ends_with_popup(config, context, SmartLeftTarget::Codex, s, w)
            })
            ||| ({
                &&& s.shell_prompt
                &&& asked_at(w, left_place(config, w) - 1, SmartLeftTarget::Shell, s)
                &&& yes_at(w, left_place(config, w) - 1)
                &&& waited_at(w, left_place(config, w) + 1, SHELL_SETTLE_MILLIS)
                &&& left_place(config, w) + 1 < w.seen.len() - 4
                &&& ends_with_popup(config, context, SmartLeftTarget::Shell, s, w)
            })
        }),
{
    gesture_parts(config, context, w, r);
    let s = shown_state(reply_at(w, 0))->Ok_0;
    let at = left_place(config, w);
    let n = w.seen.len() as int;
    if rechecks(config, context, SmartLeftTarget::Codex, s, past(w, 4), r) && at == 3 {
        let v = past(w, 4);
        recheck_part(config, context, SmartLeftTarget::Codex, s, v, r);
        ending_stays(config, context, SmartLeftTarget::Codex, s, w, 4);
    } else {
        let v = past(w, at + 2);
        recheck_part(config, context, SmartLeftTarget::Shell, s, v, r);
        ending_stays(config, context, SmartLeftTarget::Shell, s, w, at + 2);
    }
}

proof fn ending_stays(
    config: ProbeConfig,
    context: InvocationContext,
    target: SmartLeftTarget,
    initial: StateModel,
    w: Observed,
    k: int,
)
    requires
        0 <= k <= w.seen.len(),
        ends_with_popup(config, context, target, initial, past(w, k)),
    ensures
        ends_with_popup(config, context, target, initial, w),
        k <= w.seen.len() - 4,
{
    let v = past(w, k);
    let m = v.seen.len() as int;
    let n = w.seen.len() as int;
    assert(v.seen[m - 4] == w.seen[n - 4]);
    assert(v.seen[m - 3] == w.seen[n - 3]);
    assert(v.seen[m - 2] == w.seen[n - 2]);
    assert(v.seen[m - 1] == w.seen[n - 1]);
}

// ---------------------------------------------------------------------------
// The probe
// ---------------------------------------------------------------------------

/// Detection values that a probe hands on to the popup.
pub struct SmartLeftMatcher {
    /// Exact pane-command prefilters.
    pub pane_commands: Vec<String>,
    /// Exact executable and script identities.
    pub match_executables: Vec<CodexExecutable>,
    /// Pane-command prefilters as expressions.
    pub pane_command_regexes: Vec<String>,
    /// Candidate process scope.
    pub match_scope: String,
    /// Expressions for the normalized arguments of a process.
    pub match_command_regexes: Vec<String>,
}

/// Runs the gesture against one exact pane and client.
pub struct SmartLeftProbe<Runner, Inspector, Sleeper> {
    /// What the probe acts on, with everything that happened.
    pub port: ProbePort<Runner, Inspector, Sleeper>,
    pub mux: UnixPath,
    pub codex: CodexExecutable,
    pub matcher: SmartLeftMatcher,
    /// Where the reason codes are logged, if anywhere.
    pub diagnostics: Option<NamingDiagnostics>,
    /// Reason codes of the decisions so far.
    pub events: Vec<&'static str>,
}

/// Nothing happened yet.
pub open spec fn no_observations() -> Observed {
    Observed {
        seen: Seq::empty(),
        events: Seq::empty(),
    }
}

pub open spec fn event_list(events: Seq<&'static str>) -> Seq<Seq<char>> {
    Seq::new(events.len(), |i: int| events[i]@)
}

impl<Runner: TmuxCommandRunner, Inspector: DirectCodexInspector, Sleeper: ProbeSleeper>
    SmartLeftProbe<Runner, Inspector, Sleeper> {
    pub open spec fn config(&self) -> ProbeConfig {
        ProbeConfig {
            mux: self.mux@,
            codex: self.codex@,
            pane_commands: text::texts(self.matcher.pane_commands@),
            match_executables: inventory::executable_list(self.matcher.match_executables@),
            pane_command_regexes: text::texts(self.matcher.pane_command_regexes@),
            match_scope: self.matcher.match_scope@,
            match_command_regexes: text::texts(self.matcher.match_command_regexes@),
        }
    }

    pub open spec fn observed(&self) -> Observed {
        Observed {
            seen: self.port.seen(),
            events: event_list(self.events@),
        }
    }

    /// A probe for one executable, without prefilters.
    pub fn new(
        runner: Runner,
        inspector: Inspector,
        sleeper: Sleeper,
        mux: UnixPath,
        codex: CodexExecutable,
    ) -> (r: Self)
        ensures
            r.port.runner_model() == runner,
            r.port.inspector_model() == inspector,
            r.port.sleeper_model() == sleeper,
            r.observed() == no_observations(),
            r.config() == (ProbeConfig {
                mux: mux@,
                codex: codex@,
                pane_commands: Seq::empty(),
                match_executables: Seq::empty(),
                pane_command_regexes: Seq::empty(),
                match_scope: "foreground"@,
                match_command_regexes: Seq::empty(),
            }),
            r.diagnostics is None,
            r.events@.len() == 0,
    {
        let r = Self::with_pane_commands(
            runner,
            inspector,
            sleeper,
            mux,
            codex,
            Vec::new(),
            Vec::new(),
        );
        proof {
            assert(r.config().pane_commands =~= Seq::<Seq<char>>::empty());
            assert(r.config().match_executables =~= Seq::<Seq<u8>>::empty());
        }
        r
    }

    /// A probe with exact pane-command prefilters.
    pub fn with_pane_commands(
        runner: Runner,
        inspector: Inspector,
        sleeper: Sleeper,
        mux: UnixPath,
        codex: CodexExecutable,
        pane_commands: Vec<String>,
        match_executables: Vec<CodexExecutable>,
    ) -> (r: Self)
        ensures
            r.port.runner_model() == runner,
            r.port.inspector_model() == inspector,
            r.port.sleeper_model() == sleeper,
            r.observed() == no_observations(),
            r.config() == (ProbeConfig {
                mux: mux@,
                codex: codex@,
                pane_commands: text::texts(pane_commands@),
                match_executables: inventory::executable_list(match_executables@),
                pane_command_regexes: Seq::empty(),
                match_scope: "foreground"@,
                match_command_regexes: Seq::empty(),
            }),
            r.diagnostics is None,
            r.events@.len() == 0,
    {
        let matcher = SmartLeftMatcher {
            pane_commands,
            match_executables,
            pane_command_regexes: Vec::new(),
            match_scope: "foreground".to_owned(),
            match_command_regexes: Vec::new(),
        };
        let r = Self::with_process_matcher(runner, inspector, sleeper, mux, codex, matcher);
        proof {
            assert(r.config().pane_command_regexes =~= Seq::<Seq<char>>::empty());
            assert(r.config().match_command_regexes =~= Seq::<Seq<char>>::empty());
        }
        r
    }

    /// A probe with every detection value.
    pub fn with_process_matcher(
        runner: Runner,
        inspector: Inspector,
        sleeper: Sleeper,
        mux: UnixPath,
        codex: CodexExecutable,
        matcher: SmartLeftMatcher,
    ) -> (r: Self)
        ensures
            r.port.runner_model() == runner,
            r.port.inspector_model() == inspector,
            r.port.sleeper_model() == sleeper,
            r.observed() == no_observations(),
            r.mux == mux,
            r.codex == codex,
            r.matcher == matcher,
            r.diagnostics is None,
            r.events@.len() == 0,
    {
        let r = SmartLeftProbe {
            port: ProbePort::new(runner, inspector, sleeper),
            mux,
            codex,
            matcher,
            diagnostics: None,
            events: Vec::new(),
        };
        assert(event_list(r.events@) =~= Seq::<Seq<char>>::empty());
        r
    }

    /// Logs the reason codes of this probe.
    pub fn with_diagnostics(self, diagnostics: NamingDiagnostics) -> (r: Self)
        ensures
            r.diagnostics == Some(diagnostics),
            r.config() == self.config(),
            r.observed() == self.observed(),
    {
        SmartLeftProbe {
            port: self.port,
            mux: self.mux,
            codex: self.codex,
            matcher: self.matcher,
            diagnostics: Some(diagnostics),
            events: self.events,
        }
    }

    /// Runs one command; any exit status but zero is an error.
    fn run_checked(&mut self, arguments: &Vec<Vec<u8>>) -> (r: Result<CommandOutput, MuxError>)
        ensures
            final(self).config() == old(self).config(),
            grows(old(self).observed(), final(self).observed()),
            since(old(self).observed(), final(self).observed()).seen.len() == 1,
            since(old(self).observed(), final(self).observed()).events.len() == 0,
            sent_at(
                since(old(self).observed(), final(self).observed()),
                0,
                text::words(arguments@),
            ),
            domain::reply_model(r) == checked(
                reply_at(since(old(self).observed(), final(self).observed()), 0),
            ),
    {
        let ghost before = self.observed();
        let reply = self.port.run(arguments);
        proof {
            let w = since(before, self.observed());
            assert(w.seen =~= seq![self.port.seen().last()]);
        }
        let output = match reply {
            Ok(output) => output,
            Err(e) => return Err(e),
        };
        let success = match output.status {
            Some(code) => code == 0,
            None => false,
        };
        if success {
            return Ok(output);
        }
        let detail = trim(&utf8_lossy(&output.stderr));
        if detail.as_str().is_empty() {
            Err(command_error("tmux command failed"))
        } else {
            Err(MuxError::Command(detail))
        }
    }

    fn note(&mut self, code: &'static str)
        ensures
            final(self).config() == old(self).config(),
            grows(old(self).observed(), final(self).observed()),
            only_events(since(old(self).observed(), final(self).observed()), seq![code@]),
    {
        let ghost before = self.observed();
        self.events.push(code);
        proof {
            assert(event_list(self.events@) =~= before.events.push(code@));
            assert(since(before, self.observed()).events =~= seq![code@]);
        }
    }

    fn nap(&mut self, millis: u64)
        ensures
            final(self).config() == old(self).config(),
            grows(old(self).observed(), final(self).observed()),
            since(old(self).observed(), final(self).observed()).seen == seq![Sight::Nap(millis)],
            since(old(self).observed(), final(self).observed()).events.len() == 0,
    {
        let ghost before = self.observed();
        self.port.sleep(millis);
        assert(since(before, self.observed()).seen =~= seq![Sight::Nap(millis)]);
    }

    fn ask(&mut self, target: SmartLeftTarget, state: &PaneState) -> (r: bool)
        ensures
            final(self).config() == old(self).config(),
            grows(old(self).observed(), final(self).observed()),
            since(old(self).observed(), final(self).observed()).seen.len() == 1,
            since(old(self).observed(), final(self).observed()).events.len() == 0,
            asked_at(
                since(old(self).observed(), final(self).observed()),
                0,
                target,
                state@,
            ),
            r == yes_at(since(old(self).observed(), final(self).observed()), 0),
    {
        let ghost before = self.observed();
        let answer = match target {
            SmartLeftTarget::Codex => {
                let process = PaneProcess { pid: state.pane_pid, tty: state.pane_tty.clone() };
                self.port.is_direct_codex(&process)
            },
            SmartLeftTarget::Shell => self.port.is_direct_shell(
                state.pane_pid,
                &state.pane_command,
            ),
        };
        proof {
            let w = since(before, self.observed());
            assert(w.seen =~= seq![self.port.seen().last()]);
        }
        match answer {
            Ok(yes) => yes,
            Err(_) => false,
        }
    }

    fn read_state(&mut self, context: &InvocationContext) -> (r: Result<PaneState, MuxError>)
        ensures
            final(self).config() == old(self).config(),
            grows(old(self).observed(), final(self).observed()),
            since(old(self).observed(), final(self).observed()).seen.len() == 1,
            since(old(self).observed(), final(self).observed()).events.len() == 0,
            sent_at(
                since(old(self).observed(), final(self).observed()),
                0,
                state_request(context.pane_id@),
            ),
            state_outcome(r) == shown_state(
                reply_at(since(old(self).observed(), final(self).observed()), 0),
            ),
    {
        let arguments = list5(
            "display-message",
            "-p",
            "-t",
            context.pane_id.as_str(),
            STATE_FORMAT,
        );
        match self.run_checked(&to_words(&arguments)) {
            Ok(output) => PaneState::parse(&output.stdout),
            Err(e) => Err(e),
        }
    }

    fn send_left(&mut self, context: &InvocationContext) -> (r: Result<(), MuxError>)
        ensures
            final(self).config() == old(self).config(),
            grows(old(self).observed(), final(self).observed()),
            since(old(self).observed(), final(self).observed()).seen.len() == 1,
            since(old(self).observed(), final(self).observed()).events.len() == 0,
            sent_at(
                since(old(self).observed(), final(self).observed()),
                0,
                left_request(context.pane_id@),
            ),
            match r {
                Ok(_) => checked(
                    reply_at(since(old(self).observed(), final(self).observed()), 0),
                ) is Ok,
                Err(e) => checked(
                    reply_at(since(old(self).observed(), final(self).observed()), 0),
                ) == Err::<OutputModel, ErrorModel>(e@),
            },
    {
        let arguments = list4("send-keys", "-t", context.pane_id.as_str(), "Left");
        match self.run_checked(&to_words(&arguments)) {
            Ok(_) => Ok(()),
            Err(e) => Err(e),
        }
    }

    fn composer_boundary(&mut self, context: &InvocationContext, state: &PaneState) -> (r:
        ComposerBoundary)
        ensures
            final(self).config() == old(self).config(),
            grows(old(self).observed(), final(self).observed()),
            since(old(self).observed(), final(self).observed()).seen.len() == 1,
            since(old(self).observed(), final(self).observed()).events.len() == 0,
            sent_at(
                since(old(self).observed(), final(self).observed()),
                0,
                capture_request(context.pane_id@),
            ),
            r == boundary_of(
                reply_at(since(old(self).observed(), final(self).observed()), 0),
                state.cursor_x,
                state.cursor_y,
            ),
    {
        let arguments = list4("capture-pane", "-p", "-t", context.pane_id.as_str());
        match self.run_checked(&to_words(&arguments)) {
            Ok(output) => boundary_on_screen(&output.stdout, state.cursor_x, state.cursor_y),
            Err(_) => ComposerBoundary::RowRejected,
        }
    }

    fn popup_arguments(&self, context: &InvocationContext, size: TerminalSize) -> (r: Vec<Vec<u8>>)
        ensures
            text::words(r@) == popup_words(self.config(), *context, size),
    {
        let mut words = text::no_texts();
        put(&mut words, &shell_literal(&self.mux.display()));
        let codex = shell_literal(&self.codex.as_path().display());
        let ghost start = text::texts(words@);
        if self.matcher.match_executables.len() == 0 {
            put(&mut words, "--codex");
            put(&mut words, &codex);
        } else {
            put(&mut words, "--launch-executable");
            put(&mut words, &codex);
            let names = display_list(&self.matcher.match_executables);
            put_repeated(&mut words, "--match-executable", &names);
            put_repeated(&mut words, "--pane-command", &self.matcher.pane_commands);
            put(&mut words, "--match-scope");
            put(&mut words, &shell_literal(&self.matcher.match_scope));
            put_repeated(
                &mut words,
                "--match-command-regex",
                &self.matcher.match_command_regexes,
            );
            put_repeated(
                &mut words,
                "--pane-command-regex",
                &self.matcher.pane_command_regexes,
            );
        }
        assert(text::texts(words@) =~= start + detection_words(self.config()));
        put(&mut words, "--client");
        put(&mut words, &shell_literal(context.client_id.as_str()));
        put(&mut words, "--invoking-pane");
        put(&mut words, &shell_literal(context.pane_id.as_str()));
        put(&mut words, "--invoking-session");
        put(&mut words, &shell_literal(context.session_id.as_str()));
        put(&mut words, "--invoking-window");
        put(&mut words, &shell_literal(context.window_id.as_str()));
        put(&mut words, "--invoking-path");
        put(&mut words, &shell_literal(&context.current_path.display()));
        assert(text::texts(words@) =~= seq![quote::quoted(text::lossy_text(self.mux@))]
            + detection_words(self.config()) + context_words(*context));
        let command = text::join_texts(&words, " ");
        let compact = size.is_compact();
        let mut r = no_words();
        push_text_word(&mut r, "display-popup");
        push_text_word(&mut r, "-E");
        push_text_word(&mut r, "-c");
        push_text_word(&mut r, context.client_id.as_str());
        push_text_word(&mut r, "-d");
        push_word(&mut r, copy_bytes(&context.current_path.bytes));
        push_text_word(&mut r, "-w");
        push_text_word(
            &mut r,
            if compact {
                "100%"
            } else {
                "80%"
            },
        );
        push_text_word(&mut r, "-h");
        push_text_word(
            &mut r,
            if compact {
                "100%"
            } else {
                "70%"
            },
        );
        push_text_word(&mut r, &command);
        r
    }

    /// Opens the popup for the client of an invocation.
    pub fn open_popup(&mut self, context: &InvocationContext) -> (r: Result<
        SmartLeftOutcome,
        MuxError,
    >)
        ensures
            final(self).config() == old(self).config(),
            grows(old(self).observed(), final(self).observed()),
            popup_opens(
                old(self).config(),
                *context,
                since(old(self).observed(), final(self).observed()),
                error::outcome(r),
            ),
    {
        let ghost start = self.observed();
        let query = list3(
            "list-clients",
            "-F",
            "#{client_tty}\x1f#{client_width}\x1f#{client_height}",
        );
        let reply = self.run_checked(&to_words(&query));
        let ghost first = self.observed();
        proof {
            assert(past(since(start, first), 1).seen =~= Seq::<Sight>::empty());
            assert(since(start, first).events =~= Seq::<Seq<char>>::empty());
        }
        let output = match reply {
            Ok(output) => output,
            Err(e) => return Err(e),
        };
        let size = match find_client(&output.stdout, context.client_id.as_str()) {
            Ok(size) => size,
            Err(e) => return Err(e),
        };
        let arguments = self.popup_arguments(context, size);
        let opened = self.run_checked(&arguments);
        let ghost second = self.observed();
        proof {
            since_splits(start, first, second);
            assert(past(since(start, second), 2).seen =~= Seq::<Sight>::empty());
            assert(since(start, second).events =~= Seq::<Seq<char>>::empty());
        }
        match opened {
            Ok(_) => {
                self.note("popup_opened");
                proof {
                    since_splits(start, second, self.observed());
                    let w = since(start, self.observed());
                    assert(past(w, 2).seen =~= Seq::<Sight>::empty());
                    assert(w.events =~= seq!["popup_opened"@]);
                }
                Ok(SmartLeftOutcome::Opened)
            },
            Err(e) => Err(e),
        }
    }

    fn confirm(
        &mut self,
        context: &InvocationContext,
        target: SmartLeftTarget,
        initial: &PaneState,
        current: &PaneState,
    ) -> (r: Result<SmartLeftOutcome, MuxError>)
        ensures
            final(self).config() == old(self).config(),
            grows(old(self).observed(), final(self).observed()),
            confirms(
                old(self).config(),
                *context,
                target,
                initial@,
                current@,
                since(old(self).observed(), final(self).observed()),
                error::outcome(r),
            ),
    {
        let ghost start = self.observed();
        if !state_is_unchanged(initial, current) {
            self.note("state_changed_after_left");
            return Ok(SmartLeftOutcome::Forwarded);
        }
        let still_exact = self.ask(target, current);
        let ghost first = self.observed();
        if !still_exact {
            self.note("process_changed_after_left");
            proof {
                since_splits(start, first, self.observed());
                let w = since(start, self.observed());
                assert(past(w, 1).seen.len() == 0);
                assert(w.events =~= seq!["process_changed_after_left"@]);
            }
            return Ok(SmartLeftOutcome::Forwarded);
        }
        let r = self.open_popup(context);
        proof {
            since_splits(start, first, self.observed());
            let w = since(start, self.observed());
            assert(past(w, 1) =~= since(first, self.observed()));
        }
        r
    }

    fn recheck(
        &mut self,
        context: &InvocationContext,
        target: SmartLeftTarget,
        initial: &PaneState,
    ) -> (r: Result<SmartLeftOutcome, MuxError>)
        ensures
            final(self).config() == old(self).config(),
            grows(old(self).observed(), final(self).observed()),
            rechecks(
                old(self).config(),
                *context,
                target,
                initial@,
                since(old(self).observed(), final(self).observed()),
                error::outcome(r),
            ),
    {
        let ghost start = self.observed();
        let first_read = self.read_state(context);
        let ghost first = self.observed();
        let current = match first_read {
            Ok(state) => state,
            Err(_) => {
                self.note("state_recheck_failed");
                proof {
                    since_splits(start, first, self.observed());
                    let w = since(start, self.observed());
                    assert(past(w, 1).seen.len() == 0);
                    assert(w.events =~= seq!["state_recheck_failed"@]);
                }
                return Ok(SmartLeftOutcome::Forwarded);
            },
        };
        if target == SmartLeftTarget::Codex && !state_is_unchanged(initial, &current) {
            self.nap(CODEX_REDRAW_SETTLE_MILLIS);
            let ghost rested = self.observed();
            proof {
                since_splits(start, first, rested);
            }
            let second_read = self.read_state(context);
            let ghost second = self.observed();
            proof {
                since_splits(start, rested, second);
            }
            let settled = match second_read {
                Ok(state) => state,
                Err(_) => {
                    self.note("state_recheck_failed");
                    proof {
                        since_splits(start, second, self.observed());
                        let w = since(start, self.observed());
                        assert(past(w, 3).seen.len() == 0);
                        assert(w.events =~= seq!["state_recheck_failed"@]);
                    }
                    return Ok(SmartLeftOutcome::Forwarded);
                },
            };
            let r = self.confirm(context, target, initial, &settled);
            proof {
                since_splits(start, second, self.observed());
                let w = since(start, self.observed());
                assert(past(w, 3) =~= since(second, self.observed()));
            }
            return r;
        }
        let r = self.confirm(context, target, initial, &current);
        proof {
            since_splits(start, first, self.observed());
            let w = since(start, self.observed());
            assert(past(w, 1) =~= since(first, self.observed()));
        }
        r
    }

    fn pass_through(&mut self, context: &InvocationContext, code: &'static str) -> (r: Result<
        SmartLeftOutcome,
        MuxError,
    >)
        ensures
            final(self).config() == old(self).config(),
            grows(old(self).observed(), final(self).observed()),
            passes_through(
                *context,
                since(old(self).observed(), final(self).observed()),
                seq![code@],
                error::outcome(r),
            ),
    {
        let ghost start = self.observed();
        self.note(code);
        let ghost first = self.observed();
        let sent = self.send_left(context);
        proof {
            since_splits(start, first, self.observed());
            let w = since(start, self.observed());
            assert(past(w, 1).seen.len() == 0);
            assert(w.events =~= seq![code@]);
        }
        match sent {
            Ok(()) => Ok(SmartLeftOutcome::Forwarded),
            Err(e) => Err(e),
        }
    }

    fn run_at_codex(&mut self, context: &InvocationContext, initial: &PaneState) -> (r: Result<
        SmartLeftOutcome,
        MuxError,
    >)
        ensures
            final(self).config() == old(self).config(),
            grows(old(self).observed(), final(self).observed()),
            at_codex(
                old(self).config(),
                *context,
                initial@,
                since(old(self).observed(), final(self).observed()),
                error::outcome(r),
            ),
    {
        let ghost start = self.observed();
        let boundary = self.composer_boundary(context, initial);
        let ghost first = self.observed();
        match boundary {
            ComposerBoundary::Exact => {},
            ComposerBoundary::RowRejected => self.note("composer_row_rejected"),
            ComposerBoundary::CursorRejected => self.note("composer_cursor_rejected"),
        }
        let ghost noted = self.observed();
        proof {
            assert(grows(first, noted));
            assert(since(first, noted).events =~= boundary_events(boundary));
            assert(since(first, noted).seen.len() == 0);
            since_splits(start, first, noted);
        }
        let sent = self.send_left(context);
        let ghost second = self.observed();
        proof {
            since_splits(start, noted, second);
            let w = since(start, second);
            assert(past(w, 2).seen.len() == 0);
            assert(w.events =~= boundary_events(boundary));
        }
        match sent {
            Ok(()) => {},
            Err(e) => return Err(e),
        }
        if boundary != ComposerBoundary::Exact {
            return Ok(SmartLeftOutcome::Forwarded);
        }
        let r = self.recheck(context, SmartLeftTarget::Codex, initial);
        proof {
            since_splits(start, second, self.observed());
            let w = since(start, self.observed());
            assert(past(w, 2) =~= since(second, self.observed()));
        }
        r
    }

    fn run_at_shell(&mut self, context: &InvocationContext, initial: &PaneState) -> (r: Result<
        SmartLeftOutcome,
        MuxError,
    >)
        ensures
            final(self).config() == old(self).config(),
            grows(old(self).observed(), final(self).observed()),
            at_shell(
                old(self).config(),
                *context,
                initial@,
                since(old(self).observed(), final(self).observed()),
                error::outcome(r),
            ),
    {
        let ghost start = self.observed();
        let sent = self.send_left(context);
        let ghost first = self.observed();
        match sent {
            Ok(()) => {},
            Err(e) => {
                proof {
                    let w = since(start, first);
                    assert(past(w, 1).seen.len() == 0);
                    assert(w.events =~= Seq::<Seq<char>>::empty());
                }
                return Err(e);
            },
        }
        self.nap(SHELL_SETTLE_MILLIS);
        let ghost rested = self.observed();
        let r = self.recheck(context, SmartLeftTarget::Shell, initial);
        proof {
            since_splits(start, first, rested);
            since_splits(start, rested, self.observed());
            let w = since(start, self.observed());
            assert(past(w, 2) =~= since(rested, self.observed()));
        }
        r
    }

    fn run_elsewhere(
        &mut self,
        context: &InvocationContext,
        state: &PaneState,
        reason: &'static str,
    ) -> (r: Result<SmartLeftOutcome, MuxError>)
        ensures
            final(self).config() == old(self).config(),
            grows(old(self).observed(), final(self).observed()),
            not_codex(
                old(self).config(),
                *context,
                state@,
                reason@,
                since(old(self).observed(), final(self).observed()),
                error::outcome(r),
            ),
    {
        let ghost start = self.observed();
        if !state.shell_prompt {
            return self.pass_through(context, reason);
        }
        let shell = self.ask(SmartLeftTarget::Shell, state);
        let ghost first = self.observed();
        let r = if shell {
            self.run_at_shell(context, state)
        } else {
            self.pass_through(context, reason)
        };
        proof {
            since_splits(start, first, self.observed());
            let w = since(start, self.observed());
            assert(past(w, 1) =~= since(first, self.observed()));
        }
        r
    }

    /// Forwards Left exactly once and opens the popup at a proven boundary.
    pub fn run(&mut self, context: &InvocationContext) -> (r: Result<SmartLeftOutcome, MuxError>)
        ensures
            final(self).config() == old(self).config(),
            grows(old(self).observed(), final(self).observed()),
            gesture(
                old(self).config(),
                *context,
                since(old(self).observed(), final(self).observed()),
                error::outcome(r),
            ),
    {
        let ghost start = self.observed();
        let read = self.read_state(context);
        let ghost first = self.observed();
        let state = match read {
            Ok(state) => state,
            Err(_) => {
                let r = self.pass_through(context, "state_read_failed");
                proof {
                    since_splits(start, first, self.observed());
                    let w = since(start, self.observed());
                    assert(past(w, 1) =~= since(first, self.observed()));
                }
                return r;
            },
        };
        if state.pane_in_mode || !state.cursor_visible {
            let r = self.pass_through(
                context,
                if state.pane_in_mode {
                    "pane_mode_active"
                } else {
                    "cursor_hidden"
                },
            );
            proof {
                since_splits(start, first, self.observed());
                let w = since(start, self.observed());
                assert(past(w, 1) =~= since(first, self.observed()));
            }
            return r;
        }
        let allowed = self.matcher.pane_commands.len() == 0 || text::holds_text(
            &self.matcher.pane_commands,
            &state.pane_command,
        ) || any_match(&self.matcher.pane_command_regexes, &state.pane_command);
        assert(allowed == command_allowed(self.config(), state.pane_command@));
        if !allowed {
            let r = self.run_elsewhere(context, &state, "pane_command_rejected");
            proof {
                since_splits(start, first, self.observed());
                let w = since(start, self.observed());
                assert(past(w, 1) =~= since(first, self.observed()));
            }
            return r;
        }
        let codex = self.ask(SmartLeftTarget::Codex, &state);
        let ghost second = self.observed();
        let r = if codex {
            self.run_at_codex(context, &state)
        } else {
            self.run_elsewhere(context, &state, "process_rejected")
        };
        proof {
            since_splits(start, first, second);
            since_splits(start, second, self.observed());
            let w = since(start, self.observed());
            assert(past(w, 2) =~= since(second, self.observed()));
        }
        r
    }
}

fn display_list(executables: &Vec<CodexExecutable>) -> (r: Vec<String>)
    ensures
        text::texts(r@) == lossy_list(inventory::executable_list(executables@)),
{
    let mut r = text::no_texts();
    let ghost all = lossy_list(inventory::executable_list(executables@));
    let mut i: usize = 0;
    while i < executables.len()
        invariant
            i <= executables.len(),
            text::texts(r@) =~= all.take(i as int),
        decreases executables.len() - i,
    {
        text::push_text(&mut r, executables[i].as_path().display());
        i += 1;
    }
    assert(text::texts(r@) =~= all);
    r
}

} // verus!
