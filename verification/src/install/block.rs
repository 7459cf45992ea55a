//! The managed block: what it holds and how its lines are written.

use vstd::prelude::*;
use crate::domain;
use crate::install::failure::{value_failure, FailureModel, InstallError};
use crate::number;
use crate::path;
use crate::path::UnixPath;
use crate::scan;
use crate::scan::{contains_char, contains_control};
use crate::text;
use crate::text::{put, put_all, read_utf8};
use crate::tmux::quote;
use crate::tmux::quote::{shell_literal, tmux_word};

verus! {

/// First line of the managed block.
pub const BEGIN_MARKER: &'static str = "# >>> codex-mux >>>";

/// Last line of the managed block.
pub const END_MARKER: &'static str = "# <<< codex-mux <<<";

pub const MANAGED_NOTE: &'static str = "# Managed by codex-mux; changes inside this block are replaced.";

pub const KEY_FIELD: &'static str = "# codex-mux-key: ";

pub const BINARY_FIELD: &'static str = "# codex-mux-binary: ";

pub const CODEX_FIELD: &'static str = "# codex-executable: ";

pub const LAUNCH_FIELD: &'static str = "# codex-launch-executable: ";

pub const MATCH_FIELD: &'static str = "# codex-match-executable: ";

pub const PANE_COMMAND_FIELD: &'static str = "# codex-pane-command: ";

pub const MATCH_SCOPE_FIELD: &'static str = "# codex-match-scope: ";

pub const MATCH_COMMAND_REGEX_FIELD: &'static str = "# codex-match-command-regex: ";

pub const PANE_COMMAND_REGEX_FIELD: &'static str = "# codex-pane-command-regex: ";

pub const SMART_LEFT_FIELD: &'static str = "# codex-mux-smart-left: ";

pub const LEADING_NEWLINE_FIELD: &'static str = "# codex-mux-owned-leading-newline: ";

// ---------------------------------------------------------------------------
// What the block holds
// ---------------------------------------------------------------------------

/// Detection values held by the block.
#[derive(Debug)]
pub struct ProcessMetadata {
    /// Executable or script paths accepted during discovery.
    pub match_executables: Vec<UnixPath>,
    /// Exact pane commands accepted by Smart Left.
    pub pane_commands: Vec<String>,
    /// Candidate process scope.
    pub match_scope: String,
    /// Expressions for the normalized arguments of a process.
    pub match_command_regexes: Vec<String>,
    /// Expressions for pane commands.
    pub pane_command_regexes: Vec<String>,
}

/// Paths and detection values held by the block.
#[derive(Debug)]
pub struct ExecutablePaths {
    /// This program.
    pub mux: UnixPath,
    /// The Codex executable.
    pub codex: UnixPath,
    pub match_executables: Vec<UnixPath>,
    pub pane_commands: Vec<String>,
    pub match_scope: String,
    pub match_command_regexes: Vec<String>,
    pub pane_command_regexes: Vec<String>,
    /// Whether the written commands use the one-option shorthand.
    pub legacy_shorthand: bool,
}

#[verifier::ext_equal]
pub struct PathsModel {
    pub mux: Seq<u8>,
    pub codex: Seq<u8>,
    pub match_executables: Seq<Seq<u8>>,
    pub pane_commands: Seq<Seq<char>>,
    pub match_scope: Seq<char>,
    pub match_command_regexes: Seq<Seq<char>>,
    pub pane_command_regexes: Seq<Seq<char>>,
    pub legacy_shorthand: bool,
}

impl View for ExecutablePaths {
    type V = PathsModel;

    open spec fn view(&self) -> PathsModel {
        PathsModel {
            mux: self.mux@,
            codex: self.codex@,
            match_executables: domain::path_list(self.match_executables@),
            pane_commands: text::texts(self.pane_commands@),
            match_scope: self.match_scope@,
            match_command_regexes: text::texts(self.match_command_regexes@),
            pane_command_regexes: text::texts(self.pane_command_regexes@),
            legacy_shorthand: self.legacy_shorthand,
        }
    }
}

/// Why a path cannot be written into the block.
pub open spec fn path_problem(p: Seq<u8>, field: Seq<char>) -> Option<FailureModel> {
    if !path::is_absolute(p) {
        Some(FailureModel::InvalidValue { field, reason: "must be an absolute path"@ })
    } else {
        match text::utf8_decoded(p) {
            None => Some(
                FailureModel::InvalidValue {
                    field,
                    reason: "must be valid UTF-8 for tmux configuration"@,
                },
            ),
            Some(t) => if scan::has_control(t) {
                Some(
                    FailureModel::InvalidValue {
                        field,
                        reason: "must not contain control characters"@,
                    },
                )
            } else if t.contains('#') || t.contains('$') {
                Some(
                    FailureModel::InvalidValue {
                        field,
                        reason: "must not contain tmux expansion characters (`#` or `$`)"@,
                    },
                )
            } else {
                None
            },
        }
    }
}

pub open spec fn first_path_problem(paths: Seq<Seq<u8>>, n: nat, field: Seq<char>) -> Option<
    FailureModel,
>
    decreases n,
{
    if n == 0 {
        None
    } else {
        match first_path_problem(paths, (n - 1) as nat, field) {
            Some(e) => Some(e),
            None => path_problem(paths[n - 1], field),
        }
    }
}

/// Every text is visible: not empty and without control characters.
pub open spec fn all_visible(values: Seq<Seq<char>>) -> bool {
    forall|i: int|
        0 <= i < values.len() ==> (#[trigger] values[i]).len() > 0 && !scan::has_control(
            values[i],
        )
}

pub open spec fn or_else(a: Option<FailureModel>, b: Option<FailureModel>) -> Option<
    FailureModel,
> {
    if a is Some {
        a
    } else {
        b
    }
}

/// Why values cannot be written into the block.
pub open spec fn paths_problem(p: PathsModel) -> Option<FailureModel> {
    if p.match_executables.len() == 0 || (p.pane_commands.len() == 0
        && p.pane_command_regexes.len() == 0) {
        Some(
            FailureModel::InvalidValue {
                field: "process configuration"@,
                reason: "match executables and pane commands must be non-empty"@,
            },
        )
    } else {
        or_else(
            path_problem(p.mux, "codex-mux executable"@),
            or_else(
                path_problem(p.codex, "Codex launch executable"@),
                or_else(
                    first_path_problem(
                        p.match_executables,
                        p.match_executables.len(),
                        "Codex match executable"@,
                    ),
                    or_else(
                        if !all_visible(p.pane_commands) {
                            Some(
                                FailureModel::InvalidValue {
                                    field: "Codex pane command"@,
                                    reason: "must be non-empty and contain no control characters"@,
                                },
                            )
                        } else {
                            None
                        },
                        if !all_visible(p.match_command_regexes) || !all_visible(
                            p.pane_command_regexes,
                        ) {
                            Some(
                                FailureModel::InvalidValue {
                                    field: "process regex"@,
                                    reason: "must be non-empty and contain no control characters"@,
                                },
                            )
                        } else {
                            None
                        },
                    ),
                ),
            ),
        )
    }
}

/// Every path is text.
pub open spec fn representable(p: PathsModel) -> bool {
    &&& vstd::utf8::valid_utf8(p.mux)
    &&& vstd::utf8::valid_utf8(p.codex)
    &&& forall|i: int|
        0 <= i < p.match_executables.len() ==> vstd::utf8::valid_utf8(
            #[trigger] p.match_executables[i],
        )
}

/// The text of a path that is text.
pub open spec fn path_text(p: Seq<u8>) -> Seq<char> {
    vstd::utf8::decode_utf8(p)
}

proof fn no_path_problem(paths: Seq<Seq<u8>>, n: nat, field: Seq<char>, i: int)
    requires
        n <= paths.len(),
        first_path_problem(paths, n, field) is None,
        0 <= i < n,
    ensures
        path_problem(paths[i], field) is None,
    decreases n,
{
    if i < n - 1 {
        no_path_problem(paths, (n - 1) as nat, field, i);
    }
}

/// Values that can be written are text.
pub proof fn accepted_paths_are_text(p: PathsModel)
    requires
        paths_problem(p) is None,
    ensures
        representable(p),
{
    assert forall|i: int| 0 <= i < p.match_executables.len() implies vstd::utf8::valid_utf8(
        #[trigger] p.match_executables[i],
    ) by {
        no_path_problem(
            p.match_executables,
            p.match_executables.len(),
            "Codex match executable"@,
            i,
        );
    }
}

fn check_path(p: &UnixPath, field: &'static str) -> (r: Result<(), InstallError>)
    ensures
        match r {
            Ok(_) => path_problem(p@, field@) is None,
            Err(e) => path_problem(p@, field@) == Some(e@),
        },
{
    if p.is_empty() || !p.is_absolute() {
        return Err(value_failure(field, "must be an absolute path"));
    }
    match read_utf8(&p.bytes) {
        None => Err(value_failure(field, "must be valid UTF-8 for tmux configuration")),
        Some(t) => if contains_control(&t) {
            Err(value_failure(field, "must not contain control characters"))
        } else if contains_char(&t, '#') || contains_char(&t, '$') {
            Err(
                value_failure(
                    field,
                    "must not contain tmux expansion characters (`#` or `$`)",
                ),
            )
        } else {
            Ok(())
        },
    }
}

fn visible(values: &Vec<String>) -> (r: bool)
    ensures
        r == all_visible(text::texts(values@)),
{
    let ghost all = text::texts(values@);
    let mut i: usize = 0;
    while i < values.len()
        invariant
            i <= values.len(),
            forall|j: int|
                0 <= j < i ==> (#[trigger] all[j]).len() > 0 && !scan::has_control(all[j]),
        decreases values.len() - i,
    {
        assert(all[i as int] == values@[i as int]@);
        if values[i].as_str().is_empty() || contains_control(&values[i]) {
            return false;
        }
        i += 1;
    }
    true
}

/// The file name of a path where it is text, else nothing.
pub open spec fn name_or_empty(p: Seq<u8>) -> Seq<char> {
    match path::file_name(p) {
        Some(name) => match text::utf8_decoded(name) {
            Some(t) => t,
            None => Seq::empty(),
        },
        None => Seq::empty(),
    }
}

pub fn command_name(p: &UnixPath) -> (r: String)
    ensures
        r@ == name_or_empty(p@),
{
    match p.file_name() {
        Some(name) => match read_utf8(&name) {
            Some(t) => t,
            None => String::new(),
        },
        None => String::new(),
    }
}

/// What two executables alone stand for.
pub open spec fn shorthand_model(mux: Seq<u8>, codex: Seq<u8>) -> PathsModel {
    PathsModel {
        mux,
        codex,
        match_executables: seq![codex],
        pane_commands: seq![name_or_empty(codex)],
        match_scope: "foreground"@,
        match_command_regexes: Seq::empty(),
        pane_command_regexes: Seq::empty(),
        legacy_shorthand: true,
    }
}

impl ExecutablePaths {
    /// Values for two executables alone.
    pub fn new(mux: UnixPath, codex: UnixPath) -> (r: Result<ExecutablePaths, InstallError>)
        ensures
            match r {
                Ok(paths) => paths@ == shorthand_model(mux@, codex@) && paths_problem(
                    paths@,
                ) is None,
                Err(e) => paths_problem(shorthand_model(mux@, codex@)) == Some(e@),
            },
    {
        let mut match_executables: Vec<UnixPath> = Vec::new();
        match_executables.push(codex.clone());
        let mut pane_commands = text::no_texts();
        text::push_text(&mut pane_commands, command_name(&codex));
        let metadata = ProcessMetadata {
            match_executables,
            pane_commands,
            match_scope: "foreground".to_owned(),
            match_command_regexes: Vec::new(),
            pane_command_regexes: Vec::new(),
        };
        proof {
            let m = shorthand_model(mux@, codex@);
            assert(domain::path_list(metadata.match_executables@) =~= m.match_executables);
            assert(text::texts(metadata.pane_commands@) =~= m.pane_commands);
            assert(text::texts(metadata.match_command_regexes@) =~= m.match_command_regexes);
            assert(text::texts(metadata.pane_command_regexes@) =~= m.pane_command_regexes);
        }
        Self::with_process(mux, codex, metadata, true)
    }

    /// Checks complete launch and detection values.
    pub fn with_process(
        mux: UnixPath,
        codex: UnixPath,
        metadata: ProcessMetadata,
        legacy_shorthand: bool,
    ) -> (r: Result<ExecutablePaths, InstallError>)
        ensures
            ({
                let model = PathsModel {
                    mux: mux@,
                    codex: codex@,
                    match_executables: domain::path_list(metadata.match_executables@),
                    pane_commands: text::texts(metadata.pane_commands@),
                    match_scope: metadata.match_scope@,
                    match_command_regexes: text::texts(metadata.match_command_regexes@),
                    pane_command_regexes: text::texts(metadata.pane_command_regexes@),
                    legacy_shorthand,
                };
                match r {
                    Ok(paths) => paths@ == model && paths_problem(model) is None,
                    Err(e) => paths_problem(model) == Some(e@),
                }
            }),
    {
        let paths = ExecutablePaths {
            mux,
            codex,
            match_executables: metadata.match_executables,
            pane_commands: metadata.pane_commands,
            match_scope: metadata.match_scope,
            match_command_regexes: metadata.match_command_regexes,
            pane_command_regexes: metadata.pane_command_regexes,
            legacy_shorthand,
        };
        let ghost model = paths@;
        assert(model.match_executables.len() == paths.match_executables.len());
        assert(model.pane_commands.len() == paths.pane_commands.len());
        assert(model.pane_command_regexes.len() == paths.pane_command_regexes.len());
        if paths.match_executables.len() == 0 || (paths.pane_commands.len() == 0
            && paths.pane_command_regexes.len() == 0) {
            return Err(
                value_failure(
                    "process configuration",
                    "match executables and pane commands must be non-empty",
                ),
            );
        }
        match check_path(&paths.mux, "codex-mux executable") {
            Ok(()) => {},
            Err(e) => return Err(e),
        }
        match check_path(&paths.codex, "Codex launch executable") {
            Ok(()) => {},
            Err(e) => return Err(e),
        }
        let mut i: usize = 0;
        while i < paths.match_executables.len()
            invariant
                i <= paths.match_executables.len(),
                first_path_problem(
                    model.match_executables,
                    i as nat,
                    "Codex match executable"@,
                ) is None,
            decreases paths.match_executables.len() - i,
        {
            assert(model.match_executables[i as int] == paths.match_executables@[i as int]@);
            match check_path(&paths.match_executables[i], "Codex match executable") {
                Ok(()) => {},
                Err(e) => {
                    proof {
                        path_problem_stays(
                            model.match_executables,
                            (i + 1) as nat,
                            model.match_executables.len(),
                            "Codex match executable"@,
                        );
                    }
                    return Err(e);
                },
            }
            i += 1;
        }
        if !visible(&paths.pane_commands) {
            return Err(
                value_failure(
                    "Codex pane command",
                    "must be non-empty and contain no control characters",
                ),
            );
        }
        if !visible(&paths.match_command_regexes) || !visible(&paths.pane_command_regexes) {
            return Err(
                value_failure(
                    "process regex",
                    "must be non-empty and contain no control characters",
                ),
            );
        }
        Ok(paths)
    }
}

proof fn path_problem_stays(paths: Seq<Seq<u8>>, m: nat, n: nat, field: Seq<char>)
    requires
        m <= n,
        first_path_problem(paths, m, field) is Some,
    ensures
        first_path_problem(paths, n, field) == first_path_problem(paths, m, field),
    decreases n,
{
    if m < n {
        path_problem_stays(paths, m, (n - 1) as nat, field);
    }
}

// ---------------------------------------------------------------------------
// How its lines are written
// ---------------------------------------------------------------------------

/// A path as one word of a shell command.
pub open spec fn shell_path(p: Seq<u8>) -> Seq<char> {
    quote::quoted(path_text(p))
}

/// A tmux format variable, quoted for the shell by tmux.
pub open spec fn shell_variable(name: Seq<char>) -> Seq<char> {
    "#{q:"@ + name + "}"@
}

/// An option followed by each of the words of a list.
pub open spec fn each_with(option: Seq<char>, words: Seq<Seq<char>>) -> Seq<Seq<char>>
    decreases words.len(),
{
    if words.len() == 0 {
        Seq::empty()
    } else {
        each_with(option, words.drop_last()).push(option).push(words.last())
    }
}

pub open spec fn shell_paths(paths: Seq<Seq<u8>>) -> Seq<Seq<char>> {
    Seq::new(paths.len(), |i: int| shell_path(paths[i]))
}

pub open spec fn shell_literals(values: Seq<Seq<char>>) -> Seq<Seq<char>> {
    Seq::new(values.len(), |i: int| quote::quoted(values[i]))
}

/// How the written commands tell this program to find Codex.
pub open spec fn process_words(p: PathsModel) -> Seq<Seq<char>> {
    if p.legacy_shorthand {
        seq!["--codex"@, shell_path(p.codex)]
    } else {
        seq!["--launch-executable"@, shell_path(p.codex)] + each_with(
            "--match-executable"@,
            shell_paths(p.match_executables),
        ) + each_with("--pane-command"@, p.pane_commands) + seq!["--match-scope"@, p.match_scope]
            + each_with("--match-command-regex"@, shell_literals(p.match_command_regexes))
            + each_with("--pane-command-regex"@, shell_literals(p.pane_command_regexes))
    }
}

/// The words that start this program with the context of a key press.
pub open spec fn invocation_words(p: PathsModel) -> Seq<Seq<char>> {
    seq![shell_path(p.mux)] + process_words(p) + seq![
        "--client"@,
        shell_variable("client_tty"@),
        "--invoking-pane"@,
        shell_variable("pane_id"@),
        "--invoking-session"@,
        shell_variable("session_id"@),
        "--invoking-path"@,
        shell_variable("pane_current_path"@),
    ]
}

pub const COMPACT_CONDITION: &'static str = "#{||:#{<:#{client_width},90},#{<:#{client_height},28}}";

/// The popup command bound to the prefix key.
pub open spec fn popup_word(p: PathsModel) -> Seq<char> {
    quote::double_quoted(
        "display-popup -E -w '#{?"@ + COMPACT_CONDITION@ + ",100%,80%}' -h '#{?"@
            + COMPACT_CONDITION@ + ",100%,70%}' "@ + quote::double_quoted(
            scan::join_with(invocation_words(p), " "@),
        ),
    )
}

/// The condition that one of two conditions holds.
pub open spec fn either_clause(left: Seq<char>, right: Seq<char>) -> Seq<char> {
    "#{||:"@ + left + ","@ + right + "}"@
}

/// The condition that one of the pane commands runs.
pub open spec fn commands_clause(commands: Seq<Seq<char>>) -> Seq<char>
    decreases commands.len(),
{
    if commands.len() == 0 {
        Seq::empty()
    } else {
        let one = quote::equals_clause("pane_current_command"@, commands.last());
        if commands.len() == 1 {
            one
        } else {
            either_clause(commands_clause(commands.drop_last()), one)
        }
    }
}

/// The condition under which a command is worth a probe. Expressions are left to
/// the probe, so with one of them every command is.
pub open spec fn prefilter_clause(p: PathsModel) -> Seq<char> {
    if p.pane_commands.len() == 0 {
        if p.pane_command_regexes.len() == 0 {
            "0"@
        } else {
            "1"@
        }
    } else if p.pane_command_regexes.len() == 0 {
        commands_clause(p.pane_commands)
    } else {
        either_clause(commands_clause(p.pane_commands), "1"@)
    }
}

pub const SHELL_AT_PROMPT: &'static str = "#{&&:#{||:#{==:#{pane_current_command},bash},#{==:#{pane_current_command},zsh}},#{==:#{@codex_mux_shell_prompt},1}}";

/// The condition under which Left is handed to the probe.
pub open spec fn left_condition(p: PathsModel) -> Seq<char> {
    quote::both_clause(
        either_clause(prefilter_clause(p), SHELL_AT_PROMPT@),
        "#{!=:#{@codex_mux_smart_left_active},1}"@,
    )
}

/// The shell command of the probe: Left is sent plainly where this program is
/// gone, and the pane is marked idle in every case.
pub open spec fn probe_text(p: PathsModel) -> Seq<char> {
    "owner="@ + number::hex(p.mux) + "; if [ -x "@ + shell_path(p.mux) + " ]; then "@
        + scan::join_with(invocation_words(p).push("smart-left"@), " "@)
        + "; else tmux send-keys -t "@ + shell_variable("pane_id"@)
        + " Left; fi; tmux set-option -pu -t "@ + shell_variable("pane_id"@)
        + " @codex_mux_smart_left_active"@
}

/// The lines of the root-table binding of Left.
pub open spec fn left_lines(p: PathsModel) -> Seq<Seq<char>> {
    seq![
        "bind-key -T root Left if-shell -F '"@ + left_condition(p) + "' {"@,
        "  set-option -p @codex_mux_smart_left_active 1"@,
        "  run-shell -b "@ + quote::double_quoted(probe_text(p)),
        "} {"@,
        "  send-keys Left"@,
        "}"@,
    ]
}

pub open spec fn flag_text(flag: bool) -> Seq<char> {
    if flag {
        "true"@
    } else {
        "false"@
    }
}

/// One line for each value of a list.
pub open spec fn tagged(field: Seq<char>, values: Seq<Seq<char>>) -> Seq<Seq<char>> {
    Seq::new(values.len(), |i: int| field + values[i])
}

pub open spec fn path_texts(paths: Seq<Seq<u8>>) -> Seq<Seq<char>> {
    Seq::new(paths.len(), |i: int| path_text(paths[i]))
}

/// The lines before the repeated fields.
pub open spec fn head_lines(key: Seq<char>, p: PathsModel, leading_newline: bool) -> Seq<
    Seq<char>,
> {
    seq![
        BEGIN_MARKER@,
        MANAGED_NOTE@,
        LEADING_NEWLINE_FIELD@ + flag_text(leading_newline),
        KEY_FIELD@ + key,
        BINARY_FIELD@ + path_text(p.mux),
        CODEX_FIELD@ + path_text(p.codex),
        LAUNCH_FIELD@ + path_text(p.codex),
        MATCH_SCOPE_FIELD@ + p.match_scope,
    ]
}

/// The repeated fields.
pub open spec fn value_lines(p: PathsModel) -> Seq<Seq<char>> {
    tagged(MATCH_FIELD@, path_texts(p.match_executables)) + tagged(
        PANE_COMMAND_FIELD@,
        p.pane_commands,
    ) + tagged(MATCH_COMMAND_REGEX_FIELD@, p.match_command_regexes) + tagged(
        PANE_COMMAND_REGEX_FIELD@,
        p.pane_command_regexes,
    )
}

/// The lines behind the repeated fields.
pub open spec fn tail_lines(key: Seq<char>, smart_left: bool, p: PathsModel) -> Seq<Seq<char>> {
    seq![
        SMART_LEFT_FIELD@ + flag_text(smart_left),
        "bind-key "@ + key + " run-shell -C "@ + popup_word(p),
    ] + if smart_left {
        left_lines(p)
    } else {
        Seq::empty()
    } + seq![END_MARKER@]
}

/// Every line of the block.
pub open spec fn block_lines(
    key: Seq<char>,
    smart_left: bool,
    p: PathsModel,
    leading_newline: bool,
) -> Seq<Seq<char>> {
    head_lines(key, p, leading_newline) + value_lines(p) + tail_lines(key, smart_left, p)
}

fn known_text(p: &UnixPath) -> (r: String)
    requires
        vstd::utf8::valid_utf8(p@),
    ensures
        r@ == path_text(p@),
{
    match read_utf8(&p.bytes) {
        Some(t) => t,
        None => String::new(),
    }
}

fn shell_word(p: &UnixPath) -> (r: String)
    requires
        vstd::utf8::valid_utf8(p@),
    ensures
        r@ == shell_path(p@),
{
    shell_literal(&known_text(p))
}

fn shell_format(variable: &str) -> (r: String)
    ensures
        r@ == shell_variable(variable@),
{
    let mut s = "#{q:".to_owned();
    s.append(variable);
    s.append("}");
    s
}

fn put_each(words: &mut Vec<String>, option: &str, values: &Vec<String>)
    ensures
        text::texts(final(words)@) == text::texts(old(words)@) + each_with(
            option@,
            text::texts(values@),
        ),
{
    let ghost before = text::texts(words@);
    let ghost all = text::texts(values@);
    let mut i: usize = 0;
    assert(all.take(0).len() == 0);
    while i < values.len()
        invariant
            i <= values.len(),
            text::texts(words@) =~= before + each_with(option@, all.take(i as int)),
        decreases values.len() - i,
    {
        proof {
            assert(all.take(i + 1).drop_last() =~= all.take(i as int));
            assert(all.take(i + 1).last() == values@[i as int]@);
        }
        put(words, option);
        put(words, &values[i]);
        i += 1;
    }
    assert(all.take(all.len() as int) =~= all);
}

fn quoted_list(values: &Vec<String>) -> (r: Vec<String>)
    ensures
        text::texts(r@) == shell_literals(text::texts(values@)),
{
    let ghost all = shell_literals(text::texts(values@));
    let mut r = text::no_texts();
    let mut i: usize = 0;
    while i < values.len()
        invariant
            i <= values.len(),
            text::texts(r@) =~= all.take(i as int),
        decreases values.len() - i,
    {
        text::push_text(&mut r, shell_literal(&values[i]));
        i += 1;
    }
    assert(text::texts(r@) =~= all);
    r
}

fn text_list(paths: &Vec<UnixPath>) -> (r: Vec<String>)
    requires
        forall|i: int| 0 <= i < paths.len() ==> vstd::utf8::valid_utf8((#[trigger] paths@[i])@),
    ensures
        text::texts(r@) == path_texts(domain::path_list(paths@)),
{
    let ghost all = path_texts(domain::path_list(paths@));
    let mut r = text::no_texts();
    let mut i: usize = 0;
    while i < paths.len()
        invariant
            i <= paths.len(),
            text::texts(r@) =~= all.take(i as int),
        decreases paths.len() - i,
    {
        text::push_text(&mut r, known_text(&paths[i]));
        i += 1;
    }
    assert(text::texts(r@) =~= all);
    r
}

fn quoted_paths(paths: &Vec<UnixPath>) -> (r: Vec<String>)
    requires
        forall|i: int| 0 <= i < paths.len() ==> vstd::utf8::valid_utf8((#[trigger] paths@[i])@),
    ensures
        text::texts(r@) == shell_paths(domain::path_list(paths@)),
{
    let ghost all = shell_paths(domain::path_list(paths@));
    let mut r = text::no_texts();
    let mut i: usize = 0;
    while i < paths.len()
        invariant
            i <= paths.len(),
            text::texts(r@) =~= all.take(i as int),
        decreases paths.len() - i,
    {
        text::push_text(&mut r, shell_word(&paths[i]));
        i += 1;
    }
    assert(text::texts(r@) =~= all);
    r
}

proof fn list_is_text(e: ExecutablePaths)
    requires
        representable(e@),
    ensures
        forall|i: int|
            0 <= i < e.match_executables.len() ==> vstd::utf8::valid_utf8(
                (#[trigger] e.match_executables@[i])@,
            ),
{
    assert forall|i: int| 0 <= i < e.match_executables.len() implies vstd::utf8::valid_utf8(
        (#[trigger] e.match_executables@[i])@,
    ) by {
        assert(e@.match_executables[i] == e.match_executables@[i]@);
    }
}

/// The words that tell this program to find Codex.
pub fn process_arguments(executables: &ExecutablePaths) -> (r: Vec<String>)
    requires
        representable(executables@),
    ensures
        text::texts(r@) == process_words(executables@),
{
    let mut r = text::no_texts();
    if executables.legacy_shorthand {
        put(&mut r, "--codex");
        put(&mut r, &shell_word(&executables.codex));
        return r;
    }
    proof {
        list_is_text(*executables);
    }
    put(&mut r, "--launch-executable");
    put(&mut r, &shell_word(&executables.codex));
    put_each(&mut r, "--match-executable", &quoted_paths(&executables.match_executables));
    put_each(&mut r, "--pane-command", &executables.pane_commands);
    put(&mut r, "--match-scope");
    put(&mut r, &executables.match_scope);
    put_each(
        &mut r,
        "--match-command-regex",
        &quoted_list(&executables.match_command_regexes),
    );
    put_each(&mut r, "--pane-command-regex", &quoted_list(&executables.pane_command_regexes));
    assert(text::texts(r@) =~= process_words(executables@));
    r
}

fn invocation_arguments(executables: &ExecutablePaths) -> (r: Vec<String>)
    requires
        representable(executables@),
    ensures
        text::texts(r@) == invocation_words(executables@),
{
    let mut r = text::no_texts();
    put(&mut r, &shell_word(&executables.mux));
    put_all(&mut r, &process_arguments(executables));
    put(&mut r, "--client");
    put(&mut r, &shell_format("client_tty"));
    put(&mut r, "--invoking-pane");
    put(&mut r, &shell_format("pane_id"));
    put(&mut r, "--invoking-session");
    put(&mut r, &shell_format("session_id"));
    put(&mut r, "--invoking-path");
    put(&mut r, &shell_format("pane_current_path"));
    assert(text::texts(r@) =~= invocation_words(executables@));
    r
}

fn render_popup(executables: &ExecutablePaths) -> (r: String)
    requires
        representable(executables@),
    ensures
        r@ == popup_word(executables@),
{
    let command = text::join_texts(&invocation_arguments(executables), " ");
    let mut s = "display-popup -E -w '#{?".to_owned();
    s.append(COMPACT_CONDITION);
    s.append(",100%,80%}' -h '#{?");
    s.append(COMPACT_CONDITION);
    s.append(",100%,70%}' ");
    s.append(&tmux_word(&command));
    tmux_word(&s)
}

fn either(left: &str, right: &str) -> (r: String)
    ensures
        r@ == either_clause(left@, right@),
{
    let mut s = "#{||:".to_owned();
    s.append(left);
    s.append(",");
    s.append(right);
    s.append("}");
    s
}

fn render_prefilter(executables: &ExecutablePaths) -> (r: String)
    ensures
        r@ == prefilter_clause(executables@),
{
    let commands = &executables.pane_commands;
    let ghost all = text::texts(commands@);
    let no_regex = executables.pane_command_regexes.len() == 0;
    assert(executables@.pane_command_regexes.len() == executables.pane_command_regexes.len());
    assert(all.len() == commands.len());
    if commands.len() == 0 {
        return if no_regex {
            "0".to_owned()
        } else {
            "1".to_owned()
        };
    }
    let mut s = quote::equals("pane_current_command", &commands[0]);
    let mut i: usize = 1;
    assert(all.take(1).last() == commands@[0]@);
    while i < commands.len()
        invariant
            1 <= i <= commands.len(),
            s@ == commands_clause(all.take(i as int)),
        decreases commands.len() - i,
    {
        proof {
            assert(all.take(i + 1).drop_last() =~= all.take(i as int));
            assert(all.take(i + 1).last() == commands@[i as int]@);
        }
        s = either(&s, &quote::equals("pane_current_command", &commands[i]));
        i += 1;
    }
    assert(all.take(all.len() as int) =~= all);
    if no_regex {
        s
    } else {
        either(&s, "1")
    }
}

/// The owner mark of a binding: the bytes of the path in hexadecimal.
pub fn smart_left_owner(p: &UnixPath) -> (r: String)
    ensures
        r@ == number::hex(p@),
{
    number::hex_text(&p.bytes)
}

fn render_probe(executables: &ExecutablePaths) -> (r: String)
    requires
        representable(executables@),
    ensures
        r@ == probe_text(executables@),
{
    let mut words = invocation_arguments(executables);
    put(&mut words, "smart-left");
    let pane = shell_format("pane_id");
    let mut s = "owner=".to_owned();
    s.append(&smart_left_owner(&executables.mux));
    s.append("; if [ -x ");
    s.append(&shell_word(&executables.mux));
    s.append(" ]; then ");
    s.append(&text::join_texts(&words, " "));
    s.append("; else tmux send-keys -t ");
    s.append(&pane);
    s.append(" Left; fi; tmux set-option -pu -t ");
    s.append(&pane);
    s.append(" @codex_mux_smart_left_active");
    s
}

/// The lines of the root-table binding of Left.
pub fn render_smart_left_binding(executables: &ExecutablePaths) -> (r: Vec<String>)
    requires
        representable(executables@),
    ensures
        text::texts(r@) == left_lines(executables@),
{
    let condition = quote::both(
        &either(&render_prefilter(executables), SHELL_AT_PROMPT),
        "#{!=:#{@codex_mux_smart_left_active},1}",
    );
    let mut first = "bind-key -T root Left if-shell -F '".to_owned();
    first.append(&condition);
    first.append("' {");
    let mut third = "  run-shell -b ".to_owned();
    third.append(&tmux_word(&render_probe(executables)));
    let mut r = text::no_texts();
    text::push_text(&mut r, first);
    put(&mut r, "  set-option -p @codex_mux_smart_left_active 1");
    text::push_text(&mut r, third);
    put(&mut r, "} {");
    put(&mut r, "  send-keys Left");
    put(&mut r, "}");
    r
}

fn joined(a: &str, b: &str) -> (r: String)
    ensures
        r@ == a@ + b@,
{
    let mut s = a.to_owned();
    s.append(b);
    s
}

fn flag_word(flag: bool) -> (r: &'static str)
    ensures
        r@ == flag_text(flag),
{
    if flag {
        "true"
    } else {
        "false"
    }
}

fn put_tagged(lines: &mut Vec<String>, field: &str, values: &Vec<String>)
    ensures
        text::texts(final(lines)@) == text::texts(old(lines)@) + tagged(
            field@,
            text::texts(values@),
        ),
{
    let ghost before = text::texts(lines@);
    let ghost all = tagged(field@, text::texts(values@));
    let mut i: usize = 0;
    while i < values.len()
        invariant
            i <= values.len(),
            text::texts(lines@) =~= before + all.take(i as int),
        decreases values.len() - i,
    {
        text::push_text(lines, joined(field, &values[i]));
        i += 1;
    }
    assert(text::texts(lines@) =~= before + all);
}

/// Writes the lines of the block.
pub fn render_lines(
    key: &str,
    smart_left: bool,
    executables: &ExecutablePaths,
    leading_newline: bool,
) -> (r: Vec<String>)
    requires
        representable(executables@),
    ensures
        text::texts(r@) == block_lines(key@, smart_left, executables@, leading_newline),
{
    proof {
        list_is_text(*executables);
    }
    let ghost p = executables@;
    let codex = known_text(&executables.codex);
    let mut r = text::no_texts();
    put(&mut r, BEGIN_MARKER);
    put(&mut r, MANAGED_NOTE);
    put(&mut r, &joined(LEADING_NEWLINE_FIELD, flag_word(leading_newline)));
    put(&mut r, &joined(KEY_FIELD, key));
    put(&mut r, &joined(BINARY_FIELD, &known_text(&executables.mux)));
    put(&mut r, &joined(CODEX_FIELD, &codex));
    put(&mut r, &joined(LAUNCH_FIELD, &codex));
    put(&mut r, &joined(MATCH_SCOPE_FIELD, &executables.match_scope));
    assert(text::texts(r@) =~= head_lines(key@, p, leading_newline));
    put_tagged(&mut r, MATCH_FIELD, &text_list(&executables.match_executables));
    put_tagged(&mut r, PANE_COMMAND_FIELD, &executables.pane_commands);
    put_tagged(&mut r, MATCH_COMMAND_REGEX_FIELD, &executables.match_command_regexes);
    put_tagged(&mut r, PANE_COMMAND_REGEX_FIELD, &executables.pane_command_regexes);
    assert(text::texts(r@) =~= head_lines(key@, p, leading_newline) + value_lines(p));
    let ghost so_far = text::texts(r@);
    put(&mut r, &joined(SMART_LEFT_FIELD, flag_word(smart_left)));
    let mut binding = "bind-key ".to_owned();
    binding.append(key);
    binding.append(" run-shell -C ");
    binding.append(&render_popup(executables));
    put(&mut r, &binding);
    if smart_left {
        put_all(&mut r, &render_smart_left_binding(executables));
    }
    put(&mut r, END_MARKER);
    assert(text::texts(r@) =~= so_far + tail_lines(key@, smart_left, p));
    r
}

/// Writes the block.
pub fn render_block(
    key: &str,
    smart_left: bool,
    executables: &ExecutablePaths,
    leading_newline: bool,
) -> (r: String)
    requires
        representable(executables@),
    ensures
        r@ == scan::unlines(block_lines(key@, smart_left, executables@, leading_newline)),
{
    scan::unlines_text(&render_lines(key, smart_left, executables, leading_newline))
}

} // verus!
