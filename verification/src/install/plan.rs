//! Installing, inspecting and removing the managed block.
//!
//! Reading and writing the host file and talking to the running server are done
//! by the caller, step by step as a plan says; what the file becomes, and in
//! what order the server is told, is decided here.

use vstd::prelude::*;
use crate::domain;
use crate::install::block;
use crate::install::block::{
    render_block, ExecutablePaths, PathsModel, BEGIN_MARKER, BINARY_FIELD, END_MARKER, KEY_FIELD,
    LEADING_NEWLINE_FIELD, SMART_LEFT_FIELD,
};
use crate::install::failure;
use crate::install::failure::{
    marker_failure, validate_regular_writable, value_failure, FailureModel, InstallError, PathFacts,
};
use crate::install::syntax;
use crate::install::syntax::text_binds_root_left;
use crate::config;
use crate::markers;
use crate::markers::{block_field, block_fields, locate, replace_or_append, Found, Located};
use crate::path::UnixPath;
use crate::scan;
use crate::text;
use crate::text::{bytes_of, read_utf8, text_equal, to_chars};

verus! {

// ---------------------------------------------------------------------------
// Values
// ---------------------------------------------------------------------------

pub open spec fn is_key_char(c: char) -> bool {
    !text::is_control(c) && !text::is_space(c) && c != ';' && c != '#' && c != '\'' && c != '"'
}

/// One key token of tmux.
pub open spec fn is_key(key: Seq<char>) -> bool {
    key.len() > 0 && forall|i: int| 0 <= i < key.len() ==> is_key_char(#[trigger] key[i])
}

pub open spec fn key_problem() -> FailureModel {
    FailureModel::InvalidValue {
        field: "binding key"@,
        reason: "must be one non-whitespace tmux key token"@,
    }
}

pub fn validate_key(key: &str) -> (r: Result<(), InstallError>)
    ensures
        match r {
            Ok(_) => is_key(key@),
            Err(e) => !is_key(key@) && e@ == key_problem(),
        },
{
    let v = to_chars(key);
    if v.len() == 0 {
        return Err(
            value_failure("binding key", "must be one non-whitespace tmux key token"),
        );
    }
    let mut i: usize = 0;
    while i < v.len()
        invariant
            i <= v.len(),
            forall|j: int| 0 <= j < i ==> is_key_char(#[trigger] v@[j]),
        decreases v.len() - i,
    {
        let c: char = v[i];
        if c.is_control() || c.is_whitespace() || c == ';' || c == '#' || c == '\'' || c == '"' {
            assert(!is_key_char(v@[i as int]));
            return Err(
                value_failure("binding key", "must be one non-whitespace tmux key token"),
            );
        }
        i += 1;
    }
    Ok(())
}

/// Every character of every pane command may stand in a tmux condition.
pub open spec fn plain_commands(commands: Seq<Seq<char>>) -> bool {
    forall|i: int| 0 <= i < commands.len() ==> plain_command(#[trigger] commands[i])
}

pub open spec fn plain_command(command: Seq<char>) -> bool {
    forall|k: int| 0 <= k < command.len() ==> config::is_command_char(#[trigger] command[k])
}

pub open spec fn command_problem() -> FailureModel {
    FailureModel::InvalidValue {
        field: "Smart Left pane command"@,
        reason: "must contain only ASCII letters, digits, dot, underscore, plus, or hyphen"@,
    }
}

fn is_plain(command: &str) -> (r: bool)
    ensures
        r == plain_command(command@),
{
    let v = to_chars(command);
    let mut i: usize = 0;
    while i < v.len()
        invariant
            i <= v.len(),
            forall|j: int| 0 <= j < i ==> config::is_command_char(#[trigger] v@[j]),
        decreases v.len() - i,
    {
        let c: char = v[i];
        let fits = ('a' <= c && c <= 'z') || ('A' <= c && c <= 'Z') || ('0' <= c && c <= '9') || c
            == '.' || c == '_' || c == '+' || c == '-';
        if !fits {
            assert(!config::is_command_char(v@[i as int]));
            return false;
        }
        i += 1;
    }
    true
}

pub fn validate_smart_left_executable(executables: &ExecutablePaths) -> (r: Result<
    (),
    InstallError,
>)
    ensures
        match r {
            Ok(_) => plain_commands(executables@.pane_commands),
            Err(e) => !plain_commands(executables@.pane_commands) && e@ == command_problem(),
        },
{
    let ghost all = executables@.pane_commands;
    let mut i: usize = 0;
    while i < executables.pane_commands.len()
        invariant
            i <= executables.pane_commands.len(),
            forall|j: int| 0 <= j < i ==> plain_command(#[trigger] all[j]),
        decreases executables.pane_commands.len() - i,
    {
        assert(all[i as int] == executables.pane_commands@[i as int]@);
        if !is_plain(&executables.pane_commands[i]) {
            assert(!plain_command(all[i as int]));
            return Err(
                value_failure(
                    "Smart Left pane command",
                    "must contain only ASCII letters, digits, dot, underscore, plus, or hyphen",
                ),
            );
        }
        i += 1;
    }
    Ok(())
}

// ---------------------------------------------------------------------------
// Reading the block
// ---------------------------------------------------------------------------

pub open spec fn lines_of(contents: Seq<char>) -> Seq<Seq<char>> {
    scan::split_on(contents, '\n')
}

pub open spec fn block_in(contents: Seq<char>) -> Located {
    markers::located(lines_of(contents), BEGIN_MARKER@, END_MARKER@)
}

/// Why a file cannot be managed: it is not text, or its markers do not form
/// exactly one block.
pub open spec fn contents_problem(bytes: Seq<u8>) -> Option<FailureModel> {
    match text::utf8_decoded(bytes) {
        None => Some(FailureModel::Markers("configuration is not valid UTF-8"@)),
        Some(contents) => match block_in(contents) {
            Located::Partial => Some(
                FailureModel::Markers("begin and end markers must both be present"@),
            ),
            Located::Malformed => Some(
                FailureModel::Markers("markers must form exactly one non-nested block"@),
            ),
            _ => None,
        },
    }
}

/// A host file as text, with its block.
pub struct HostFile {
    pub contents: String,
    pub lines: Vec<String>,
    pub found: Found,
}

impl HostFile {
    /// The lines and the block are those of the text.
    pub open spec fn consistent(&self) -> bool {
        &&& text::texts(self.lines@) == lines_of(self.contents@)
        &&& self.found@ == block_in(self.contents@)
        &&& self.found is Absent || self.found is At
        &&& self.found matches Found::At(region) ==> markers::fits(
            region,
            lines_of(self.contents@),
        )
    }
}

/// Reads a host file and finds its block.
pub fn locate_markers(bytes: &[u8]) -> (r: Result<HostFile, InstallError>)
    ensures
        match r {
            Ok(file) => contents_problem(bytes@) is None && text::utf8_decoded(bytes@) == Some(
                file.contents@,
            ) && file.consistent(),
            Err(e) => contents_problem(bytes@) == Some(e@),
        },
{
    let contents = match read_utf8(bytes) {
        None => return Err(marker_failure("configuration is not valid UTF-8")),
        Some(contents) => contents,
    };
    let lines = scan::split_text(&contents, '\n');
    let found = locate(&lines, BEGIN_MARKER, END_MARKER);
    match found {
        Found::Partial => return Err(
            marker_failure("begin and end markers must both be present"),
        ),
        Found::Malformed => return Err(
            marker_failure("markers must form exactly one non-nested block"),
        ),
        Found::At(region) => {
            proof {
                markers::found_region_fits(
                    lines_of(contents@),
                    BEGIN_MARKER@,
                    END_MARKER@,
                    region,
                );
            }
        },
        Found::Absent => {},
    }
    Ok(HostFile { contents, lines, found })
}

/// A field of the block, where there is a block.
pub open spec fn field_in(contents: Seq<char>, prefix: Seq<char>) -> Option<Seq<char>> {
    match block_in(contents) {
        Located::At { first, last } => markers::field(lines_of(contents), first, last, prefix),
        _ => None,
    }
}

/// Every value of a repeated field of the block.
pub open spec fn fields_in(contents: Seq<char>, prefix: Seq<char>) -> Seq<Seq<char>> {
    match block_in(contents) {
        Located::At { first, last } => markers::fields(lines_of(contents), first, last, prefix),
        _ => Seq::empty(),
    }
}

pub fn read_field(file: &HostFile, prefix: &str) -> (r: Option<String>)
    requires
        file.consistent(),
    ensures
        text::option_view(r) == field_in(file.contents@, prefix@),
{
    match file.found {
        Found::At(region) => block_field(&file.lines, region, prefix),
        _ => None,
    }
}

pub fn read_fields(file: &HostFile, prefix: &str) -> (r: Vec<String>)
    requires
        file.consistent(),
    ensures
        text::texts(r@) == fields_in(file.contents@, prefix@),
{
    match file.found {
        Found::At(region) => block_fields(&file.lines, region, prefix),
        _ => text::no_texts(),
    }
}

/// The Smart Left flag of a block; a block without one has it off.
pub open spec fn smart_left_flag(value: Option<Seq<char>>) -> Result<bool, FailureModel> {
    match value {
        None => Ok(false),
        Some(t) => if t == "false"@ {
            Ok(false)
        } else if t == "true"@ {
            Ok(true)
        } else {
            Err(FailureModel::Markers("invalid Smart Left metadata "@ + text::debug_text(t)))
        },
    }
}

pub fn parse_smart_left(value: &Option<String>) -> (r: Result<bool, InstallError>)
    ensures
        failure::outcome(r) == smart_left_flag(text::option_view(*value)),
{
    match value {
        None => Ok(false),
        Some(t) => if text_equal(t, "false") {
            Ok(false)
        } else if text_equal(t, "true") {
            Ok(true)
        } else {
            let mut message = "invalid Smart Left metadata ".to_owned();
            message.append(&text::debug_quoted(t));
            Err(InstallError::Markers(message))
        },
    }
}

/// Whether the line feed before the block belongs to the block.
pub open spec fn owns_newline(contents: Seq<char>) -> bool {
    field_in(contents, LEADING_NEWLINE_FIELD@) == Some("true"@)
}

fn reads_newline(file: &HostFile) -> (r: bool)
    requires
        file.consistent(),
    ensures
        r == owns_newline(file.contents@),
{
    match read_field(file, LEADING_NEWLINE_FIELD) {
        Some(value) => text_equal(&value, "true"),
        None => false,
    }
}

/// Everything outside the block.
pub open spec fn outside(contents: Seq<char>) -> Seq<char> {
    match block_in(contents) {
        Located::At { first, last } => markers::before(lines_of(contents), first)
            + markers::after(lines_of(contents), last),
        _ => contents,
    }
}

/// Whether the configuration binds Left in the root table outside the block.
pub fn has_root_left_binding_outside_owned_block(file: &HostFile) -> (r: bool)
    requires
        file.consistent(),
    ensures
        r == syntax::text_binds_left(outside(file.contents@)),
{
    match file.found {
        Found::At(region) => {
            let rest = markers::remove_block(&file.contents, region, false);
            text_binds_root_left(&rest)
        },
        _ => text_binds_root_left(&file.contents),
    }
}

// ---------------------------------------------------------------------------
// Installing
// ---------------------------------------------------------------------------

/// The running server, and whether its root table already binds Left.
#[derive(Debug)]
pub enum ServerState {
    NotRunning,
    Running { root_left: Result<bool, String> },
}

impl ServerState {
    pub open spec fn running(&self) -> bool {
        self is Running
    }
}

/// One step of a plan, in order.
#[derive(Debug)]
pub enum StepKind {
    /// Copy the host file aside.
    Backup,
    /// Remove the live root-table binding of Left that the given program owns.
    UnbindRootLeft(UnixPath),
    /// Remove a live prefix binding.
    Unbind(String),
    /// Put the new bytes in place of the host file.
    Replace,
    /// Have the server read the host file.
    Reload,
}

/// A step, and whether the server is reloaded where the step fails, so that it
/// agrees with the host file again.
#[derive(Debug)]
pub struct PlanStep {
    pub kind: StepKind,
    pub reload_on_failure: bool,
}

#[verifier::ext_equal]
pub enum StepModel {
    Backup,
    UnbindRootLeft(Seq<u8>),
    Unbind(Seq<char>),
    Replace,
    Reload,
}

impl View for StepKind {
    type V = StepModel;

    open spec fn view(&self) -> StepModel {
        match self {
            StepKind::Backup => StepModel::Backup,
            StepKind::UnbindRootLeft(mux) => StepModel::UnbindRootLeft(mux@),
            StepKind::Unbind(key) => StepModel::Unbind(key@),
            StepKind::Replace => StepModel::Replace,
            StepKind::Reload => StepModel::Reload,
        }
    }
}

#[verifier::ext_equal]
pub struct PlanStepModel {
    pub kind: StepModel,
    pub reload_on_failure: bool,
}

impl View for PlanStep {
    type V = PlanStepModel;

    open spec fn view(&self) -> PlanStepModel {
        PlanStepModel { kind: self.kind@, reload_on_failure: self.reload_on_failure }
    }
}

pub open spec fn step_list(steps: Seq<PlanStep>) -> Seq<PlanStepModel> {
    Seq::new(steps.len(), |i: int| steps[i]@)
}

/// What a change has to do besides replacing the file.
#[verifier::ext_equal]
pub struct ChangeModel {
    pub backup: bool,
    pub unbind_left: Option<Seq<u8>>,
    pub unbind_key: Option<Seq<char>>,
    pub running: bool,
}

pub open spec fn plain_step(kind: StepModel) -> PlanStepModel {
    PlanStepModel { kind, reload_on_failure: false }
}

/// The steps of a change. The live server is told before the file is replaced;
/// where a later step fails, it is reloaded from the file as it then is.
pub open spec fn change_steps(c: ChangeModel) -> Seq<PlanStepModel> {
    let unbinds = c.unbind_left is Some || c.unbind_key is Some;
    (if c.backup {
        seq![plain_step(StepModel::Backup)]
    } else {
        Seq::empty()
    }) + (if c.running && c.unbind_left is Some {
        seq![plain_step(StepModel::UnbindRootLeft(c.unbind_left->0))]
    } else {
        Seq::empty()
    }) + (if c.running && c.unbind_key is Some {
        seq![
            PlanStepModel {
                kind: StepModel::Unbind(c.unbind_key->0),
                reload_on_failure: c.unbind_left is Some,
            },
        ]
    } else {
        Seq::empty()
    }) + seq![
        PlanStepModel { kind: StepModel::Replace, reload_on_failure: c.running && unbinds },
    ] + (if c.running {
        seq![plain_step(StepModel::Reload)]
    } else {
        Seq::empty()
    })
}

pub open spec fn is_unbind(kind: StepModel) -> bool {
    kind is UnbindRootLeft || kind is Unbind
}

/// Once something was unbound live, a step that fails is followed by a reload,
/// unless it was the reload itself.
pub proof fn unbound_keys_come_back(c: ChangeModel, i: int, j: int)
    requires
        0 <= i < j < change_steps(c).len(),
        is_unbind(change_steps(c)[i].kind),
    ensures
        change_steps(c)[j].reload_on_failure || change_steps(c)[j].kind is Reload,
{
}

/// The position of the step that replaces the file.
pub open spec fn replace_at(c: ChangeModel) -> int {
    (if c.backup {
        1int
    } else {
        0int
    }) + (if c.running && c.unbind_left is Some {
        1int
    } else {
        0int
    }) + (if c.running && c.unbind_key is Some {
        1int
    } else {
        0int
    })
}

/// The file is replaced by exactly one step, and nothing is unbound or reloaded
/// where no server runs.
pub proof fn change_replaces_once(c: ChangeModel, j: int)
    requires
        0 <= j < change_steps(c).len(),
    ensures
        change_steps(c)[j].kind is Replace <==> j == replace_at(c),
        !c.running ==> !is_unbind(change_steps(c)[j].kind) && !(change_steps(c)[j].kind is Reload),
{
}

fn push_step(steps: &mut Vec<PlanStep>, kind: StepKind, reload_on_failure: bool)
    ensures
        step_list(final(steps)@) == step_list(old(steps)@).push(
            PlanStepModel { kind: kind@, reload_on_failure },
        ),
{
    let ghost one = PlanStepModel { kind: kind@, reload_on_failure };
    steps.push(PlanStep { kind, reload_on_failure });
    assert(step_list(steps@) =~= step_list(old(steps)@).push(one));
}

fn plan_change(
    backup: bool,
    unbind_left: &Option<UnixPath>,
    unbind_key: &Option<String>,
    running: bool,
) -> (r: Vec<PlanStep>)
    ensures
        step_list(r@) == change_steps(
            ChangeModel {
                backup,
                unbind_left: domain::path_view(*unbind_left),
                unbind_key: text::option_view(*unbind_key),
                running,
            },
        ),
{
    let mut steps: Vec<PlanStep> = Vec::new();
    assert(step_list(steps@) =~= Seq::<PlanStepModel>::empty());
    if backup {
        push_step(&mut steps, StepKind::Backup, false);
    }
    if running {
        if let Some(mux) = unbind_left {
            push_step(&mut steps, StepKind::UnbindRootLeft(mux.clone()), false);
        }
        if let Some(key) = unbind_key {
            push_step(&mut steps, StepKind::Unbind(key.clone()), unbind_left.is_some());
        }
    }
    push_step(
        &mut steps,
        StepKind::Replace,
        running && (unbind_left.is_some() || unbind_key.is_some()),
    );
    if running {
        push_step(&mut steps, StepKind::Reload, false);
    }
    assert(step_list(steps@) =~= change_steps(
        ChangeModel {
            backup,
            unbind_left: domain::path_view(*unbind_left),
            unbind_key: text::option_view(*unbind_key),
            running,
        },
    ));
    steps
}

/// What an installation is to do.
#[derive(Debug)]
pub struct InstallPlan {
    /// The host file.
    pub path: UnixPath,
    /// Its permissions.
    pub mode: u32,
    /// What it is to hold.
    pub replacement: Vec<u8>,
    /// Whether that differs from what it holds.
    pub changed: bool,
    /// Whether the server is reloaded at the end.
    pub reloads: bool,
    pub steps: Vec<PlanStep>,
}

/// Whether a block newly takes over Left.
pub open spec fn takes_left(contents: Seq<char>, smart_left: bool) -> bool {
    smart_left && smart_left_flag(field_in(contents, SMART_LEFT_FIELD@)) == Ok::<
        bool,
        FailureModel,
    >(false)
}

/// Whether a block newly takes over Left in a file that can be read.
pub fn takes_over_left(bytes: &[u8], smart_left: bool) -> (r: bool)
    requires
        contents_problem(bytes@) is None,
    ensures
        r == takes_left(text::utf8_decoded(bytes@)->0, smart_left),
{
    if !smart_left {
        return false;
    }
    match locate_markers(bytes) {
        Ok(file) => match parse_smart_left(&read_field(&file, SMART_LEFT_FIELD)) {
            Ok(flag) => !flag,
            Err(_) => false,
        },
        Err(_) => false,
    }
}

/// Why the block cannot take over Left.
pub open spec fn left_problem(path: Seq<u8>, contents: Seq<char>, server: ServerState) -> Option<
    FailureModel,
> {
    if syntax::text_binds_left(outside(contents)) {
        Some(
            FailureModel::InvalidValue {
                field: "Smart Left binding"@,
                reason: "the selected tmux configuration already binds root-table Left"@,
            },
        )
    } else {
        match server {
            ServerState::NotRunning => None,
            ServerState::Running { root_left } => match root_left {
                Err(message) => Some(
                    FailureModel::ServerFailed { path, message: message@ },
                ),
                Ok(bound) => if bound {
                    Some(
                        FailureModel::InvalidValue {
                            field: "Smart Left binding"@,
                            reason: "the running tmux server already binds root-table Left"@,
                        },
                    )
                } else {
                    None
                },
            },
        }
    }
}

/// Why nothing is installed, `None` where it is.
pub open spec fn install_problem(
    path: Seq<u8>,
    facts: PathFacts,
    bytes: Seq<u8>,
    key: Seq<char>,
    smart_left: bool,
    p: PathsModel,
    server: ServerState,
) -> Option<FailureModel> {
    let contents = text::utf8_decoded(bytes)->0;
    let flag = smart_left_flag(field_in(contents, SMART_LEFT_FIELD@));
    if !is_key(key) {
        Some(key_problem())
    } else if smart_left && !plain_commands(p.pane_commands) {
        Some(command_problem())
    } else if failure::path_problem(path, facts) is Some {
        failure::path_problem(path, facts)
    } else if contents_problem(bytes) is Some {
        contents_problem(bytes)
    } else if flag is Err {
        Some(flag->Err_0)
    } else if takes_left(contents, smart_left) && left_problem(path, contents, server) is Some {
        left_problem(path, contents, server)
    } else if flag->Ok_0 && !smart_left && field_in(contents, BINARY_FIELD@) is None
        && installed_text(contents, key, smart_left, p) != contents {
        Some(FailureModel::Markers("owned block is missing its codex-mux path"@))
    } else {
        None
    }
}

/// Whether the new block brings its own line feed along: as the block that is
/// there does, or where the text does not end in one.
pub open spec fn leads_with_newline(contents: Seq<char>) -> bool {
    if block_in(contents) is At {
        owns_newline(contents)
    } else {
        markers::needs_newline(contents)
    }
}

/// The text with the block installed.
pub open spec fn installed_text(
    contents: Seq<char>,
    key: Seq<char>,
    smart_left: bool,
    p: PathsModel,
) -> Seq<char> {
    let newline = leads_with_newline(contents);
    markers::with_block(
        contents,
        block_in(contents),
        newline,
        scan::unlines(block::block_lines(key, smart_left, p, newline)),
    )
}

/// What an installation has to tell the server.
pub open spec fn install_change(
    contents: Seq<char>,
    key: Seq<char>,
    smart_left: bool,
    server: ServerState,
) -> ChangeModel {
    let was = smart_left_flag(field_in(contents, SMART_LEFT_FIELD@)) == Ok::<bool, FailureModel>(
        true,
    );
    let old_key = field_in(contents, KEY_FIELD@);
    ChangeModel {
        backup: block_in(contents) is Absent,
        unbind_left: if was && !smart_left {
            match field_in(contents, BINARY_FIELD@) {
                Some(mux) => Some(text::utf8(mux)),
                None => None,
            }
        } else {
            None
        },
        unbind_key: if old_key is Some && old_key->0 != key {
            old_key
        } else {
            None
        },
        running: server.running(),
    }
}

pub open spec fn only_reload(running: bool) -> Seq<PlanStepModel> {
    if running {
        seq![plain_step(StepModel::Reload)]
    } else {
        Seq::empty()
    }
}

/// What a plan for an accepted installation says.
pub open spec fn plans_install(
    plan: InstallPlan,
    path: Seq<u8>,
    facts: PathFacts,
    contents: Seq<char>,
    key: Seq<char>,
    smart_left: bool,
    p: PathsModel,
    server: ServerState,
) -> bool {
    let new = installed_text(contents, key, smart_left, p);
    &&& plan.path@ == path
    &&& facts == PathFacts::Regular { mode: plan.mode }
    &&& plan.replacement@ == text::utf8(new)
    &&& plan.changed == (new != contents)
    &&& plan.reloads == server.running()
    &&& step_list(plan.steps@) == if new == contents {
        only_reload(server.running())
    } else {
        change_steps(install_change(contents, key, smart_left, server))
    }
}

/// Plans an installation without Smart Left.
pub fn install(
    path: &UnixPath,
    facts: &PathFacts,
    bytes: &[u8],
    key: &str,
    executables: &ExecutablePaths,
    server: &ServerState,
) -> (r: Result<InstallPlan, InstallError>)
    requires
        block::representable(executables@),
    ensures
        match r {
            Ok(plan) => {
                &&& install_problem(
                    path@,
                    *facts,
                    bytes@,
                    key@,
                    false,
                    executables@,
                    *server,
                ) is None
                &&& plans_install(
                    plan,
                    path@,
                    *facts,
                    text::utf8_decoded(bytes@)->0,
                    key@,
                    false,
                    executables@,
                    *server,
                )
            },
            Err(e) => install_problem(
                path@,
                *facts,
                bytes@,
                key@,
                false,
                executables@,
                *server,
            ) == Some(e@),
        },
{
    install_with_options(path, facts, bytes, key, false, executables, server)
}

/// Plans an installation. `root_left` of a running server matters only where the
/// block newly takes over Left.
pub fn install_with_options(
    path: &UnixPath,
    facts: &PathFacts,
    bytes: &[u8],
    key: &str,
    smart_left: bool,
    executables: &ExecutablePaths,
    server: &ServerState,
) -> (r: Result<InstallPlan, InstallError>)
    requires
        block::representable(executables@),
    ensures
        match r {
            Ok(plan) => {
                &&& install_problem(
                    path@,
                    *facts,
                    bytes@,
                    key@,
                    smart_left,
                    executables@,
                    *server,
                ) is None
                &&& plans_install(
                    plan,
                    path@,
                    *facts,
                    text::utf8_decoded(bytes@)->0,
                    key@,
                    smart_left,
                    executables@,
                    *server,
                )
            },
            Err(e) => install_problem(
                path@,
                *facts,
                bytes@,
                key@,
                smart_left,
                executables@,
                *server,
            ) == Some(e@),
        },
{
    match validate_key(key) {
        Ok(()) => {},
        Err(e) => return Err(e),
    }
    if smart_left {
        match validate_smart_left_executable(executables) {
            Ok(()) => {},
            Err(e) => return Err(e),
        }
    }
    let mode: u32 = match validate_regular_writable(path, facts) {
        Ok(mode) => mode,
        Err(e) => return Err(e),
    };
    let file = match locate_markers(bytes) {
        Ok(file) => file,
        Err(e) => return Err(e),
    };
    let previous_key = read_field(&file, KEY_FIELD);
    let previous_mux = read_field(&file, BINARY_FIELD);
    let previous_smart_left = match parse_smart_left(&read_field(&file, SMART_LEFT_FIELD)) {
        Ok(flag) => flag,
        Err(e) => return Err(e),
    };
    if smart_left && !previous_smart_left {
        if has_root_left_binding_outside_owned_block(&file) {
            return Err(
                value_failure(
                    "Smart Left binding",
                    "the selected tmux configuration already binds root-table Left",
                ),
            );
        }
        if let ServerState::Running { root_left } = server {
            match root_left {
                Err(message) => return Err(
                    InstallError::ServerFailed { path: path.clone(), message: message.clone() },
                ),
                Ok(bound) => if *bound {
                    return Err(
                        value_failure(
                            "Smart Left binding",
                            "the running tmux server already binds root-table Left",
                        ),
                    );
                },
            }
        }
    }
    let newline = match file.found {
        Found::At(_) => reads_newline(&file),
        _ => markers::lacks_newline(&file.contents),
    };
    let body = render_block(key, smart_left, executables, newline);
    let new = replace_or_append(&file.contents, file.found, newline, &body);
    let running = match server {
        ServerState::Running { .. } => true,
        ServerState::NotRunning => false,
    };
    if text_equal(&new, &file.contents) {
        let mut steps: Vec<PlanStep> = Vec::new();
        assert(step_list(steps@) =~= Seq::<PlanStepModel>::empty());
        if running {
            push_step(&mut steps, StepKind::Reload, false);
        }
        assert(step_list(steps@) =~= only_reload(running));
        return Ok(
            InstallPlan {
                path: path.clone(),
                mode,
                replacement: bytes_of(&new),
                changed: false,
                reloads: running,
                steps,
            },
        );
    }
    let unbind_left = if previous_smart_left && !smart_left {
        match &previous_mux {
            Some(mux) => Some(UnixPath::new(mux)),
            None => return Err(
                marker_failure("owned block is missing its codex-mux path"),
            ),
        }
    } else {
        None
    };
    let unbind_key = match &previous_key {
        Some(previous) => if text_equal(previous, key) {
            None
        } else {
            Some(previous.clone())
        },
        None => None,
    };
    let backup = match file.found {
        Found::Absent => true,
        _ => false,
    };
    let steps = plan_change(backup, &unbind_left, &unbind_key, running);
    Ok(
        InstallPlan {
            path: path.clone(),
            mode,
            replacement: bytes_of(&new),
            changed: true,
            reloads: running,
            steps,
        },
    )
}

/// What an installation came to.
#[derive(Debug)]
pub struct InstallOutcome {
    pub path: UnixPath,
    /// Copy made by the first installation, if any.
    pub backup: Option<UnixPath>,
    /// Whether bytes changed.
    pub changed: bool,
    /// Whether a running server was reloaded.
    pub reloaded: bool,
}

impl InstallPlan {
    /// The outcome once every step succeeded.
    pub fn outcome(&self, backup: Option<UnixPath>) -> (r: InstallOutcome)
        ensures
            r.path@ == self.path@,
            r.backup == backup,
            r.changed == self.changed,
            r.reloaded == self.reloads,
    {
        InstallOutcome {
            path: self.path.clone(),
            backup,
            changed: self.changed,
            reloaded: self.reloads,
        }
    }
}

// ---------------------------------------------------------------------------
// Removing
// ---------------------------------------------------------------------------

/// What a removal is to do.
#[derive(Debug)]
pub struct RemovalPlan {
    pub path: UnixPath,
    pub mode: u32,
    pub replacement: Vec<u8>,
    /// Whether there is a block to remove.
    pub removes: bool,
    pub steps: Vec<PlanStep>,
}

/// Why nothing is removed, `None` where the file is left as it should be.
pub open spec fn removal_problem(path: Seq<u8>, facts: PathFacts, bytes: Seq<u8>) -> Option<
    FailureModel,
> {
    let contents = text::utf8_decoded(bytes)->0;
    let flag = smart_left_flag(field_in(contents, SMART_LEFT_FIELD@));
    if failure::path_problem(path, facts) is Some {
        failure::path_problem(path, facts)
    } else if contents_problem(bytes) is Some {
        contents_problem(bytes)
    } else if block_in(contents) is Absent {
        None
    } else if field_in(contents, KEY_FIELD@) is None {
        Some(FailureModel::Markers("owned block is missing its binding key"@))
    } else if flag is Err {
        Some(flag->Err_0)
    } else if field_in(contents, BINARY_FIELD@) is None {
        Some(FailureModel::Markers("owned block is missing its codex-mux path"@))
    } else {
        None
    }
}

/// The text with its block removed.
pub open spec fn removed_text(contents: Seq<char>) -> Seq<char> {
    match block_in(contents) {
        Located::At { first, last } => markers::without_block(
            contents,
            first,
            last,
            owns_newline(contents),
        ),
        _ => contents,
    }
}

/// What a removal has to do besides replacing the file.
pub open spec fn removal_change(contents: Seq<char>, running: bool) -> ChangeModel {
    let was = smart_left_flag(field_in(contents, SMART_LEFT_FIELD@)) == Ok::<bool, FailureModel>(
        true,
    );
    ChangeModel {
        backup: false,
        unbind_left: if was {
            Some(text::utf8(field_in(contents, BINARY_FIELD@)->0))
        } else {
            None
        },
        unbind_key: Some(field_in(contents, KEY_FIELD@)->0),
        running,
    }
}

/// The steps of a removal. The reload also follows where the replacement fails,
/// since the prefix key was unbound.
pub open spec fn removal_steps(contents: Seq<char>, running: bool) -> Seq<PlanStepModel> {
    change_steps(removal_change(contents, running))
}

/// Plans the removal of the block; every other character stays.
pub fn uninstall(path: &UnixPath, facts: &PathFacts, bytes: &[u8], running: bool) -> (r: Result<
    RemovalPlan,
    InstallError,
>)
    ensures
        match r {
            Ok(plan) => {
                let contents = text::utf8_decoded(bytes@)->0;
                &&& removal_problem(path@, *facts, bytes@) is None
                &&& plan.path@ == path@
                &&& *facts == (PathFacts::Regular { mode: plan.mode })
                &&& plan.replacement@ == text::utf8(removed_text(contents))
                &&& plan.removes == (block_in(contents) is At)
                &&& step_list(plan.steps@) == if plan.removes {
                    removal_steps(contents, running)
                } else {
                    only_reload(running)
                }
            },
            Err(e) => removal_problem(path@, *facts, bytes@) == Some(e@),
        },
{
    let mode: u32 = match validate_regular_writable(path, facts) {
        Ok(mode) => mode,
        Err(e) => return Err(e),
    };
    let file = match locate_markers(bytes) {
        Ok(file) => file,
        Err(e) => return Err(e),
    };
    let region = match file.found {
        Found::At(region) => region,
        _ => {
            let mut steps: Vec<PlanStep> = Vec::new();
            assert(step_list(steps@) =~= Seq::<PlanStepModel>::empty());
            if running {
                push_step(&mut steps, StepKind::Reload, false);
            }
            assert(step_list(steps@) =~= only_reload(running));
            return Ok(
                RemovalPlan {
                    path: path.clone(),
                    mode,
                    replacement: bytes_of(&file.contents),
                    removes: false,
                    steps,
                },
            );
        },
    };
    let key = match read_field(&file, KEY_FIELD) {
        Some(key) => key,
        None => return Err(marker_failure("owned block is missing its binding key")),
    };
    let smart_left = match parse_smart_left(&read_field(&file, SMART_LEFT_FIELD)) {
        Ok(flag) => flag,
        Err(e) => return Err(e),
    };
    let mux = match read_field(&file, BINARY_FIELD) {
        Some(mux) => mux,
        None => return Err(marker_failure("owned block is missing its codex-mux path")),
    };
    let new = markers::remove_block(&file.contents, region, reads_newline(&file));
    let unbind_left = if smart_left {
        Some(UnixPath::new(&mux))
    } else {
        None
    };
    let steps = plan_change(false, &unbind_left, &Some(key), running);
    Ok(
        RemovalPlan {
            path: path.clone(),
            mode,
            replacement: bytes_of(&new),
            removes: true,
            steps,
        },
    )
}

} // verus!
