//! How Codex is started and recognized in one invocation: the command line goes
//! before what is saved, and what is saved before what is found.

use vstd::prelude::*;
use crate::app::process_log::LoggedProcessFiles;
use crate::cli::Cli;
use crate::config;
use crate::config::{
    copy_paths, copy_texts, validate_process_settings, FileProbe, LaunchProfile, MatchScope,
    ProcessModel, ProcessSettings, ProfileModel, ThemePreference,
};
use crate::domain;
use crate::domain::CodexExecutable;
use crate::error::{command_error, invalid_value, ErrorModel, MuxError};
use crate::install::block;
use crate::install::block::{ExecutablePaths, PathsModel, ProcessMetadata};
use crate::install::discover;
use crate::install::failure;
use crate::install::failure::{FailureModel, InstallError};
use crate::path;
use crate::path::UnixPath;
use crate::text;
use crate::text::read_utf8;
use crate::tmux::inventory;
use crate::tmux::quote;
use crate::tmux::quote::shell_literal;

verus! {

// ---------------------------------------------------------------------------
// What is asked for
// ---------------------------------------------------------------------------

/// What the command line says of the processes.
#[derive(Debug)]
pub struct ProcessArguments {
    pub codex: Option<UnixPath>,
    pub launch_executable: Option<UnixPath>,
    pub match_executables: Vec<UnixPath>,
    pub pane_commands: Vec<String>,
    pub match_scope: Option<MatchScope>,
    pub match_command_regexes: Vec<String>,
    pub pane_command_regexes: Vec<String>,
}

#[verifier::ext_equal]
pub struct ArgumentsModel {
    pub codex: Option<Seq<u8>>,
    pub launch_executable: Option<Seq<u8>>,
    pub match_executables: Seq<Seq<u8>>,
    pub pane_commands: Seq<Seq<char>>,
    pub match_scope: Option<MatchScope>,
    pub match_command_regexes: Seq<Seq<char>>,
    pub pane_command_regexes: Seq<Seq<char>>,
}

impl View for ProcessArguments {
    type V = ArgumentsModel;

    open spec fn view(&self) -> ArgumentsModel {
        ArgumentsModel {
            codex: domain::path_view(self.codex),
            launch_executable: domain::path_view(self.launch_executable),
            match_executables: domain::path_list(self.match_executables@),
            pane_commands: text::texts(self.pane_commands@),
            match_scope: self.match_scope,
            match_command_regexes: text::texts(self.match_command_regexes@),
            pane_command_regexes: text::texts(self.pane_command_regexes@),
        }
    }
}

fn copy_path(p: &Option<UnixPath>) -> (r: Option<UnixPath>)
    ensures
        domain::path_view(r) == domain::path_view(*p),
{
    match p {
        Some(v) => Some(v.clone()),
        None => None,
    }
}

/// Takes from the command line what concerns the processes.
pub fn process_arguments(cli: &Cli) -> (r: ProcessArguments)
    ensures
        r@ == (ArgumentsModel {
            codex: domain::path_view(cli.codex),
            launch_executable: domain::path_view(cli.launch_executable),
            match_executables: domain::path_list(cli.match_executable@),
            pane_commands: text::texts(cli.pane_command@),
            match_scope: cli.match_scope,
            match_command_regexes: text::texts(cli.match_command_regex@),
            pane_command_regexes: text::texts(cli.pane_command_regex@),
        }),
{
    ProcessArguments {
        codex: copy_path(&cli.codex),
        launch_executable: copy_path(&cli.launch_executable),
        match_executables: copy_paths(&cli.match_executable),
        pane_commands: copy_texts(&cli.pane_command),
        match_scope: cli.match_scope,
        match_command_regexes: copy_texts(&cli.match_command_regex),
        pane_command_regexes: copy_texts(&cli.pane_command_regex),
    }
}

/// Whether what is saved has a say: the command line leaves something open.
pub open spec fn preference_counts(a: ArgumentsModel) -> bool {
    a.codex is None && !(a.launch_executable is Some && a.match_executables.len() > 0 && (
    a.pane_commands.len() > 0 || a.pane_command_regexes.len() > 0))
}

pub fn process_preference_required(arguments: &ProcessArguments) -> (r: bool)
    ensures
        r == preference_counts(arguments@),
{
    assert(arguments@.match_executables.len() == arguments.match_executables.len());
    assert(arguments@.pane_commands.len() == arguments.pane_commands.len());
    assert(arguments@.pane_command_regexes.len() == arguments.pane_command_regexes.len());
    arguments.codex.is_none() && !(arguments.launch_executable.is_some()
        && arguments.match_executables.len() > 0 && (arguments.pane_commands.len() > 0
        || arguments.pane_command_regexes.len() > 0))
}

/// Whether setup saves the resolved values: one of them was given explicitly.
pub open spec fn is_persistent(a: ArgumentsModel) -> bool {
    ||| a.launch_executable is Some
    ||| a.match_executables.len() > 0
    ||| a.pane_commands.len() > 0
    ||| a.match_scope is Some
    ||| a.match_command_regexes.len() > 0
    ||| a.pane_command_regexes.len() > 0
}

pub fn persists_process(arguments: &ProcessArguments) -> (r: bool)
    ensures
        r == is_persistent(arguments@),
{
    assert(arguments@.match_executables.len() == arguments.match_executables.len());
    assert(arguments@.pane_commands.len() == arguments.pane_commands.len());
    assert(arguments@.match_command_regexes.len() == arguments.match_command_regexes.len());
    assert(arguments@.pane_command_regexes.len() == arguments.pane_command_regexes.len());
    arguments.launch_executable.is_some() || arguments.match_executables.len() > 0
        || arguments.pane_commands.len() > 0 || arguments.match_scope.is_some()
        || arguments.match_command_regexes.len() > 0 || arguments.pane_command_regexes.len() > 0
}

// ---------------------------------------------------------------------------
// What is chosen
// ---------------------------------------------------------------------------

/// The pane command that an executable shows: its file name.
pub open spec fn pane_command(p: Seq<u8>) -> Result<Seq<char>, ErrorModel> {
    let name = match path::file_name(p) {
        Some(bytes) => text::utf8_decoded(bytes),
        None => None,
    };
    if name is Some && name->0.len() > 0 {
        Ok(name->0)
    } else {
        Err(
            ErrorModel::InvalidValue {
                field: "Codex executable"@,
                message: "must have a UTF-8 file name"@,
            },
        )
    }
}

pub open spec fn text_outcome(r: Result<String, MuxError>) -> Result<Seq<char>, ErrorModel> {
    match r {
        Ok(t) => Ok(t@),
        Err(e) => Err(e@),
    }
}

pub fn legacy_pane_command(p: &UnixPath) -> (r: Result<String, MuxError>)
    ensures
        text_outcome(r) == pane_command(p@),
{
    if let Some(bytes) = p.file_name() {
        if let Some(name) = read_utf8(&bytes) {
            if !name.as_str().is_empty() {
                return Ok(name);
            }
        }
    }
    Err(invalid_value("Codex executable", "must have a UTF-8 file name"))
}

/// Nothing names an executable to launch, so one has to be found.
pub open spec fn discovers(a: ArgumentsModel, stored: Option<ProcessModel>) -> bool {
    a.codex is None && a.launch_executable is None && stored is None
}

pub open spec fn chosen_launch(
    a: ArgumentsModel,
    stored: Option<ProcessModel>,
    found: Result<Seq<u8>, ErrorModel>,
) -> Result<Seq<u8>, ErrorModel> {
    if a.codex is Some {
        Ok(a.codex->0)
    } else if a.launch_executable is Some {
        Ok(a.launch_executable->0)
    } else if stored is Some {
        Ok(stored->0.launch_executable)
    } else {
        found
    }
}

/// Values of the command line, else saved ones, else others.
pub open spec fn listed<T>(given: Seq<T>, stored: Option<Seq<T>>, otherwise: Seq<T>) -> Seq<T> {
    if given.len() > 0 {
        given
    } else if stored is Some {
        stored->0
    } else {
        otherwise
    }
}

/// The settings for one executable alone.
pub open spec fn sole_settings(p: Seq<u8>, command: Seq<char>) -> ProcessModel {
    ProcessModel {
        launch_executable: p,
        match_executables: seq![p],
        pane_commands: seq![command],
        match_scope: MatchScope::Foreground,
        match_command_regexes: Seq::empty(),
        pane_command_regexes: Seq::empty(),
    }
}

/// The settings of this invocation before they are checked.
pub open spec fn chosen(
    a: ArgumentsModel,
    stored: Option<ProcessModel>,
    found: Result<Seq<u8>, ErrorModel>,
) -> Result<ProcessModel, ErrorModel> {
    match chosen_launch(a, stored, found) {
        Err(e) => Err(e),
        Ok(launch) => if a.codex is Some {
            match pane_command(launch) {
                Err(e) => Err(e),
                Ok(command) => Ok(sole_settings(launch, command)),
            }
        } else if a.pane_commands.len() == 0 && stored is None && pane_command(launch) is Err {
            Err(pane_command(launch)->Err_0)
        } else {
            Ok(
                ProcessModel {
                    launch_executable: launch,
                    match_executables: listed(
                        a.match_executables,
                        match stored {
                            Some(s) => Some(s.match_executables),
                            None => None,
                        },
                        seq![launch],
                    ),
                    pane_commands: listed(
                        a.pane_commands,
                        match stored {
                            Some(s) => Some(s.pane_commands),
                            None => None,
                        },
                        seq![pane_command(launch)->Ok_0],
                    ),
                    match_scope: match a.match_scope {
                        Some(scope) => scope,
                        None => match stored {
                            Some(s) => s.match_scope,
                            None => MatchScope::Foreground,
                        },
                    },
                    match_command_regexes: listed(
                        a.match_command_regexes,
                        match stored {
                            Some(s) => Some(s.match_command_regexes),
                            None => None,
                        },
                        Seq::empty(),
                    ),
                    pane_command_regexes: listed(
                        a.pane_command_regexes,
                        match stored {
                            Some(s) => Some(s.pane_command_regexes),
                            None => None,
                        },
                        Seq::empty(),
                    ),
                },
            )
        },
    }
}

pub open spec fn settings_outcome(r: Result<ProcessSettings, MuxError>) -> Result<
    ProcessModel,
    ErrorModel,
> {
    match r {
        Ok(s) => Ok(s@),
        Err(e) => Err(e@),
    }
}

pub open spec fn path_outcome(r: Result<UnixPath, MuxError>) -> Result<Seq<u8>, ErrorModel> {
    match r {
        Ok(p) => Ok(p@),
        Err(e) => Err(e@),
    }
}

fn sole(p: &UnixPath, command: String) -> (r: ProcessSettings)
    ensures
        r@ == sole_settings(p@, command@),
{
    let mut match_executables: Vec<UnixPath> = Vec::new();
    match_executables.push(p.clone());
    let mut pane_commands = text::no_texts();
    text::push_text(&mut pane_commands, command);
    let r = ProcessSettings {
        launch_executable: p.clone(),
        match_executables,
        pane_commands,
        match_scope: MatchScope::Foreground,
        match_command_regexes: text::no_texts(),
        pane_command_regexes: text::no_texts(),
    };
    assert(r@ =~= sole_settings(p@, command@));
    r
}

fn one_path(p: &UnixPath) -> (r: Vec<UnixPath>)
    ensures
        domain::path_list(r@) == seq![p@],
{
    let mut r: Vec<UnixPath> = Vec::new();
    r.push(p.clone());
    assert(domain::path_list(r@) =~= seq![p@]);
    r
}

fn listed_texts(given: &Vec<String>, stored: Option<&Vec<String>>) -> (r: Vec<String>)
    ensures
        text::texts(r@) == listed(
            text::texts(given@),
            match stored {
                Some(s) => Some(text::texts(s@)),
                None => None,
            },
            Seq::empty(),
        ),
{
    assert(text::texts(given@).len() == given.len());
    if given.len() > 0 {
        copy_texts(given)
    } else {
        match stored {
            Some(s) => copy_texts(s),
            None => text::no_texts(),
        }
    }
}

/// Chooses the settings of this invocation, given the executable that the launch
/// path falls back to.
pub fn choose_settings(
    arguments: &ProcessArguments,
    stored: &Option<ProcessSettings>,
    found: Result<UnixPath, MuxError>,
) -> (r: Result<ProcessSettings, MuxError>)
    ensures
        settings_outcome(r) == chosen(
            arguments@,
            config::process_view(*stored),
            path_outcome(found),
        ),
{
    let ghost a = arguments@;
    assert(a.match_executables.len() == arguments.match_executables.len());
    assert(a.pane_commands.len() == arguments.pane_commands.len());
    if let Some(p) = &arguments.codex {
        return match legacy_pane_command(p) {
            Ok(command) => Ok(sole(p, command)),
            Err(e) => Err(e),
        };
    }
    let launch = match &arguments.launch_executable {
        Some(p) => p.clone(),
        None => match stored {
            Some(s) => s.launch_executable.clone(),
            None => match found {
                Ok(p) => p,
                Err(e) => return Err(e),
            },
        },
    };
    let match_executables = if arguments.match_executables.len() > 0 {
        copy_paths(&arguments.match_executables)
    } else {
        match stored {
            Some(s) => copy_paths(&s.match_executables),
            None => one_path(&launch),
        }
    };
    let pane_commands = if arguments.pane_commands.len() > 0 {
        copy_texts(&arguments.pane_commands)
    } else {
        match stored {
            Some(s) => copy_texts(&s.pane_commands),
            None => match legacy_pane_command(&launch) {
                Ok(command) => {
                    let mut commands = text::no_texts();
                    text::push_text(&mut commands, command);
                    assert(text::texts(commands@) =~= seq![command@]);
                    commands
                },
                Err(e) => return Err(e),
            },
        }
    };
    let match_scope = match arguments.match_scope {
        Some(scope) => scope,
        None => match stored {
            Some(s) => s.match_scope,
            None => MatchScope::Foreground,
        },
    };
    let match_command_regexes = listed_texts(
        &arguments.match_command_regexes,
        match stored {
            Some(s) => Some(&s.match_command_regexes),
            None => None,
        },
    );
    let pane_command_regexes = listed_texts(
        &arguments.pane_command_regexes,
        match stored {
            Some(s) => Some(&s.pane_command_regexes),
            None => None,
        },
    );
    Ok(
        ProcessSettings {
            launch_executable: launch,
            match_executables,
            pane_commands,
            match_scope,
            match_command_regexes,
            pane_command_regexes,
        },
    )
}

/// Explicit values go before saved ones, and the one-option form before both:
/// with it nothing that is saved has any effect.
pub proof fn the_shorthand_stands_alone(
    a: ArgumentsModel,
    stored: Option<ProcessModel>,
    found: Result<Seq<u8>, ErrorModel>,
)
    requires
        a.codex is Some,
    ensures
        !preference_counts(a),
        chosen(a, stored, found) == chosen(
            ArgumentsModel {
                launch_executable: None,
                match_executables: Seq::empty(),
                pane_commands: Seq::empty(),
                match_scope: None,
                match_command_regexes: Seq::empty(),
                pane_command_regexes: Seq::empty(),
                ..a
            },
            None,
            found,
        ),
{
}

// ---------------------------------------------------------------------------
// The files behind the paths
// ---------------------------------------------------------------------------

/// The file system as far as it decides whether settings can be used.
pub trait ProcessFiles {
    /// Looks for Codex on the search path.
    fn discover_codex(&mut self) -> Result<UnixPath, MuxError>;

    /// Looks at what a path names.
    fn probe(&mut self, location: &UnixPath) -> FileProbe;
}

/// A question to the file system.
#[verifier::ext_equal]
pub enum Ask {
    Discover,
    Probe(Seq<u8>),
}

/// A question with its answer.
pub enum Look {
    Discovered(Result<Seq<u8>, ErrorModel>),
    Probed { path: Seq<u8>, probe: FileProbe },
}

pub open spec fn ask_of(look: Look) -> Ask {
    match look {
        Look::Discovered(_) => Ask::Discover,
        Look::Probed { path, .. } => Ask::Probe(path),
    }
}

pub open spec fn asks_of(looks: Seq<Look>) -> Seq<Ask> {
    Seq::new(looks.len(), |i: int| ask_of(looks[i]))
}

/// What was added to a record.
pub open spec fn since<T>(before: Seq<T>, after: Seq<T>) -> Seq<T> {
    after.skip(before.len() as int)
}

// ---------------------------------------------------------------------------
// What is used
// ---------------------------------------------------------------------------

/// Checked settings, with the executables of every profile recognized as well.
#[derive(Clone, Debug)]
pub struct ResolvedProcessConfig {
    pub launch: CodexExecutable,
    pub matches: Vec<CodexExecutable>,
    pub pane_commands: Vec<String>,
    pub match_scope: MatchScope,
    pub match_command_regexes: Vec<String>,
    pub pane_command_regexes: Vec<String>,
    /// Whether one option gave everything.
    pub legacy_shorthand: bool,
}

/// What resolved settings say.
#[verifier::ext_equal]
pub struct ResolvedModel {
    pub settings: ProcessModel,
    pub legacy_shorthand: bool,
}

impl View for ResolvedProcessConfig {
    type V = ResolvedModel;

    open spec fn view(&self) -> ResolvedModel {
        ResolvedModel {
            settings: ProcessModel {
                launch_executable: self.launch@,
                match_executables: inventory::executable_list(self.matches@),
                pane_commands: text::texts(self.pane_commands@),
                match_scope: self.match_scope,
                match_command_regexes: text::texts(self.match_command_regexes@),
                pane_command_regexes: text::texts(self.pane_command_regexes@),
            },
            legacy_shorthand: self.legacy_shorthand,
        }
    }
}

pub open spec fn resolved_outcome(r: Result<ResolvedProcessConfig, MuxError>) -> Result<
    ResolvedModel,
    ErrorModel,
> {
    match r {
        Ok(p) => Ok(p@),
        Err(e) => Err(e@),
    }
}

pub open spec fn executables_outcome(r: Result<Vec<CodexExecutable>, MuxError>) -> Result<
    Seq<Seq<u8>>,
    ErrorModel,
> {
    match r {
        Ok(v) => Ok(inventory::executable_list(v@)),
        Err(e) => Err(e@),
    }
}

fn holds_executable(list: &Vec<CodexExecutable>, p: &UnixPath) -> (r: bool)
    ensures
        r == (exists|i: int|
            0 <= i < inventory::executable_list(list@).len() && path::same_path(
                #[trigger] inventory::executable_list(list@)[i],
                p@,
            )),
{
    let ghost all = inventory::executable_list(list@);
    let mut i: usize = 0;
    while i < list.len()
        invariant
            i <= list.len(),
            forall|j: int| 0 <= j < i ==> !path::same_path(#[trigger] all[j], p@),
        decreases list.len() - i,
    {
        assert(all[i as int] == list@[i as int]@);
        if list[i].as_path().same_as(p) {
            return true;
        }
        i += 1;
    }
    false
}

/// Puts an executable behind the others, unless it is one of them.
fn add_executable(list: &mut Vec<CodexExecutable>, executable: CodexExecutable)
    ensures
        inventory::executable_list(final(list)@) == discover::with_path(
            inventory::executable_list(old(list)@),
            executable@,
        ),
{
    let ghost before = inventory::executable_list(list@);
    if !holds_executable(list, executable.as_path()) {
        list.push(executable);
        assert(inventory::executable_list(list@) =~= before.push(executable@));
    }
}

/// What following the questions and answers gives.
pub struct Followed<T> {
    pub result: Result<T, ErrorModel>,
    pub asked: Seq<Ask>,
}

pub open spec fn probe_at(seen: Seq<Look>, i: int) -> FileProbe {
    seen[i]->probe
}

pub open spec fn probes_in(seen: Seq<Look>, from: int, n: nat) -> Seq<FileProbe> {
    Seq::new(n, |i: int| probe_at(seen, from + i))
}

/// The executables of the profiles from `k` on are checked one after the other
/// and join the recognized ones.
pub open spec fn profiles_followed(
    profiles: Seq<ProfileModel>,
    k: int,
    matches: Seq<Seq<u8>>,
    seen: Seq<Look>,
) -> Followed<Seq<Seq<u8>>>
    decreases profiles.len() - k,
{
    if k < 0 || k >= profiles.len() {
        Followed { result: Ok(matches), asked: Seq::empty() }
    } else {
        match profiles[k].executable {
            None => profiles_followed(profiles, k + 1, matches, seen),
            Some(p) => match pane_command(p) {
                Err(e) => Followed { result: Err(e), asked: Seq::empty() },
                Ok(command) => {
                    let asked = seq![Ask::Probe(p), Ask::Probe(p)];
                    match config::process_problem(
                        sole_settings(p, command),
                        probe_at(seen, 0),
                        probes_in(seen, 1, 1),
                    ) {
                        Some(e) => Followed { result: Err(e), asked },
                        None => {
                            let rest = profiles_followed(
                                profiles,
                                k + 1,
                                discover::with_path(matches, p),
                                seen.skip(2),
                            );
                            Followed { result: rest.result, asked: asked + rest.asked }
                        },
                    }
                },
            },
        }
    }
}

pub open spec fn probe_asks(paths: Seq<Seq<u8>>) -> Seq<Ask> {
    Seq::new(paths.len(), |i: int| Ask::Probe(paths[i]))
}

/// The settings of this invocation, checked, with the executables of the
/// profiles; `seen` holds the answers of the file system.
pub open spec fn resolution(
    a: ArgumentsModel,
    stored: Option<ProcessModel>,
    profiles: Seq<ProfileModel>,
    seen: Seq<Look>,
) -> Followed<ResolvedModel> {
    let first = if discovers(a, stored) {
        seq![Ask::Discover]
    } else {
        Seq::empty()
    };
    let found = match seen[0] {
        Look::Discovered(found) => found,
        _ => Err(ErrorModel::Cancelled),
    };
    match chosen(a, stored, found) {
        Err(e) => Followed { result: Err(e), asked: first },
        Ok(settings) => {
            let n = settings.match_executables.len();
            let looks = seen.skip(first.len() as int);
            let asked = first + seq![Ask::Probe(settings.launch_executable)] + probe_asks(
                settings.match_executables,
            );
            match config::process_problem(settings, probe_at(looks, 0), probes_in(looks, 1, n)) {
                Some(e) => Followed { result: Err(e), asked },
                None => {
                    let rest = profiles_followed(
                        profiles,
                        0,
                        settings.match_executables,
                        looks.skip(1 + n as int),
                    );
                    Followed {
                        result: match rest.result {
                            Err(e) => Err(e),
                            Ok(matches) => Ok(
                                ResolvedModel {
                                    settings: ProcessModel {
                                        match_executables: matches,
                                        ..settings
                                    },
                                    legacy_shorthand: a.codex is Some,
                                },
                            ),
                        },
                        asked: asked + rest.asked,
                    }
                },
            }
        },
    }
}

fn probe_all<F: ProcessFiles>(paths: &Vec<UnixPath>, files: &mut LoggedProcessFiles<F>) -> (r: Vec<
    FileProbe,
>)
    ensures
        old(files).looks().is_prefix_of(final(files).looks()),
        since(old(files).looks(), final(files).looks()).len() == paths.len(),
        asks_of(since(old(files).looks(), final(files).looks())) == probe_asks(
            domain::path_list(paths@),
        ),
        r@ == probes_in(since(old(files).looks(), final(files).looks()), 0, paths@.len()),
{
    let ghost before = files.looks();
    let mut r: Vec<FileProbe> = Vec::new();
    let mut i: usize = 0;
    assert(since(before, before) =~= Seq::empty());
    while i < paths.len()
        invariant
            i <= paths.len(),
            before.is_prefix_of(files.looks()),
            since(before, files.looks()).len() == i,
            r@ =~= probes_in(since(before, files.looks()), 0, i as nat),
            forall|j: int|
                0 <= j < i ==> ask_of(#[trigger] since(before, files.looks())[j]) == Ask::Probe(
                    paths@[j]@,
                ),
        decreases paths.len() - i,
    {
        let ghost held = since(before, files.looks());
        let probe = files.probe(&paths[i]);
        assert(since(before, files.looks()) =~= held.push(
            Look::Probed { path: paths@[i as int]@, probe },
        ));
        r.push(probe);
        i += 1;
    }
    proof {
        let looks = since(before, files.looks());
        assert(asks_of(looks) =~= probe_asks(domain::path_list(paths@)));
    }
    r
}

proof fn joined_looks(a: Seq<Look>, b: Seq<Look>, c: Seq<Look>)
    requires
        a.is_prefix_of(b),
        b.is_prefix_of(c),
    ensures
        a.is_prefix_of(c),
        since(a, c) == since(a, b) + since(b, c),
        asks_of(since(a, c)) == asks_of(since(a, b)) + asks_of(since(b, c)),
        since(a, c).skip(since(a, b).len() as int) == since(b, c),
{
    assert(since(a, c) =~= since(a, b) + since(b, c));
    assert(asks_of(since(a, c)) =~= asks_of(since(a, b)) + asks_of(since(b, c)));
    assert(since(a, c).skip(since(a, b).len() as int) =~= since(b, c));
}

/// Follows the profiles from `k` on.
fn follow_profiles<F: ProcessFiles>(
    profiles: &Vec<LaunchProfile>,
    k: usize,
    matches: Vec<CodexExecutable>,
    files: &mut LoggedProcessFiles<F>,
) -> (r: Result<Vec<CodexExecutable>, MuxError>)
    requires
        k <= profiles.len(),
    ensures
        old(files).looks().is_prefix_of(final(files).looks()),
        ({
            let followed = profiles_followed(
                config::profile_list(profiles@),
                k as int,
                inventory::executable_list(matches@),
                since(old(files).looks(), final(files).looks()),
            );
            &&& followed.result == executables_outcome(r)
            &&& followed.asked == asks_of(since(old(files).looks(), final(files).looks()))
        }),
    decreases profiles.len() - k,
{
    let ghost before = files.looks();
    let ghost all = config::profile_list(profiles@);
    assert(asks_of(since(before, before)) =~= Seq::empty());
    if k == profiles.len() {
        return Ok(matches);
    }
    assert(all[k as int] == profiles@[k as int]@);
    let location = match &profiles[k].executable {
        None => return follow_profiles(profiles, k + 1, matches, files),
        Some(p) => p,
    };
    let command = match legacy_pane_command(location) {
        Ok(command) => command,
        Err(e) => return Err(e),
    };
    let settings = sole(location, command);
    let launch_probe = files.probe(location);
    let ghost first = files.looks();
    let second_probe = files.probe(location);
    let ghost second = files.looks();
    let mut match_probes: Vec<FileProbe> = Vec::new();
    match_probes.push(second_probe);
    let checked = validate_process_settings(&settings, &launch_probe, &match_probes);
    proof {
        let two = since(before, second);
        assert(two =~= seq![
            Look::Probed { path: location@, probe: launch_probe },
            Look::Probed { path: location@, probe: second_probe },
        ]);
        assert(asks_of(two) =~= seq![Ask::Probe(location@), Ask::Probe(location@)]);
        assert(match_probes@ =~= probes_in(two, 1, 1));
    }
    match checked {
        Ok(()) => {},
        Err(e) => return Err(e),
    }
    let executable = match CodexExecutable::new(location.clone()) {
        Ok(executable) => executable,
        Err(e) => {
            assert(false);
            return Err(e);
        },
    };
    let mut matches = matches;
    add_executable(&mut matches, executable);
    let r = follow_profiles(profiles, k + 1, matches, files);
    proof {
        let end = files.looks();
        joined_looks(before, second, end);
        let looks = since(before, end);
        assert(looks.skip(2) =~= since(second, end));
        assert(probes_in(looks, 1, 1) =~= match_probes@);
    }
    r
}

fn executables_from(paths: &Vec<UnixPath>) -> (r: Vec<CodexExecutable>)
    requires
        forall|i: int| 0 <= i < paths.len() ==> path::is_absolute((#[trigger] paths@[i])@),
    ensures
        inventory::executable_list(r@) == domain::path_list(paths@),
{
    let mut r: Vec<CodexExecutable> = Vec::new();
    let mut i: usize = 0;
    while i < paths.len()
        invariant
            i <= paths.len(),
            r.len() == i,
            forall|j: int| 0 <= j < i ==> (#[trigger] r@[j])@ == paths@[j]@,
        decreases paths.len() - i,
    {
        match CodexExecutable::new(paths[i].clone()) {
            Ok(executable) => {
                r.push(executable);
            },
            Err(_) => {
                assert(false);
            },
        }
        i += 1;
    }
    assert(inventory::executable_list(r@) =~= domain::path_list(paths@));
    r
}

/// Accepted settings have absolute paths throughout.
pub proof fn accepted_paths_are_absolute(
    settings: ProcessModel,
    launch: FileProbe,
    matches: Seq<FileProbe>,
)
    requires
        config::process_problem(settings, launch, matches) is None,
    ensures
        path::is_absolute(settings.launch_executable),
        forall|i: int|
            0 <= i < settings.match_executables.len() ==> path::is_absolute(
                #[trigger] settings.match_executables[i],
            ),
{
    let problems = |i: int|
        config::executable_problem(
            settings.match_executables[i],
            matches[i],
            "process match executable"@,
        );
    config::no_problem_iff(problems, settings.match_executables.len());
    assert forall|i: int| 0 <= i < settings.match_executables.len() implies path::is_absolute(
        #[trigger] settings.match_executables[i],
    ) by {
        assert(problems(i) is None);
    }
}

/// Resolves the settings of this invocation. The preference counts only where
/// one is given.
pub fn resolve_process<F: ProcessFiles>(
    arguments: &ProcessArguments,
    preference: Option<&ThemePreference>,
    files: &mut LoggedProcessFiles<F>,
) -> (r: Result<ResolvedProcessConfig, MuxError>)
    ensures
        old(files).looks().is_prefix_of(final(files).looks()),
        ({
            let seen = since(old(files).looks(), final(files).looks());
            let followed = resolution(
                arguments@,
                match preference {
                    Some(p) => config::process_view(p.process),
                    None => None,
                },
                match preference {
                    Some(p) => config::profile_list(p.profiles@),
                    None => Seq::empty(),
                },
                seen,
            );
            &&& followed.result == resolved_outcome(r)
            &&& followed.asked == asks_of(seen)
        }),
{
    let ghost before = files.looks();
    let nothing: Option<ProcessSettings> = None;
    let stored = match preference {
        Some(p) => &p.process,
        None => &nothing,
    };
    let none: Vec<LaunchProfile> = Vec::new();
    let profiles = match preference {
        Some(p) => &p.profiles,
        None => &none,
    };
    assert(config::profile_list(none@) =~= Seq::empty());
    let needs_one = arguments.codex.is_none() && arguments.launch_executable.is_none()
        && stored.is_none();
    let found = if needs_one {
        files.discover_codex()
    } else {
        Err(MuxError::Cancelled)
    };
    let ghost start = files.looks();
    let ghost first: Seq<Ask> = if needs_one {
        seq![Ask::Discover]
    } else {
        Seq::empty()
    };
    proof {
        assert(since(before, start).len() == first.len());
        assert(asks_of(since(before, start)) =~= first);
        if needs_one {
            assert(since(before, start)[0] == start.last());
        }
    }
    let settings = match choose_settings(arguments, stored, found) {
        Ok(settings) => settings,
        Err(e) => return Err(e),
    };
    let launch_probe = files.probe(&settings.launch_executable);
    let ghost launched = files.looks();
    let match_probes = probe_all(&settings.match_executables, files);
    let ghost probed = files.looks();
    let ghost n = settings@.match_executables.len();
    proof {
        joined_looks(before, start, launched);
        joined_looks(before, launched, probed);
        joined_looks(start, launched, probed);
        let looks = since(start, probed);
        assert(asks_of(since(start, launched)) =~= seq![
            Ask::Probe(settings.launch_executable@),
        ]);
        assert(probe_at(looks, 0) == launch_probe);
        assert(probes_in(looks, 1, n) =~= match_probes@);
        assert(asks_of(since(before, probed)) =~= first + seq![
            Ask::Probe(settings@.launch_executable),
        ] + probe_asks(settings@.match_executables));
    }
    match validate_process_settings(&settings, &launch_probe, &match_probes) {
        Ok(()) => {},
        Err(e) => {
            proof {
                assert(since(before, probed).skip(first.len() as int) =~= since(start, probed));
                if needs_one {
                    assert(since(before, probed)[0] == start.last());
                }
            }
            return Err(e);
        },
    }
    proof {
        accepted_paths_are_absolute(settings@, launch_probe, match_probes@);
        assert forall|i: int| 0 <= i < settings.match_executables.len() implies path::is_absolute(
            (#[trigger] settings.match_executables@[i])@,
        ) by {
            assert(settings@.match_executables[i] == settings.match_executables@[i]@);
        }
    }
    let listed_matches = executables_from(&settings.match_executables);
    let followed = follow_profiles(profiles, 0, listed_matches, files);
    proof {
        let end = files.looks();
        joined_looks(before, probed, end);
        joined_looks(start, probed, end);
        joined_looks(before, start, end);
        let seen = since(before, end);
        let looks = seen.skip(first.len() as int);
        assert(looks =~= since(start, end));
        assert(looks.skip(1 + n as int) =~= since(probed, end));
        assert(probe_at(looks, 0) == launch_probe);
        assert(probes_in(looks, 1, n) =~= match_probes@);
        if needs_one {
            assert(seen[0] == start.last());
        }
    }
    let matches = match followed {
        Ok(matches) => matches,
        Err(e) => return Err(e),
    };
    let launch = match CodexExecutable::new(settings.launch_executable) {
        Ok(launch) => launch,
        Err(e) => {
            assert(false);
            return Err(e);
        },
    };
    Ok(
        ResolvedProcessConfig {
            launch,
            matches,
            pane_commands: settings.pane_commands,
            match_scope: settings.match_scope,
            match_command_regexes: settings.match_command_regexes,
            pane_command_regexes: settings.pane_command_regexes,
            legacy_shorthand: arguments.codex.is_some(),
        },
    )
}

// ---------------------------------------------------------------------------
// The executables of the profiles
// ---------------------------------------------------------------------------

/// The executables with those of the profiles from `k` on.
pub open spec fn with_profile_executables(
    list: Seq<Seq<u8>>,
    profiles: Seq<ProfileModel>,
    k: int,
) -> Result<Seq<Seq<u8>>, ErrorModel>
    decreases profiles.len() - k,
{
    if k < 0 || k >= profiles.len() {
        Ok(list)
    } else {
        match profiles[k].executable {
            None => with_profile_executables(list, profiles, k + 1),
            Some(p) => if !path::is_absolute(p) {
                Err(
                    ErrorModel::InvalidValue {
                        field: "Codex executable"@,
                        message: "must be an absolute path"@,
                    },
                )
            } else {
                with_profile_executables(discover::with_path(list, p), profiles, k + 1)
            },
        }
    }
}

/// The executables that discovery recognizes: the given ones and those of the
/// profiles, each once.
pub fn configured_codex_executables(
    executables: Vec<CodexExecutable>,
    profiles: &Vec<LaunchProfile>,
) -> (r: Result<Vec<CodexExecutable>, MuxError>)
    ensures
        executables_outcome(r) == with_profile_executables(
            inventory::executable_list(executables@),
            config::profile_list(profiles@),
            0,
        ),
{
    let ghost all = config::profile_list(profiles@);
    let ghost given = inventory::executable_list(executables@);
    let mut list = executables;
    let mut k: usize = 0;
    while k < profiles.len()
        invariant
            k <= profiles.len(),
            with_profile_executables(given, all, 0) == with_profile_executables(
                inventory::executable_list(list@),
                all,
                k as int,
            ),
        decreases profiles.len() - k,
    {
        assert(all[k as int] == profiles@[k as int]@);
        if let Some(location) = &profiles[k].executable {
            match CodexExecutable::new(location.clone()) {
                Ok(executable) => {
                    add_executable(&mut list, executable);
                },
                Err(e) => return Err(e),
            }
        }
        k += 1;
    }
    Ok(list)
}

/// A path stands in a list of paths.
pub open spec fn stands_in(list: Seq<Seq<u8>>, p: Seq<u8>) -> bool {
    exists|i: int| 0 <= i < list.len() && path::same_path(#[trigger] list[i], p)
}

proof fn with_path_keeps(list: Seq<Seq<u8>>, p: Seq<u8>, q: Seq<u8>)
    ensures
        stands_in(discover::with_path(list, p), p),
        stands_in(list, q) ==> stands_in(discover::with_path(list, p), q),
{
    path::same_path_is_equivalence(p, p, p);
    let longer = discover::with_path(list, p);
    if stands_in(list, p) {
        assert(longer == list);
    } else {
        assert(longer == list.push(p));
        assert(longer[list.len() as int] == p);
    }
    if stands_in(list, q) {
        let i = choose|i: int| 0 <= i < list.len() && path::same_path(#[trigger] list[i], q);
        assert(longer[i] == list[i]);
    }
}

proof fn profiles_keep(list: Seq<Seq<u8>>, profiles: Seq<ProfileModel>, k: int, q: Seq<u8>)
    requires
        with_profile_executables(list, profiles, k) is Ok,
        stands_in(list, q),
    ensures
        stands_in(with_profile_executables(list, profiles, k)->Ok_0, q),
    decreases profiles.len() - k,
{
    if 0 <= k < profiles.len() {
        match profiles[k].executable {
            None => profiles_keep(list, profiles, k + 1, q),
            Some(p) => {
                with_path_keeps(list, p, q);
                profiles_keep(discover::with_path(list, p), profiles, k + 1, q);
            },
        }
    }
}

/// Discovery recognizes every given executable and every executable of a
/// profile.
pub proof fn profile_executables_are_recognized(
    list: Seq<Seq<u8>>,
    profiles: Seq<ProfileModel>,
    k: int,
    q: Seq<u8>,
)
    requires
        0 <= k,
        with_profile_executables(list, profiles, k) is Ok,
        stands_in(list, q) || exists|j: int|
            k <= j < profiles.len() && #[trigger] profiles[j].executable == Some(q),
    ensures
        stands_in(with_profile_executables(list, profiles, k)->Ok_0, q),
    decreases profiles.len() - k,
{
    if stands_in(list, q) {
        profiles_keep(list, profiles, k, q);
    } else {
        let j = choose|j: int|
            k <= j < profiles.len() && #[trigger] profiles[j].executable == Some(q);
        match profiles[k].executable {
            None => {
                assert(profiles[j].executable == Some(q));
                profile_executables_are_recognized(list, profiles, k + 1, q);
            },
            Some(p) => {
                let longer = discover::with_path(list, p);
                with_path_keeps(list, p, q);
                if j > k {
                    assert(profiles[j].executable == Some(q));
                }
                profile_executables_are_recognized(longer, profiles, k + 1, q);
            },
        }
    }
}

// ---------------------------------------------------------------------------
// Resolved settings as words and as saved values
// ---------------------------------------------------------------------------

/// A path as one word of a shell command.
pub open spec fn path_word(p: Seq<u8>) -> Result<Seq<char>, ErrorModel> {
    match text::utf8_decoded(p) {
        Some(t) => Ok(quote::quoted(t)),
        None => Err(
            ErrorModel::InvalidValue {
                field: "smart-naming executable path"@,
                message: "must be valid UTF-8 for tmux run-shell"@,
            },
        ),
    }
}

pub fn shell_word(location: &UnixPath) -> (r: Result<String, MuxError>)
    ensures
        text_outcome(r) == path_word(location@),
{
    match read_utf8(&location.bytes) {
        Some(t) => Ok(shell_literal(&t)),
        None => Err(
            invalid_value(
                "smart-naming executable path",
                "must be valid UTF-8 for tmux run-shell",
            ),
        ),
    }
}

/// An option in front of each of the first `n` paths.
pub open spec fn path_options(option: Seq<char>, paths: Seq<Seq<u8>>, n: nat) -> Result<
    Seq<Seq<char>>,
    ErrorModel,
>
    decreases n,
{
    if n == 0 {
        Ok(Seq::empty())
    } else {
        match path_options(option, paths, (n - 1) as nat) {
            Err(e) => Err(e),
            Ok(words) => match path_word(paths[n - 1]) {
                Err(e) => Err(e),
                Ok(word) => Ok(words.push(option).push(word)),
            },
        }
    }
}

/// An option in front of each value.
pub open spec fn value_options(option: Seq<char>, values: Seq<Seq<char>>) -> Seq<Seq<char>>
    decreases values.len(),
{
    if values.len() == 0 {
        Seq::empty()
    } else {
        value_options(option, values.drop_last()).push(option).push(
            quote::quoted(values.last()),
        )
    }
}

/// The options that give another process the same settings.
pub open spec fn cli_words(p: ResolvedModel) -> Result<Seq<Seq<char>>, ErrorModel> {
    let s = p.settings;
    match path_word(s.launch_executable) {
        Err(e) => Err(e),
        Ok(launch) => if p.legacy_shorthand {
            Ok(seq!["--codex"@, launch])
        } else {
            match path_options(
                "--match-executable"@,
                s.match_executables,
                s.match_executables.len(),
            ) {
                Err(e) => Err(e),
                Ok(matches) => Ok(
                    seq!["--launch-executable"@, launch] + matches + value_options(
                        "--pane-command"@,
                        s.pane_commands,
                    ) + seq!["--match-scope"@, s.match_scope.name()] + value_options(
                        "--match-command-regex"@,
                        s.match_command_regexes,
                    ) + value_options("--pane-command-regex"@, s.pane_command_regexes),
                ),
            }
        },
    }
}

pub open spec fn words_outcome(r: Result<Vec<String>, MuxError>) -> Result<
    Seq<Seq<char>>,
    ErrorModel,
> {
    match r {
        Ok(words) => Ok(text::texts(words@)),
        Err(e) => Err(e@),
    }
}

fn put_values(words: &mut Vec<String>, option: &str, values: &Vec<String>)
    ensures
        text::texts(final(words)@) == text::texts(old(words)@) + value_options(
            option@,
            text::texts(values@),
        ),
{
    let ghost before = text::texts(words@);
    let ghost all = text::texts(values@);
    let mut i: usize = 0;
    assert(all.take(0) =~= Seq::empty());
    assert(before + value_options(option@, all.take(0)) =~= before);
    while i < values.len()
        invariant
            i <= values.len(),
            text::texts(words@) == before + value_options(option@, all.take(i as int)),
        decreases values.len() - i,
    {
        let ghost held = value_options(option@, all.take(i as int));
        text::put(words, option);
        text::push_text(words, shell_literal(&values[i]));
        proof {
            assert(all.take(i + 1).drop_last() =~= all.take(i as int));
            assert(all.take(i + 1).last() == values@[i as int]@);
            assert(text::texts(words@) =~= before + held.push(option@).push(
                quote::quoted(values@[i as int]@),
            ));
        }
        i += 1;
    }
    assert(all.take(all.len() as int) =~= all);
}

proof fn path_options_fail(option: Seq<char>, paths: Seq<Seq<u8>>, m: nat, n: nat)
    requires
        m <= n,
        path_options(option, paths, m) is Err,
    ensures
        path_options(option, paths, n) == path_options(option, paths, m),
    decreases n,
{
    if m < n {
        path_options_fail(option, paths, m, (n - 1) as nat);
    }
}

fn put_paths(words: &mut Vec<String>, option: &str, paths: &Vec<CodexExecutable>) -> (r: Result<
    (),
    MuxError,
>)
    ensures
        ({
            let all = inventory::executable_list(paths@);
            let options = path_options(option@, all, all.len());
            match r {
                Ok(_) => options is Ok && text::texts(final(words)@) == text::texts(old(words)@)
                    + options->Ok_0,
                Err(e) => options == Err::<Seq<Seq<char>>, ErrorModel>(e@),
            }
        }),
{
    let ghost before = text::texts(words@);
    let ghost all = inventory::executable_list(paths@);
    let mut i: usize = 0;
    assert(before + Seq::<Seq<char>>::empty() =~= before);
    while i < paths.len()
        invariant
            i <= paths.len(),
            path_options(option@, all, i as nat) is Ok,
            text::texts(words@) == before + path_options(option@, all, i as nat)->Ok_0,
        decreases paths.len() - i,
    {
        let ghost held = path_options(option@, all, i as nat)->Ok_0;
        assert(all[i as int] == paths@[i as int]@);
        match shell_word(paths[i].as_path()) {
            Ok(word) => {
                text::put(words, option);
                text::push_text(words, word);
                assert(text::texts(words@) =~= before + held.push(option@).push(word@));
            },
            Err(e) => {
                proof {
                    path_options_fail(option@, all, (i + 1) as nat, all.len());
                }
                return Err(e);
            },
        }
        i += 1;
    }
    Ok(())
}

/// The options that give another process the same settings.
pub fn process_cli_words(process: &ResolvedProcessConfig) -> (r: Result<Vec<String>, MuxError>)
    ensures
        words_outcome(r) == cli_words(process@),
{
    let launch = match shell_word(process.launch.as_path()) {
        Ok(word) => word,
        Err(e) => return Err(e),
    };
    let mut words = text::no_texts();
    if process.legacy_shorthand {
        text::put(&mut words, "--codex");
        text::push_text(&mut words, launch);
        assert(text::texts(words@) =~= seq!["--codex"@, launch@]);
        return Ok(words);
    }
    text::put(&mut words, "--launch-executable");
    text::push_text(&mut words, launch);
    assert(text::texts(words@) =~= seq!["--launch-executable"@, launch@]);
    match put_paths(&mut words, "--match-executable", &process.matches) {
        Ok(()) => {},
        Err(e) => return Err(e),
    }
    put_values(&mut words, "--pane-command", &process.pane_commands);
    let ghost before = text::texts(words@);
    text::put(&mut words, "--match-scope");
    text::put(&mut words, process.match_scope.to_text());
    assert(text::texts(words@) =~= before + seq!["--match-scope"@, process.match_scope.name()]);
    put_values(&mut words, "--match-command-regex", &process.match_command_regexes);
    put_values(&mut words, "--pane-command-regex", &process.pane_command_regexes);
    Ok(words)
}

/// The arguments that those options stand for.
pub open spec fn as_arguments(p: ResolvedModel) -> ArgumentsModel {
    let s = p.settings;
    if p.legacy_shorthand {
        ArgumentsModel {
            codex: Some(s.launch_executable),
            launch_executable: None,
            match_executables: Seq::empty(),
            pane_commands: Seq::empty(),
            match_scope: None,
            match_command_regexes: Seq::empty(),
            pane_command_regexes: Seq::empty(),
        }
    } else {
        ArgumentsModel {
            codex: None,
            launch_executable: Some(s.launch_executable),
            match_executables: s.match_executables,
            pane_commands: s.pane_commands,
            match_scope: Some(s.match_scope),
            match_command_regexes: s.match_command_regexes,
            pane_command_regexes: s.pane_command_regexes,
        }
    }
}

/// A process that is started with those options, and has nothing saved to fall
/// back on, chooses the settings that it was started with.
pub proof fn options_carry_the_settings(p: ResolvedModel, found: Result<Seq<u8>, ErrorModel>)
    requires
        !p.legacy_shorthand,
        p.settings.match_executables.len() > 0,
        p.settings.pane_commands.len() > 0,
    ensures
        !preference_counts(as_arguments(p)),
        chosen(as_arguments(p), None, found) == Ok::<ProcessModel, ErrorModel>(p.settings),
{
    let a = as_arguments(p);
    assert(chosen(a, None, found)->Ok_0 =~= p.settings);
}

fn executable_locations(list: &Vec<CodexExecutable>) -> (r: Vec<UnixPath>)
    ensures
        domain::path_list(r@) == inventory::executable_list(list@),
{
    let mut r: Vec<UnixPath> = Vec::new();
    let mut i: usize = 0;
    while i < list.len()
        invariant
            i <= list.len(),
            r.len() == i,
            forall|j: int| 0 <= j < i ==> (#[trigger] r@[j])@ == list@[j]@,
        decreases list.len() - i,
    {
        r.push(list[i].as_path().clone());
        i += 1;
    }
    assert(domain::path_list(r@) =~= inventory::executable_list(list@));
    r
}

/// Resolved settings as they are saved.
pub fn settings_to_save(process: &ResolvedProcessConfig) -> (r: ProcessSettings)
    ensures
        r@ == process@.settings,
{
    ProcessSettings {
        launch_executable: process.launch.as_path().clone(),
        match_executables: executable_locations(&process.matches),
        pane_commands: copy_texts(&process.pane_commands),
        match_scope: process.match_scope,
        match_command_regexes: copy_texts(&process.match_command_regexes),
        pane_command_regexes: copy_texts(&process.pane_command_regexes),
    }
}

/// A failure of managing a file, reported as a failed command.
pub open spec fn as_command(e: FailureModel) -> ErrorModel {
    ErrorModel::Command(failure::failure_text(e))
}

pub fn install_error(error: &InstallError) -> (r: MuxError)
    ensures
        r@ == as_command(error@),
{
    command_error(&error.to_text())
}

/// What the managed block holds for resolved settings.
pub open spec fn block_paths(mux: Seq<u8>, p: ResolvedModel) -> PathsModel {
    PathsModel {
        mux,
        codex: p.settings.launch_executable,
        match_executables: p.settings.match_executables,
        pane_commands: p.settings.pane_commands,
        match_scope: p.settings.match_scope.name(),
        match_command_regexes: p.settings.match_command_regexes,
        pane_command_regexes: p.settings.pane_command_regexes,
        legacy_shorthand: p.legacy_shorthand,
    }
}

/// The values of the managed block, given the path of this program.
pub fn executable_paths(mux: UnixPath, process: &ResolvedProcessConfig) -> (r: Result<
    ExecutablePaths,
    MuxError,
>)
    ensures
        match r {
            Ok(paths) => paths@ == block_paths(mux@, process@) && block::paths_problem(
                paths@,
            ) is None,
            Err(e) => block::paths_problem(block_paths(mux@, process@)) is Some && e@ == as_command(
                block::paths_problem(block_paths(mux@, process@))->0,
            ),
        },
{
    let metadata = ProcessMetadata {
        match_executables: executable_locations(&process.matches),
        pane_commands: copy_texts(&process.pane_commands),
        match_scope: process.match_scope.to_text().to_owned(),
        match_command_regexes: copy_texts(&process.match_command_regexes),
        pane_command_regexes: copy_texts(&process.pane_command_regexes),
    };
    match ExecutablePaths::with_process(
        mux,
        process.launch.as_path().clone(),
        metadata,
        process.legacy_shorthand,
    ) {
        Ok(paths) => Ok(paths),
        Err(e) => Err(install_error(&e)),
    }
}

} // verus!
