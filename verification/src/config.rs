//! The saved preference: what may be saved, what a saved file stands for, and
//! how one setting is changed without touching the others.

use vstd::prelude::*;
use crate::domain;
use crate::domain::ThemeId;
use crate::error::{invalid_value, ErrorModel, MuxError};
use crate::error;
use crate::number;
use crate::number::decimal_text;
use crate::path;
use crate::path::UnixPath;
use crate::pattern;
use crate::scan;
use crate::scan::{blank, contains_control};
use crate::text;
use crate::text::{text_equal, to_chars};

verus! {

/// Permission behavior applied when a launch profile starts Codex.
#[derive(Clone, Copy, Debug, PartialEq, Eq, Structural)]
pub enum PermissionPreset {
    /// The normal sandbox and approval behavior of Codex.
    Standard,
    /// No sandbox and no approval prompts.
    Yolo,
}

impl Default for PermissionPreset {
    fn default() -> (r: PermissionPreset)
        ensures
            r == PermissionPreset::Standard,
    {
        PermissionPreset::Standard
    }
}

/// Launch configuration selected by a single key.
#[derive(Debug, PartialEq, Eq)]
pub struct LaunchProfile {
    /// Picker label.
    pub name: String,
    /// Key pressed after entering new-session mode.
    pub key: char,
    /// Additional executable that discovery recognizes.
    pub executable: Option<UnixPath>,
    pub permissions: PermissionPreset,
}

#[verifier::ext_equal]
pub struct ProfileModel {
    pub name: Seq<char>,
    pub key: char,
    pub executable: Option<Seq<u8>>,
    pub permissions: PermissionPreset,
}

impl View for LaunchProfile {
    type V = ProfileModel;

    open spec fn view(&self) -> ProfileModel {
        ProfileModel {
            name: self.name@,
            key: self.key,
            executable: domain::path_view(self.executable),
            permissions: self.permissions,
        }
    }
}

impl Clone for LaunchProfile {
    fn clone(&self) -> (r: Self)
        ensures
            r@ == self@,
    {
        LaunchProfile {
            name: self.name.clone(),
            key: self.key,
            executable: clone_path(&self.executable),
            permissions: self.permissions,
        }
    }
}

fn clone_path(p: &Option<UnixPath>) -> (r: Option<UnixPath>)
    ensures
        domain::path_view(r) == domain::path_view(*p),
{
    match p {
        Some(p) => Some(p.clone()),
        None => None,
    }
}

pub open spec fn standard_profile() -> ProfileModel {
    ProfileModel {
        name: "standard"@,
        key: 's',
        executable: None,
        permissions: PermissionPreset::Standard,
    }
}

pub open spec fn yolo_profile() -> ProfileModel {
    ProfileModel {
        name: "yolo"@,
        key: 'y',
        executable: None,
        permissions: PermissionPreset::Yolo,
    }
}

impl LaunchProfile {
    /// The first-run standard profile.
    pub fn standard() -> (r: LaunchProfile)
        ensures
            r@ == standard_profile(),
    {
        LaunchProfile {
            name: "standard".to_owned(),
            key: 's',
            executable: None,
            permissions: PermissionPreset::Standard,
        }
    }

    /// The first-run unrestricted profile.
    pub fn yolo() -> (r: LaunchProfile)
        ensures
            r@ == yolo_profile(),
    {
        LaunchProfile {
            name: "yolo".to_owned(),
            key: 'y',
            executable: None,
            permissions: PermissionPreset::Yolo,
        }
    }
}

pub open spec fn profile_list(v: Seq<LaunchProfile>) -> Seq<ProfileModel> {
    Seq::new(v.len(), |i: int| v[i]@)
}

pub fn default_profiles() -> (r: Vec<LaunchProfile>)
    ensures
        profile_list(r@) == seq![standard_profile(), yolo_profile()],
{
    let mut r: Vec<LaunchProfile> = Vec::new();
    r.push(LaunchProfile::standard());
    r.push(LaunchProfile::yolo());
    assert(profile_list(r@) =~= seq![standard_profile(), yolo_profile()]);
    r
}

fn copy_profiles(v: &Vec<LaunchProfile>) -> (r: Vec<LaunchProfile>)
    ensures
        profile_list(r@) == profile_list(v@),
{
    let mut r: Vec<LaunchProfile> = Vec::new();
    let mut i: usize = 0;
    while i < v.len()
        invariant
            i <= v.len(),
            profile_list(r@) =~= profile_list(v@).take(i as int),
        decreases v.len() - i,
    {
        r.push(v[i].clone());
        i += 1;
    }
    assert(profile_list(r@) =~= profile_list(v@));
    r
}

/// Candidate process scope used for wrapper-aware detection.
#[derive(Clone, Copy, Debug, PartialEq, Eq, Structural)]
pub enum MatchScope {
    /// The foreground process group of the pane.
    Foreground,
    /// Readable descendants of the pane process.
    PaneTree,
    /// Readable processes attached to the pane terminal.
    PaneTty,
}

impl Default for MatchScope {
    fn default() -> (r: MatchScope)
        ensures
            r == MatchScope::Foreground,
    {
        MatchScope::Foreground
    }
}

impl MatchScope {
    pub open spec fn name(self) -> Seq<char> {
        match self {
            MatchScope::Foreground => "foreground"@,
            MatchScope::PaneTree => "pane-tree"@,
            MatchScope::PaneTty => "pane-tty"@,
        }
    }

    /// The stable configuration name.
    pub fn to_text(self) -> (r: &'static str)
        ensures
            r@ == self.name(),
    {
        match self {
            MatchScope::Foreground => "foreground",
            MatchScope::PaneTree => "pane-tree",
            MatchScope::PaneTty => "pane-tty",
        }
    }

    /// The scope with a given configuration name.
    pub fn from_str(value: &str) -> (r: Result<MatchScope, MuxError>)
        ensures
            match r {
                Ok(scope) => scope.name() == value@,
                Err(e) => (forall|scope: MatchScope| #[trigger] scope.name() != value@) && e@ == (
                ErrorModel::InvalidValue {
                    field: "process match scope"@,
                    message: "must be foreground, pane-tree, or pane-tty"@,
                }),
            },
    {
        if text_equal(value, "foreground") {
            Ok(MatchScope::Foreground)
        } else if text_equal(value, "pane-tree") {
            Ok(MatchScope::PaneTree)
        } else if text_equal(value, "pane-tty") {
            Ok(MatchScope::PaneTty)
        } else {
            Err(
                invalid_value("process match scope", "must be foreground, pane-tree, or pane-tty"),
            )
        }
    }
}

/// Two scopes with the same name are the same scope, so reading the name of a
/// scope gives that scope back.
pub proof fn scope_names_are_distinct(a: MatchScope, b: MatchScope)
    ensures
        a.name() == b.name() ==> a == b,
{
    reveal_strlit("foreground");
    reveal_strlit("pane-tree");
    reveal_strlit("pane-tty");
    if a.name() == b.name() {
        assert(a.name().len() == b.name().len());
    }
}

impl std::str::FromStr for MatchScope {
    type Err = MuxError;

    fn from_str(value: &str) -> Result<MatchScope, MuxError> {
        MatchScope::from_str(value)
    }
}

/// How Codex is launched and how its processes are recognized.
#[derive(Debug, PartialEq, Eq)]
pub struct ProcessSettings {
    /// Executable of every new Codex and app-server process.
    pub launch_executable: UnixPath,
    /// Executable or script paths accepted during discovery.
    pub match_executables: Vec<UnixPath>,
    /// Exact pane commands accepted by Smart Left.
    pub pane_commands: Vec<String>,
    pub match_scope: MatchScope,
    /// Expressions for the normalized arguments of a process.
    pub match_command_regexes: Vec<String>,
    /// Expressions for pane commands.
    pub pane_command_regexes: Vec<String>,
}

#[verifier::ext_equal]
pub struct ProcessModel {
    pub launch_executable: Seq<u8>,
    pub match_executables: Seq<Seq<u8>>,
    pub pane_commands: Seq<Seq<char>>,
    pub match_scope: MatchScope,
    pub match_command_regexes: Seq<Seq<char>>,
    pub pane_command_regexes: Seq<Seq<char>>,
}

impl View for ProcessSettings {
    type V = ProcessModel;

    open spec fn view(&self) -> ProcessModel {
        ProcessModel {
            launch_executable: self.launch_executable@,
            match_executables: domain::path_list(self.match_executables@),
            pane_commands: text::texts(self.pane_commands@),
            match_scope: self.match_scope,
            match_command_regexes: text::texts(self.match_command_regexes@),
            pane_command_regexes: text::texts(self.pane_command_regexes@),
        }
    }
}

pub fn copy_paths(v: &Vec<UnixPath>) -> (r: Vec<UnixPath>)
    ensures
        domain::path_list(r@) == domain::path_list(v@),
{
    let mut r: Vec<UnixPath> = Vec::new();
    let mut i: usize = 0;
    while i < v.len()
        invariant
            i <= v.len(),
            domain::path_list(r@) =~= domain::path_list(v@).take(i as int),
        decreases v.len() - i,
    {
        r.push(v[i].clone());
        i += 1;
    }
    assert(domain::path_list(r@) =~= domain::path_list(v@));
    r
}

pub fn copy_texts(v: &Vec<String>) -> (r: Vec<String>)
    ensures
        text::texts(r@) == text::texts(v@),
{
    let mut r = text::no_texts();
    text::put_all(&mut r, v);
    assert(text::texts(r@) =~= text::texts(v@));
    r
}

impl Clone for ProcessSettings {
    fn clone(&self) -> (r: Self)
        ensures
            r@ == self@,
    {
        ProcessSettings {
            launch_executable: self.launch_executable.clone(),
            match_executables: copy_paths(&self.match_executables),
            pane_commands: copy_texts(&self.pane_commands),
            match_scope: self.match_scope,
            match_command_regexes: copy_texts(&self.match_command_regexes),
            pane_command_regexes: copy_texts(&self.pane_command_regexes),
        }
    }
}

// ---------------------------------------------------------------------------
// Validation
// ---------------------------------------------------------------------------

/// What the file system said of a path.
#[derive(Debug)]
pub enum FileProbe {
    /// Its metadata could not be read, and why.
    Unreadable(String),
    Found { is_file: bool, mode: u32 },
}

/// Why a path cannot serve as an executable, `None` where it can: it has to be
/// absolute and name a regular file with an execute permission.
pub open spec fn executable_problem(
    location: Seq<u8>,
    probe: FileProbe,
    field: Seq<char>,
) -> Option<ErrorModel> {
    if !path::is_absolute(location) {
        Some(ErrorModel::InvalidValue { field, message: "must be an absolute path"@ })
    } else {
        match probe {
            FileProbe::Unreadable(source) => Some(
                ErrorModel::Filesystem { path: location, source: source@ },
            ),
            FileProbe::Found { is_file, mode } => if !is_file || mode & 0x49 == 0 {
                Some(
                    ErrorModel::InvalidValue {
                        field,
                        message: text::lossy_text(location) + " is not executable"@,
                    },
                )
            } else {
                None
            },
        }
    }
}

pub open spec fn problem_view(o: Option<MuxError>) -> Option<ErrorModel> {
    match o {
        Some(e) => Some(e@),
        None => None,
    }
}

fn find_executable_problem(location: &UnixPath, probe: &FileProbe, field: &'static str) -> (r:
    Option<MuxError>)
    ensures
        problem_view(r) == executable_problem(location@, *probe, field@),
{
    if !location.is_absolute() {
        return Some(invalid_value(field, "must be an absolute path"));
    }
    match probe {
        FileProbe::Unreadable(source) => Some(
            MuxError::Filesystem { path: location.clone(), source: source.clone() },
        ),
        FileProbe::Found { is_file, mode } => if !*is_file || *mode & 0x49 == 0 {
            let mut message = location.display();
            message.append(" is not executable");
            Some(invalid_value(field, &message))
        } else {
            None
        },
    }
}

/// Checks one executable path.
pub fn validate_executable_path(location: &UnixPath, probe: &FileProbe, field: &'static str) -> (r:
    Result<(), MuxError>)
    ensures
        match r {
            Ok(_) => executable_problem(location@, *probe, field@) is None,
            Err(e) => executable_problem(location@, *probe, field@) == Some(e@),
        },
{
    match find_executable_problem(location, probe, field) {
        Some(e) => Err(e),
        None => Ok(()),
    }
}

/// A character in lower case, where it is an ASCII letter.
pub open spec fn ascii_lower(c: char) -> char {
    if 'A' <= c <= 'Z' {
        (c as u32 + 32) as char
    } else {
        c
    }
}

fn lower(c: char) -> (r: char)
    ensures
        r == ascii_lower(c),
{
    match c {
        'A' => 'a',
        'B' => 'b',
        'C' => 'c',
        'D' => 'd',
        'E' => 'e',
        'F' => 'f',
        'G' => 'g',
        'H' => 'h',
        'I' => 'i',
        'J' => 'j',
        'K' => 'k',
        'L' => 'l',
        'M' => 'm',
        'N' => 'n',
        'O' => 'o',
        'P' => 'p',
        'Q' => 'q',
        'R' => 'r',
        'S' => 's',
        'T' => 't',
        'U' => 'u',
        'V' => 'v',
        'W' => 'w',
        'X' => 'x',
        'Y' => 'y',
        'Z' => 'z',
        _ => c,
    }
}

/// A key that the picker uses itself.
pub open spec fn is_reserved_key(c: char) -> bool {
    c == 'a' || c == 'e' || c == 'j' || c == 'k' || c == 'n' || c == 'q'
}

pub open spec fn key_taken(profiles: Seq<ProfileModel>, i: int) -> bool {
    exists|j: int|
        0 <= j < i && ascii_lower((#[trigger] profiles[j]).key) == ascii_lower(profiles[i].key)
}

/// Why a profile cannot be saved beside the ones before it.
pub open spec fn profile_problem(
    profiles: Seq<ProfileModel>,
    probes: Seq<FileProbe>,
    i: int,
) -> Option<ErrorModel> {
    let profile = profiles[i];
    let key = ascii_lower(profile.key);
    if scan::is_blank(profile.name) {
        Some(
            ErrorModel::InvalidValue { field: "profile name"@, message: "must not be empty"@ },
        )
    } else if scan::has_control(profile.name) {
        Some(
            ErrorModel::InvalidValue {
                field: "profile name"@,
                message: "must not contain control characters"@,
            },
        )
    } else if !text::is_ascii_alphanumeric(key) || is_reserved_key(key) {
        Some(
            ErrorModel::InvalidValue {
                field: "profile key"@,
                message: text::debug_char(key) + " is reserved or unsupported"@,
            },
        )
    } else if key_taken(profiles, i) {
        Some(
            ErrorModel::InvalidValue {
                field: "profile key"@,
                message: text::debug_char(key) + " is assigned more than once"@,
            },
        )
    } else {
        match profile.executable {
            Some(executable) => executable_problem(
                executable,
                probes[i],
                "profile executable"@,
            ),
            None => None,
        }
    }
}

/// The first of a row of problems, where there is one.
pub open spec fn first_problem(problems: spec_fn(int) -> Option<ErrorModel>, n: nat) -> Option<
    ErrorModel,
>
    decreases n,
{
    if n == 0 {
        None
    } else {
        match first_problem(problems, (n - 1) as nat) {
            Some(e) => Some(e),
            None => problems(n - 1),
        }
    }
}

/// There is no first problem exactly where there is none at all.
pub proof fn no_problem_iff(problems: spec_fn(int) -> Option<ErrorModel>, n: nat)
    ensures
        first_problem(problems, n) is None <==> forall|i: int|
            0 <= i < n ==> (#[trigger] problems(i)) is None,
    decreases n,
{
    if n > 0 {
        no_problem_iff(problems, (n - 1) as nat);
    }
}

pub open spec fn profiles_problem(profiles: Seq<ProfileModel>, probes: Seq<FileProbe>) -> Option<
    ErrorModel,
> {
    if profiles.len() == 0 {
        Some(
            ErrorModel::InvalidValue {
                field: "launch profiles"@,
                message: "must contain at least one profile"@,
            },
        )
    } else {
        first_problem(|i: int| profile_problem(profiles, probes, i), profiles.len())
    }
}

fn find_profile_problem(profiles: &Vec<LaunchProfile>, probes: &Vec<FileProbe>, i: usize) -> (r:
    Option<MuxError>)
    requires
        i < profiles.len(),
        profiles.len() == probes.len(),
    ensures
        problem_view(r) == profile_problem(profile_list(profiles@), probes@, i as int),
{
    let ghost all = profile_list(profiles@);
    let profile = &profiles[i];
    assert(all[i as int] == profile@);
    if blank(&profile.name) {
        return Some(invalid_value("profile name", "must not be empty"));
    }
    if contains_control(&profile.name) {
        return Some(invalid_value("profile name", "must not contain control characters"));
    }
    let key: char = lower(profile.key);
    let plain = ('a' <= key && key <= 'z') || ('A' <= key && key <= 'Z') || ('0' <= key && key
        <= '9');
    if !plain || key == 'a' || key == 'e' || key == 'j' || key == 'k' || key == 'n' || key == 'q' {
        let mut message = text::debug_quoted_char(key);
        message.append(" is reserved or unsupported");
        return Some(invalid_value("profile key", &message));
    }
    let mut j: usize = 0;
    while j < i
        invariant
            j <= i,
            forall|k: int|
                0 <= k < j ==> ascii_lower((#[trigger] all[k]).key) != ascii_lower(
                    all[i as int].key,
                ),
        decreases i - j,
    {
        assert(all[j as int] == profiles@[j as int]@);
        if lower(profiles[j].key) == key {
            let mut message = text::debug_quoted_char(key);
            message.append(" is assigned more than once");
            return Some(invalid_value("profile key", &message));
        }
        j += 1;
    }
    match &profile.executable {
        Some(executable) => find_executable_problem(
            executable,
            &probes[i],
            "profile executable",
        ),
        None => None,
    }
}

/// Checks a complete profile set. `probes[i]` is what the file system said of
/// the executable of profile `i`, where it has one.
pub fn validate_profiles(profiles: &Vec<LaunchProfile>, probes: &Vec<FileProbe>) -> (r: Result<
    (),
    MuxError,
>)
    requires
        profiles.len() == probes.len(),
    ensures
        match r {
            Ok(_) => profiles_problem(profile_list(profiles@), probes@) is None,
            Err(e) => profiles_problem(profile_list(profiles@), probes@) == Some(e@),
        },
{
    if profiles.len() == 0 {
        return Err(invalid_value("launch profiles", "must contain at least one profile"));
    }
    let ghost all = profile_list(profiles@);
    let ghost problems = |i: int| profile_problem(all, probes@, i);
    let mut i: usize = 0;
    while i < profiles.len()
        invariant
            i <= profiles.len(),
            first_problem(problems, i as nat) is None,
        decreases profiles.len() - i,
    {
        if let Some(e) = find_profile_problem(profiles, probes, i) {
            proof {
                assert(first_problem(problems, (i + 1) as nat) == Some(e@));
                first_problem_stays(problems, (i + 1) as nat, all.len());
            }
            return Err(e);
        }
        i += 1;
    }
    Ok(())
}

proof fn first_problem_stays(problems: spec_fn(int) -> Option<ErrorModel>, m: nat, n: nat)
    requires
        m <= n,
        first_problem(problems, m) is Some,
    ensures
        first_problem(problems, n) == first_problem(problems, m),
    decreases n,
{
    if m < n {
        first_problem_stays(problems, m, (n - 1) as nat);
    }
}

/// An accepted profile set is not empty, its keys are distinct letters or digits
/// that the picker leaves free, and its names are visible.
pub proof fn accepted_profiles(
    profiles: Seq<ProfileModel>,
    probes: Seq<FileProbe>,
    i: int,
    j: int,
)
    requires
        profiles_problem(profiles, probes) is None,
        0 <= j < i < profiles.len(),
    ensures
        ascii_lower(profiles[i].key) != ascii_lower(profiles[j].key),
        text::is_ascii_alphanumeric(profiles[i].key),
        !is_reserved_key(ascii_lower(profiles[i].key)),
        !scan::is_blank(profiles[i].name),
{
    let problems = |k: int| profile_problem(profiles, probes, k);
    no_problem_iff(problems, profiles.len());
    assert(problems(i) is None);
    assert(!key_taken(profiles, i));
}

pub open spec fn is_command_char(c: char) -> bool {
    text::is_ascii_alphanumeric(c) || c == '.' || c == '_' || c == '+' || c == '-'
}

/// One exact command name that no shell or format treats specially.
pub open spec fn is_safe_command(s: Seq<char>) -> bool {
    s.len() > 0 && forall|i: int| 0 <= i < s.len() ==> is_command_char(#[trigger] s[i])
}

pub open spec fn pane_command_problem(command: Seq<char>) -> Option<ErrorModel> {
    if is_safe_command(command) {
        None
    } else {
        Some(
            ErrorModel::InvalidValue {
                field: "process pane command"@,
                message: text::debug_text(command) + " must be one exact safe command name"@,
            },
        )
    }
}

/// Why an expression cannot be used: it has to compile and must not match an
/// empty text.
pub open spec fn regex_problem(expression: Seq<char>, field: Seq<char>) -> Option<ErrorModel> {
    if expression.len() == 0 || scan::has_control(expression) {
        Some(
            ErrorModel::InvalidValue {
                field,
                message: "must not be empty or contain control characters"@,
            },
        )
    } else {
        match pattern::regex_error(expression) {
            Some(error) => Some(
                ErrorModel::InvalidValue {
                    field,
                    message: "invalid regex "@ + text::debug_text(expression) + ": "@ + error,
                },
            ),
            None => if pattern::regex_matches(expression, ""@) {
                Some(
                    ErrorModel::InvalidValue {
                        field,
                        message: text::debug_text(expression) + " must not match an empty command"@,
                    },
                )
            } else {
                None
            },
        }
    }
}

pub open spec fn regexes_problem(expressions: Seq<Seq<char>>, field: Seq<char>) -> Option<
    ErrorModel,
> {
    first_problem(|i: int| regex_problem(expressions[i], field), expressions.len())
}

/// Either the first problem or the second.
pub open spec fn or_else(a: Option<ErrorModel>, b: Option<ErrorModel>) -> Option<ErrorModel> {
    if a is Some {
        a
    } else {
        b
    }
}

/// Why process settings cannot be saved.
pub open spec fn process_problem(
    settings: ProcessModel,
    launch: FileProbe,
    matches: Seq<FileProbe>,
) -> Option<ErrorModel> {
    let commands = settings.pane_commands;
    or_else(
        executable_problem(settings.launch_executable, launch, "process launch executable"@),
        or_else(
            if settings.match_executables.len() == 0 {
                Some(
                    ErrorModel::InvalidValue {
                        field: "process match executables"@,
                        message: "must contain at least one executable"@,
                    },
                )
            } else {
                None
            },
            or_else(
                first_problem(
                    |i: int|
                        executable_problem(
                            settings.match_executables[i],
                            matches[i],
                            "process match executable"@,
                        ),
                    settings.match_executables.len(),
                ),
                or_else(
                    if commands.len() == 0 && settings.pane_command_regexes.len() == 0 {
                        Some(
                            ErrorModel::InvalidValue {
                                field: "process pane commands"@,
                                message: "must contain at least one command"@,
                            },
                        )
                    } else {
                        None
                    },
                    or_else(
                        first_problem(|i: int| pane_command_problem(commands[i]), commands.len()),
                        or_else(
                            regexes_problem(
                                settings.match_command_regexes,
                                "process match command regex"@,
                            ),
                            regexes_problem(
                                settings.pane_command_regexes,
                                "process pane command regex"@,
                            ),
                        ),
                    ),
                ),
            ),
        ),
    )
}

fn safe_command(s: &str) -> (r: bool)
    ensures
        r == is_safe_command(s@),
{
    let v = to_chars(s);
    if v.len() == 0 {
        return false;
    }
    let mut i: usize = 0;
    while i < v.len()
        invariant
            i <= v.len(),
            forall|j: int| 0 <= j < i ==> is_command_char(#[trigger] v@[j]),
        decreases v.len() - i,
    {
        let c: char = v[i];
        let fits = ('a' <= c && c <= 'z') || ('A' <= c && c <= 'Z') || ('0' <= c && c <= '9') || c
            == '.' || c == '_' || c == '+' || c == '-';
        if !fits {
            assert(!is_command_char(v@[i as int]));
            return false;
        }
        i += 1;
    }
    true
}

/// Checks expressions.
pub fn validate_regexes(regexes: &Vec<String>, field: &'static str) -> (r: Result<(), MuxError>)
    ensures
        match r {
            Ok(_) => regexes_problem(text::texts(regexes@), field@) is None,
            Err(e) => regexes_problem(text::texts(regexes@), field@) == Some(e@),
        },
{
    let ghost all = text::texts(regexes@);
    let ghost problems = |i: int| regex_problem(all[i], field@);
    let mut i: usize = 0;
    while i < regexes.len()
        invariant
            i <= regexes.len(),
            first_problem(problems, i as nat) is None,
        decreases regexes.len() - i,
    {
        assert(all[i as int] == regexes@[i as int]@);
        if let Some(e) = find_regex_problem(&regexes[i], field) {
            proof {
                assert(first_problem(problems, (i + 1) as nat) == Some(e@));
                first_problem_stays(problems, (i + 1) as nat, all.len());
            }
            return Err(e);
        }
        i += 1;
    }
    Ok(())
}

fn find_regex_problem(expression: &str, field: &'static str) -> (r: Option<MuxError>)
    ensures
        problem_view(r) == regex_problem(expression@, field@),
{
    if expression.is_empty() || contains_control(expression) {
        return Some(invalid_value(field, "must not be empty or contain control characters"));
    }
    match pattern::refusal(expression) {
        Some(error) => {
            let mut message = "invalid regex ".to_owned();
            message.append(&text::debug_quoted(expression));
            message.append(": ");
            message.append(&error);
            Some(invalid_value(field, &message))
        },
        None => if pattern::is_match(expression, "") {
            let mut message = text::debug_quoted(expression);
            message.append(" must not match an empty command");
            Some(invalid_value(field, &message))
        } else {
            None
        },
    }
}

fn find_match_problem(settings: &ProcessSettings, matches: &Vec<FileProbe>) -> (r: Option<
    MuxError,
>)
    requires
        matches.len() == settings.match_executables.len(),
    ensures
        problem_view(r) == first_problem(
            |i: int|
                executable_problem(
                    settings@.match_executables[i],
                    matches@[i],
                    "process match executable"@,
                ),
            settings@.match_executables.len(),
        ),
{
    let ghost all = settings@.match_executables;
    let ghost problems = |i: int|
        executable_problem(all[i], matches@[i], "process match executable"@);
    let mut i: usize = 0;
    while i < settings.match_executables.len()
        invariant
            i <= settings.match_executables.len(),
            first_problem(problems, i as nat) is None,
        decreases settings.match_executables.len() - i,
    {
        let location = &settings.match_executables[i];
        assert(all[i as int] == location@);
        if let Some(e) = find_executable_problem(
            location,
            &matches[i],
            "process match executable",
        ) {
            proof {
                assert(first_problem(problems, (i + 1) as nat) == Some(e@));
                first_problem_stays(problems, (i + 1) as nat, all.len());
            }
            return Some(e);
        }
        i += 1;
    }
    None
}

fn find_command_problem(commands: &Vec<String>) -> (r: Option<MuxError>)
    ensures
        problem_view(r) == first_problem(
            |i: int| pane_command_problem(text::texts(commands@)[i]),
            text::texts(commands@).len(),
        ),
{
    let ghost all = text::texts(commands@);
    let ghost problems = |i: int| pane_command_problem(all[i]);
    let mut i: usize = 0;
    while i < commands.len()
        invariant
            i <= commands.len(),
            first_problem(problems, i as nat) is None,
        decreases commands.len() - i,
    {
        assert(all[i as int] == commands@[i as int]@);
        if !safe_command(&commands[i]) {
            let mut message = text::debug_quoted(&commands[i]);
            message.append(" must be one exact safe command name");
            let e = invalid_value("process pane command", &message);
            proof {
                assert(first_problem(problems, (i + 1) as nat) == Some(e@));
                first_problem_stays(problems, (i + 1) as nat, all.len());
            }
            return Some(e);
        }
        i += 1;
    }
    None
}

/// Checks process settings against what the file system said of their paths.
pub fn validate_process_settings(
    settings: &ProcessSettings,
    launch: &FileProbe,
    matches: &Vec<FileProbe>,
) -> (r: Result<(), MuxError>)
    requires
        matches.len() == settings.match_executables.len(),
    ensures
        match r {
            Ok(_) => process_problem(settings@, *launch, matches@) is None,
            Err(e) => process_problem(settings@, *launch, matches@) == Some(e@),
        },
{
    assert(settings@.match_executables.len() == settings.match_executables.len());
    assert(settings@.pane_commands.len() == settings.pane_commands.len());
    assert(settings@.pane_command_regexes.len() == settings.pane_command_regexes.len());
    if let Some(e) = find_executable_problem(
        &settings.launch_executable,
        launch,
        "process launch executable",
    ) {
        return Err(e);
    }
    if settings.match_executables.len() == 0 {
        return Err(
            invalid_value("process match executables", "must contain at least one executable"),
        );
    }
    if let Some(e) = find_match_problem(settings, matches) {
        return Err(e);
    }
    if settings.pane_commands.len() == 0 && settings.pane_command_regexes.len() == 0 {
        return Err(invalid_value("process pane commands", "must contain at least one command"));
    }
    if let Some(e) = find_command_problem(&settings.pane_commands) {
        return Err(e);
    }
    match validate_regexes(&settings.match_command_regexes, "process match command regex") {
        Ok(()) => {},
        Err(e) => return Err(e),
    }
    validate_regexes(&settings.pane_command_regexes, "process pane command regex")
}

// ---------------------------------------------------------------------------
// The saved file
// ---------------------------------------------------------------------------

/// Everything that is saved.
#[derive(Debug)]
pub struct ConfigFile {
    pub theme: ThemeId,
    pub profiles: Vec<LaunchProfile>,
    pub smart_naming: bool,
    pub process: Option<ProcessSettings>,
}

#[verifier::ext_equal]
pub struct ConfigModel {
    pub theme: ThemeId,
    pub profiles: Seq<ProfileModel>,
    pub smart_naming: bool,
    pub process: Option<ProcessModel>,
}

pub open spec fn process_view(o: Option<ProcessSettings>) -> Option<ProcessModel> {
    match o {
        Some(p) => Some(p@),
        None => None,
    }
}

impl View for ConfigFile {
    type V = ConfigModel;

    open spec fn view(&self) -> ConfigModel {
        ConfigModel {
            theme: self.theme,
            profiles: profile_list(self.profiles@),
            smart_naming: self.smart_naming,
            process: process_view(self.process),
        }
    }
}

/// What holds where nothing was saved.
pub open spec fn first_run() -> ConfigModel {
    ConfigModel {
        theme: ThemeId::AdaptiveCyan,
        profiles: seq![standard_profile(), yolo_profile()],
        smart_naming: false,
        process: None,
    }
}

pub open spec fn config_view(o: Option<ConfigFile>) -> Option<ConfigModel> {
    match o {
        Some(c) => Some(c@),
        None => None,
    }
}

/// The saved settings, or those of a first run.
pub open spec fn saved_or_default(o: Option<ConfigModel>) -> ConfigModel {
    match o {
        Some(c) => c,
        None => first_run(),
    }
}

/// The settings that a change starts from.
pub fn base_config(saved: Option<ConfigFile>) -> (r: ConfigFile)
    ensures
        r@ == saved_or_default(config_view(saved)),
{
    match saved {
        Some(config) => config,
        None => ConfigFile {
            theme: ThemeId::AdaptiveCyan,
            profiles: default_profiles(),
            smart_naming: false,
            process: None,
        },
    }
}

/// What to save so that only the theme changes.
pub fn with_theme(saved: Option<ConfigFile>, theme: ThemeId) -> (r: ConfigFile)
    ensures
        r@ == (ConfigModel { theme, ..saved_or_default(config_view(saved)) }),
{
    let base = base_config(saved);
    ConfigFile {
        theme,
        profiles: base.profiles,
        smart_naming: base.smart_naming,
        process: base.process,
    }
}

/// What to save so that only the profiles change.
pub fn with_profiles(saved: Option<ConfigFile>, profiles: &Vec<LaunchProfile>) -> (r: ConfigFile)
    ensures
        r@ == (ConfigModel {
            profiles: profile_list(profiles@),
            ..saved_or_default(config_view(saved))
        }),
{
    let base = base_config(saved);
    ConfigFile {
        theme: base.theme,
        profiles: copy_profiles(profiles),
        smart_naming: base.smart_naming,
        process: base.process,
    }
}

/// What to save so that only the naming preference changes.
pub fn with_smart_naming(saved: Option<ConfigFile>, enabled: bool) -> (r: ConfigFile)
    ensures
        r@ == (ConfigModel { smart_naming: enabled, ..saved_or_default(config_view(saved)) }),
{
    let base = base_config(saved);
    ConfigFile {
        theme: base.theme,
        profiles: base.profiles,
        smart_naming: enabled,
        process: base.process,
    }
}

/// What to save so that only the process settings change.
pub fn with_process(saved: Option<ConfigFile>, process: ProcessSettings) -> (r: ConfigFile)
    ensures
        r@ == (ConfigModel { process: Some(process@), ..saved_or_default(config_view(saved)) }),
{
    let base = base_config(saved);
    ConfigFile {
        theme: base.theme,
        profiles: base.profiles,
        smart_naming: base.smart_naming,
        process: Some(process),
    }
}

/// The preference of one invocation.
#[derive(Debug)]
pub struct ThemePreference {
    /// Saved theme, or the first-run default.
    pub selected: ThemeId,
    /// Why a saved preference could not be used.
    pub warning: Option<String>,
    /// Whether `selected` was saved.
    pub was_saved: bool,
    pub profiles: Vec<LaunchProfile>,
    /// Whether conversation-aware naming is enabled.
    pub smart_naming: bool,
    pub process: Option<ProcessSettings>,
}

impl ThemePreference {
    /// The settings in force.
    pub open spec fn settings(&self) -> ConfigModel {
        ConfigModel {
            theme: self.selected,
            profiles: profile_list(self.profiles@),
            smart_naming: self.smart_naming,
            process: process_view(self.process),
        }
    }

    pub open spec fn effective(&self, no_color: bool) -> ThemeId {
        if no_color {
            ThemeId::Monochrome
        } else {
            self.selected
        }
    }

    /// The theme of this invocation; the color opt-out does not change what is
    /// saved.
    pub fn effective_theme(&self, no_color: bool) -> (r: ThemeId)
        ensures
            r == self.effective(no_color),
    {
        if no_color {
            ThemeId::Monochrome
        } else {
            self.selected
        }
    }

    /// The theme of this invocation, given the value of `NO_COLOR`.
    pub fn effective_for_environment(&self, no_color: &Option<Vec<u8>>) -> (r: ThemeId)
        ensures
            r == self.effective(color_refused(*no_color)),
    {
        self.effective_theme(no_color_requested(no_color))
    }
}

/// The color opt-out is present and not empty.
pub open spec fn color_refused(value: Option<Vec<u8>>) -> bool {
    value is Some && value->0@.len() > 0
}

pub fn no_color_requested(value: &Option<Vec<u8>>) -> (r: bool)
    ensures
        r == color_refused(*value),
{
    match value {
        Some(v) => v.len() > 0,
        None => false,
    }
}

/// The warning shown where a saved preference could not be used.
pub open spec fn load_warning(location: Seq<u8>, e: ErrorModel) -> Seq<char> {
    "could not load configuration at "@ + text::lossy_text(location) + ": "@ + error::error_text(e)
        + "; using "@ + ThemeId::AdaptiveCyan.name()
}

/// The preference that a loaded file stands for: the file itself, or the first
/// run with a warning where loading failed.
pub fn preference_of(loaded: Result<Option<ConfigFile>, MuxError>, location: &UnixPath) -> (r:
    ThemePreference)
    ensures
        match loaded {
            Ok(saved) => {
                &&& r.settings() == saved_or_default(config_view(saved))
                &&& r.was_saved == (saved is Some)
                &&& r.warning is None
            },
            Err(e) => {
                &&& r.settings() == first_run()
                &&& !r.was_saved
                &&& text::option_view(r.warning) == Some(load_warning(location@, e@))
            },
        },
{
    match loaded {
        Ok(saved) => {
            let was_saved = saved.is_some();
            let config = base_config(saved);
            ThemePreference {
                selected: config.theme,
                warning: None,
                was_saved,
                profiles: config.profiles,
                smart_naming: config.smart_naming,
                process: config.process,
            }
        },
        Err(e) => {
            let mut warning = "could not load configuration at ".to_owned();
            warning.append(&location.display());
            warning.append(": ");
            warning.append(&e.to_text());
            warning.append("; using ");
            warning.append(ThemeId::AdaptiveCyan.as_str());
            ThemePreference {
                selected: ThemeId::AdaptiveCyan,
                warning: Some(warning),
                was_saved: false,
                profiles: default_profiles(),
                smart_naming: false,
                process: None,
            }
        },
    }
}

/// What of a loaded preference was saved as a theme.
pub fn saved_theme(preference: &ThemePreference) -> (r: Option<ThemeId>)
    ensures
        r == if preference.was_saved {
            Some(preference.selected)
        } else {
            None
        },
{
    if preference.was_saved {
        Some(preference.selected)
    } else {
        None
    }
}

/// Changing one setting leaves every other one as it was, whichever was changed.
pub proof fn changes_keep_the_rest(
    saved: Option<ConfigModel>,
    theme: ThemeId,
    profiles: Seq<ProfileModel>,
    enabled: bool,
    process: ProcessModel,
)
    ensures
        ({
            let base = saved_or_default(saved);
            let a = ConfigModel { theme, ..base };
            let b = ConfigModel { profiles, ..a };
            let c = ConfigModel { smart_naming: enabled, ..b };
            let d = ConfigModel { process: Some(process), ..c };
            d == ConfigModel { theme, profiles, smart_naming: enabled, process: Some(process) }
        }),
{
}

/// Where the configuration lies, given the two directories of the environment;
/// an empty one counts as unset.
pub open spec fn config_location(config_home: Option<Seq<u8>>, home: Option<Seq<u8>>) -> Option<
    Seq<u8>,
> {
    if config_home is Some && config_home->0.len() > 0 {
        Some(
            path::joined(
                path::joined(config_home->0, text::utf8("codex-mux"@)),
                text::utf8("config.toml"@),
            ),
        )
    } else if home is Some && home->0.len() > 0 {
        Some(
            path::joined(
                path::joined(
                    path::joined(home->0, text::utf8(".config"@)),
                    text::utf8("codex-mux"@),
                ),
                text::utf8("config.toml"@),
            ),
        )
    } else {
        None
    }
}

pub fn default_config_path(config_home: &Option<UnixPath>, home: &Option<UnixPath>) -> (r: Result<
    UnixPath,
    MuxError,
>)
    ensures
        match r {
            Ok(p) => config_location(
                domain::path_view(*config_home),
                domain::path_view(*home),
            ) == Some(p@),
            Err(e) => config_location(
                domain::path_view(*config_home),
                domain::path_view(*home),
            ) is None && e@ == (ErrorModel::InvalidValue {
                field: "configuration environment"@,
                message: "neither XDG_CONFIG_HOME nor HOME is set"@,
            }),
        },
{
    if let Some(root) = config_home {
        if !root.is_empty() {
            return Ok(
                root.join(&UnixPath::new("codex-mux")).join(&UnixPath::new("config.toml")),
            );
        }
    }
    if let Some(home) = home {
        if !home.is_empty() {
            return Ok(
                home.join(&UnixPath::new(".config")).join(&UnixPath::new("codex-mux")).join(
                    &UnixPath::new("config.toml"),
                ),
            );
        }
    }
    Err(
        invalid_value("configuration environment", "neither XDG_CONFIG_HOME nor HOME is set"),
    )
}

/// The name of the file that a save writes before it takes the place of the
/// configuration.
pub open spec fn temporary_name(file: Option<Seq<char>>, process: u32, count: u64) -> Seq<char> {
    let name = match file {
        Some(name) => name,
        None => "config.toml"@,
    };
    "."@ + name + "."@ + number::decimal(process as nat) + "."@ + number::decimal(count as nat)
        + ".tmp"@
}

/// The place of the saved preference.
#[derive(Debug, PartialEq, Eq)]
pub struct XdgThemeStore {
    location: UnixPath,
}

impl View for XdgThemeStore {
    type V = Seq<u8>;

    closed spec fn view(&self) -> Seq<u8> {
        self.location@
    }
}

impl XdgThemeStore {
    /// A store at the default place.
    pub fn discover(config_home: &Option<UnixPath>, home: &Option<UnixPath>) -> (r: Result<
        XdgThemeStore,
        MuxError,
    >)
        ensures
            match r {
                Ok(store) => config_location(
                    domain::path_view(*config_home),
                    domain::path_view(*home),
                ) == Some(store@),
                Err(e) => config_location(
                    domain::path_view(*config_home),
                    domain::path_view(*home),
                ) is None && e@ == (ErrorModel::InvalidValue {
                    field: "configuration environment"@,
                    message: "neither XDG_CONFIG_HOME nor HOME is set"@,
                }),
            },
    {
        match default_config_path(config_home, home) {
            Ok(location) => Ok(XdgThemeStore { location }),
            Err(e) => Err(e),
        }
    }

    /// A store at an explicit place.
    pub fn at(location: UnixPath) -> (r: XdgThemeStore)
        ensures
            r@ == location@,
    {
        XdgThemeStore { location }
    }

    pub fn path(&self) -> (r: &UnixPath)
        ensures
            r@ == self@,
    {
        &self.location
    }

    /// The name of the temporary file of one save.
    pub fn temporary_file(&self, process: u32, count: u64) -> (r: String)
        ensures
            r@ == temporary_name(
                match path::file_name(self@) {
                    Some(name) => text::utf8_decoded(name),
                    None => None,
                },
                process,
                count,
            ),
    {
        let name = match self.location.file_name() {
            Some(name) => text::read_utf8(&name),
            None => None,
        };
        let mut s = ".".to_owned();
        match &name {
            Some(name) => s.append(name),
            None => s.append("config.toml"),
        }
        s.append(".");
        s.append(&decimal_text(process as u64));
        s.append(".");
        s.append(&decimal_text(count));
        s.append(".tmp");
        s
    }
}

} // verus!
