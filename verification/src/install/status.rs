//! What is installed, and how it differs from what would be.

use vstd::prelude::*;
use crate::domain;
use crate::install::block::{
    ExecutablePaths, PathsModel, BINARY_FIELD, CODEX_FIELD, KEY_FIELD, LAUNCH_FIELD,
    MATCH_COMMAND_REGEX_FIELD, MATCH_FIELD, MATCH_SCOPE_FIELD, PANE_COMMAND_FIELD,
    PANE_COMMAND_REGEX_FIELD, SMART_LEFT_FIELD,
};
use crate::install::failure;
use crate::install::failure::{
    validate_regular_writable, FailureModel, InstallError, PathFacts,
};
use crate::install::plan;
use crate::install::plan::{locate_markers, parse_smart_left, HostFile};
use crate::markers::Found;
use crate::path;
use crate::path::UnixPath;
use crate::scan;
use crate::text;
use crate::text::text_equal;

verus! {

/// The block of a host file, and its drift.
#[derive(Debug)]
pub struct InstallStatus {
    pub path: UnixPath,
    /// Whether there is a block.
    pub installed: bool,
    pub key: Option<String>,
    pub mux: Option<UnixPath>,
    pub codex: Option<UnixPath>,
    pub match_executables: Vec<UnixPath>,
    pub pane_commands: Vec<String>,
    pub match_scope: Option<String>,
    pub match_command_regexes: Vec<String>,
    pub pane_command_regexes: Vec<String>,
    pub smart_left: bool,
    /// Differences from the resolved executables, for the user.
    pub drift: Vec<String>,
}

#[verifier::ext_equal]
pub struct StatusModel {
    pub installed: bool,
    pub key: Option<Seq<char>>,
    pub mux: Option<Seq<u8>>,
    pub codex: Option<Seq<u8>>,
    pub match_executables: Seq<Seq<u8>>,
    pub pane_commands: Seq<Seq<char>>,
    pub match_scope: Option<Seq<char>>,
    pub match_command_regexes: Seq<Seq<char>>,
    pub pane_command_regexes: Seq<Seq<char>>,
    pub smart_left: bool,
    pub drift: Seq<Seq<char>>,
}

impl View for InstallStatus {
    type V = StatusModel;

    open spec fn view(&self) -> StatusModel {
        StatusModel {
            installed: self.installed,
            key: text::option_view(self.key),
            mux: domain::path_view(self.mux),
            codex: domain::path_view(self.codex),
            match_executables: domain::path_list(self.match_executables@),
            pane_commands: text::texts(self.pane_commands@),
            match_scope: text::option_view(self.match_scope),
            match_command_regexes: text::texts(self.match_command_regexes@),
            pane_command_regexes: text::texts(self.pane_command_regexes@),
            smart_left: self.smart_left,
            drift: text::texts(self.drift@),
        }
    }
}

pub open spec fn not_installed() -> StatusModel {
    StatusModel {
        installed: false,
        key: None,
        mux: None,
        codex: None,
        match_executables: Seq::empty(),
        pane_commands: Seq::empty(),
        match_scope: None,
        match_command_regexes: Seq::empty(),
        pane_command_regexes: Seq::empty(),
        smart_left: false,
        drift: Seq::empty(),
    }
}

pub open spec fn as_path(value: Option<Seq<char>>) -> Option<Seq<u8>> {
    match value {
        Some(t) => Some(text::utf8(t)),
        None => None,
    }
}

/// The recorded Codex executable: the launch field, else the older field.
pub open spec fn recorded_codex(contents: Seq<char>) -> Option<Seq<u8>> {
    let launch = plan::field_in(contents, LAUNCH_FIELD@);
    as_path(
        if launch is Some {
            launch
        } else {
            plan::field_in(contents, CODEX_FIELD@)
        },
    )
}

/// The recorded paths, else that of the older field.
pub open spec fn recorded_matches(contents: Seq<char>) -> Seq<Seq<u8>> {
    let listed = text::utf8_words(plan::fields_in(contents, MATCH_FIELD@));
    if listed.len() > 0 {
        listed
    } else {
        match plan::field_in(contents, CODEX_FIELD@) {
            Some(t) => seq![text::utf8(t)],
            None => Seq::empty(),
        }
    }
}

/// The recorded pane commands, else the name of the older field.
pub open spec fn recorded_commands(contents: Seq<char>) -> Seq<Seq<char>> {
    let listed = plan::fields_in(contents, PANE_COMMAND_FIELD@);
    if listed.len() > 0 {
        listed
    } else {
        match plan::field_in(contents, CODEX_FIELD@) {
            Some(t) => match path::file_name(text::utf8(t)) {
                Some(name) => match text::utf8_decoded(name) {
                    Some(command) => seq![command],
                    None => Seq::empty(),
                },
                None => Seq::empty(),
            },
            None => Seq::empty(),
        }
    }
}

pub open spec fn shown_path(p: Option<Seq<u8>>) -> Seq<char> {
    match p {
        Some(p) => text::lossy_text(p),
        None => "<missing>"@,
    }
}

pub open spec fn shown_paths(paths: Seq<Seq<u8>>) -> Seq<char> {
    scan::join_with(Seq::new(paths.len(), |i: int| text::lossy_text(paths[i])), ","@)
}

pub open spec fn same_paths(a: Seq<Seq<u8>>, b: Seq<Seq<u8>>) -> bool {
    a.len() == b.len() && forall|i: int|
        0 <= i < a.len() ==> path::same_path(#[trigger] a[i], b[i])
}

pub open spec fn is_path(p: Option<Seq<u8>>, expected: Seq<u8>) -> bool {
    p is Some && path::same_path(p->0, expected)
}

/// A message where a condition holds.
pub open spec fn noted(condition: bool, message: Seq<char>) -> Seq<Seq<char>> {
    if condition {
        seq![message]
    } else {
        Seq::empty()
    }
}

/// Every difference between what is recorded and what is expected.
pub open spec fn drift_of(contents: Seq<char>, expected: PathsModel) -> Seq<Seq<char>> {
    let mux = as_path(plan::field_in(contents, BINARY_FIELD@));
    let codex = recorded_codex(contents);
    let matches = recorded_matches(contents);
    let commands = recorded_commands(contents);
    let scope = plan::field_in(contents, MATCH_SCOPE_FIELD@);
    noted(
        !is_path(mux, expected.mux),
        "codex-mux path: installed="@ + shown_path(mux) + " resolved="@ + text::lossy_text(
            expected.mux,
        ),
    ) + noted(
        !is_path(codex, expected.codex),
        "Codex path: installed="@ + shown_path(codex) + " resolved="@ + text::lossy_text(
            expected.codex,
        ),
    ) + noted(
        !same_paths(matches, expected.match_executables),
        "Codex match executables: installed="@ + shown_paths(matches) + " resolved="@
            + shown_paths(expected.match_executables),
    ) + noted(
        commands != expected.pane_commands,
        "Codex pane commands: installed="@ + scan::join_with(commands, ","@) + " resolved="@
            + scan::join_with(expected.pane_commands, ","@),
    ) + noted(
        scope != Some(expected.match_scope),
        "Codex match scope: installed="@ + (match scope {
            Some(scope) => scope,
            None => "<missing>"@,
        }) + " resolved="@ + expected.match_scope,
    ) + noted(
        plan::fields_in(contents, MATCH_COMMAND_REGEX_FIELD@) != expected.match_command_regexes,
        "Codex match command regexes differ"@,
    ) + noted(
        plan::fields_in(contents, PANE_COMMAND_REGEX_FIELD@) != expected.pane_command_regexes,
        "Codex pane command regexes differ"@,
    )
}

/// What a host file records, against what is expected.
pub open spec fn status_of(contents: Seq<char>, expected: PathsModel, smart_left: bool) -> StatusModel {
    if plan::block_in(contents) is At {
        StatusModel {
            installed: true,
            key: plan::field_in(contents, KEY_FIELD@),
            mux: as_path(plan::field_in(contents, BINARY_FIELD@)),
            codex: recorded_codex(contents),
            match_executables: recorded_matches(contents),
            pane_commands: recorded_commands(contents),
            match_scope: plan::field_in(contents, MATCH_SCOPE_FIELD@),
            match_command_regexes: plan::fields_in(contents, MATCH_COMMAND_REGEX_FIELD@),
            pane_command_regexes: plan::fields_in(contents, PANE_COMMAND_REGEX_FIELD@),
            smart_left,
            drift: drift_of(contents, expected),
        }
    } else {
        not_installed()
    }
}

/// Why the status of a file cannot be told.
pub open spec fn status_problem(path: Seq<u8>, facts: PathFacts, bytes: Seq<u8>) -> Option<
    FailureModel,
> {
    let contents = text::utf8_decoded(bytes)->0;
    let flag = plan::smart_left_flag(plan::field_in(contents, SMART_LEFT_FIELD@));
    if failure::path_problem(path, facts) is Some {
        failure::path_problem(path, facts)
    } else if plan::contents_problem(bytes) is Some {
        plan::contents_problem(bytes)
    } else if flag is Err {
        Some(flag->Err_0)
    } else {
        None
    }
}

// ---------------------------------------------------------------------------
// Functions
// ---------------------------------------------------------------------------

fn to_path(value: &Option<String>) -> (r: Option<UnixPath>)
    ensures
        domain::path_view(r) == as_path(text::option_view(*value)),
{
    match value {
        Some(t) => Some(UnixPath::new(t)),
        None => None,
    }
}

fn to_paths(values: &Vec<String>) -> (r: Vec<UnixPath>)
    ensures
        domain::path_list(r@) == text::utf8_words(text::texts(values@)),
{
    let ghost all = text::utf8_words(text::texts(values@));
    let mut r: Vec<UnixPath> = Vec::new();
    let mut i: usize = 0;
    while i < values.len()
        invariant
            i <= values.len(),
            domain::path_list(r@) =~= all.take(i as int),
        decreases values.len() - i,
    {
        r.push(UnixPath::new(&values[i]));
        i += 1;
    }
    assert(domain::path_list(r@) =~= all);
    r
}

fn is_same_paths(a: &Vec<UnixPath>, b: &Vec<UnixPath>) -> (r: bool)
    ensures
        r == same_paths(domain::path_list(a@), domain::path_list(b@)),
{
    let ghost x = domain::path_list(a@);
    let ghost y = domain::path_list(b@);
    assert(x.len() == a.len() && y.len() == b.len());
    if a.len() != b.len() {
        return false;
    }
    let mut i: usize = 0;
    while i < a.len()
        invariant
            i <= a.len(),
            forall|j: int| 0 <= j < i ==> path::same_path(#[trigger] x[j], y[j]),
        decreases a.len() - i,
    {
        assert(x[i as int] == a@[i as int]@ && y[i as int] == b@[i as int]@);
        if !a[i].same_as(&b[i]) {
            return false;
        }
        i += 1;
    }
    true
}

pub fn texts_equal(a: &Vec<String>, b: &Vec<String>) -> (r: bool)
    ensures
        r == (text::texts(a@) == text::texts(b@)),
{
    let ghost x = text::texts(a@);
    let ghost y = text::texts(b@);
    assert(x.len() == a.len() && y.len() == b.len());
    if a.len() != b.len() {
        return false;
    }
    let mut i: usize = 0;
    while i < a.len()
        invariant
            i <= a.len(),
            a.len() == b.len(),
            forall|j: int| 0 <= j < i ==> x[j] == y[j],
        decreases a.len() - i,
    {
        assert(x[i as int] == a@[i as int]@ && y[i as int] == b@[i as int]@);
        if !text_equal(&a[i], &b[i]) {
            assert(x[i as int] != y[i as int]);
            return false;
        }
        i += 1;
    }
    assert(x =~= y);
    true
}

/// Paths as one text.
pub fn display_paths(paths: &Vec<UnixPath>) -> (r: String)
    ensures
        r@ == shown_paths(domain::path_list(paths@)),
{
    let ghost all = domain::path_list(paths@);
    let ghost whole = Seq::new(all.len(), |i: int| text::lossy_text(all[i]));
    let mut shown = text::no_texts();
    let mut i: usize = 0;
    while i < paths.len()
        invariant
            i <= paths.len(),
            text::texts(shown@) =~= whole.take(i as int),
        decreases paths.len() - i,
    {
        text::push_text(&mut shown, paths[i].display());
        i += 1;
    }
    assert(text::texts(shown@) =~= whole);
    text::join_texts(&shown, ",")
}

fn display_path(p: &Option<UnixPath>) -> (r: String)
    ensures
        r@ == shown_path(domain::path_view(*p)),
{
    match p {
        Some(p) => p.display(),
        None => "<missing>".to_owned(),
    }
}

fn difference(what: &str, installed: &str, resolved: &str) -> (r: String)
    ensures
        r@ == what@ + installed@ + " resolved="@ + resolved@,
{
    let mut s = what.to_owned();
    s.append(installed);
    s.append(" resolved=");
    s.append(resolved);
    s
}

fn matches_path(p: &Option<UnixPath>, expected: &UnixPath) -> (r: bool)
    ensures
        r == is_path(domain::path_view(*p), expected@),
{
    match p {
        Some(p) => p.same_as(expected),
        None => false,
    }
}

fn note_if(drift: &mut Vec<String>, condition: bool, message: String)
    ensures
        text::texts(final(drift)@) == text::texts(old(drift)@) + noted(condition, message@),
{
    let ghost before = text::texts(drift@);
    let ghost m = message@;
    if condition {
        text::push_text(drift, message);
        assert(before.push(m) =~= before + seq![m]);
    } else {
        assert(before + Seq::<Seq<char>>::empty() =~= before);
    }
}

fn read_matches(file: &HostFile, legacy: &Option<String>) -> (r: Vec<UnixPath>)
    requires
        file.consistent(),
        text::option_view(*legacy) == plan::field_in(file.contents@, CODEX_FIELD@),
    ensures
        domain::path_list(r@) == recorded_matches(file.contents@),
{
    let mut r = to_paths(&plan::read_fields(file, MATCH_FIELD));
    assert(domain::path_list(r@).len() == r@.len());
    if r.len() == 0 {
        if let Some(t) = legacy {
            r.push(UnixPath::new(t));
        }
    }
    assert(domain::path_list(r@) =~= recorded_matches(file.contents@));
    r
}

fn read_commands(file: &HostFile, legacy: &Option<String>) -> (r: Vec<String>)
    requires
        file.consistent(),
        text::option_view(*legacy) == plan::field_in(file.contents@, CODEX_FIELD@),
    ensures
        text::texts(r@) == recorded_commands(file.contents@),
{
    let mut r = plan::read_fields(file, PANE_COMMAND_FIELD);
    assert(text::texts(r@).len() == r@.len());
    if r.len() == 0 {
        if let Some(t) = legacy {
            if let Some(name) = UnixPath::new(t).file_name() {
                if let Some(command) = text::read_utf8(&name) {
                    text::push_text(&mut r, command);
                }
            }
        }
    }
    assert(text::texts(r@) =~= recorded_commands(file.contents@));
    r
}

/// Reads what is installed.
pub fn status(path: &UnixPath, facts: &PathFacts, bytes: &[u8], expected: &ExecutablePaths) -> (r:
    Result<InstallStatus, InstallError>)
    ensures
        match r {
            Ok(status) => {
                let contents = text::utf8_decoded(bytes@)->0;
                let flag = plan::smart_left_flag(plan::field_in(contents, SMART_LEFT_FIELD@));
                &&& status_problem(path@, *facts, bytes@) is None
                &&& status.path@ == path@
                &&& status@ == status_of(contents, expected@, flag->Ok_0)
            },
            Err(e) => status_problem(path@, *facts, bytes@) == Some(e@),
        },
{
    match validate_regular_writable(path, facts) {
        Ok(_) => {},
        Err(e) => return Err(e),
    }
    let file = match locate_markers(bytes) {
        Ok(file) => file,
        Err(e) => return Err(e),
    };
    let ghost contents = file.contents@;
    let region = match file.found {
        Found::At(region) => region,
        _ => {
            let status = InstallStatus {
                path: path.clone(),
                installed: false,
                key: None,
                mux: None,
                codex: None,
                match_executables: Vec::new(),
                pane_commands: Vec::new(),
                match_scope: None,
                match_command_regexes: Vec::new(),
                pane_command_regexes: Vec::new(),
                smart_left: false,
                drift: Vec::new(),
            };
            proof {
                let none = not_installed();
                assert(status@.match_executables =~= none.match_executables);
                assert(status@.pane_commands =~= none.pane_commands);
                assert(status@.match_command_regexes =~= none.match_command_regexes);
                assert(status@.pane_command_regexes =~= none.pane_command_regexes);
                assert(status@.drift =~= none.drift);
            }
            return Ok(status);
        },
    };
    let smart_left = match parse_smart_left(&plan::read_field(&file, SMART_LEFT_FIELD)) {
        Ok(flag) => flag,
        Err(e) => return Err(e),
    };
    let key = plan::read_field(&file, KEY_FIELD);
    let mux = to_path(&plan::read_field(&file, BINARY_FIELD));
    let legacy = plan::read_field(&file, CODEX_FIELD);
    let launch = plan::read_field(&file, LAUNCH_FIELD);
    let codex = if launch.is_some() {
        to_path(&launch)
    } else {
        to_path(&legacy)
    };
    let match_executables = read_matches(&file, &legacy);
    let pane_commands = read_commands(&file, &legacy);
    let match_scope = plan::read_field(&file, MATCH_SCOPE_FIELD);
    let match_command_regexes = plan::read_fields(&file, MATCH_COMMAND_REGEX_FIELD);
    let pane_command_regexes = plan::read_fields(&file, PANE_COMMAND_REGEX_FIELD);
    let same_scope = match &match_scope {
        Some(scope) => text_equal(scope, &expected.match_scope),
        None => false,
    };
    let shown_scope = match &match_scope {
        Some(scope) => scope.clone(),
        None => "<missing>".to_owned(),
    };
    let mut drift = text::no_texts();
    note_if(
        &mut drift,
        !matches_path(&mux, &expected.mux),
        difference("codex-mux path: installed=", &display_path(&mux), &expected.mux.display()),
    );
    note_if(
        &mut drift,
        !matches_path(&codex, &expected.codex),
        difference("Codex path: installed=", &display_path(&codex), &expected.codex.display()),
    );
    note_if(
        &mut drift,
        !is_same_paths(&match_executables, &expected.match_executables),
        difference(
            "Codex match executables: installed=",
            &display_paths(&match_executables),
            &display_paths(&expected.match_executables),
        ),
    );
    note_if(
        &mut drift,
        !texts_equal(&pane_commands, &expected.pane_commands),
        difference(
            "Codex pane commands: installed=",
            &text::join_texts(&pane_commands, ","),
            &text::join_texts(&expected.pane_commands, ","),
        ),
    );
    note_if(
        &mut drift,
        !same_scope,
        difference("Codex match scope: installed=", &shown_scope, &expected.match_scope),
    );
    note_if(
        &mut drift,
        !texts_equal(&match_command_regexes, &expected.match_command_regexes),
        "Codex match command regexes differ".to_owned(),
    );
    note_if(
        &mut drift,
        !texts_equal(&pane_command_regexes, &expected.pane_command_regexes),
        "Codex pane command regexes differ".to_owned(),
    );
    assert(text::texts(drift@) =~= drift_of(contents, expected@));
    Ok(
        InstallStatus {
            path: path.clone(),
            installed: true,
            key,
            mux,
            codex,
            match_executables,
            pane_commands,
            match_scope,
            match_command_regexes,
            pane_command_regexes,
            smart_left,
            drift,
        },
    )
}

} // verus!
