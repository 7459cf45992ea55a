//! Reading command lines: shells, interpreters and the scripts that they run.

use vstd::prelude::*;
use crate::domain;
use crate::domain::CodexExecutable;
use crate::linux_process::evidence::{EvidenceModel, ProcessEvidence};
use crate::path;
use crate::path::UnixPath;
use crate::pattern;
use crate::pattern::any_match;
use crate::scan;
use crate::scan::{contains_char, starts_with};
use crate::text;
use crate::text::{bytes_equal, bytes_of, read_utf8, text_equal, to_chars};
use crate::tmux::inventory;

verus! {

// ---------------------------------------------------------------------------
// Interactive shells
// ---------------------------------------------------------------------------

/// A text without the hyphens at its start.
pub open spec fn without_hyphens(s: Seq<char>) -> Seq<char>
    decreases s.len(),
{
    if s.len() > 0 && s[0] == '-' {
        without_hyphens(s.skip(1))
    } else {
        s
    }
}

fn trim_hyphens(s: &str) -> (r: String)
    ensures
        r@ == without_hyphens(s@),
{
    let v = to_chars(s);
    let mut i: usize = 0;
    assert(v@.skip(0) =~= v@);
    while i < v.len() && v[i] == '-'
        invariant
            i <= v.len(),
            v@ == s@,
            without_hyphens(s@) == without_hyphens(v@.skip(i as int)),
        decreases v.len() - i,
    {
        assert(v@.skip(i as int).skip(1) =~= v@.skip(i + 1));
        i += 1;
    }
    let r = text::slice_text(&v, i, v.len());
    assert(r@ =~= v@.skip(i as int));
    r
}

/// The first argument names the shell; a login shell has a hyphen before it.
pub open spec fn names_shell(argument: Seq<u8>, command: Seq<char>) -> bool {
    match text::utf8_decoded(argument) {
        None => false,
        Some(_) => match path::file_name(argument) {
            None => false,
            Some(name) => match text::utf8_decoded(name) {
                None => false,
                Some(name) => without_hyphens(name) == command,
            },
        },
    }
}

/// An option of the shell that takes the next argument as its value.
pub open spec fn takes_value(argument: Seq<char>, command: Seq<char>) -> bool {
    if command == "bash"@ {
        argument == "--rcfile"@ || argument == "--init-file"@ || argument == "-O"@ || argument
            == "+O"@
    } else if command == "zsh"@ {
        argument == "-o"@ || argument == "+o"@
    } else {
        false
    }
}

/// An option that has the shell run a command instead of reading one.
pub open spec fn runs_command(argument: Seq<char>) -> bool {
    argument == "--command"@ || (argument.len() > 0 && argument[0] == '-' && !(argument.len() > 1
        && argument[1] == '-') && argument.skip(1).contains('c'))
}

/// From the `k`-th argument on, everything is an option that leaves the shell
/// interactive.
pub open spec fn options_interactive(arguments: Seq<Seq<u8>>, k: int, command: Seq<char>) -> bool
    decreases arguments.len() - k,
{
    if k >= arguments.len() {
        true
    } else {
        match text::utf8_decoded(arguments[k]) {
            None => false,
            Some(argument) => if argument == "--"@ {
                k + 1 == arguments.len()
            } else if runs_command(argument) {
                false
            } else if takes_value(argument, command) {
                k + 1 < arguments.len() && arguments[k + 1].len() > 0 && options_interactive(
                    arguments,
                    k + 2,
                    command,
                )
            } else {
                argument.len() > 0 && (argument[0] == '-' || argument[0] == '+')
                    && options_interactive(arguments, k + 1, command)
            },
        }
    }
}

/// The arguments are those of an interactive shell: no command and no script.
pub open spec fn interactive(arguments: Seq<Seq<u8>>, command: Seq<char>) -> bool {
    &&& arguments.len() > 0
    &&& names_shell(arguments[0], command)
    &&& options_interactive(arguments, 1, command)
}

fn is_shell_name(argument: &Vec<u8>, command: &str) -> (r: bool)
    ensures
        r == names_shell(argument@, command@),
{
    if read_utf8(argument).is_none() {
        return false;
    }
    match UnixPath::from_bytes(argument).file_name() {
        None => false,
        Some(name) => match read_utf8(&name) {
            None => false,
            Some(name) => text_equal(&trim_hyphens(&name), command),
        },
    }
}

fn option_takes_value(argument: &str, command: &str) -> (r: bool)
    ensures
        r == takes_value(argument@, command@),
{
    if text_equal(command, "bash") {
        text_equal(argument, "--rcfile") || text_equal(argument, "--init-file") || text_equal(
            argument,
            "-O",
        ) || text_equal(argument, "+O")
    } else if text_equal(command, "zsh") {
        text_equal(argument, "-o") || text_equal(argument, "+o")
    } else {
        false
    }
}

fn option_runs_command(argument: &str) -> (r: bool)
    ensures
        r == runs_command(argument@),
{
    if text_equal(argument, "--command") {
        return true;
    }
    let v = to_chars(argument);
    if v.len() == 0 || v[0] != '-' || (v.len() > 1 && v[1] == '-') {
        return false;
    }
    let mut i: usize = 1;
    while i < v.len()
        invariant
            1 <= i <= v.len(),
            v@ == argument@,
            forall|j: int| 1 <= j < i ==> v@[j] != 'c',
        decreases v.len() - i,
    {
        if v[i] == 'c' {
            assert(argument@.skip(1)[i - 1] == 'c');
            return true;
        }
        i += 1;
    }
    assert(!argument@.skip(1).contains('c')) by {
        if argument@.skip(1).contains('c') {
            let j = choose|j: int| 0 <= j < argument@.skip(1).len() && argument@.skip(1)[j] == 'c';
            assert(v@[j + 1] == 'c');
        }
    }
    false
}

/// Whether the arguments are those of an interactive shell.
pub fn interactive_shell_arguments(arguments: &Vec<Vec<u8>>, command: &str) -> (r: bool)
    ensures
        r == interactive(text::words(arguments@), command@),
{
    let ghost all = text::words(arguments@);
    if arguments.len() == 0 {
        return false;
    }
    assert(all[0] == arguments@[0]@);
    if !is_shell_name(&arguments[0], command) {
        return false;
    }
    let mut index: usize = 1;
    while index < arguments.len()
        invariant
            1 <= index <= arguments.len() + 1,
            options_interactive(all, 1, command@) == options_interactive(
                all,
                index as int,
                command@,
            ),
        decreases arguments.len() + 1 - index,
    {
        assert(all[index as int] == arguments@[index as int]@);
        let argument = match read_utf8(&arguments[index]) {
            None => return false,
            Some(argument) => argument,
        };
        if text_equal(&argument, "--") {
            return index == arguments.len() - 1;
        }
        if option_runs_command(&argument) {
            return false;
        }
        if option_takes_value(&argument, command) {
            if index == arguments.len() - 1 {
                return false;
            }
            assert(all[index + 1] == arguments@[index + 1]@);
            if arguments[index + 1].len() == 0 {
                return false;
            }
            index += 2;
        } else {
            let v = to_chars(&argument);
            if v.len() == 0 || (v[0] != '-' && v[0] != '+') {
                return false;
            }
            index += 1;
        }
    }
    true
}

/// A shell that a command or a script was given to is not interactive.
pub proof fn a_command_is_not_interactive(arguments: Seq<Seq<u8>>, command: Seq<char>)
    requires
        arguments.len() == 3,
        arguments[1] == text::utf8("-c"@),
    ensures
        !interactive(arguments, command),
{
    text::utf8_decodes_back("-c"@);
    reveal_strlit("-c");
    reveal_strlit("--");
    assert("-c"@[1] != "--"@[1]);
    assert("-c"@.skip(1)[0] == 'c');
    assert(runs_command("-c"@));
}

// ---------------------------------------------------------------------------
// Interpreters
// ---------------------------------------------------------------------------

/// A program that is known to run scripts, by its name.
pub open spec fn known_interpreter(name: Seq<u8>) -> bool {
    ||| name == text::utf8("env"@)
    ||| name == text::utf8("sh"@)
    ||| name == text::utf8("bash"@)
    ||| name == text::utf8("dash"@)
    ||| name == text::utf8("zsh"@)
    ||| name == text::utf8("node"@)
    ||| name == text::utf8("nodejs"@)
    ||| name == text::utf8("bun"@)
    ||| name == text::utf8("deno"@)
    ||| name == text::utf8("python"@)
    ||| name == text::utf8("python3"@)
    ||| match text::utf8_decoded(name) {
        Some(t) => "python3."@.is_prefix_of(t),
        None => false,
    }
}

fn names(name: &Vec<u8>, known: &str) -> (r: bool)
    ensures
        r == (name@ == text::utf8(known@)),
{
    bytes_equal(name, &bytes_of(known))
}

pub fn is_known_interpreter(name: &Vec<u8>) -> (r: bool)
    ensures
        r == known_interpreter(name@),
{
    if names(name, "env") || names(name, "sh") || names(name, "bash") || names(name, "dash")
        || names(name, "zsh") || names(name, "node") || names(name, "nodejs") || names(name, "bun")
        || names(name, "deno") || names(name, "python") || names(name, "python3") {
        return true;
    }
    match read_utf8(name) {
        Some(t) => starts_with(&t, "python3."),
        None => false,
    }
}

/// The places where a trusted interpreter of a name may stand.
pub open spec fn interpreter_places(name: Seq<u8>, search: Seq<Seq<u8>>) -> Seq<Seq<u8>> {
    seq![
        path::joined(text::utf8("/usr/bin"@), name),
        path::joined(text::utf8("/bin"@), name),
    ] + Seq::new(search.len(), |i: int| path::joined(search[i], name))
}

/// The files to look at before an executable counts as a trusted interpreter;
/// none where its name is not known.
pub open spec fn places_to_look(executable: Seq<u8>, search: Seq<Seq<u8>>) -> Seq<Seq<u8>> {
    match path::file_name(executable) {
        Some(name) => if known_interpreter(name) {
            interpreter_places(name, search)
        } else {
            Seq::empty()
        },
        None => Seq::empty(),
    }
}

pub fn interpreter_candidates(executable: &UnixPath, search: &Vec<UnixPath>) -> (r: Vec<UnixPath>)
    ensures
        domain::path_list(r@) == places_to_look(executable@, domain::path_list(search@)),
{
    let mut r: Vec<UnixPath> = Vec::new();
    assert(domain::path_list(r@) =~= Seq::<Seq<u8>>::empty());
    let name = match executable.file_name() {
        Some(name) => name,
        None => return r,
    };
    if !is_known_interpreter(&name) {
        return r;
    }
    let leaf = UnixPath::from_bytes(&name);
    let ghost all = interpreter_places(name@, domain::path_list(search@));
    r.push(UnixPath::new("/usr/bin").join(&leaf));
    r.push(UnixPath::new("/bin").join(&leaf));
    let mut i: usize = 0;
    assert(domain::path_list(r@) =~= all.take(2));
    while i < search.len()
        invariant
            i <= search.len(),
            domain::path_list(r@) == all.take(2 + i),
        decreases search.len() - i,
    {
        let ghost before = domain::path_list(r@);
        let place = search[i].join(&leaf);
        let ghost one = place@;
        r.push(place);
        proof {
            assert(domain::path_list(r@) =~= before.push(one));
            assert(all[2 + i] == one);
            assert(all.take(2 + i + 1) =~= all.take(2 + i).push(all[2 + i]));
        }
        i += 1;
    }
    assert(all.take(all.len() as int) =~= all);
    r
}

/// Two paths name one file: they are equal, or both resolve to the same.
pub open spec fn same_file(
    a: Seq<u8>,
    b: Seq<u8>,
    a_file: Option<Seq<u8>>,
    b_file: Option<Seq<u8>>,
) -> bool {
    path::same_path(a, b) || (a_file is Some && b_file is Some && path::same_path(
        a_file->0,
        b_file->0,
    ))
}

pub fn names_same_file(
    a: &UnixPath,
    b: &UnixPath,
    a_file: &Option<UnixPath>,
    b_file: &Option<UnixPath>,
) -> (r: bool)
    ensures
        r == same_file(a@, b@, domain::path_view(*a_file), domain::path_view(*b_file)),
{
    if a.same_as(b) {
        return true;
    }
    match (a_file, b_file) {
        (Some(x), Some(y)) => x.same_as(y),
        _ => false,
    }
}

/// The argument that an interpreter runs as its script, `None` where there is
/// none or where options make it doubtful.
pub open spec fn script_argument(executable: Seq<u8>, arguments: Seq<Seq<u8>>) -> Option<Seq<u8>> {
    match path::file_name(executable) {
        None => None,
        Some(name) => match text::utf8_decoded(name) {
            None => None,
            Some(name) => if arguments.len() == 0 {
                None
            } else if name == "env"@ {
                env_script(arguments, 1)
            } else if arguments.len() < 2 {
                None
            } else {
                match text::utf8_decoded(arguments[1]) {
                    None => None,
                    Some(first) => if first == "--"@ || (name == "deno"@ && first == "run"@) {
                        if arguments.len() > 2 {
                            Some(arguments[2])
                        } else {
                            None
                        }
                    } else if name == "deno"@ || (first.len() > 0 && first[0] == '-') {
                        None
                    } else {
                        Some(arguments[1])
                    },
                }
            },
        },
    }
}

/// The first argument of `env` that is no assignment, unless an option comes
/// before it.
pub open spec fn env_script(arguments: Seq<Seq<u8>>, k: int) -> Option<Seq<u8>>
    decreases arguments.len() - k,
{
    if k >= arguments.len() {
        None
    } else {
        match text::utf8_decoded(arguments[k]) {
            None => None,
            Some(value) => if value.len() > 0 && value[0] == '-' {
                None
            } else if !value.contains('=') {
                Some(arguments[k])
            } else {
                env_script(arguments, k + 1)
            },
        }
    }
}

fn starts_with_hyphen(value: &str) -> (r: bool)
    ensures
        r == (value@.len() > 0 && value@[0] == '-'),
{
    let v = to_chars(value);
    v.len() > 0 && v[0] == '-'
}

fn find_env_script(arguments: &Vec<Vec<u8>>) -> (r: Option<usize>)
    requires
        arguments@.len() > 0,
    ensures
        match r {
            Some(i) => i < arguments@.len() && env_script(text::words(arguments@), 1) == Some(
                arguments@[i as int]@,
            ),
            None => env_script(text::words(arguments@), 1) is None,
        },
{
    let ghost all = text::words(arguments@);
    let mut k: usize = 1;
    while k < arguments.len()
        invariant
            1 <= k <= arguments.len(),
            env_script(all, 1) == env_script(all, k as int),
        decreases arguments.len() - k,
    {
        assert(all[k as int] == arguments@[k as int]@);
        match read_utf8(&arguments[k]) {
            None => return None,
            Some(value) => {
                if starts_with_hyphen(&value) {
                    return None;
                }
                if !contains_char(&value, '=') {
                    return Some(k);
                }
            },
        }
        k += 1;
    }
    None
}

/// The position of the argument that an interpreter runs as its script.
fn find_script(executable: &UnixPath, arguments: &Vec<Vec<u8>>) -> (r: Option<usize>)
    ensures
        match r {
            Some(i) => i < arguments@.len() && script_argument(
                executable@,
                text::words(arguments@),
            ) == Some(arguments@[i as int]@),
            None => script_argument(executable@, text::words(arguments@)) is None,
        },
{
    let ghost all = text::words(arguments@);
    let name = match executable.file_name() {
        None => return None,
        Some(name) => match read_utf8(&name) {
            None => return None,
            Some(name) => name,
        },
    };
    if arguments.len() == 0 {
        return None;
    }
    if text_equal(&name, "env") {
        return find_env_script(arguments);
    }
    if arguments.len() < 2 {
        return None;
    }
    assert(all[1] == arguments@[1]@);
    let first = match read_utf8(&arguments[1]) {
        None => return None,
        Some(first) => first,
    };
    let deno = text_equal(&name, "deno");
    if text_equal(&first, "--") || (deno && text_equal(&first, "run")) {
        if arguments.len() > 2 {
            assert(all[2] == arguments@[2]@);
            return Some(2);
        }
        return None;
    }
    if deno || starts_with_hyphen(&first) {
        return None;
    }
    Some(1)
}

/// The script that an interpreter runs.
pub fn interpreted_script_argument(executable: &UnixPath, arguments: &Vec<Vec<u8>>) -> (r: Option<
    UnixPath,
>)
    ensures
        domain::path_view(r) == script_argument(executable@, text::words(arguments@)),
{
    match find_script(executable, arguments) {
        Some(i) => Some(UnixPath::from_bytes(&arguments[i])),
        None => None,
    }
}

// ---------------------------------------------------------------------------
// Command lines
// ---------------------------------------------------------------------------

/// Every argument as text, `None` where one is not text.
pub open spec fn argument_texts(arguments: Seq<Seq<u8>>) -> Option<Seq<Seq<char>>>
    decreases arguments.len(),
{
    if arguments.len() == 0 {
        Some(Seq::empty())
    } else {
        match (argument_texts(arguments.drop_last()), text::utf8_decoded(arguments.last())) {
            (Some(rest), Some(t)) => Some(rest.push(t)),
            _ => None,
        }
    }
}

/// The arguments joined by spaces.
pub open spec fn command_line(arguments: Seq<Seq<u8>>) -> Option<Seq<char>> {
    match argument_texts(arguments) {
        Some(texts) => Some(scan::join_with(texts, " "@)),
        None => None,
    }
}

proof fn texts_need_all(arguments: Seq<Seq<u8>>, i: int)
    requires
        0 <= i < arguments.len(),
        text::utf8_decoded(arguments[i]) is None,
    ensures
        argument_texts(arguments) is None,
    decreases arguments.len(),
{
    if i < arguments.len() - 1 {
        assert(arguments.drop_last()[i] == arguments[i]);
        texts_need_all(arguments.drop_last(), i);
    }
}

pub fn normalized_argv(arguments: &Vec<Vec<u8>>) -> (r: Option<String>)
    ensures
        text::option_view(r) == command_line(text::words(arguments@)),
{
    let ghost all = text::words(arguments@);
    let mut texts = text::no_texts();
    let mut i: usize = 0;
    assert(argument_texts(all.take(0)) == Some(Seq::<Seq<char>>::empty()));
    while i < arguments.len()
        invariant
            i <= arguments.len(),
            argument_texts(all.take(i as int)) == Some(text::texts(texts@)),
        decreases arguments.len() - i,
    {
        assert(all[i as int] == arguments@[i as int]@);
        assert(all.take(i + 1).drop_last() =~= all.take(i as int));
        match read_utf8(&arguments[i]) {
            Some(t) => {
                text::push_text(&mut texts, t);
            },
            None => {
                proof {
                    texts_need_all(all, i as int);
                }
                return None;
            },
        }
        i += 1;
    }
    assert(all.take(all.len() as int) =~= all);
    Some(text::join_texts(&texts, " "))
}

/// One of the expressions matches the command line of a process.
pub open spec fn command_matches(e: EvidenceModel, expressions: Seq<Seq<char>>) -> bool {
    match command_line(e.arguments) {
        Some(line) => pattern::any_matches(expressions, line),
        None => false,
    }
}

pub fn command_regex_matches(process: &ProcessEvidence, expressions: &Vec<String>) -> (r: bool)
    ensures
        r == command_matches(process@, text::texts(expressions@)),
{
    match normalized_argv(&process.arguments) {
        Some(line) => any_match(expressions, &line),
        None => false,
    }
}

// ---------------------------------------------------------------------------
// Recognising a configured executable
// ---------------------------------------------------------------------------

/// What the paths of a process resolve to.
#[derive(Debug)]
pub struct ProcessFiles {
    /// The file behind its executable.
    pub executable: Option<UnixPath>,
    /// Whether its executable is a trusted interpreter.
    pub trusted: bool,
    /// The file behind the script that it runs.
    pub script: Option<UnixPath>,
}

#[verifier::ext_equal]
pub struct FilesModel {
    pub executable: Option<Seq<u8>>,
    pub trusted: bool,
    pub script: Option<Seq<u8>>,
}

impl View for ProcessFiles {
    type V = FilesModel;

    open spec fn view(&self) -> FilesModel {
        FilesModel {
            executable: domain::path_view(self.executable),
            trusted: self.trusted,
            script: domain::path_view(self.script),
        }
    }
}

/// The executable of a process is a configured one.
pub open spec fn exactly(
    e: EvidenceModel,
    files: FilesModel,
    configured: Seq<u8>,
    configured_file: Option<Seq<u8>>,
) -> bool {
    e.executable is Some && same_file(
        e.executable->0,
        configured,
        files.executable,
        configured_file,
    )
}

/// A trusted interpreter runs a configured script.
pub open spec fn by_script(
    e: EvidenceModel,
    files: FilesModel,
    configured: Seq<u8>,
    configured_file: Option<Seq<u8>>,
) -> bool {
    &&& files.trusted
    &&& e.executable is Some
    &&& script_argument(e.executable->0, e.arguments) is Some
    &&& same_file(
        script_argument(e.executable->0, e.arguments)->0,
        configured,
        files.script,
        configured_file,
    )
}

pub open spec fn recognises(
    e: EvidenceModel,
    files: FilesModel,
    configured: Seq<u8>,
    configured_file: Option<Seq<u8>>,
    exact: bool,
) -> bool {
    exactly(e, files, configured, configured_file) || (!exact && by_script(
        e,
        files,
        configured,
        configured_file,
    ))
}

/// The first of the configured executables that a process is recognised as.
pub open spec fn recognised_from(
    e: EvidenceModel,
    files: FilesModel,
    configured: Seq<Seq<u8>>,
    configured_files: Seq<Option<Seq<u8>>>,
    exact: bool,
    k: int,
) -> Option<int>
    decreases configured.len() - k,
{
    if k >= configured.len() {
        None
    } else if recognises(e, files, configured[k], configured_files[k], exact) {
        Some(k)
    } else {
        recognised_from(e, files, configured, configured_files, exact, k + 1)
    }
}

/// Finds the configured executable that a process is: by its executable, and,
/// unless `exact`, by the script that a trusted interpreter runs.
pub fn recognized_match(
    process: &ProcessEvidence,
    files: &ProcessFiles,
    configured: &Vec<CodexExecutable>,
    configured_files: &Vec<Option<UnixPath>>,
    exact: bool,
) -> (r: Option<usize>)
    requires
        configured@.len() == configured_files@.len(),
    ensures
        match r {
            Some(i) => i < configured@.len() && recognised_from(
                process@,
                files@,
                inventory::executable_list(configured@),
                domain::paths_view(configured_files@),
                exact,
                0,
            ) == Some(i as int),
            None => recognised_from(
                process@,
                files@,
                inventory::executable_list(configured@),
                domain::paths_view(configured_files@),
                exact,
                0,
            ) is None,
        },
{
    let ghost all = inventory::executable_list(configured@);
    let ghost resolved = domain::paths_view(configured_files@);
    let executable = match &process.executable {
        Some(executable) => executable,
        None => {
            proof {
                nothing_recognised(process@, files@, all, resolved, exact, 0);
            }
            return None;
        },
    };
    let script = interpreted_script_argument(executable, &process.arguments);
    let mut k: usize = 0;
    while k < configured.len()
        invariant
            k <= configured.len(),
            recognised_from(process@, files@, all, resolved, exact, 0) == recognised_from(
                process@,
                files@,
                all,
                resolved,
                exact,
                k as int,
            ),
        decreases configured.len() - k,
    {
        assert(all[k as int] == configured@[k as int]@);
        assert(resolved[k as int] == domain::path_view(configured_files@[k as int]));
        let wanted = configured[k].as_path();
        if names_same_file(executable, wanted, &files.executable, &configured_files[k]) {
            return Some(k);
        }
        if !exact && files.trusted {
            if let Some(script) = &script {
                if names_same_file(script, wanted, &files.script, &configured_files[k]) {
                    return Some(k);
                }
            }
        }
        k += 1;
    }
    None
}

proof fn nothing_recognised(
    e: EvidenceModel,
    files: FilesModel,
    configured: Seq<Seq<u8>>,
    configured_files: Seq<Option<Seq<u8>>>,
    exact: bool,
    k: int,
)
    requires
        e.executable is None,
    ensures
        recognised_from(e, files, configured, configured_files, exact, k) is None,
    decreases configured.len() - k,
{
    if k < configured.len() {
        nothing_recognised(e, files, configured, configured_files, exact, k + 1);
    }
}

/// A process is never recognised by its name alone: its executable or its script
/// names or resolves to the configured file.
pub proof fn a_name_alone_is_never_recognised(
    e: EvidenceModel,
    files: FilesModel,
    configured: Seq<u8>,
    configured_file: Option<Seq<u8>>,
)
    requires
        e.executable is Some,
        !path::same_path(e.executable->0, configured),
        script_argument(e.executable->0, e.arguments) is Some ==> !path::same_path(
            script_argument(e.executable->0, e.arguments)->0,
            configured,
        ),
        configured_file is None,
    ensures
        !recognises(e, files, configured, configured_file, false),
{
}

} // verus!
