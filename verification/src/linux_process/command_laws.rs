//! How a process is recognised by its command line.

use vstd::prelude::*;
use crate::linux_process::command;
use crate::linux_process::command::FilesModel;
use crate::linux_process::evidence::EvidenceModel;
use crate::path;
use crate::text;

verus! {

/// An executable is run by a name.
pub open spec fn runs_as(executable: Seq<u8>, name: Seq<char>) -> bool {
    path::file_name(executable) == Some(text::utf8(name))
}

/// An interpreter is given its script as its first argument, also behind two hyphens; an
/// option in that place hides the script.
pub proof fn the_script_is_the_first_argument(
    executable: Seq<u8>,
    name: Seq<char>,
    arguments: Seq<Seq<u8>>,
    first: Seq<char>,
)
    requires
        runs_as(executable, name),
        name != "env"@,
        name != "deno"@,
        arguments.len() >= 2,
        arguments[1] == text::utf8(first),
    ensures
        first.len() > 0 && first[0] != '-' ==> command::script_argument(executable, arguments)
            == Some(arguments[1]),
        first == "--"@ && arguments.len() > 2 ==> command::script_argument(executable, arguments)
            == Some(arguments[2]),
        first == "--"@ && arguments.len() == 2 ==> command::script_argument(
            executable,
            arguments,
        ) is None,
        first.len() > 0 && first[0] == '-' && first != "--"@ ==> command::script_argument(
            executable,
            arguments,
        ) is None,
{
    text::utf8_decodes_back(name);
    text::utf8_decodes_back(first);
    reveal_strlit("--");
}

/// Deno runs a script only by its command for that.
pub proof fn deno_runs_a_script_by_its_command(
    executable: Seq<u8>,
    arguments: Seq<Seq<u8>>,
    first: Seq<char>,
)
    requires
        runs_as(executable, "deno"@),
        arguments.len() > 2,
        arguments[1] == text::utf8(first),
        first != "--"@,
    ensures
        first == "run"@ ==> command::script_argument(executable, arguments) == Some(arguments[2]),
        first != "run"@ ==> command::script_argument(executable, arguments) is None,
{
    text::utf8_decodes_back("deno"@);
    text::utf8_decodes_back(first);
    reveal_strlit("deno");
    reveal_strlit("env");
    assert("deno"@.len() == 4 && "env"@.len() == 3);
}

/// An environment is set by words with an equals sign; the first word without one is what
/// is run.
pub proof fn env_runs_the_word_behind_its_variables(
    executable: Seq<u8>,
    arguments: Seq<Seq<u8>>,
    words: Seq<Seq<char>>,
    k: int,
)
    requires
        runs_as(executable, "env"@),
        arguments == text::utf8_words(words),
        1 <= k < words.len(),
        forall|j: int|
            1 <= j < k ==> (#[trigger] words[j]).contains('=') && words[j][0] != '-',
        !words[k].contains('='),
        words[k].len() == 0 || words[k][0] != '-',
    ensures
        command::script_argument(executable, arguments) == Some(arguments[k]),
{
    text::utf8_decodes_back("env"@);
    env_goes_on(arguments, words, 1, k);
}

proof fn env_goes_on(arguments: Seq<Seq<u8>>, words: Seq<Seq<char>>, i: int, k: int)
    requires
        arguments == text::utf8_words(words),
        1 <= i <= k < words.len(),
        forall|j: int|
            1 <= j < k ==> (#[trigger] words[j]).contains('=') && words[j][0] != '-',
        !words[k].contains('='),
        words[k].len() == 0 || words[k][0] != '-',
    ensures
        command::env_script(arguments, i) == Some(arguments[k]),
    decreases k - i,
{
    assert(arguments[i] == text::utf8(words[i]));
    text::utf8_decodes_back(words[i]);
    if i < k {
        assert(words[i].contains('='));
        env_goes_on(arguments, words, i + 1, k);
    }
}

/// A process is recognised as the first of the executables that it is, and not at all where
/// it is none of them.
pub proof fn the_first_executable_that_fits_is_recognised(
    e: EvidenceModel,
    files: FilesModel,
    configured: Seq<Seq<u8>>,
    configured_files: Seq<Option<Seq<u8>>>,
    exact: bool,
    k: int,
)
    requires
        0 <= k <= configured.len(),
    ensures
        match command::recognised_from(e, files, configured, configured_files, exact, k) {
            Some(i) => {
                &&& k <= i < configured.len()
                &&& command::recognises(e, files, configured[i], configured_files[i], exact)
                &&& forall|j: int|
                    k <= j < i ==> !command::recognises(
                        e,
                        files,
                        #[trigger] configured[j],
                        configured_files[j],
                        exact,
                    )
            },
            None => forall|j: int|
                k <= j < configured.len() ==> !command::recognises(
                    e,
                    files,
                    #[trigger] configured[j],
                    configured_files[j],
                    exact,
                ),
        },
    decreases configured.len() - k,
{
    if k < configured.len() && !command::recognises(
        e,
        files,
        configured[k],
        configured_files[k],
        exact,
    ) {
        the_first_executable_that_fits_is_recognised(
            e,
            files,
            configured,
            configured_files,
            exact,
            k + 1,
        );
    }
}

/// A process that runs an executable by its very path is recognised; a script is recognised
/// only by a trusted interpreter, and never where only the executable itself counts.
pub proof fn an_executable_is_recognised_by_its_path(
    e: EvidenceModel,
    files: FilesModel,
    configured: Seq<u8>,
    file: Option<Seq<u8>>,
)
    ensures
        e.executable == Some(configured) ==> command::recognises(e, files, configured, file, true)
            && command::recognises(e, files, configured, file, false),
        command::recognises(e, files, configured, file, true) ==> command::recognises(
            e,
            files,
            configured,
            file,
            false,
        ),
        !files.trusted ==> command::recognises(e, files, configured, file, false)
            == command::recognises(e, files, configured, file, true),
        e.executable is None ==> !command::recognises(e, files, configured, file, false),
{
    path::same_path_is_equivalence(configured, configured, configured);
}

/// A trusted interpreter that was given an executable as its script is recognised as it.
pub proof fn a_script_is_recognised_by_its_interpreter(
    e: EvidenceModel,
    files: FilesModel,
    configured: Seq<u8>,
    file: Option<Seq<u8>>,
)
    requires
        files.trusted,
        e.executable is Some,
        command::script_argument(e.executable->0, e.arguments) == Some(configured),
    ensures
        command::recognises(e, files, configured, file, false),
{
    path::same_path_is_equivalence(configured, configured, configured);
}

/// A shell alone is interactive, and so is a login shell.
pub proof fn a_shell_alone_is_interactive(argument: Seq<u8>, shell: Seq<char>)
    requires
        text::utf8_decoded(argument) is Some,
        shell.len() > 0,
        shell[0] != '-',
        runs_as(argument, shell) || runs_as(argument, seq!['-'] + shell),
    ensures
        command::interactive(seq![argument], shell),
{
    text::utf8_decodes_back(shell);
    let login = seq!['-'] + shell;
    text::utf8_decodes_back(login);
    reveal_with_fuel(command::without_hyphens, 3);
    assert(login.skip(1) =~= shell);
}

/// A shell that is given a script is not interactive.
pub proof fn a_shell_with_a_script_is_not_interactive(
    argument: Seq<u8>,
    script: Seq<char>,
    rest: Seq<Seq<u8>>,
    shell: Seq<char>,
)
    requires
        script.len() > 0,
        script[0] != '-',
        script[0] != '+',
    ensures
        !command::interactive(seq![argument, text::utf8(script)] + rest, shell),
{
    text::utf8_decodes_back(script);
    reveal_strlit("--");
    reveal_strlit("--command");
    reveal_strlit("--rcfile");
    reveal_strlit("--init-file");
    reveal_strlit("-O");
    reveal_strlit("+O");
    reveal_strlit("-o");
    reveal_strlit("+o");
    let arguments = seq![argument, text::utf8(script)] + rest;
    assert(arguments[1] == text::utf8(script));
}

} // verus!
