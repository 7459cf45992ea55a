//! How the executables to look for are chosen, and which client and pane the popup is for.

use vstd::prelude::*;
use crate::app::context;
use crate::app::process;
use crate::app::process::{ArgumentsModel, ResolvedModel};
use crate::config::{MatchScope, ProcessModel};
use crate::domain::{InvocationContext, OutputModel};
use crate::error::ErrorModel;
use crate::scan;
use crate::text;
use crate::tmux::quote;

verus! {

// ---------------------------------------------------------------------------
// The executables to look for
// ---------------------------------------------------------------------------

/// The one executable of the shorthand is launched and looked for, and nothing else is.
pub proof fn the_shorthand_is_launched_and_looked_for(
    a: ArgumentsModel,
    stored: Option<ProcessModel>,
    found: Result<Seq<u8>, ErrorModel>,
    settings: ProcessModel,
)
    requires
        a.codex is Some,
        process::chosen(a, stored, found) == Ok::<ProcessModel, ErrorModel>(settings),
    ensures
        settings.launch_executable == a.codex->0,
        settings.match_executables == seq![a.codex->0],
        settings.pane_commands.len() == 1,
        Ok::<Seq<char>, ErrorModel>(settings.pane_commands[0]) == process::pane_command(
            a.codex->0,
        ),
        settings.match_scope == MatchScope::Foreground,
        settings.match_command_regexes.len() == 0,
        settings.pane_command_regexes.len() == 0,
{
}

/// What is given counts before what is stored, setting by setting; what is neither given
/// nor stored follows the executable that is launched.
pub proof fn given_settings_come_before_stored_ones(
    a: ArgumentsModel,
    stored: Option<ProcessModel>,
    found: Result<Seq<u8>, ErrorModel>,
    settings: ProcessModel,
)
    requires
        a.codex is None,
        process::chosen(a, stored, found) == Ok::<ProcessModel, ErrorModel>(settings),
    ensures
        a.launch_executable matches Some(p) ==> settings.launch_executable == p,
        a.launch_executable is None ==> (stored matches Some(s) ==> settings.launch_executable
            == s.launch_executable),
        a.launch_executable is None && stored is None ==> found == Ok::<Seq<u8>, ErrorModel>(
            settings.launch_executable,
        ),
        a.match_executables.len() > 0 ==> settings.match_executables == a.match_executables,
        a.match_executables.len() == 0 ==> match stored {
            Some(s) => settings.match_executables == s.match_executables,
            None => settings.match_executables == seq![settings.launch_executable],
        },
        a.pane_commands.len() > 0 ==> settings.pane_commands == a.pane_commands,
        a.pane_commands.len() == 0 ==> match stored {
            Some(s) => settings.pane_commands == s.pane_commands,
            None => settings.pane_commands == seq![
                process::pane_command(settings.launch_executable)->Ok_0,
            ],
        },
        a.match_scope matches Some(scope) ==> settings.match_scope == scope,
        a.match_scope is None ==> settings.match_scope == match stored {
            Some(s) => s.match_scope,
            None => MatchScope::Foreground,
        },
        a.match_command_regexes.len() > 0 ==> settings.match_command_regexes
            == a.match_command_regexes,
        a.match_command_regexes.len() == 0 ==> match stored {
            Some(s) => settings.match_command_regexes == s.match_command_regexes,
            None => settings.match_command_regexes.len() == 0,
        },
        a.pane_command_regexes.len() > 0 ==> settings.pane_command_regexes
            == a.pane_command_regexes,
        a.pane_command_regexes.len() == 0 ==> match stored {
            Some(s) => settings.pane_command_regexes == s.pane_command_regexes,
            None => settings.pane_command_regexes.len() == 0,
        },
{
}

/// Two words stand next to each other in a row of words.
pub open spec fn stands(words: Seq<Seq<char>>, option: Seq<char>, value: Seq<char>) -> bool {
    exists|i: int|
        0 <= i && i + 1 < words.len() && #[trigger] words[i] == option && words[i + 1] == value
}

proof fn value_stands(option: Seq<char>, values: Seq<Seq<char>>, i: int)
    requires
        0 <= i < values.len(),
    ensures
        process::value_options(option, values).len() == 2 * values.len(),
        process::value_options(option, values)[2 * i] == option,
        process::value_options(option, values)[2 * i + 1] == quote::quoted(values[i]),
    decreases values.len(),
{
    let head = values.drop_last();
    if i < head.len() {
        value_stands(option, head, i);
        assert(head[i] == values[i]);
    } else if head.len() > 0 {
        value_stands(option, head, 0);
    } else {
        assert(process::value_options(option, head) =~= Seq::<Seq<char>>::empty());
    }
}

proof fn path_stands(option: Seq<char>, paths: Seq<Seq<u8>>, n: nat, i: int)
    requires
        0 <= i < n <= paths.len(),
        process::path_options(option, paths, n) is Ok,
    ensures
        ({
            let words = process::path_options(option, paths, n)->Ok_0;
            &&& words.len() == 2 * n
            &&& words[2 * i] == option
            &&& text::utf8_decoded(paths[i]) is Some
            &&& words[2 * i + 1] == quote::quoted(text::utf8_decoded(paths[i])->0)
        }),
    decreases n,
{
    if i < n - 1 {
        path_stands(option, paths, (n - 1) as nat, i);
    } else if n > 1 {
        path_stands(option, paths, (n - 1) as nat, 0);
    } else {
        assert(process::path_options(option, paths, 0)->Ok_0 =~= Seq::<Seq<char>>::empty());
    }
}

/// The words that hand the settings on hold the executable to launch, each executable to
/// look for, each command and each expression, behind the option that takes it.
pub proof fn the_settings_are_handed_on_whole(p: ResolvedModel, words: Seq<Seq<char>>)
    requires
        process::cli_words(p) == Ok::<Seq<Seq<char>>, ErrorModel>(words),
    ensures
        text::utf8_decoded(p.settings.launch_executable) is Some,
        p.legacy_shorthand ==> words == seq![
            "--codex"@,
            quote::quoted(text::utf8_decoded(p.settings.launch_executable)->0),
        ],
        !p.legacy_shorthand ==> {
            &&& stands(
                words,
                "--launch-executable"@,
                quote::quoted(text::utf8_decoded(p.settings.launch_executable)->0),
            )
            &&& stands(words, "--match-scope"@, p.settings.match_scope.name())
            &&& forall|i: int|
                0 <= i < p.settings.match_executables.len() ==> stands(
                    words,
                    "--match-executable"@,
                    quote::quoted(
                        text::utf8_decoded(#[trigger] p.settings.match_executables[i])->0,
                    ),
                )
            &&& forall|i: int|
                0 <= i < p.settings.pane_commands.len() ==> stands(
                    words,
                    "--pane-command"@,
                    quote::quoted(#[trigger] p.settings.pane_commands[i]),
                )
            &&& forall|i: int|
                0 <= i < p.settings.match_command_regexes.len() ==> stands(
                    words,
                    "--match-command-regex"@,
                    quote::quoted(#[trigger] p.settings.match_command_regexes[i]),
                )
            &&& forall|i: int|
                0 <= i < p.settings.pane_command_regexes.len() ==> stands(
                    words,
                    "--pane-command-regex"@,
                    quote::quoted(#[trigger] p.settings.pane_command_regexes[i]),
                )
        },
{
    if !p.legacy_shorthand {
        let s = p.settings;
        let launch = quote::quoted(text::utf8_decoded(s.launch_executable)->0);
        let n = s.match_executables.len();
        let a = process::path_options("--match-executable"@, s.match_executables, n)->Ok_0;
        let b = process::value_options("--pane-command"@, s.pane_commands);
        let c = process::value_options("--match-command-regex"@, s.match_command_regexes);
        let e = process::value_options("--pane-command-regex"@, s.pane_command_regexes);
        if n > 0 {
            path_stands("--match-executable"@, s.match_executables, n, 0);
        }
        if s.pane_commands.len() > 0 {
            value_stands("--pane-command"@, s.pane_commands, 0);
        }
        if s.match_command_regexes.len() > 0 {
            value_stands("--match-command-regex"@, s.match_command_regexes, 0);
        }
        let at_b = 2 + a.len() as int;
        let at_scope = at_b + b.len();
        let at_c = at_scope + 2;
        let at_e = at_c + c.len();
        assert(words[0] == "--launch-executable"@ && words[1] == launch);
        assert(words[at_scope] == "--match-scope"@ && words[at_scope + 1]
            == s.match_scope.name());
        assert forall|i: int| 0 <= i < s.match_executables.len() implies stands(
            words,
            "--match-executable"@,
            quote::quoted(text::utf8_decoded(#[trigger] s.match_executables[i])->0),
        ) by {
            path_stands("--match-executable"@, s.match_executables, n, i);
            assert(words[2 + 2 * i] == a[2 * i] && words[2 + 2 * i + 1] == a[2 * i + 1]);
        }
        assert forall|i: int| 0 <= i < s.pane_commands.len() implies stands(
            words,
            "--pane-command"@,
            quote::quoted(#[trigger] s.pane_commands[i]),
        ) by {
            value_stands("--pane-command"@, s.pane_commands, i);
            assert(words[at_b + 2 * i] == b[2 * i] && words[at_b + 2 * i + 1] == b[2 * i + 1]);
        }
        assert forall|i: int| 0 <= i < s.match_command_regexes.len() implies stands(
            words,
            "--match-command-regex"@,
            quote::quoted(#[trigger] s.match_command_regexes[i]),
        ) by {
            value_stands("--match-command-regex"@, s.match_command_regexes, i);
            assert(words[at_c + 2 * i] == c[2 * i] && words[at_c + 2 * i + 1] == c[2 * i + 1]);
        }
        assert forall|i: int| 0 <= i < s.pane_command_regexes.len() implies stands(
            words,
            "--pane-command-regex"@,
            quote::quoted(#[trigger] s.pane_command_regexes[i]),
        ) by {
            value_stands("--pane-command-regex"@, s.pane_command_regexes, i);
            assert(words[at_e + 2 * i] == e[2 * i] && words[at_e + 2 * i + 1] == e[2 * i + 1]);
        }
    }
}

/// What is written into the binding is what was resolved.
pub proof fn the_binding_holds_what_was_resolved(mux: Seq<u8>, p: ResolvedModel)
    ensures
        ({
            let b = process::block_paths(mux, p);
            &&& b.mux == mux
            &&& b.codex == p.settings.launch_executable
            &&& b.match_executables == p.settings.match_executables
            &&& b.pane_commands == p.settings.pane_commands
            &&& b.match_command_regexes == p.settings.match_command_regexes
            &&& b.pane_command_regexes == p.settings.pane_command_regexes
            &&& b.legacy_shorthand == p.legacy_shorthand
            &&& p.settings.match_scope == MatchScope::Foreground ==> b.match_scope
                == "foreground"@
            &&& p.settings.match_scope == MatchScope::PaneTree ==> b.match_scope == "pane-tree"@
            &&& p.settings.match_scope == MatchScope::PaneTty ==> b.match_scope == "pane-tty"@
        }),
{
}

// ---------------------------------------------------------------------------
// The client and the pane
// ---------------------------------------------------------------------------

proof fn a_client_row_reads_back(f: Seq<Seq<char>>, client: Seq<char>)
    requires
        f.len() == 4,
        forall|i: int| 0 <= i < f.len() ==> !(#[trigger] f[i]).contains('\x1f'),
    ensures
        context::client_line(text::utf8(scan::join_with(f, seq!['\x1f'])), client) == (if f[0]
            == client {
            Some(f)
        } else {
            None
        }),
{
    let line = scan::join_with(f, seq!['\x1f']);
    text::utf8_decodes_back(line);
    scan::split_undoes_join(f, '\x1f');
}

/// The client is where the popup was opened for exactly where its own row shows the same
/// session, the same window and the same pane; each change is told by its own code.
pub proof fn a_client_that_moved_is_noticed(
    context: InvocationContext,
    f: Seq<Seq<char>>,
    output: OutputModel,
)
    requires
        f.len() == 4,
        forall|i: int|
            0 <= i < f.len() ==> !(#[trigger] f[i]).contains('\x1f') && !f[i].contains('\n'),
        f[0] == context.client_id@,
        output.status == Some(0i32),
        output.stdout == text::utf8(scan::join_with(f, seq!['\x1f'])),
        !output.stdout.contains(10u8),
    ensures
        ({
            let code = context::mismatch(Ok::<OutputModel, ErrorModel>(output), context);
            &&& code is None <==> f[1] == context.session_id@ && f[2] == context.window_id@
                && f[3] == context.pane_id@
            &&& f[1] != context.session_id@ ==> code == Some("client_preflight_session_changed"@)
            &&& f[1] == context.session_id@ && f[2] != context.window_id@ ==> code == Some(
                "client_preflight_window_changed"@,
            )
            &&& f[1] == context.session_id@ && f[2] == context.window_id@ && f[3]
                != context.pane_id@ ==> code == Some("client_preflight_pane_changed"@)
        }),
{
    let line = output.stdout;
    scan::split_on_without(line, 10u8);
    a_client_row_reads_back(f, context.client_id@);
    reveal_with_fuel(context::client_fields, 2);
    let lines = scan::split_on(line, 10u8);
    assert(lines =~= seq![line]);
    assert(lines[0] == line);
}

/// A row of a client shows where that client is: the popup is for the client and the pane
/// that it was asked for, and the session and the window are those of the row.
pub proof fn a_live_row_shows_the_place(f: Seq<Seq<u8>>, client: Seq<char>, pane: Seq<char>)
    requires
        f.len() == 5,
        forall|i: int| 0 <= i < f.len() ==> !(#[trigger] f[i]).contains(31u8),
    ensures
        ({
            let found = context::live_line(scan::join_with(f, seq![31u8]), client, pane);
            &&& found is Some <==> f[0] == text::utf8(client) && f[3] == text::utf8(pane)
                && text::utf8_decoded(f[1]) is Some && !scan::is_blank(
                text::utf8_decoded(f[1])->0,
            ) && text::utf8_decoded(f[2]) is Some && !scan::is_blank(text::utf8_decoded(f[2])->0)
            &&& found matches Some(place) ==> {
                &&& place.client == client
                &&& place.pane == pane
                &&& place.session == text::utf8_decoded(f[1])->0
                &&& place.window == text::utf8_decoded(f[2])->0
                &&& place.path == f[4]
            }
        }),
{
    scan::split_undoes_join(f, 31u8);
}

/// The first row that shows the client in the pane counts.
pub proof fn the_first_live_row_counts(
    lines: Seq<Seq<u8>>,
    client: Seq<char>,
    pane: Seq<char>,
    i: int,
    k: int,
)
    requires
        0 <= i <= k < lines.len(),
        context::live_line(lines[k], client, pane) is Some,
        forall|j: int|
            i <= j < k ==> context::live_line(#[trigger] lines[j], client, pane) is None,
    ensures
        context::live_from(lines, client, pane, i) == context::live_line(lines[k], client, pane),
    decreases k - i,
{
    if i < k {
        assert(context::live_line(lines[i], client, pane) is None);
        the_first_live_row_counts(lines, client, pane, i + 1, k);
    }
}

} // verus!
