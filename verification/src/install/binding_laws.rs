//! What the installed binding does, and what a later installation or removal makes of it.

use vstd::prelude::*;
use crate::install::block;
use crate::install::block::PathsModel;
use crate::install::laws;
use crate::install::plan;
use crate::install::plan::ServerState;
use crate::install::shape;
use crate::install::status;
use crate::path;
use crate::scan;
use crate::tmux::action_laws;
use crate::tmux::quote;

verus! {

// ---------------------------------------------------------------------------
// The words of the binding
// ---------------------------------------------------------------------------

/// Two words stand next to each other in a row of words.
pub open spec fn stands(words: Seq<Seq<char>>, option: Seq<char>, value: Seq<char>) -> bool {
    exists|i: int|
        0 <= i && i + 1 < words.len() && #[trigger] words[i] == option && words[i + 1] == value
}

proof fn each_stands(option: Seq<char>, values: Seq<Seq<char>>, i: int)
    requires
        0 <= i < values.len(),
    ensures
        block::each_with(option, values).len() == 2 * values.len(),
        block::each_with(option, values)[2 * i] == option,
        block::each_with(option, values)[2 * i + 1] == values[i],
    decreases values.len(),
{
    let head = values.drop_last();
    if i < head.len() {
        each_stands(option, head, i);
        assert(head[i] == values[i]);
    } else if head.len() > 0 {
        each_stands(option, head, 0);
    } else {
        assert(block::each_with(option, head) =~= Seq::<Seq<char>>::empty());
    }
}

proof fn each_len(option: Seq<char>, values: Seq<Seq<char>>)
    ensures
        block::each_with(option, values).len() == 2 * values.len(),
{
    if values.len() > 0 {
        each_stands(option, values, 0);
    }
}

/// The popup is told its client, pane, session and directory by the variables of tmux, and
/// everything that it looks for, each value behind its option.
pub proof fn the_binding_hands_everything_on(p: PathsModel)
    ensures
        ({
            let words = block::invocation_words(p);
            &&& words.len() > 0
            &&& words[0] == quote::quoted(block::path_text(p.mux))
            &&& stands(words, "--client"@, "#{q:"@ + "client_tty"@ + "}"@)
            &&& stands(words, "--invoking-pane"@, "#{q:"@ + "pane_id"@ + "}"@)
            &&& stands(words, "--invoking-session"@, "#{q:"@ + "session_id"@ + "}"@)
            &&& stands(words, "--invoking-path"@, "#{q:"@ + "pane_current_path"@ + "}"@)
            &&& p.legacy_shorthand ==> stands(
                words,
                "--codex"@,
                quote::quoted(block::path_text(p.codex)),
            )
            &&& !p.legacy_shorthand ==> {
                &&& stands(
                    words,
                    "--launch-executable"@,
                    quote::quoted(block::path_text(p.codex)),
                )
                &&& stands(words, "--match-scope"@, p.match_scope)
                &&& forall|i: int|
                    0 <= i < p.match_executables.len() ==> stands(
                        words,
                        "--match-executable"@,
                        quote::quoted(block::path_text(#[trigger] p.match_executables[i])),
                    )
                &&& forall|i: int|
                    0 <= i < p.pane_commands.len() ==> stands(
                        words,
                        "--pane-command"@,
                        #[trigger] p.pane_commands[i],
                    )
                &&& forall|i: int|
                    0 <= i < p.match_command_regexes.len() ==> stands(
                        words,
                        "--match-command-regex"@,
                        quote::quoted(#[trigger] p.match_command_regexes[i]),
                    )
                &&& forall|i: int|
                    0 <= i < p.pane_command_regexes.len() ==> stands(
                        words,
                        "--pane-command-regex"@,
                        quote::quoted(#[trigger] p.pane_command_regexes[i]),
                    )
            }
        }),
{
    let words = block::invocation_words(p);
    let inner = block::process_words(p);
    let n = 1 + inner.len() as int;
    assert(words[n] == "--client"@ && words[n + 1] == "#{q:"@ + "client_tty"@ + "}"@);
    assert(words[n + 2] == "--invoking-pane"@ && words[n + 3] == "#{q:"@ + "pane_id"@ + "}"@);
    assert(words[n + 4] == "--invoking-session"@ && words[n + 5] == "#{q:"@ + "session_id"@
        + "}"@);
    assert(words[n + 6] == "--invoking-path"@ && words[n + 7] == "#{q:"@ + "pane_current_path"@
        + "}"@);
    if p.legacy_shorthand {
        assert(words[1] == "--codex"@ && words[2] == quote::quoted(block::path_text(p.codex)));
    } else {
        let a = block::each_with("--match-executable"@, block::shell_paths(p.match_executables));
        let b = block::each_with("--pane-command"@, p.pane_commands);
        let c = block::each_with(
            "--match-command-regex"@,
            block::shell_literals(p.match_command_regexes),
        );
        let d = block::each_with(
            "--pane-command-regex"@,
            block::shell_literals(p.pane_command_regexes),
        );
        each_len("--match-executable"@, block::shell_paths(p.match_executables));
        each_len("--pane-command"@, p.pane_commands);
        each_len("--match-command-regex"@, block::shell_literals(p.match_command_regexes));
        each_len("--pane-command-regex"@, block::shell_literals(p.pane_command_regexes));
        let at_b = 3 + a.len() as int;
        let at_scope = at_b + b.len();
        let at_c = at_scope + 2;
        let at_d = at_c + c.len();
        assert(words[1] == "--launch-executable"@ && words[2] == quote::quoted(
            block::path_text(p.codex),
        ));
        assert(words[at_scope] == "--match-scope"@ && words[at_scope + 1] == p.match_scope);
        assert forall|i: int| 0 <= i < p.match_executables.len() implies stands(
            words,
            "--match-executable"@,
            quote::quoted(block::path_text(#[trigger] p.match_executables[i])),
        ) by {
            each_stands("--match-executable"@, block::shell_paths(p.match_executables), i);
            assert(words[3 + 2 * i] == a[2 * i] && words[3 + 2 * i + 1] == a[2 * i + 1]);
        }
        assert forall|i: int| 0 <= i < p.pane_commands.len() implies stands(
            words,
            "--pane-command"@,
            #[trigger] p.pane_commands[i],
        ) by {
            each_stands("--pane-command"@, p.pane_commands, i);
            assert(words[at_b + 2 * i] == b[2 * i] && words[at_b + 2 * i + 1] == b[2 * i + 1]);
        }
        assert forall|i: int| 0 <= i < p.match_command_regexes.len() implies stands(
            words,
            "--match-command-regex"@,
            quote::quoted(#[trigger] p.match_command_regexes[i]),
        ) by {
            each_stands(
                "--match-command-regex"@,
                block::shell_literals(p.match_command_regexes),
                i,
            );
            assert(words[at_c + 2 * i] == c[2 * i] && words[at_c + 2 * i + 1] == c[2 * i + 1]);
        }
        assert forall|i: int| 0 <= i < p.pane_command_regexes.len() implies stands(
            words,
            "--pane-command-regex"@,
            quote::quoted(#[trigger] p.pane_command_regexes[i]),
        ) by {
            each_stands(
                "--pane-command-regex"@,
                block::shell_literals(p.pane_command_regexes),
                i,
            );
            assert(words[at_d + 2 * i] == d[2 * i] && words[at_d + 2 * i + 1] == d[2 * i + 1]);
        }
    }
}

/// The block binds its key to the popup, and the Left key exactly where that is asked for;
/// a block with it holds every line of the block without it but the one that says so.
pub proof fn the_block_binds_left_only_when_asked(key: Seq<char>, p: PathsModel, newline: bool)
    ensures
        ({
            let plain = block::block_lines(key, false, p, newline);
            let smart = block::block_lines(key, true, p, newline);
            let n = plain.len() as int;
            &&& plain[0] == "# >>> codex-mux >>>"@ && smart[0] == "# >>> codex-mux >>>"@
            &&& plain.last() == "# <<< codex-mux <<<"@ && smart.last() == "# <<< codex-mux <<<"@
            &&& plain[n - 2] == "bind-key "@ + key + " run-shell -C "@ + block::popup_word(p)
            &&& smart[n - 2] == plain[n - 2]
            &&& smart.len() == plain.len() + 6
            &&& smart.take(n - 3) == plain.take(n - 3)
            &&& plain[n - 3] == "# codex-mux-smart-left: "@ + "false"@
            &&& smart[n - 3] == "# codex-mux-smart-left: "@ + "true"@
            &&& smart.subrange(n - 1, n + 5) == block::left_lines(p)
        }),
{
    let plain = block::block_lines(key, false, p, newline);
    let smart = block::block_lines(key, true, p, newline);
    let n = plain.len() as int;
    assert(smart.take(n - 3) =~= plain.take(n - 3));
    assert(smart.subrange(n - 1, n + 5) =~= block::left_lines(p));
}

proof fn stands_in_either(a: Seq<char>, b: Seq<char>, p: Seq<char>)
    requires
        scan::occurs(a, p) || scan::occurs(b, p),
    ensures
        scan::occurs(block::either_clause(a, b), p),
{
    let whole = block::either_clause(a, b);
    if scan::occurs(a, p) {
        action_laws::occurs_inside("#{||:"@, a, ","@ + b + "}"@, p);
        assert(whole =~= "#{||:"@ + a + (","@ + b + "}"@));
    } else {
        action_laws::occurs_inside("#{||:"@ + a + ","@, b, "}"@, p);
        assert(whole =~= ("#{||:"@ + a + ","@) + b + "}"@);
    }
}

proof fn a_command_stands_in_its_clause(commands: Seq<Seq<char>>, i: int)
    requires
        0 <= i < commands.len(),
    ensures
        scan::occurs(
            block::commands_clause(commands),
            quote::equals_clause("pane_current_command"@, commands[i]),
        ),
    decreases commands.len(),
{
    let one = quote::equals_clause("pane_current_command"@, commands[i]);
    action_laws::occurs_itself(one);
    if commands.len() > 1 {
        let head = commands.drop_last();
        let last = quote::equals_clause("pane_current_command"@, commands.last());
        if i < head.len() {
            assert(head[i] == commands[i]);
            a_command_stands_in_its_clause(head, i);
        }
        stands_in_either(block::commands_clause(head), last, one);
    }
}

/// The Left key is handed to the probe where the pane runs one of the commands, or a shell
/// that shows its prompt, and no probe is under way; else it is sent on.
pub proof fn left_is_probed_where_it_may_open_the_popup(p: PathsModel, i: int)
    requires
        0 <= i < p.pane_commands.len(),
    ensures
        scan::occurs(
            block::left_condition(p),
            "#{==:#{"@ + "pane_current_command"@ + "},"@ + p.pane_commands[i] + "}"@,
        ),
        scan::occurs(block::left_condition(p), block::SHELL_AT_PROMPT@),
        scan::occurs(block::left_condition(p), "#{!=:#{@codex_mux_smart_left_active},1}"@),
        block::left_lines(p)[0] == "bind-key -T root Left if-shell -F '"@ + block::left_condition(
            p,
        ) + "' {"@,
        block::left_lines(p)[4] == "  send-keys Left"@,
{
    let one = quote::equals_clause("pane_current_command"@, p.pane_commands[i]);
    a_command_stands_in_its_clause(p.pane_commands, i);
    let filter = block::prefilter_clause(p);
    if p.pane_command_regexes.len() > 0 {
        stands_in_either(block::commands_clause(p.pane_commands), "1"@, one);
    }
    let shell = block::SHELL_AT_PROMPT@;
    let idle = "#{!=:#{@codex_mux_smart_left_active},1}"@;
    action_laws::occurs_itself(shell);
    action_laws::occurs_itself(idle);
    stands_in_either(filter, shell, one);
    stands_in_either(filter, shell, shell);
    let either = block::either_clause(filter, shell);
    let whole = block::left_condition(p);
    action_laws::occurs_inside("#{&&:"@, either, ","@ + idle + "}"@, one);
    action_laws::occurs_inside("#{&&:"@, either, ","@ + idle + "}"@, shell);
    assert(whole =~= "#{&&:"@ + either + (","@ + idle + "}"@));
    action_laws::occurs_inside("#{&&:"@ + either + ","@, idle, "}"@, idle);
    assert(whole =~= ("#{&&:"@ + either + ","@) + idle + "}"@);
}

// ---------------------------------------------------------------------------
// Installing again, removing and looking
// ---------------------------------------------------------------------------

/// An installation over an earlier one takes the earlier key away exactly where it changes,
/// and the Left binding exactly where that is given up; only the first makes a backup.
pub proof fn a_later_installation_undoes_what_it_changes(
    contents: Seq<char>,
    key: Seq<char>,
    smart_left: bool,
    p: PathsModel,
    next_key: Seq<char>,
    next_left: bool,
    server: ServerState,
)
    requires
        shape::acceptable(key, p),
        laws::manageable(contents),
    ensures
        ({
            let change = plan::install_change(
                plan::installed_text(contents, key, smart_left, p),
                next_key,
                next_left,
                server,
            );
            &&& !change.backup
            &&& change.unbind_key == (if next_key != key {
                Some(key)
            } else {
                None
            })
            &&& change.unbind_left == (if smart_left && !next_left {
                Some(p.mux)
            } else {
                None
            })
            &&& change.running == server.running()
        }),
        plan::install_change(contents, key, smart_left, server).backup <==> plan::block_in(
            contents,
        ) is Absent,
{
    laws::installed_fields_read_back(contents, key, smart_left, p);
    laws::installed_values_flag(contents, key, smart_left, p);
    block::accepted_paths_are_text(p);
    vstd::utf8::decode_utf8_encode_utf8(p.mux);
}

/// A removal takes exactly the key that was installed away, and the Left binding exactly
/// where it was.
pub proof fn a_removal_undoes_the_installation(
    contents: Seq<char>,
    key: Seq<char>,
    smart_left: bool,
    p: PathsModel,
    running: bool,
)
    requires
        shape::acceptable(key, p),
        laws::manageable(contents),
    ensures
        ({
            let change = plan::removal_change(
                plan::installed_text(contents, key, smart_left, p),
                running,
            );
            &&& change.unbind_key == Some(key)
            &&& change.unbind_left == (if smart_left {
                Some(p.mux)
            } else {
                None
            })
            &&& change.running == running
            &&& !change.backup
        }),
{
    laws::installed_fields_read_back(contents, key, smart_left, p);
    laws::installed_values_flag(contents, key, smart_left, p);
    block::accepted_paths_are_text(p);
    vstd::utf8::decode_utf8_encode_utf8(p.mux);
}

/// The status of an installation notes a drift exactly where something that is looked for
/// now differs from what was installed.
pub proof fn a_status_notes_what_differs(
    contents: Seq<char>,
    key: Seq<char>,
    smart_left: bool,
    p: PathsModel,
    now: PathsModel,
)
    requires
        shape::acceptable(key, p),
        p.pane_commands.len() > 0,
        laws::manageable(contents),
    ensures
        ({
            let drift = status::drift_of(plan::installed_text(contents, key, smart_left, p), now);
            drift.len() == 0 <==> {
                &&& path::same_path(p.mux, now.mux)
                &&& path::same_path(p.codex, now.codex)
                &&& status::same_paths(p.match_executables, now.match_executables)
                &&& p.pane_commands == now.pane_commands
                &&& p.match_scope == now.match_scope
                &&& p.match_command_regexes == now.match_command_regexes
                &&& p.pane_command_regexes == now.pane_command_regexes
            }
        }),
{
    let new = plan::installed_text(contents, key, smart_left, p);
    laws::installed_values_show_no_drift(contents, key, smart_left, p);
    let shown = status::status_of(new, p, smart_left);
    laws::installed_fields_read_back(contents, key, smart_left, p);
    assert(shown.mux == status::as_path(plan::field_in(new, block::BINARY_FIELD@)));
    assert(shown.codex == status::recorded_codex(new));
    assert(shown.match_executables == status::recorded_matches(new));
    assert(shown.pane_commands == status::recorded_commands(new));
}

/// A key is one word that neither tmux nor the block treats specially.
pub proof fn an_accepted_key_is_one_word(key: Seq<char>, c: char)
    requires
        plan::is_key(key),
        key.contains(c),
    ensures
        c != ' ' && c != '\n' && c != '\t' && c != ';' && c != '#' && c != '\'' && c != '"',
{
    let i = key.index_of(c);
    assert(plan::is_key_char(key[i]));
}

} // verus!
