//! What the command sequences of the interactive actions do to a pane.

use vstd::prelude::*;
use crate::domain::{Exchange, Pane};
use crate::error::ErrorModel;
use crate::number;
use crate::scan;
use crate::smart_naming::thread;
use crate::text;
use crate::tmux::actions;
use crate::tmux::actions::StepModel;
use crate::tmux::options;
use crate::tmux::quote;

verus! {

// ---------------------------------------------------------------------------
// Command sequences as text
// ---------------------------------------------------------------------------

/// A command stands in a sequence at a place, as a command of its own.
pub open spec fn runs_at(sequence: Seq<char>, command: Seq<char>, i: int) -> bool {
    &&& scan::occurs_at(sequence, command, i)
    &&& i == 0 || scan::occurs_at(sequence, "; "@, i - 2)
    &&& i + command.len() == sequence.len() || scan::occurs_at(sequence, "; "@, i + command.len())
}

/// A sequence runs a command.
pub open spec fn runs(sequence: Seq<char>, command: Seq<char>) -> bool {
    exists|i: int| runs_at(sequence, command, i)
}

/// The command that unsets a pane-local option.
pub open spec fn unset_of(pane: Seq<char>, option: Seq<char>) -> Seq<char> {
    "set-option -pu -t "@ + quote::quoted(pane) + " "@ + option
}

/// The command that sets a pane-local option.
pub open spec fn set_of(pane: Seq<char>, option: Seq<char>, value: Seq<char>) -> Seq<char> {
    "set-option -p -t "@ + quote::quoted(pane) + " "@ + option + " "@ + value
}

/// Each of the commands that are joined to a sequence runs.
pub proof fn a_joined_command_runs(parts: Seq<Seq<char>>, k: int)
    requires
        0 <= k < parts.len(),
    ensures
        runs(scan::join_with(parts, "; "@), parts[k]),
    decreases parts.len(),
{
    let sep = "; "@;
    reveal_strlit("; ");
    let whole = scan::join_with(parts, sep);
    if parts.len() == 1 {
        assert(whole.subrange(0, whole.len() as int) =~= whole);
        assert(runs_at(whole, parts[k], 0));
    } else {
        let head = scan::join_with(parts.drop_last(), sep);
        let n = head.len() as int;
        assert(whole =~= head + sep + parts.last());
        if k == parts.len() - 1 {
            assert(whole.subrange(n + 2, whole.len() as int) =~= parts.last());
            assert(whole.subrange(n, n + 2) =~= sep);
            assert(runs_at(whole, parts[k], n + 2));
        } else {
            a_joined_command_runs(parts.drop_last(), k);
            assert(parts.drop_last()[k] == parts[k]);
            let i = choose|i: int| runs_at(head, parts[k], i);
            let end = i + parts[k].len();
            assert(whole.subrange(i, end) =~= head.subrange(i, end));
            if i > 0 {
                assert(whole.subrange(i - 2, i) =~= head.subrange(i - 2, i));
            }
            if end == n {
                assert(whole.subrange(n, n + 2) =~= sep);
            } else {
                assert(whole.subrange(end, end + 2) =~= head.subrange(end, end + 2));
            }
            assert(runs_at(whole, parts[k], i));
        }
    }
}

/// A condition demands that a format has a value.
pub open spec fn demands(condition: Seq<char>, name: Seq<char>, value: Seq<char>) -> bool {
    scan::occurs(condition, "#{==:#{"@ + name + "},"@ + value + "}"@)
}

/// What stands in the middle of a sequence stands in the sequence.
pub proof fn occurs_inside<T>(a: Seq<T>, middle: Seq<T>, b: Seq<T>, p: Seq<T>)
    requires
        scan::occurs(middle, p),
    ensures
        scan::occurs(a + middle + b, p),
{
    let i = choose|i: int| scan::occurs_at(middle, p, i);
    let whole = a + middle + b;
    let at = a.len() + i;
    assert(whole.subrange(at, at + p.len()) =~= middle.subrange(i, i + p.len()));
    assert(scan::occurs_at(whole, p, at));
}

/// A sequence stands in itself.
pub proof fn occurs_itself<T>(p: Seq<T>)
    ensures
        scan::occurs(p, p),
{
    assert(p.subrange(0, p.len() as int) =~= p);
    assert(scan::occurs_at(p, p, 0));
}

/// The condition that several clauses hold is their conjunction.
pub proof fn every_clause_is_demanded(clauses: Seq<Seq<char>>, k: int)
    requires
        0 <= k < clauses.len(),
    ensures
        scan::occurs(quote::all_clauses(clauses), clauses[k]),
        clauses.len() == 1 ==> quote::all_clauses(clauses) == clauses[0],
        clauses.len() > 1 ==> quote::all_clauses(clauses) == "#{&&:"@ + quote::all_clauses(
            clauses.drop_last(),
        ) + ","@ + clauses.last() + "}"@,
    decreases clauses.len(),
{
    occurs_itself(clauses[k]);
    if clauses.len() > 1 {
        let head = quote::all_clauses(clauses.drop_last());
        let last = clauses.last();
        let whole = quote::all_clauses(clauses);
        if k == clauses.len() - 1 {
            occurs_inside("#{&&:"@ + head + ","@, last, "}"@, clauses[k]);
            assert(whole =~= "#{&&:"@ + head + ","@ + last + "}"@);
        } else {
            every_clause_is_demanded(clauses.drop_last(), k);
            assert(clauses.drop_last()[k] == clauses[k]);
            occurs_inside("#{&&:"@, head, ","@ + last + "}"@, clauses[k]);
            assert(whole =~= "#{&&:"@ + head + (","@ + last + "}"@));
        }
    }
}

// ---------------------------------------------------------------------------
// Giving up a manual name
// ---------------------------------------------------------------------------

/// A step runs a command sequence on a pane while a condition holds.
pub open spec fn guards(step: StepModel, pane: Seq<char>) -> bool {
    &&& step.request.len() == 6
    &&& step.request[0] == "if-shell"@
    &&& step.request[1] == "-F"@
    &&& step.request[2] == "-t"@
    &&& step.request[3] == pane
    &&& step.marker is None
}

/// A step reads an option of a pane back and demands a value.
pub open spec fn reads_option(
    step: StepModel,
    pane: Seq<char>,
    option: Seq<char>,
    value: Seq<char>,
) -> bool {
    &&& step.request == seq!["show-options"@, "-pv"@, "-t"@, pane, option]
    &&& step.marker is Some
    &&& step.marker->0.expected == value
}

/// With or without a thread title to go back to, an unpin unsets the manual name of the
/// pane and everything kept with it, asks for a generated name, and proves that it came
/// that far.
pub proof fn an_unpin_gives_up_the_manual_name(pane: Pane, token: Seq<char>)
    ensures
        ({
            let steps = actions::unpin_steps(pane, token);
            let release = steps[steps.len() - 3];
            let commands = release.request[5];
            &&& steps.len() >= 3
            &&& guards(release, pane.id@)
            &&& runs(commands, unset_of(pane.id@, "@codex_mux_manual_name"@))
            &&& runs(commands, unset_of(pane.id@, "@codex_mux_manual_name_source"@))
            &&& runs(commands, unset_of(pane.id@, "@codex_mux_manual_name_pid"@))
            &&& runs(commands, unset_of(pane.id@, "@codex_mux_manual_name_session"@))
            &&& runs(commands, set_of(pane.id@, "@codex_mux_name_now"@, "1"@))
            &&& runs(commands, set_of(pane.id@, "@codex_mux_unpin_complete"@, quote::quoted(token)))
            &&& reads_option(
                steps[steps.len() - 2],
                pane.id@,
                "@codex_mux_unpin_complete"@,
                token,
            )
            &&& steps.last().request == seq![
                "set-option"@,
                "-pu"@,
                "-t"@,
                pane.id@,
                "@codex_mux_unpin_complete"@,
            ]
            &&& steps.last().marker is None
        }),
{
    let id = pane.id@;
    match actions::retained_source(pane) {
        Some(source) => {
            let parts = actions::release_commands(id, token);
            a_joined_command_runs(parts, 0);
            a_joined_command_runs(parts, 1);
            a_joined_command_runs(parts, 2);
            a_joined_command_runs(parts, 3);
            a_joined_command_runs(parts, 5);
            a_joined_command_runs(parts, 6);
        },
        None => {
            let parts = actions::wait_commands(pane, actions::title_or_empty(pane), token);
            a_joined_command_runs(parts, 4);
            a_joined_command_runs(parts, 5);
            a_joined_command_runs(parts, 6);
            a_joined_command_runs(parts, 7);
            a_joined_command_runs(parts, 8);
            a_joined_command_runs(parts, 9);
        },
    }
}

/// Where a manual name kept its thread title, an unpin first puts that title back, proves
/// it, and only then gives up the manual name, while the pane still shows the title.
pub proof fn an_unpin_restores_the_kept_title(pane: Pane, token: Seq<char>, source: Seq<char>)
    requires
        actions::retained_source(pane) == Some(source),
    ensures
        ({
            let steps = actions::unpin_steps(pane, token);
            &&& steps.len() == 5
            &&& guards(steps[0], pane.id@)
            &&& runs(
                steps[0].request[5],
                "select-pane -t "@ + quote::quoted(pane.id@) + " -T "@ + quote::quoted(
                    quote::title_literal(source),
                ),
            )
            &&& runs(
                steps[0].request[5],
                set_of(pane.id@, "@codex_mux_unpin_ready"@, quote::quoted(token)),
            )
            &&& reads_option(steps[1], pane.id@, "@codex_mux_unpin_ready"@, token)
            &&& demands(
                steps[0].request[4],
                "pane_title"@,
                quote::format_literal(match pane.title {
                    Some(t) => t@,
                    None => Seq::empty(),
                }),
            )
            &&& demands(steps[2].request[4], "pane_title"@, quote::format_literal(source))
            &&& demands(
                steps[2].request[4],
                "@codex_mux_unpin_ready"@,
                quote::format_literal(token),
            )
            &&& runs(steps[2].request[5], unset_of(pane.id@, "@codex_mux_unpin_ready"@))
        }),
{
    let id = pane.id@;
    let select = "select-pane -t "@ + quote::quoted(id) + " -T "@ + quote::quoted(
        quote::title_literal(source),
    );
    let proven = set_of(id, "@codex_mux_unpin_ready"@, quote::quoted(token));
    let parts = seq![select, proven];
    assert(parts.drop_last() =~= seq![select]);
    reveal_with_fuel(scan::join_with, 3);
    assert(scan::join_with(parts, "; "@) =~= select + "; "@ + proven);
    assert(actions::restore_text(pane, source, token) =~= scan::join_with(parts, "; "@));
    a_joined_command_runs(parts, 0);
    a_joined_command_runs(parts, 1);
    a_joined_command_runs(actions::release_commands(id, token), 4);
    let title = actions::title_or_empty(pane);
    every_clause_is_demanded(actions::unpin_guard(pane, source, title, None), 6);
    every_clause_is_demanded(actions::unpin_guard(pane, source, source, Some(token)), 6);
    every_clause_is_demanded(actions::unpin_guard(pane, source, source, Some(token)), 7);
}

/// Without a thread title to go back to, an unpin keeps what the pane shows now, its
/// process and its session, so that only a changed title ends the wait.
pub proof fn an_unpin_without_a_title_waits(pane: Pane, token: Seq<char>)
    requires
        actions::retained_source(pane) is None,
    ensures
        ({
            let steps = actions::unpin_steps(pane, token);
            let commands = steps[0].request[5];
            let title = match pane.title {
                Some(t) => t@,
                None => Seq::empty(),
            };
            &&& steps.len() == 3
            &&& runs(commands, set_of(pane.id@, "@codex_mux_unpin_waiting"@, "1"@))
            &&& runs(
                commands,
                set_of(pane.id@, "@codex_mux_unpin_waiting_title"@, quote::quoted(title)),
            )
            &&& runs(
                commands,
                set_of(
                    pane.id@,
                    "@codex_mux_unpin_waiting_pid"@,
                    number::decimal(pane.pane_pid as nat),
                ),
            )
            &&& runs(
                commands,
                set_of(
                    pane.id@,
                    "@codex_mux_unpin_waiting_session"@,
                    quote::quoted(pane.session_id@),
                ),
            )
            &&& demands(steps[0].request[4], "pane_title"@, quote::format_literal(title))
        }),
{
    let title = actions::title_or_empty(pane);
    let parts = actions::wait_commands(pane, title, token);
    a_joined_command_runs(parts, 0);
    a_joined_command_runs(parts, 1);
    a_joined_command_runs(parts, 2);
    a_joined_command_runs(parts, 3);
    every_clause_is_demanded(actions::release_guard(pane, title), 6);
}

/// A condition holds only of the process, the session and the manual name that were shown.
pub open spec fn same_manual_pane(condition: Seq<char>, pane: Pane) -> bool {
    &&& demands(condition, "pane_pid"@, number::decimal(pane.pane_pid as nat))
    &&& demands(condition, "session_id"@, quote::format_literal(pane.session_id@))
    &&& demands(condition, "@codex_mux_manual_name"@, "1"@)
}

/// Whatever of an unpin changes a pane runs only while the pane is still the one that was
/// shown: the same process, the same session, the same manual name.
pub proof fn an_unpin_meets_the_pane_it_was_shown(pane: Pane, token: Seq<char>, i: int)
    requires
        0 <= i < actions::unpin_steps(pane, token).len(),
        actions::unpin_steps(pane, token)[i].request.len() == 6,
    ensures
        same_manual_pane(actions::unpin_steps(pane, token)[i].request[4], pane),
        actions::retained_source(pane) matches Some(source) ==> demands(
            actions::unpin_steps(pane, token)[i].request[4],
            "@codex_mux_manual_name_source"@,
            quote::format_literal(source),
        ) && demands(
            actions::unpin_steps(pane, token)[i].request[4],
            "@codex_mux_manual_name_pid"@,
            number::decimal(pane.pane_pid as nat),
        ) && demands(
            actions::unpin_steps(pane, token)[i].request[4],
            "@codex_mux_manual_name_session"@,
            quote::format_literal(pane.session_id@),
        ),
        actions::retained_source(pane) is None ==> demands(
            actions::unpin_steps(pane, token)[i].request[4],
            "@codex_mux_manual_name_pid"@,
            quote::format_literal(pane.manual_name_pid_raw@),
        ) && demands(
            actions::unpin_steps(pane, token)[i].request[4],
            "@codex_mux_manual_name_session"@,
            quote::format_literal(pane.manual_name_session_raw@),
        ),
{
    let title = actions::title_or_empty(pane);
    match actions::retained_source(pane) {
        Some(source) => {
            let first = actions::unpin_guard(pane, source, title, None);
            let second = actions::unpin_guard(pane, source, source, Some(token));
            let guard = if i == 0 {
                first
            } else {
                second
            };
            every_clause_is_demanded(guard, 0);
            every_clause_is_demanded(guard, 1);
            every_clause_is_demanded(guard, 2);
            every_clause_is_demanded(guard, 3);
            every_clause_is_demanded(guard, 4);
            every_clause_is_demanded(guard, 5);
        },
        None => {
            let guard = actions::release_guard(pane, title);
            every_clause_is_demanded(guard, 0);
            every_clause_is_demanded(guard, 2);
            every_clause_is_demanded(guard, 3);
            every_clause_is_demanded(guard, 4);
            every_clause_is_demanded(guard, 5);
        },
    }
}

/// A kept thread title counts exactly where it shows a thread and was kept by the process
/// and the session that the pane still has.
pub proof fn a_kept_title_belongs_to_its_pane(pane: Pane)
    ensures
        actions::retained_source(pane) is Some <==> pane.manual_name_source is Some && thread::hint(
            pane.manual_name_source->0@,
        ) is Some && pane.manual_name_pid is Some && pane.manual_name_pid->0 == pane.pane_pid
            && pane.manual_name_session is Some && pane.manual_name_session->0@
            == pane.session_id@,
        actions::retained_source(pane) matches Some(source) ==> source
            == pane.manual_name_source->0@,
{
}

// ---------------------------------------------------------------------------
// Renaming
// ---------------------------------------------------------------------------

/// Words as they stand in the text of a command sequence.
pub open spec fn quoted_words(words: Seq<Seq<char>>) -> Seq<char> {
    scan::join_with(Seq::new(words.len(), |i: int| quote::quoted(words[i])), " "@)
}

proof fn words_stand_in_the_text(
    arguments: Seq<Seq<char>>,
    value_index: Option<int>,
    words: Seq<Seq<char>>,
    i: int,
)
    requires
        scan::occurs_at(arguments, words, i),
        words.len() > 0,
        forall|j: int|
            0 <= j < words.len() ==> #[trigger] words[j] != ";"@ || value_index == Some(i + j),
    ensures
        scan::occurs(quote::command_text(arguments, value_index), quoted_words(words)),
{
    let parts = Seq::new(
        arguments.len(),
        |k: int| quote::command_word(arguments[k], value_index == Some(k)),
    );
    let end = i + words.len();
    let a = parts.take(i);
    let b = parts.subrange(i, end);
    let c = parts.skip(end);
    let sep = " "@;
    assert forall|j: int| 0 <= j < words.len() implies #[trigger] b[j] == quote::quoted(
        words[j],
    ) by {
        assert(arguments.subrange(i, end)[j] == words[j]);
        assert(arguments[i + j] == words[j]);
    }
    assert(b =~= Seq::new(words.len(), |j: int| quote::quoted(words[j])));
    let middle = scan::join_with(b, sep);
    occurs_itself(middle);
    let empty = Seq::<char>::empty();
    let front = if a.len() > 0 {
        scan::join_with(a, sep) + sep
    } else {
        empty
    };
    if a.len() > 0 {
        scan::join_append(a, b, sep);
    } else {
        assert(a + b =~= b);
        assert(empty + middle =~= middle);
    }
    assert(scan::join_with(a + b, sep) =~= front + middle);
    let back = if c.len() > 0 {
        sep + scan::join_with(c, sep)
    } else {
        empty
    };
    if c.len() > 0 {
        scan::join_append(a + b, c, sep);
        assert(parts =~= a + b + c);
    } else {
        assert(parts =~= a + b);
    }
    assert(scan::join_with(parts, sep) =~= front + middle + back);
    occurs_inside(front, middle, back, middle);
}

/// The text that a rename runs.
pub open spec fn rename_text(pane: Pane, title: Seq<char>, token: Seq<char>) -> Seq<char> {
    actions::rename_steps(pane, title, token)[0].request[5]
}

/// A rename runs the command that sets exactly the title, marks the pane as manually named,
/// and proves with its token that it came that far.
pub proof fn a_rename_sets_and_marks_the_title(pane: Pane, title: Seq<char>, token: Seq<char>)
    requires
        pane.id@ != ";"@,
        token != ";"@,
    ensures
        ({
            let steps = actions::rename_steps(pane, title, token);
            &&& steps.len() == 3
            &&& guards(steps[0], pane.id@)
            &&& scan::occurs(
                steps[0].request[5],
                quoted_words(
                    seq!["select-pane"@, "-t"@, pane.id@, "-T"@, quote::title_literal(title)],
                ),
            )
            &&& scan::occurs(
                steps[0].request[5],
                quoted_words(
                    seq!["set-option"@, "-p"@, "-t"@, pane.id@, "@codex_mux_manual_name"@, "1"@],
                ),
            )
            &&& scan::occurs(
                steps[0].request[5],
                quoted_words(
                    seq![
                        "set-option"@,
                        "-p"@,
                        "-t"@,
                        pane.id@,
                        "@codex_mux_rename_complete"@,
                        token,
                    ],
                ),
            )
            &&& reads_option(steps[1], pane.id@, "@codex_mux_rename_complete"@, token)
            &&& steps[2].request == seq![
                "set-option"@,
                "-pu"@,
                "-t"@,
                pane.id@,
                "@codex_mux_rename_complete"@,
            ]
            &&& steps[2].marker is None
        }),
{
    words_are_no_separators();
    let words = actions::rename_words(pane, title, token);
    let head = actions::rename_head(pane);
    let n = head.len() as int;
    let select = seq!["select-pane"@, "-t"@, pane.id@, "-T"@, quote::title_literal(title)];
    assert(words.subrange(n - 4, n + 1) =~= select);
    words_stand_in_the_text(words, Some(n), select, n - 4);
    let mark = seq!["set-option"@, "-p"@, "-t"@, pane.id@, "@codex_mux_manual_name"@, "1"@];
    let unsets = options::unset_sequence(
        pane.id@,
        options::generated_options() + actions::renamed_options(),
    );
    let from = unsets.len() as int + 1;
    assert(words.subrange(from, from + 6) =~= mark);
    words_stand_in_the_text(words, Some(n), mark, from);
    let proven = seq![
        "set-option"@,
        "-p"@,
        "-t"@,
        pane.id@,
        "@codex_mux_rename_complete"@,
        token,
    ];
    assert(words.subrange(n + 2, n + 8) =~= proven);
    words_stand_in_the_text(words, Some(n), proven, n + 2);
}

proof fn words_are_no_separators()
    ensures
        "select-pane"@ != ";"@,
        "-t"@ != ";"@,
        "-T"@ != ";"@,
        "set-option"@ != ";"@,
        "-p"@ != ";"@,
        "-pu"@ != ";"@,
        "1"@ != ";"@,
        "@codex_mux_manual_name"@ != ";"@,
        "@codex_mux_manual_name_source"@ != ";"@,
        "@codex_mux_manual_name_pid"@ != ";"@,
        "@codex_mux_manual_name_session"@ != ";"@,
        "@codex_mux_rename_complete"@ != ";"@,
        "if-shell"@ != ";"@,
        "-F"@ != ";"@,
{
    reveal_strlit(";");
    reveal_strlit("select-pane");
    reveal_strlit("-t");
    reveal_strlit("-T");
    reveal_strlit("set-option");
    reveal_strlit("-p");
    reveal_strlit("-pu");
    reveal_strlit("1");
    reveal_strlit("@codex_mux_manual_name");
    reveal_strlit("@codex_mux_manual_name_source");
    reveal_strlit("@codex_mux_manual_name_pid");
    reveal_strlit("@codex_mux_manual_name_session");
    reveal_strlit("@codex_mux_rename_complete");
    reveal_strlit("if-shell");
    reveal_strlit("-F");
    assert("1"@[0] != ";"@[0]);
    assert("select-pane"@.len() == 11 && "set-option"@.len() == 10 && "if-shell"@.len() == 8);
    assert("-t"@.len() == 2 && "-T"@.len() == 2 && "-p"@.len() == 2 && "-F"@.len() == 2);
    assert("-pu"@.len() == 3 && ";"@.len() == 1);
    assert("@codex_mux_manual_name"@.len() == 22);
    assert("@codex_mux_manual_name_source"@.len() == 29);
    assert("@codex_mux_manual_name_pid"@.len() == 26);
    assert("@codex_mux_manual_name_session"@.len() == 30);
    assert("@codex_mux_rename_complete"@.len() == 26);
}

/// A rename runs only while the pane is still the one that was shown: the same process, the
/// same session, and a manual name or none as before.
pub proof fn a_rename_meets_the_pane_it_was_shown(pane: Pane, title: Seq<char>, token: Seq<char>)
    ensures
        ({
            let condition = actions::rename_steps(pane, title, token)[0].request[4];
            &&& demands(condition, "pane_pid"@, number::decimal(pane.pane_pid as nat))
            &&& demands(condition, "session_id"@, quote::format_literal(pane.session_id@))
            &&& demands(
                condition,
                "@codex_mux_manual_name"@,
                if pane.manual_name {
                    "1"@
                } else {
                    ""@
                },
            )
            &&& pane.manual_name ==> demands(
                condition,
                "@codex_mux_manual_name_source"@,
                match pane.manual_name_source {
                    Some(source) => quote::format_literal(source@),
                    None => Seq::empty(),
                },
            )
        }),
{
    let guard = actions::rename_guard(pane);
    every_clause_is_demanded(guard, 0);
    every_clause_is_demanded(guard, 1);
    every_clause_is_demanded(guard, 2);
    if pane.manual_name {
        every_clause_is_demanded(guard, 3);
    }
}

/// A rename of a pane whose title shows a thread keeps that title, with the process and the
/// session that it belongs to, while the pane still shows it.
pub proof fn a_rename_keeps_the_thread_title(
    pane: Pane,
    title: Seq<char>,
    token: Seq<char>,
    source: Seq<char>,
)
    requires
        !pane.manual_name,
        pane.title is Some,
        pane.title->0@ == source,
        thread::hint(source) is Some,
    ensures
        exists|condition: Seq<char>, commands: Seq<char>|
            scan::occurs(
                actions::rename_words(pane, title, token),
                #[trigger] seq!["if-shell"@, "-F"@, "-t"@, pane.id@, condition, commands],
            ) && demands(condition, "pane_title"@, quote::format_literal(source)) && runs(
                commands,
                set_of(pane.id@, "@codex_mux_manual_name_source"@, quote::quoted(source)),
            ) && runs(
                commands,
                set_of(
                    pane.id@,
                    "@codex_mux_manual_name_pid"@,
                    number::decimal(pane.pane_pid as nat),
                ),
            ) && runs(
                commands,
                set_of(
                    pane.id@,
                    "@codex_mux_manual_name_session"@,
                    quote::quoted(pane.session_id@),
                ),
            ),
{
    let id = pane.id@;
    let condition = quote::equals_clause("pane_title"@, quote::format_literal(source));
    occurs_itself(condition);
    let first = set_of(id, "@codex_mux_manual_name_source"@, quote::quoted(source));
    let second = set_of(id, "@codex_mux_manual_name_pid"@, number::decimal(pane.pane_pid as nat));
    let third = set_of(id, "@codex_mux_manual_name_session"@, quote::quoted(pane.session_id@));
    let parts = seq![first, second, third];
    assert(parts.drop_last() =~= seq![first, second]);
    assert(seq![first, second].drop_last() =~= seq![first]);
    reveal_with_fuel(scan::join_with, 4);
    let commands = actions::source_mutation(pane, source);
    reveal_strlit("; set-option -p -t ");
    reveal_strlit("set-option -p -t ");
    reveal_strlit("; ");
    assert("; set-option -p -t "@ =~= "; "@ + "set-option -p -t "@);
    assert(scan::join_with(parts, "; "@) =~= first + "; "@ + second + "; "@ + third);
    assert(commands =~= first + "; "@ + second + "; "@ + third);
    a_joined_command_runs(parts, 0);
    a_joined_command_runs(parts, 1);
    a_joined_command_runs(parts, 2);
    let words = actions::rename_words(pane, title, token);
    let kept = seq!["if-shell"@, "-F"@, "-t"@, id, condition, commands];
    let unsets = options::unset_sequence(
        id,
        options::generated_options() + actions::renamed_options(),
    );
    let from = unsets.len() as int + 8;
    assert(words.subrange(from, from + 6) =~= kept);
    assert(scan::occurs_at(words, kept, from));
}

/// A rename of a manually named pane keeps its thread title only where that still belongs
/// to the process and the session of the pane, and any other rename keeps nothing.
pub proof fn a_rename_keeps_what_belongs_to_the_pane(pane: Pane)
    ensures
        actions::rename_source(pane) is Some <==> if pane.manual_name {
            actions::retained_source(pane) is Some
        } else {
            pane.title is Some && thread::hint(pane.title->0@) is Some
        },
        actions::rename_source(pane) matches Some(source) ==> source == if pane.manual_name {
            pane.manual_name_source->0@
        } else {
            pane.title->0@
        },
        actions::rename_source(pane) is None ==> actions::keep_source_words(pane) == Seq::<
            Seq<char>,
        >::empty(),
{
}

/// A rename gives up whatever an earlier unpin left on the pane, and everything that a
/// generated name owns.
pub proof fn a_rename_clears_every_earlier_name(
    pane: Pane,
    title: Seq<char>,
    token: Seq<char>,
    option: Seq<char>,
)
    requires
        pane.id@ != ";"@,
        option != ";"@,
        option == "@codex_mux_generated_thread"@ || option == "@codex_mux_generated_name"@ || option
            == "@codex_mux_generated_source_title"@ || option == "@codex_mux_generated_source_cwd"@
            || option == "@codex_mux_generated_source_pid"@ || option
            == "@codex_mux_generated_source_session"@ || option == "@codex_mux_generated_at"@
            || option == "@codex_mux_name_now"@ || option == "@codex_mux_auto_name_status"@
            || option == "@codex_mux_auto_name_started"@ || option == "@codex_mux_auto_name_token"@
            || option == "@codex_mux_manual_name_source"@ || option == "@codex_mux_manual_name_pid"@
            || option == "@codex_mux_manual_name_session"@ || option == "@codex_mux_unpin_ready"@
            || option == "@codex_mux_unpin_waiting"@ || option == "@codex_mux_unpin_waiting_title"@
            || option == "@codex_mux_unpin_waiting_pid"@ || option
            == "@codex_mux_unpin_waiting_session"@,
    ensures
        scan::occurs(
            rename_text(pane, title, token),
            quoted_words(seq!["set-option"@, "-pu"@, "-t"@, pane.id@, option]),
        ),
{
    words_are_no_separators();
    let opts = options::generated_options() + actions::renamed_options();
    let k = choose|k: int| 0 <= k < opts.len() && opts[k] == option;
    assert(exists|k: int| 0 <= k < opts.len() && opts[k] == option) by {
        assert(opts[0] == "@codex_mux_generated_thread"@);
        assert(opts[1] == "@codex_mux_generated_name"@);
        assert(opts[2] == "@codex_mux_generated_source_title"@);
        assert(opts[3] == "@codex_mux_generated_source_cwd"@);
        assert(opts[4] == "@codex_mux_generated_source_pid"@);
        assert(opts[5] == "@codex_mux_generated_source_session"@);
        assert(opts[6] == "@codex_mux_generated_at"@);
        assert(opts[7] == "@codex_mux_name_now"@);
        assert(opts[8] == "@codex_mux_auto_name_status"@);
        assert(opts[9] == "@codex_mux_auto_name_started"@);
        assert(opts[10] == "@codex_mux_auto_name_token"@);
        assert(opts[11] == "@codex_mux_manual_name_source"@);
        assert(opts[12] == "@codex_mux_manual_name_pid"@);
        assert(opts[13] == "@codex_mux_manual_name_session"@);
        assert(opts[14] == "@codex_mux_unpin_ready"@);
        assert(opts[15] == "@codex_mux_unpin_waiting"@);
        assert(opts[16] == "@codex_mux_unpin_waiting_title"@);
        assert(opts[17] == "@codex_mux_unpin_waiting_pid"@);
        assert(opts[18] == "@codex_mux_unpin_waiting_session"@);
    }
    let unsets = options::unset_sequence(pane.id@, opts);
    let at = unset_stands(pane.id@, opts, k);
    let words = actions::rename_words(pane, title, token);
    let one = seq!["set-option"@, "-pu"@, "-t"@, pane.id@, option];
    assert(words.subrange(at, at + 5) =~= unsets.subrange(at, at + 5));
    words_stand_in_the_text(words, Some(actions::rename_head(pane).len() as int), one, at);
}

/// A row of options is unset one by one.
pub proof fn unset_stands(pane: Seq<char>, opts: Seq<Seq<char>>, k: int) -> (at: int)
    requires
        0 <= k < opts.len(),
    ensures
        scan::occurs_at(
            options::unset_sequence(pane, opts),
            seq!["set-option"@, "-pu"@, "-t"@, pane, opts[k]],
            at,
        ),
    decreases opts.len(),
{
    let whole = options::unset_sequence(pane, opts);
    let one = seq!["set-option"@, "-pu"@, "-t"@, pane, opts[k]];
    if opts.len() == 1 {
        assert(whole.subrange(0, 5) =~= one);
        0
    } else {
        let head = options::unset_sequence(pane, opts.drop_last());
        if k == opts.len() - 1 {
            let at = head.len() as int + 1;
            assert(whole.subrange(at, at + 5) =~= one);
            at
        } else {
            let at = unset_stands(pane, opts.drop_last(), k);
            assert(whole.subrange(at, at + 5) =~= head.subrange(at, at + 5));
            at
        }
    }
}

// ---------------------------------------------------------------------------
// Selecting and launching
// ---------------------------------------------------------------------------

/// The requests that lead a client to a pane name that client and that pane alone, and
/// zoom the window exactly where that is asked for.
pub proof fn a_switch_leads_the_client_to_the_pane(client: Seq<char>, pane: Seq<char>, zoom: bool)
    ensures
        ({
            let words = actions::switch_words(client, pane, zoom);
            &&& scan::occurs_at(words, seq!["select-window"@, "-t"@, pane, ";"@], 0)
            &&& scan::occurs_at(words, seq!["select-pane"@, "-Z"@, "-t"@, pane, ";"@], 4)
            &&& scan::occurs_at(
                words,
                seq!["switch-client"@, "-Z"@, "-c"@, client, "-t"@, pane],
                9,
            )
            &&& zoom ==> words == actions::switch_words(client, pane, false) + seq![
                ";"@,
                "resize-pane"@,
                "-Z"@,
                "-t"@,
                pane,
            ]
            &&& !zoom ==> words.len() == 15
        }),
{
    let words = actions::switch_words(client, pane, zoom);
    assert(words.subrange(0, 4) =~= seq!["select-window"@, "-t"@, pane, ";"@]);
    assert(words.subrange(4, 9) =~= seq!["select-pane"@, "-Z"@, "-t"@, pane, ";"@]);
    assert(words.subrange(9, 15) =~= seq!["switch-client"@, "-Z"@, "-c"@, client, "-t"@, pane]);
}

/// A switch leaves the window of the pane zoomed: it asks whether it is, and toggles the
/// zoom exactly where it is not.
pub proof fn a_switch_leaves_the_window_zoomed(
    client: Seq<char>,
    pane: Seq<char>,
    trace: Seq<Exchange>,
)
    requires
        actions::switched(client, pane, trace, Ok::<(), ErrorModel>(())),
    ensures
        trace.len() == 2,
        trace[0].request == text::utf8_words(
            seq!["display-message"@, "-p"@, "-t"@, pane, "#{window_zoomed_flag}"@],
        ),
        trace[0].reply is Ok && trace[1].reply is Ok,
        ({
            let shown = trace[0].reply->Ok_0.stdout;
            &&& shown.len() > 0
            &&& shown[0] == 48 || shown[0] == 49
            &&& shown[0] == 48 ==> trace[1].request == text::utf8_words(
                actions::switch_words(client, pane, true),
            )
            &&& shown[0] == 49 ==> trace[1].request == text::utf8_words(
                actions::switch_words(client, pane, false),
            )
        }),
{
}

/// A launch that succeeds opened a window, and led the client to the pane that tmux printed
/// for it, which is the pane that is given.
pub proof fn a_launch_leads_to_the_pane_it_opened(
    request: Seq<Seq<u8>>,
    client: Seq<char>,
    trace: Seq<Exchange>,
    pane: Seq<char>,
)
    requires
        actions::launched(request, client, trace, Ok::<Seq<char>, ErrorModel>(pane)),
    ensures
        trace.len() == 2,
        trace[0].request == request,
        trace[0].reply is Ok,
        trace[0].reply->Ok_0.status == Some(0i32),
        text::utf8_decoded(trace[0].reply->Ok_0.stdout) is Some,
        pane == scan::trimmed(text::utf8_decoded(trace[0].reply->Ok_0.stdout)->0),
        pane.len() > 1 && pane[0] == '%',
        trace[1].request == text::utf8_words(actions::switch_words(client, pane, false)),
        trace[1].reply is Ok,
        trace[1].reply->Ok_0.status == Some(0i32),
{
}

/// A pane that was opened but not selected is named in what is reported, so that it is not
/// lost.
pub proof fn a_pane_that_was_opened_is_never_lost(
    request: Seq<Seq<u8>>,
    client: Seq<char>,
    trace: Seq<Exchange>,
    e: ErrorModel,
)
    requires
        actions::launched(request, client, trace, Err::<Seq<char>, ErrorModel>(e)),
        trace.len() == 2,
    ensures
        e is CreatedPaneNotSelected,
        actions::printed_pane_id(trace[0].reply->Ok_0.stdout) == Ok::<Seq<char>, ErrorModel>(
            e->pane,
        ),
        actions::done(trace[1].reply) is Err,
{
}

/// A resumed session asks for a name of its pane at once, whatever comes of it, and only
/// after the launch succeeded.
pub proof fn a_resumed_pane_asks_for_its_name(
    request: Seq<Seq<u8>>,
    client: Seq<char>,
    trace: Seq<Exchange>,
    pane: Seq<char>,
)
    requires
        actions::launched_and_marked(request, client, trace, Ok::<Seq<char>, ErrorModel>(pane)),
    ensures
        trace.len() == 3,
        actions::launched(request, client, trace.take(2), Ok::<Seq<char>, ErrorModel>(pane)),
        trace[2].request == text::utf8_words(
            seq!["set-option"@, "-p"@, "-t"@, pane, "@codex_mux_name_now"@, "1"@],
        ),
{
}

} // verus!
