//! What the Left gesture reads of a pane, and the popup that it opens.

use vstd::prelude::*;
use crate::domain::{InvocationContext, TerminalSize};
use crate::error::ErrorModel;
use crate::number;
use crate::path;
use crate::scan;
use crate::text;
use crate::tmux::action_laws;
use crate::tmux::quote;
use crate::tmux::smart_left;
use crate::tmux::smart_left::{ComposerBoundary, ProbeConfig, StateModel};

verus! {

// ---------------------------------------------------------------------------
// The state of a pane
// ---------------------------------------------------------------------------

/// How tmux prints a flag.
pub open spec fn printed_flag(set: bool) -> Seq<char> {
    if set {
        "1"@
    } else {
        "0"@
    }
}

proof fn printed_numbers_hold_digits(n: nat)
    ensures
        !number::decimal(n).contains('\x1f'),
        number::decimal(n).len() > 0,
{
    number::decimal_digits(n);
    assert forall|i: int| 0 <= i < number::decimal(n).len() implies number::decimal(n)[i]
        != '\x1f' by {
        assert(text::is_digit(number::decimal(n)[i]));
    }
}

/// The state of a pane reads back: each field comes out as what it is named after.
pub proof fn a_pane_state_reads_back(
    pid: u32,
    tty: Seq<char>,
    x: u16,
    y: u16,
    visible: bool,
    mode: bool,
    command: Seq<char>,
    prompt: bool,
)
    requires
        !tty.contains('\x1f'),
        !command.contains('\x1f'),
    ensures
        ({
            let fields = seq![
                number::decimal(pid as nat),
                tty,
                number::decimal(x as nat),
                number::decimal(y as nat),
                printed_flag(visible),
                printed_flag(mode),
                command,
                printed_flag(prompt),
            ];
            let line = scan::join_with(fields, seq!['\x1f']) + seq!['\n'];
            smart_left::parsed_state(text::utf8(line)) == Ok::<StateModel, ErrorModel>(
                StateModel {
                    pane_pid: pid,
                    pane_tty: text::utf8(tty),
                    cursor_x: x,
                    cursor_y: y,
                    cursor_visible: visible,
                    pane_in_mode: mode,
                    pane_command: command,
                    shell_prompt: prompt,
                },
            )
        }),
{
    let fields = seq![
        number::decimal(pid as nat),
        tty,
        number::decimal(x as nat),
        number::decimal(y as nat),
        printed_flag(visible),
        printed_flag(mode),
        command,
        printed_flag(prompt),
    ];
    let bare = scan::join_with(fields, seq!['\x1f']);
    let line = bare + seq!['\n'];
    reveal_strlit("0");
    reveal_strlit("1");
    printed_numbers_hold_digits(pid as nat);
    printed_numbers_hold_digits(x as nat);
    printed_numbers_hold_digits(y as nat);
    number::unsigned_value_of_decimal(pid as nat, u32::MAX as nat);
    number::unsigned_value_of_decimal(x as nat, u16::MAX as nat);
    number::unsigned_value_of_decimal(y as nat, u16::MAX as nat);
    assert forall|i: int| 0 <= i < fields.len() implies !(#[trigger] fields[i]).contains(
        '\x1f',
    ) by {}
    scan::split_undoes_join(fields, '\x1f');
    text::utf8_decodes_back(line);
    let head = scan::join_with(fields.drop_last(), seq!['\x1f']);
    assert(bare[head.len() as int] == '\x1f');
    assert(bare.last() == printed_flag(prompt)[0]);
    assert("0"@[0] == '0' && "1"@[0] == '1');
    reveal_with_fuel(smart_left::without_newlines, 2);
    assert(line.drop_last() =~= bare);
    assert(smart_left::without_newlines(line) == bare);
    assert("0"@ != "1"@);
}

/// A state is confirmed only by the same process on the same terminal, with the cursor in
/// the same place and visible, no mode, and the same command and prompt.
pub proof fn only_the_same_state_is_unchanged(initial: StateModel, observed: StateModel)
    requires
        smart_left::unchanged(initial, observed),
    ensures
        observed.pane_pid == initial.pane_pid,
        observed.cursor_x == initial.cursor_x,
        observed.cursor_y == initial.cursor_y,
        observed.cursor_visible,
        !observed.pane_in_mode,
        observed.pane_command == initial.pane_command,
        observed.shell_prompt == initial.shell_prompt,
        path::same_path(observed.pane_tty, initial.pane_tty),
{
}

/// A state that is observed again as it was, with a visible cursor and no mode, is
/// confirmed.
pub proof fn the_same_state_is_confirmed(state: StateModel)
    ensures
        smart_left::unchanged(state, state) <==> state.cursor_visible && !state.pane_in_mode,
{
    path::same_path_is_equivalence(state.pane_tty, state.pane_tty, state.pane_tty);
}

// ---------------------------------------------------------------------------
// The edge of the composer
// ---------------------------------------------------------------------------

pub open spec fn spaces(n: nat) -> Seq<char> {
    Seq::new(n, |i: int| ' ')
}

proof fn indentation_of_spaces(n: nat, rest: Seq<char>)
    requires
        rest.len() == 0 || rest[0] != ' ',
    ensures
        smart_left::indentation(spaces(n) + rest) == n,
    decreases n,
{
    let line = spaces(n) + rest;
    if n > 0 {
        assert(line.skip(1) =~= spaces((n - 1) as nat) + rest);
        indentation_of_spaces((n - 1) as nat, rest);
    } else {
        assert(line =~= rest);
    }
}

/// Behind any indentation, a prompt and a blank: the cursor is at the edge of the composer
/// exactly on the prompt, behind it, or in front of the text.
pub proof fn the_edge_is_at_the_prompt(indent: nat, rest: Seq<char>, x: nat)
    ensures
        smart_left::line_boundary(spaces(indent) + "\u{203a} "@ + rest, x) == if indent <= x
            <= indent + 2 {
            ComposerBoundary::Exact
        } else {
            ComposerBoundary::CursorRejected
        },
        smart_left::line_boundary(spaces(indent) + "\u{203a}"@, x) == if indent <= x <= indent
            + 1 {
            ComposerBoundary::Exact
        } else {
            ComposerBoundary::CursorRejected
        },
{
    reveal_strlit("\u{203a} ");
    reveal_strlit("\u{203a}");
    let shown = "\u{203a} "@ + rest;
    assert(spaces(indent) + "\u{203a} "@ + rest =~= spaces(indent) + shown);
    indentation_of_spaces(indent, shown);
    assert((spaces(indent) + shown).skip(indent as int) =~= shown);
    assert(shown.subrange(0, 2) =~= "\u{203a} "@);
    assert(shown.len() >= 2 && "\u{203a}"@.len() == 1);
    let bare = "\u{203a}"@;
    indentation_of_spaces(indent, bare);
    assert((spaces(indent) + bare).skip(indent as int) =~= bare);
}

/// A row whose first character is not a prompt has no edge.
pub proof fn a_row_without_a_prompt_has_no_edge(indent: nat, rest: Seq<char>, x: nat)
    requires
        rest.len() == 0 || rest[0] != ' ' && rest[0] != '\u{203a}',
    ensures
        smart_left::line_boundary(spaces(indent) + rest, x) == ComposerBoundary::RowRejected,
{
    reveal_strlit("\u{203a} ");
    reveal_strlit("\u{203a}");
    indentation_of_spaces(indent, rest);
    assert((spaces(indent) + rest).skip(indent as int) =~= rest);
    if "\u{203a} "@.is_prefix_of(rest) {
        assert(rest.subrange(0, 2)[0] == rest[0]);
    }
}

/// The row that counts is the one of the cursor.
pub proof fn the_row_of_the_cursor_counts(screen: Seq<char>, x: u16, y: u16)
    ensures
        smart_left::screen_boundary(text::utf8(screen), x, y) == if (y as int) < scan::lines(
            screen,
        ).len() {
            smart_left::line_boundary(scan::lines(screen)[y as int], x as nat)
        } else {
            ComposerBoundary::RowRejected
        },
{
    text::utf8_decodes_back(screen);
}

// ---------------------------------------------------------------------------
// The popup
// ---------------------------------------------------------------------------

/// The size of the invoking client is that of the first row that names it; rows of other
/// clients do not count.
pub proof fn the_size_is_that_of_the_client(
    rest: Seq<Seq<u8>>,
    client: Seq<char>,
    named: Seq<char>,
    width: u16,
    height: u16,
)
    requires
        !named.contains('\x1f'),
    ensures
        ({
            let row = text::utf8(
                scan::join_with(
                    seq![named, number::decimal(width as nat), number::decimal(height as nat)],
                    seq!['\x1f'],
                ),
            );
            let size = smart_left::listed_size(seq![row] + rest, client);
            &&& named == client ==> size is Ok && size->Ok_0.width == width && size->Ok_0.height
                == height
            &&& named != client ==> size == smart_left::listed_size(rest, client)
        }),
{
    let fields = seq![named, number::decimal(width as nat), number::decimal(height as nat)];
    let line = scan::join_with(fields, seq!['\x1f']);
    let row = text::utf8(line);
    printed_numbers_hold_digits(width as nat);
    printed_numbers_hold_digits(height as nat);
    number::unsigned_value_of_decimal(width as nat, u16::MAX as nat);
    number::unsigned_value_of_decimal(height as nat, u16::MAX as nat);
    assert forall|i: int| 0 <= i < fields.len() implies !(#[trigger] fields[i]).contains(
        '\x1f',
    ) by {}
    scan::split_undoes_join(fields, '\x1f');
    text::utf8_decodes_back(line);
    let head = scan::join_with(fields.drop_last(), seq!['\x1f']);
    assert(line[head.len() as int] == '\x1f');
    number::decimal_digits(height as nat);
    let last = number::decimal(height as nat);
    assert(line.last() == last.last());
    assert(text::is_digit(last[last.len() - 1]));
    assert(smart_left::without_newlines(line) == line);
    assert(row.len() > 0) by {
        if row.len() == 0 {
            assert(row =~= text::utf8(Seq::<char>::empty()));
            text::utf8_injective(line, Seq::empty());
        }
    }
    let all = seq![row] + rest;
    assert(all.skip(1) =~= rest);
    assert(all[0] == row);
}

proof fn neighbours_stand_together(parts: Seq<Seq<char>>, k: int)
    requires
        0 <= k,
        k + 1 < parts.len(),
    ensures
        scan::occurs(scan::join_with(parts, " "@), parts[k] + " "@ + parts[k + 1]),
{
    let sep = " "@;
    let pair = seq![parts[k], parts[k + 1]];
    let two = parts[k] + sep + parts[k + 1];
    assert(pair.drop_last() =~= seq![parts[k]]);
    reveal_with_fuel(scan::join_with, 3);
    assert(scan::join_with(pair, sep) =~= two);
    let a = parts.take(k);
    let c = parts.skip(k + 2);
    let empty = Seq::<char>::empty();
    action_laws::occurs_itself(two);
    let front = if a.len() > 0 {
        scan::join_with(a, sep) + sep
    } else {
        empty
    };
    if a.len() > 0 {
        scan::join_append(a, pair, sep);
    } else {
        assert(a + pair =~= pair);
    }
    assert(scan::join_with(a + pair, sep) =~= front + two);
    let back = if c.len() > 0 {
        sep + scan::join_with(c, sep)
    } else {
        empty
    };
    if c.len() > 0 {
        scan::join_append(a + pair, c, sep);
        assert(parts =~= a + pair + c);
    } else {
        assert(parts =~= a + pair);
    }
    assert(scan::join_with(parts, sep) =~= front + two + back);
    action_laws::occurs_inside(front, two, back, two);
}

/// The popup opens for the invoking client, in its directory, over the whole terminal where
/// that is small, and tells the command all of the context that it was opened from.
pub proof fn the_popup_opens_where_it_was_asked_for(
    config: ProbeConfig,
    context: InvocationContext,
    size: TerminalSize,
)
    ensures
        ({
            let words = smart_left::popup_words(config, context, size);
            let command = smart_left::popup_command(config, context);
            &&& words.len() == 11
            &&& words[0] == text::utf8("display-popup"@)
            &&& words[1] == text::utf8("-E"@)
            &&& words[2] == text::utf8("-c"@) && words[3] == text::utf8(context.client_id@)
            &&& words[4] == text::utf8("-d"@) && words[5] == context.current_path@
            &&& words[6] == text::utf8("-w"@) && words[8] == text::utf8("-h"@)
            &&& size.compact() ==> words[7] == text::utf8("100%"@) && words[9] == text::utf8(
                "100%"@,
            )
            &&& !size.compact() ==> words[7] == text::utf8("80%"@) && words[9] == text::utf8(
                "70%"@,
            )
            &&& words[10] == text::utf8(command)
            &&& quote::quoted(text::lossy_text(config.mux)).is_prefix_of(command)
            &&& scan::occurs(command, "--client"@ + " "@ + quote::quoted(context.client_id@))
            &&& scan::occurs(command, "--invoking-pane"@ + " "@ + quote::quoted(context.pane_id@))
            &&& scan::occurs(
                command,
                "--invoking-session"@ + " "@ + quote::quoted(context.session_id@),
            )
            &&& scan::occurs(
                command,
                "--invoking-window"@ + " "@ + quote::quoted(context.window_id@),
            )
            &&& scan::occurs(
                command,
                "--invoking-path"@ + " "@ + quote::quoted(text::lossy_text(context.current_path@)),
            )
        }),
{
    let mux = quote::quoted(text::lossy_text(config.mux));
    let detection = smart_left::detection_words(config);
    let parts = seq![mux] + detection + smart_left::context_words(context);
    let n = 1 + detection.len() as int;
    neighbours_stand_together(parts, n);
    neighbours_stand_together(parts, n + 2);
    neighbours_stand_together(parts, n + 4);
    neighbours_stand_together(parts, n + 6);
    neighbours_stand_together(parts, n + 8);
    let command = smart_left::popup_command(config, context);
    let rest = parts.skip(1);
    scan::join_append(seq![mux], rest, " "@);
    assert(seq![mux] + rest =~= parts);
    assert(command.subrange(0, mux.len() as int) =~= mux);
}

proof fn a_repeated_option_has_each_value(
    option: Seq<char>,
    values: Seq<Seq<char>>,
    i: int,
)
    requires
        0 <= i < values.len(),
    ensures
        smart_left::repeated(option, values).len() == 2 * values.len(),
        smart_left::repeated(option, values)[2 * i] == option,
        smart_left::repeated(option, values)[2 * i + 1] == quote::quoted(values[i]),
    decreases values.len(),
{
    let head = values.drop_last();
    if i < head.len() {
        a_repeated_option_has_each_value(option, head, i);
        assert(head[i] == values[i]);
    } else if head.len() > 0 {
        a_repeated_option_has_each_value(option, head, 0);
    } else {
        assert(smart_left::repeated(option, head) =~= Seq::<Seq<char>>::empty());
    }
}

proof fn repeated_len(option: Seq<char>, values: Seq<Seq<char>>)
    ensures
        smart_left::repeated(option, values).len() == 2 * values.len(),
{
    if values.len() > 0 {
        a_repeated_option_has_each_value(option, values, 0);
    }
}

/// The popup is told what to look for: the one executable where nothing else is set, else
/// the executable to launch and everything that is matched, each value behind its option.
pub proof fn the_popup_looks_for_what_the_probe_looks_for(
    config: ProbeConfig,
    context: InvocationContext,
)
    ensures
        ({
            let command = smart_left::popup_command(config, context);
            let codex = quote::quoted(text::lossy_text(config.codex));
            &&& config.match_executables.len() == 0 ==> scan::occurs(
                command,
                "--codex"@ + " "@ + codex,
            )
            &&& config.match_executables.len() > 0 ==> {
                &&& scan::occurs(command, "--launch-executable"@ + " "@ + codex)
                &&& scan::occurs(
                    command,
                    "--match-scope"@ + " "@ + quote::quoted(config.match_scope),
                )
                &&& forall|i: int|
                    0 <= i < config.match_executables.len() ==> scan::occurs(
                        command,
                        "--match-executable"@ + " "@ + quote::quoted(
                            text::lossy_text(#[trigger] config.match_executables[i]),
                        ),
                    )
                &&& forall|i: int|
                    0 <= i < config.pane_commands.len() ==> scan::occurs(
                        command,
                        "--pane-command"@ + " "@ + quote::quoted(#[trigger] config.pane_commands[i]),
                    )
                &&& forall|i: int|
                    0 <= i < config.match_command_regexes.len() ==> scan::occurs(
                        command,
                        "--match-command-regex"@ + " "@ + quote::quoted(
                            #[trigger] config.match_command_regexes[i],
                        ),
                    )
                &&& forall|i: int|
                    0 <= i < config.pane_command_regexes.len() ==> scan::occurs(
                        command,
                        "--pane-command-regex"@ + " "@ + quote::quoted(
                            #[trigger] config.pane_command_regexes[i],
                        ),
                    )
            }
        }),
{
    let mux = quote::quoted(text::lossy_text(config.mux));
    let detection = smart_left::detection_words(config);
    let parts = seq![mux] + detection + smart_left::context_words(context);
    neighbours_stand_together(parts, 1);
    if config.match_executables.len() > 0 {
        let executables = smart_left::lossy_list(config.match_executables);
        let a = smart_left::repeated("--match-executable"@, executables);
        let b = smart_left::repeated("--pane-command"@, config.pane_commands);
        let c = smart_left::repeated("--match-command-regex"@, config.match_command_regexes);
        let d = smart_left::repeated("--pane-command-regex"@, config.pane_command_regexes);
        repeated_len("--match-executable"@, executables);
        repeated_len("--pane-command"@, config.pane_commands);
        repeated_len("--match-command-regex"@, config.match_command_regexes);
        repeated_len("--pane-command-regex"@, config.pane_command_regexes);
        let at_b = 3 + a.len() as int;
        let at_scope = at_b + b.len();
        let at_c = at_scope + 2;
        let at_d = at_c + c.len();
        neighbours_stand_together(parts, at_scope);
        assert forall|i: int| 0 <= i < config.match_executables.len() implies scan::occurs(
            smart_left::popup_command(config, context),
            "--match-executable"@ + " "@ + quote::quoted(
                text::lossy_text(#[trigger] config.match_executables[i]),
            ),
        ) by {
            a_repeated_option_has_each_value("--match-executable"@, executables, i);
            assert(parts[3 + 2 * i] == a[2 * i] && parts[3 + 2 * i + 1] == a[2 * i + 1]);
            neighbours_stand_together(parts, 3 + 2 * i);
        }
        assert forall|i: int| 0 <= i < config.pane_commands.len() implies scan::occurs(
            smart_left::popup_command(config, context),
            "--pane-command"@ + " "@ + quote::quoted(#[trigger] config.pane_commands[i]),
        ) by {
            a_repeated_option_has_each_value("--pane-command"@, config.pane_commands, i);
            assert(parts[at_b + 2 * i] == b[2 * i] && parts[at_b + 2 * i + 1] == b[2 * i + 1]);
            neighbours_stand_together(parts, at_b + 2 * i);
        }
        assert forall|i: int| 0 <= i < config.match_command_regexes.len() implies scan::occurs(
            smart_left::popup_command(config, context),
            "--match-command-regex"@ + " "@ + quote::quoted(
                #[trigger] config.match_command_regexes[i],
            ),
        ) by {
            a_repeated_option_has_each_value(
                "--match-command-regex"@,
                config.match_command_regexes,
                i,
            );
            assert(parts[at_c + 2 * i] == c[2 * i] && parts[at_c + 2 * i + 1] == c[2 * i + 1]);
            neighbours_stand_together(parts, at_c + 2 * i);
        }
        assert forall|i: int| 0 <= i < config.pane_command_regexes.len() implies scan::occurs(
            smart_left::popup_command(config, context),
            "--pane-command-regex"@ + " "@ + quote::quoted(
                #[trigger] config.pane_command_regexes[i],
            ),
        ) by {
            a_repeated_option_has_each_value(
                "--pane-command-regex"@,
                config.pane_command_regexes,
                i,
            );
            assert(parts[at_d + 2 * i] == d[2 * i] && parts[at_d + 2 * i + 1] == d[2 * i + 1]);
            neighbours_stand_together(parts, at_d + 2 * i);
        }
    }
}

/// A terminal is small exactly where it is narrower than ninety columns or lower than
/// twenty-eight rows.
pub proof fn a_small_terminal_is_compact(size: TerminalSize)
    ensures
        size.compact() <==> size.width < 90 || size.height < 28,
{
}

} // verus!
