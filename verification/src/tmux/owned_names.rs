//! Pane-local metadata behind generated titles. Window names are never touched,
//! except to restore those that an earlier release renamed.

use vstd::prelude::*;
use crate::domain;
use crate::domain::{
    AutoNameStatus, CommandOutput, Exchange, LoggedRunner, OutputModel, Pane, PaneId, TmuxCommandRunner,
};
use crate::error::{command_error, ErrorModel, MuxError};
use crate::number;
use crate::number::decimal_text;
use crate::scan;
use crate::scan::{blank, contains_char, split_text, split_text_by, text_lines};
use crate::smart_naming::names::GeneratedName;
use crate::text;
use crate::text::{
    list4, list6, option_text_equal, put, text_equal, to_words, utf8_lossy,
};
use crate::tmux::actions;
use crate::tmux::options;
use crate::tmux::options::{
    clear_marker_arguments, generated_option_list, set_command, unset_command,
    AUTO_NAME_STARTED_OPTION, AUTO_NAME_STATUS_OPTION, AUTO_NAME_TOKEN_OPTION,
    GENERATED_AT_OPTION, IMMEDIATE_NAMING_OPTION, MANUAL_NAME_OPTION, OWNER_OPTION,
    SOURCE_CWD_OPTION, SOURCE_PID_OPTION, SOURCE_SESSION_OPTION, SOURCE_TITLE_OPTION,
    THREAD_OPTION, UNPIN_WAITING_OPTION, UNPIN_WAITING_PID_OPTION, UNPIN_WAITING_SESSION_OPTION,
    UNPIN_WAITING_TITLE_OPTION,
};
use crate::tmux::quote;
use crate::tmux::quote::{all_of, both, equals, tmux_format_literal, tmux_quote};

verus! {

pub const STATE_FORMAT: &'static str = "#{pane_id}\x1f#{pane_title}\x1f#{pane_current_path}\x1f#{pane_pid}\x1f#{session_id}\x1f#{@codex_mux_generated_thread}\x1f#{@codex_mux_generated_name}\x1f#{@codex_mux_generated_source_title}\x1f#{@codex_mux_generated_source_cwd}\x1f#{@codex_mux_generated_source_pid}\x1f#{@codex_mux_generated_source_session}\x1f#{@codex_mux_generated_at}\x1f#{@codex_mux_name_now}\x1f#{@codex_mux_manual_name}\x1f#{@codex_mux_auto_name_status}\x1f#{@codex_mux_auto_name_started}\x1f#{@codex_mux_auto_name_token}";

pub const LEGACY_STATE_FORMAT: &'static str = "#{pane_id}\x1f#{window_id}\x1f#{pane_title}\x1f#{window_name}\x1f#{automatic-rename}\x1f#{window_panes}\x1f#{@codex_mux_generated_thread}\x1f#{@codex_mux_generated_name}\x1f#{@codex_mux_generated_source_title}\x1f#{@codex_mux_generated_source_cwd}\x1f#{@codex_mux_generated_at}\x1f#{pane_current_path}";

// ---------------------------------------------------------------------------
// Reading the state of panes
// ---------------------------------------------------------------------------

/// The fields of a printed line: separated by the unit separator, or by its
/// octal escape where the line holds no unit separator.
pub open spec fn state_fields(line: Seq<char>) -> Seq<Seq<char>> {
    if line.contains('\x1f') {
        scan::split_on(line, '\x1f')
    } else {
        scan::split_by(line, "\\037"@)
    }
}

pub fn split_state_fields(line: &str) -> (r: Vec<String>)
    ensures
        text::texts(r@) == state_fields(line@),
{
    if contains_char(line, '\x1f') {
        split_text(line, '\x1f')
    } else {
        proof {
            reveal_strlit("\\037");
        }
        split_text_by(line, "\\037")
    }
}

/// The rows of the printed state that have a known number of fields.
pub open spec fn state_rows(lines: Seq<Seq<char>>) -> Seq<Seq<Seq<char>>>
    decreases lines.len(),
{
    if lines.len() == 0 {
        Seq::empty()
    } else {
        let rest = state_rows(lines.drop_last());
        let fields = state_fields(lines.last());
        if 14 <= fields.len() <= 17 {
            rest.push(fields)
        } else {
            rest
        }
    }
}

/// The state of a pane: its last row, without the pane identity.
pub open spec fn state_of(rows: Seq<Seq<Seq<char>>>, pane: Seq<char>) -> Option<Seq<Seq<char>>>
    decreases rows.len(),
{
    if rows.len() == 0 {
        None
    } else if rows.last()[0] == pane {
        Some(rows.last().skip(1))
    } else {
        state_of(rows.drop_last(), pane)
    }
}

/// A pane asked to be named at once and is not manually named.
pub open spec fn asks_for_name(state: Seq<Seq<char>>) -> bool {
    state[11] == "1"@ && state[12] != "1"@
}

/// Some pane asked to be named at once.
pub open spec fn name_pending(rows: Seq<Seq<Seq<char>>>) -> bool {
    exists|i: int|
        0 <= i < rows.len() && asks_for_name(
            #[trigger] state_of(rows, rows[i][0])->0,
        )
}

fn read_rows(printed: &str) -> (r: Vec<Vec<String>>)
    ensures
        text::rows(r@) == state_rows(scan::lines(printed@)),
{
    let lines = text_lines(printed);
    let ghost all = scan::lines(printed@);
    let mut rows: Vec<Vec<String>> = Vec::new();
    let mut i: usize = 0;
    assert(text::rows(rows@) =~= state_rows(all.take(0)));
    while i < lines.len()
        invariant
            i <= lines.len(),
            text::rows(rows@) == state_rows(all.take(i as int)),
        decreases lines.len() - i,
    {
        let ghost before = text::rows(rows@);
        proof {
            assert(all.take(i + 1).drop_last() =~= all.take(i as int));
            assert(all.take(i + 1).last() == lines@[i as int]@);
        }
        let fields = split_state_fields(&lines[i]);
        assert(text::texts(fields@).len() == fields@.len());
        if 14 <= fields.len() && fields.len() <= 17 {
            let ghost one = text::texts(fields@);
            rows.push(fields);
            assert(text::rows(rows@) =~= before.push(one));
        }
        i += 1;
    }
    assert(all.take(all.len() as int) =~= all);
    rows
}

proof fn rows_have_fields(lines: Seq<Seq<char>>)
    ensures
        forall|i: int|
            0 <= i < state_rows(lines).len() ==> 14 <= (#[trigger] state_rows(lines)[i]).len()
                <= 17,
    decreases lines.len(),
{
    if lines.len() > 0 {
        rows_have_fields(lines.drop_last());
        let rest = state_rows(lines.drop_last());
        assert forall|i: int| 0 <= i < state_rows(lines).len() implies 14 <= (
        #[trigger] state_rows(lines)[i]).len() <= 17 by {
            if i < rest.len() {
                assert(state_rows(lines)[i] == rest[i]);
            }
        }
    }
}

/// The last row of a pane, by its position.
fn find_row(rows: &Vec<Vec<String>>, pane: &str) -> (r: Option<usize>)
    requires
        forall|i: int| 0 <= i < rows.len() ==> (#[trigger] rows@[i]).len() >= 14,
    ensures
        match r {
            Some(at) => at < rows.len() && text::rows(rows@)[at as int][0] == pane@ && state_of(
                text::rows(rows@),
                pane@,
            ) == Some(text::rows(rows@)[at as int].skip(1)),
            None => state_of(text::rows(rows@), pane@) is None,
        },
{
    let ghost all = text::rows(rows@);
    let mut i: usize = rows.len();
    assert(all.take(all.len() as int) =~= all);
    while i > 0
        invariant
            i <= rows.len(),
            state_of(all, pane@) == state_of(all.take(i as int), pane@),
        decreases i,
    {
        proof {
            assert(all.take(i as int).drop_last() =~= all.take(i - 1));
            assert(all.take(i as int).last() == all[i - 1]);
            assert(all[i - 1] == text::texts(rows@[i - 1]@));
        }
        if text_equal(&rows[i - 1][0], pane) {
            return Some(i - 1);
        }
        i -= 1;
    }
    None
}

fn any_pending(rows: &Vec<Vec<String>>) -> (r: bool)
    requires
        forall|i: int| 0 <= i < rows.len() ==> (#[trigger] rows@[i]).len() >= 14,
    ensures
        r == name_pending(text::rows(rows@)),
{
    let ghost all = text::rows(rows@);
    let mut i: usize = 0;
    while i < rows.len()
        invariant
            i <= rows.len(),
            forall|j: int|
                0 <= j < i ==> !asks_for_name(#[trigger] state_of(all, all[j][0])->0),
        decreases rows.len() - i,
    {
        assert(all[i as int] == text::texts(rows@[i as int]@));
        assert(all[i as int][0] == rows@[i as int]@[0]@);
        if let Some(at) = find_row(rows, &rows[i][0]) {
            let ghost state = all[at as int].skip(1);
            assert(all[at as int] == text::texts(rows@[at as int]@));
            assert(state[11] == rows@[at as int]@[12]@);
            assert(state[12] == rows@[at as int]@[13]@);
            if text_equal(&rows[at][12], "1") && !text_equal(&rows[at][13], "1") {
                assert(asks_for_name(state_of(all, all[i as int][0])->0));
                return true;
            }
        } else {
            proof {
                row_has_state(all, i as int);
            }
        }
        i += 1;
    }
    false
}

proof fn row_has_state(rows: Seq<Seq<Seq<char>>>, i: int)
    requires
        0 <= i < rows.len(),
    ensures
        state_of(rows, rows[i][0]) is Some,
    decreases rows.len(),
{
    if rows.last()[0] != rows[i][0] {
        row_has_state(rows.drop_last(), i);
    }
}

// ---------------------------------------------------------------------------
// One generated name
// ---------------------------------------------------------------------------

pub open spec fn cwd_text(g: GeneratedName) -> Seq<char> {
    text::lossy_text(g.source_cwd@)
}

pub open spec fn source_pid_text(g: GeneratedName) -> Seq<char> {
    number::decimal(g.source_pane_pid as nat)
}

/// The pane is the one that the name was generated for, and not manually named.
pub open spec fn same_source(g: GeneratedName, state: Seq<Seq<char>>) -> bool {
    &&& 13 <= state.len() <= 16
    &&& state[12] != "1"@
    &&& state[1] == cwd_text(g)
    &&& state[2] == source_pid_text(g)
    &&& state[3] == g.source_session@
    &&& g.stable_source_title ==> state[0] == g.source_title@
}

/// An explicit request to name the pane is under way.
pub open spec fn request_pending(state: Seq<Seq<char>>) -> bool {
    &&& state[11] == "1"@
    &&& state.len() > 13
    &&& state[13] == "recovering"@ || state[13] == "queued"@ || state[13] == "generating"@
}

/// The token of the explicit request.
pub open spec fn request_token(state: Seq<Seq<char>>) -> Option<Seq<char>> {
    if state.len() > 15 && state[15].len() > 0 {
        Some(state[15])
    } else {
        None
    }
}

/// A pending request is answered only by the name that carries its token.
pub open spec fn answers_request(g: GeneratedName, state: Seq<Seq<char>>) -> bool {
    request_pending(state) ==> request_token(state) is Some && text::option_view(g.auto_name_token)
        == request_token(state)
}

/// The pane already holds exactly this name and waits for nothing.
pub open spec fn up_to_date(g: GeneratedName, state: Seq<Seq<char>>) -> bool {
    &&& state[4] == g.thread_id@
    &&& state[5] == g.name@
    &&& state[6] == g.source_title@
    &&& state[7] == cwd_text(g)
    &&& state[8] == source_pid_text(g)
    &&& state[9] == g.source_session@
    &&& state[10] == number::decimal(g.generated_at_unix as nat)
    &&& state[11].len() == 0
    &&& state[12].len() == 0
}

pub open spec fn needs_update(g: GeneratedName, state: Seq<Seq<char>>) -> bool {
    same_source(g, state) && answers_request(g, state) && !up_to_date(g, state)
}

/// The commands that store a generated name, and with a pending request those
/// that record its success.
pub open spec fn store_commands(pane: Seq<char>, g: GeneratedName, pending: bool) -> Seq<
    Seq<char>,
> {
    let stored = seq![
        options::set_text(pane, SOURCE_TITLE_OPTION@, quote::quoted(g.source_title@)),
        options::set_text(pane, SOURCE_CWD_OPTION@, quote::quoted(cwd_text(g))),
        options::set_text(pane, THREAD_OPTION@, quote::quoted(g.thread_id@)),
        options::set_text(pane, OWNER_OPTION@, quote::quoted(g.name@)),
        options::set_text(
            pane,
            GENERATED_AT_OPTION@,
            number::decimal(g.generated_at_unix as nat),
        ),
        options::set_text(pane, SOURCE_PID_OPTION@, source_pid_text(g)),
        options::set_text(pane, SOURCE_SESSION_OPTION@, quote::quoted(g.source_session@)),
        options::unset_text(pane, IMMEDIATE_NAMING_OPTION@),
    ];
    if pending {
        stored + seq![
            options::set_text(pane, AUTO_NAME_STATUS_OPTION@, "success"@),
            options::unset_text(pane, AUTO_NAME_TOKEN_OPTION@),
            options::unset_text(pane, UNPIN_WAITING_OPTION@),
            options::unset_text(pane, UNPIN_WAITING_TITLE_OPTION@),
            options::unset_text(pane, UNPIN_WAITING_PID_OPTION@),
            options::unset_text(pane, UNPIN_WAITING_SESSION_OPTION@),
        ]
    } else {
        stored
    }
}

/// The pane is not manually named and still shows the source of the name.
pub open spec fn source_guard(g: GeneratedName) -> Seq<char> {
    let title = if g.stable_source_title {
        quote::equals_clause("pane_title"@, quote::format_literal(g.source_title@))
    } else {
        "1"@
    };
    let identity = quote::both_clause(
        quote::equals_clause("pane_pid"@, source_pid_text(g)),
        quote::equals_clause("session_id"@, quote::format_literal(g.source_session@)),
    );
    quote::both_clause(
        quote::equals_clause(MANUAL_NAME_OPTION@, ""@),
        quote::both_clause(
            title,
            quote::both_clause(
                quote::equals_clause("pane_current_path"@, quote::format_literal(cwd_text(g))),
                identity,
            ),
        ),
    )
}

/// The explicit request is still the one that was read.
pub open spec fn request_guard(state: Seq<Seq<char>>) -> Seq<char> {
    let started = if state.len() > 14 {
        state[14]
    } else {
        Seq::empty()
    };
    quote::both_clause(
        quote::equals_clause(IMMEDIATE_NAMING_OPTION@, "1"@),
        quote::both_clause(
            quote::equals_clause(AUTO_NAME_STATUS_OPTION@, quote::format_literal(state[13])),
            quote::both_clause(
                quote::equals_clause(AUTO_NAME_STARTED_OPTION@, quote::format_literal(started)),
                quote::equals_clause(
                    AUTO_NAME_TOKEN_OPTION@,
                    quote::format_literal(request_token(state)->0),
                ),
            ),
        ),
    )
}

/// The guarded request that stores a generated name.
pub open spec fn store_request(pane: Seq<char>, g: GeneratedName, state: Seq<Seq<char>>) -> Seq<
    Seq<char>,
> {
    let pending = request_pending(state);
    let condition = if pending {
        quote::both_clause(source_guard(g), request_guard(state))
    } else {
        source_guard(g)
    };
    seq![
        "if-shell"@,
        "-F"@,
        "-t"@,
        pane,
        condition,
        scan::join_with(store_commands(pane, g, pending), "; "@),
    ]
}

/// A pane identity with a name for it.
pub struct NamedPane {
    pub pane: PaneId,
    pub name: GeneratedName,
}

/// A name may be stored where its pane title proves the thread, or where the
/// thread of the pane was verified otherwise.
pub open spec fn trusted_name(named: NamedPane, verified: Seq<Seq<char>>) -> bool {
    named.name.stable_source_title || verified.contains(named.pane@)
}

/// The requests that bring the panes up to date, in the order of the names.
pub open spec fn planned_updates(
    names: Seq<NamedPane>,
    verified: Seq<Seq<char>>,
    rows: Seq<Seq<Seq<char>>>,
) -> Seq<Seq<Seq<u8>>>
    decreases names.len(),
{
    if names.len() == 0 {
        Seq::empty()
    } else {
        let rest = planned_updates(names.drop_last(), verified, rows);
        let named = names.last();
        let state = state_of(rows, named.pane@);
        if trusted_name(named, verified) && state is Some && needs_update(named.name, state->0) {
            rest.push(text::utf8_words(store_request(named.pane@, named.name, state->0)))
        } else {
            rest
        }
    }
}

/// A manually named pane is never updated.
pub proof fn manual_names_are_never_updated(g: GeneratedName, state: Seq<Seq<char>>)
    requires
        state.len() > 12,
        state[12] == "1"@,
    ensures
        !needs_update(g, state),
{
}

/// Once a pane holds a name exactly and waits for nothing, no request is made.
pub proof fn stored_names_are_stable(g: GeneratedName, state: Seq<Seq<char>>)
    requires
        up_to_date(g, state),
    ensures
        !needs_update(g, state),
{
}

/// No pane has two names.
pub open spec fn panes_stand_once(names: Seq<NamedPane>) -> bool {
    forall|i: int, j: int|
        0 <= i < j < names.len() ==> (#[trigger] names[i]).pane@ != (#[trigger] names[j]).pane@
}

/// A request stores the name at a place of the names: the pane is trusted to show its
/// thread, its state was read, and that state calls for the name.
pub open spec fn stores_name(
    names: Seq<NamedPane>,
    verified: Seq<Seq<char>>,
    rows: Seq<Seq<Seq<char>>>,
    i: int,
    request: Seq<Seq<u8>>,
) -> bool {
    &&& 0 <= i < names.len()
    &&& trusted_name(names[i], verified)
    &&& state_of(rows, names[i].pane@) is Some
    &&& needs_update(names[i].name, state_of(rows, names[i].pane@)->0)
    &&& request == text::utf8_words(
        store_request(names[i].pane@, names[i].name, state_of(rows, names[i].pane@)->0),
    )
}

/// The pane that a guarded request is about.
pub open spec fn request_pane(request: Seq<Seq<u8>>) -> Seq<u8> {
    request[3]
}

proof fn updates_store_names(
    names: Seq<NamedPane>,
    verified: Seq<Seq<char>>,
    rows: Seq<Seq<Seq<char>>>,
    k: int,
) -> (i: int)
    requires
        0 <= k < planned_updates(names, verified, rows).len(),
    ensures
        stores_name(names, verified, rows, i, planned_updates(names, verified, rows)[k]),
    decreases names.len(),
{
    let before = names.drop_last();
    if k < planned_updates(before, verified, rows).len() {
        let i = updates_store_names(before, verified, rows, k);
        assert(names[i] == before[i]);
        i
    } else {
        names.len() - 1
    }
}

proof fn updates_follow_names(
    names: Seq<NamedPane>,
    verified: Seq<Seq<char>>,
    rows: Seq<Seq<Seq<char>>>,
    k: int,
    l: int,
)
    requires
        panes_stand_once(names),
        0 <= k < l < planned_updates(names, verified, rows).len(),
    ensures
        request_pane(planned_updates(names, verified, rows)[k]) != request_pane(
            planned_updates(names, verified, rows)[l],
        ),
    decreases names.len(),
{
    let before = names.drop_last();
    let rest = planned_updates(before, verified, rows);
    assert forall|i: int, j: int| 0 <= i < j < before.len() implies (
    #[trigger] before[i]).pane@ != (#[trigger] before[j]).pane@ by {
        assert(before[i] == names[i] && before[j] == names[j]);
    }
    if l < rest.len() {
        updates_follow_names(before, verified, rows, k, l);
    } else {
        let i = updates_store_names(before, verified, rows, k);
        assert(before[i] == names[i]);
        assert(names[i].pane@ != names[names.len() - 1].pane@);
        if text::utf8(names[i].pane@) == text::utf8(names.last().pane@) {
            text::utf8_injective(names[i].pane@, names.last().pane@);
        }
    }
}

/// Reconciliation reads the state of the panes once, and after that makes at most one
/// request to a pane: the one that stores its name, under a guard. Where the list did
/// not come it makes none.
pub proof fn each_pane_is_asked_at_most_once(
    names: Seq<NamedPane>,
    verified: Seq<Seq<char>>,
    trace: Seq<Exchange>,
)
    requires
        panes_stand_once(names),
        listed_then(
            state_query(),
            trace,
            |lines: Seq<Seq<char>>| planned_updates(names, verified, state_rows(lines)),
        ),
    ensures
        trace[0].request == text::utf8_words(state_query()),
        accepted(trace[0].reply) is None ==> trace.len() == 1,
        forall|k: int|
            1 <= k < trace.len() ==> exists|i: int|
                stores_name(
                    names,
                    verified,
                    state_rows(scan::lines(text::lossy_text(accepted(trace[0].reply)->0.stdout))),
                    i,
                    (#[trigger] trace[k]).request,
                ),
        forall|k: int, l: int|
            1 <= k < l < trace.len() ==> request_pane((#[trigger] trace[k]).request)
                != request_pane((#[trigger] trace[l]).request),
{
    let after = requests_of(trace.skip(1));
    assert(after.len() == trace.len() - 1);
    if let Some(output) = accepted(trace[0].reply) {
        let rows = state_rows(scan::lines(text::lossy_text(output.stdout)));
        let planned = planned_updates(names, verified, rows);
        assert(after == planned);
        assert forall|k: int| 1 <= k < trace.len() implies exists|i: int|
            stores_name(names, verified, rows, i, (#[trigger] trace[k]).request) by {
            assert(after[k - 1] == trace[k].request);
            let i = updates_store_names(names, verified, rows, k - 1);
            assert(stores_name(names, verified, rows, i, trace[k].request));
        }
        assert forall|k: int, l: int| 1 <= k < l < trace.len() implies request_pane(
            (#[trigger] trace[k]).request,
        ) != request_pane((#[trigger] trace[l]).request) by {
            assert(after[k - 1] == trace[k].request);
            assert(after[l - 1] == trace[l].request);
            updates_follow_names(names, verified, rows, k - 1, l - 1);
        }
    }
}

/// A pane is left alone where its name is not trusted, where it was not listed, where
/// it is named by hand, where its directory, process, session or stable title is not
/// that of its name, and where it already holds its name.
pub proof fn an_unfit_pane_is_left_alone(
    names: Seq<NamedPane>,
    verified: Seq<Seq<char>>,
    rows: Seq<Seq<Seq<char>>>,
    i: int,
)
    requires
        panes_stand_once(names),
        0 <= i < names.len(),
        ({
            let g = names[i].name;
            let state = state_of(rows, names[i].pane@);
            ||| !trusted_name(names[i], verified)
            ||| state is None
            ||| state->0[12] == "1"@
            ||| state->0[1] != cwd_text(g)
            ||| state->0[2] != source_pid_text(g)
            ||| state->0[3] != g.source_session@
            ||| g.stable_source_title && state->0[0] != g.source_title@
            ||| up_to_date(g, state->0)
        }),
    ensures
        forall|k: int|
            0 <= k < planned_updates(names, verified, rows).len() ==> request_pane(
                #[trigger] planned_updates(names, verified, rows)[k],
            ) != text::utf8(names[i].pane@),
{
    let planned = planned_updates(names, verified, rows);
    assert forall|k: int| 0 <= k < planned.len() implies request_pane(#[trigger] planned[k])
        != text::utf8(names[i].pane@) by {
        let at = updates_store_names(names, verified, rows, k);
        if text::utf8(names[at].pane@) == text::utf8(names[i].pane@) {
            text::utf8_injective(names[at].pane@, names[i].pane@);
            assert(at == i);
        }
    }
}

/// A command sets or takes away one option of a pane.
pub open spec fn changes_option(pane: Seq<char>, command: Seq<char>) -> bool {
    ||| exists|option: Seq<char>, value: Seq<char>|
        command == #[trigger] options::set_text(pane, option, value)
    ||| exists|option: Seq<char>| command == #[trigger] options::unset_text(pane, option)
}

/// What a stored name changes are options of its pane and nothing else: no window is
/// renamed and no option of a window is set.
pub proof fn a_stored_name_changes_its_pane_alone(pane: Seq<char>, g: GeneratedName, pending: bool)
    ensures
        forall|i: int|
            0 <= i < store_commands(pane, g, pending).len() ==> changes_option(
                pane,
                #[trigger] store_commands(pane, g, pending)[i],
            ),
{
}

fn reads_same_source(g: &GeneratedName, state: &Vec<String>) -> (r: bool)
    ensures
        r == same_source(*g, text::texts(state@)),
{
    assert(text::texts(state@).len() == state@.len());
    if state.len() < 13 || state.len() > 16 {
        return false;
    }
    !text_equal(&state[12], "1") && text_equal(&state[1], &g.source_cwd.display()) && text_equal(
        &state[2],
        &decimal_text(g.source_pane_pid as u64),
    ) && text_equal(&state[3], g.source_session.as_str()) && (!g.stable_source_title || text_equal(
        &state[0],
        &g.source_title,
    ))
}

fn reads_pending(state: &Vec<String>) -> (r: bool)
    requires
        state.len() >= 13,
    ensures
        r == request_pending(text::texts(state@)),
{
    assert(text::texts(state@).len() == state@.len());
    text_equal(&state[11], "1") && state.len() > 13 && (text_equal(&state[13], "recovering")
        || text_equal(&state[13], "queued") || text_equal(&state[13], "generating"))
}

fn read_token(state: &Vec<String>) -> (r: Option<String>)
    ensures
        text::option_view(r) == request_token(text::texts(state@)),
{
    assert(text::texts(state@).len() == state@.len());
    if state.len() > 15 && !state[15].as_str().is_empty() {
        Some(state[15].clone())
    } else {
        None
    }
}

fn reads_up_to_date(g: &GeneratedName, state: &Vec<String>) -> (r: bool)
    requires
        state.len() >= 13,
    ensures
        r == up_to_date(*g, text::texts(state@)),
{
    text_equal(&state[4], &g.thread_id) && text_equal(&state[5], &g.name) && text_equal(
        &state[6],
        &g.source_title,
    ) && text_equal(&state[7], &g.source_cwd.display()) && text_equal(
        &state[8],
        &decimal_text(g.source_pane_pid as u64),
    ) && text_equal(&state[9], g.source_session.as_str()) && text_equal(
        &state[10],
        &decimal_text(g.generated_at_unix),
    ) && state[11].as_str().is_empty() && state[12].as_str().is_empty()
}

fn store_command(pane: &str, g: &GeneratedName, pending: bool) -> (r: String)
    ensures
        r@ == scan::join_with(store_commands(pane@, *g, pending), "; "@),
{
    let mut parts = text::no_texts();
    put(&mut parts, &set_command(pane, SOURCE_TITLE_OPTION, &tmux_quote(&g.source_title)));
    put(&mut parts, &set_command(pane, SOURCE_CWD_OPTION, &tmux_quote(&g.source_cwd.display())));
    put(&mut parts, &set_command(pane, THREAD_OPTION, &tmux_quote(&g.thread_id)));
    put(&mut parts, &set_command(pane, OWNER_OPTION, &tmux_quote(&g.name)));
    put(&mut parts, &set_command(pane, GENERATED_AT_OPTION, &decimal_text(g.generated_at_unix)));
    put(
        &mut parts,
        &set_command(pane, SOURCE_PID_OPTION, &decimal_text(g.source_pane_pid as u64)),
    );
    put(
        &mut parts,
        &set_command(pane, SOURCE_SESSION_OPTION, &tmux_quote(g.source_session.as_str())),
    );
    put(&mut parts, &unset_command(pane, IMMEDIATE_NAMING_OPTION));
    if pending {
        put(&mut parts, &set_command(pane, AUTO_NAME_STATUS_OPTION, "success"));
        put(&mut parts, &unset_command(pane, AUTO_NAME_TOKEN_OPTION));
        put(&mut parts, &unset_command(pane, UNPIN_WAITING_OPTION));
        put(&mut parts, &unset_command(pane, UNPIN_WAITING_TITLE_OPTION));
        put(&mut parts, &unset_command(pane, UNPIN_WAITING_PID_OPTION));
        put(&mut parts, &unset_command(pane, UNPIN_WAITING_SESSION_OPTION));
    }
    assert(text::texts(parts@) =~= store_commands(pane@, *g, pending));
    text::join_texts(&parts, "; ")
}

fn source_condition(g: &GeneratedName) -> (r: String)
    ensures
        r@ == source_guard(*g),
{
    let title = if g.stable_source_title {
        equals("pane_title", &tmux_format_literal(&g.source_title))
    } else {
        "1".to_owned()
    };
    let identity = both(
        &equals("pane_pid", &decimal_text(g.source_pane_pid as u64)),
        &equals("session_id", &tmux_format_literal(g.source_session.as_str())),
    );
    let place = equals("pane_current_path", &tmux_format_literal(&g.source_cwd.display()));
    both(&equals(MANUAL_NAME_OPTION, ""), &both(&title, &both(&place, &identity)))
}

fn request_condition(state: &Vec<String>, token: &str) -> (r: String)
    requires
        state.len() > 13,
        request_token(text::texts(state@)) == Some(token@),
    ensures
        r@ == request_guard(text::texts(state@)),
{
    assert(text::texts(state@).len() == state@.len());
    let started = if state.len() > 14 {
        state[14].clone()
    } else {
        String::new()
    };
    assert(text::texts(state@)[13] == state@[13]@);
    both(
        &equals(IMMEDIATE_NAMING_OPTION, "1"),
        &both(
            &equals(AUTO_NAME_STATUS_OPTION, &tmux_format_literal(&state[13])),
            &both(
                &equals(AUTO_NAME_STARTED_OPTION, &tmux_format_literal(&started)),
                &equals(AUTO_NAME_TOKEN_OPTION, &tmux_format_literal(token)),
            ),
        ),
    )
}

/// The request that stores a name in a pane with the given state, where one is
/// needed.
pub fn plan_update(pane: &str, g: &GeneratedName, state: &Vec<String>) -> (r: Option<Vec<String>>)
    ensures
        match r {
            Some(request) => needs_update(*g, text::texts(state@)) && text::texts(request@)
                == store_request(pane@, *g, text::texts(state@)),
            None => !needs_update(*g, text::texts(state@)),
        },
{
    assert(text::texts(state@).len() == state@.len());
    if !reads_same_source(g, state) {
        return None;
    }
    let pending = reads_pending(state);
    let token = read_token(state);
    if pending && (token.is_none() || !option_text_equal(&g.auto_name_token, &token)) {
        return None;
    }
    if reads_up_to_date(g, state) {
        return None;
    }
    let base = source_condition(g);
    let condition = match &token {
        Some(token) => if pending {
            both(&base, &request_condition(state, token))
        } else {
            base
        },
        None => base,
    };
    Some(list6("if-shell", "-F", "-t", pane, &condition, &store_command(pane, g, pending)))
}

// ---------------------------------------------------------------------------
// Explicit requests
// ---------------------------------------------------------------------------

/// A source-less unpin no longer holds the pane back: its title changed while
/// its process and session stayed.
pub open spec fn unpin_settled(pane: Pane) -> bool {
    !pane.unpin_waiting || {
        &&& text::option_view(pane.unpin_waiting_title) != text::option_view(pane.title)
        &&& pane.unpin_waiting_pid == Some(pane.pane_pid)
        &&& domain::session_view(pane.unpin_waiting_session) == Some(pane.session_id@)
    }
}

/// An explicit request for this pane can move on to generating.
pub open spec fn can_advance(pane: Pane) -> bool {
    &&& pane.immediate_naming
    &&& !pane.manual_name
    &&& unpin_settled(pane)
    &&& pane.auto_name_status == Some(AutoNameStatus::RecoveringIdentity) || pane.auto_name_status
        == Some(AutoNameStatus::Queued)
    &&& pane.auto_name_token is Some
    &&& pane.auto_name_started_at_unix_nanos is Some
}

/// The stored word of a stage that a request can move on from.
pub open spec fn stage_word(status: AutoNameStatus) -> Seq<char> {
    if status == AutoNameStatus::RecoveringIdentity {
        "recovering"@
    } else {
        "queued"@
    }
}

/// The pane, and its request, are still those that were read.
pub open spec fn advance_guard(pane: Pane) -> Seq<Seq<char>> {
    seq![
        quote::equals_clause("pane_pid"@, actions::pid_text(pane)),
        quote::equals_clause("session_id"@, quote::format_literal(pane.session_id@)),
        quote::equals_clause(IMMEDIATE_NAMING_OPTION@, "1"@),
        quote::equals_clause(
            AUTO_NAME_STATUS_OPTION@,
            quote::format_literal(stage_word(pane.auto_name_status->0)),
        ),
        quote::equals_clause(
            AUTO_NAME_STARTED_OPTION@,
            number::decimal(pane.auto_name_started_at_unix_nanos->0 as nat),
        ),
        quote::equals_clause(
            AUTO_NAME_TOKEN_OPTION@,
            quote::format_literal(pane.auto_name_token->0@),
        ),
    ]
}

pub open spec fn advance_request(pane: Pane) -> Seq<Seq<char>> {
    seq![
        "if-shell"@,
        "-F"@,
        "-t"@,
        pane.id@,
        quote::all_clauses(advance_guard(pane)),
        options::set_text(pane.id@, AUTO_NAME_STATUS_OPTION@, "generating"@),
    ]
}

pub open spec fn planned_advances(panes: Seq<Pane>) -> Seq<Seq<Seq<u8>>>
    decreases panes.len(),
{
    if panes.len() == 0 {
        Seq::empty()
    } else {
        let rest = planned_advances(panes.drop_last());
        if can_advance(panes.last()) {
            rest.push(text::utf8_words(advance_request(panes.last())))
        } else {
            rest
        }
    }
}

fn plan_advance(pane: &Pane) -> (r: Option<Vec<String>>)
    ensures
        match r {
            Some(request) => can_advance(*pane) && text::texts(request@) == advance_request(*pane),
            None => !can_advance(*pane),
        },
{
    if !pane.immediate_naming || pane.manual_name {
        return None;
    }
    if pane.unpin_waiting {
        let same_process = match pane.unpin_waiting_pid {
            Some(pid) => pid == pane.pane_pid,
            None => false,
        };
        let same_session = match &pane.unpin_waiting_session {
            Some(session) => session.same_as(&pane.session_id),
            None => false,
        };
        if option_text_equal(&pane.unpin_waiting_title, &pane.title) || !same_process
            || !same_session {
            return None;
        }
    }
    let stage = match pane.auto_name_status {
        Some(AutoNameStatus::RecoveringIdentity) => "recovering",
        Some(AutoNameStatus::Queued) => "queued",
        _ => return None,
    };
    let token = match &pane.auto_name_token {
        Some(token) => token,
        None => return None,
    };
    let started = match pane.auto_name_started_at_unix_nanos {
        Some(started) => started,
        None => return None,
    };
    let mut clauses = text::no_texts();
    put(&mut clauses, &equals("pane_pid", &decimal_text(pane.pane_pid as u64)));
    put(&mut clauses, &equals("session_id", &tmux_format_literal(pane.session_id.as_str())));
    put(&mut clauses, &equals(IMMEDIATE_NAMING_OPTION, "1"));
    put(&mut clauses, &equals(AUTO_NAME_STATUS_OPTION, &tmux_format_literal(stage)));
    put(&mut clauses, &equals(AUTO_NAME_STARTED_OPTION, &decimal_text(started)));
    put(&mut clauses, &equals(AUTO_NAME_TOKEN_OPTION, &tmux_format_literal(token)));
    assert(text::texts(clauses@) =~= advance_guard(*pane));
    let id = pane.id.as_str();
    Some(
        list6(
            "if-shell",
            "-F",
            "-t",
            id,
            &all_of(&clauses),
            &set_command(id, AUTO_NAME_STATUS_OPTION, "generating"),
        ),
    )
}

// ---------------------------------------------------------------------------
// Names that an earlier release gave to windows
// ---------------------------------------------------------------------------

/// A window of one pane whose name is a generated one without a time.
pub open spec fn is_legacy(fields: Seq<Seq<char>>) -> bool {
    &&& fields.len() == 12
    &&& fields[4] == "0"@
    &&& fields[5] == "1"@
    &&& fields[3] == fields[7]
    &&& !scan::is_blank(fields[6])
    &&& !scan::is_blank(fields[7])
    &&& scan::is_blank(fields[10])
}

/// The value of one format variable equals that of another.
pub open spec fn same_variable(name: Seq<char>, other: Seq<char>) -> Seq<char> {
    quote::equals_clause(name, "#{"@ + other + "}"@)
}

/// The window is still the one that was read, with the same generated name.
pub open spec fn legacy_guard(fields: Seq<Seq<char>>) -> Seq<char> {
    quote::both_clause(
        quote::equals_clause("window_id"@, fields[1]),
        quote::both_clause(
            quote::equals_clause("window_panes"@, "1"@),
            quote::both_clause(
                quote::equals_clause("automatic-rename"@, "0"@),
                quote::both_clause(
                    same_variable("window_name"@, OWNER_OPTION@),
                    quote::both_clause(
                        quote::equals_clause(THREAD_OPTION@, quote::format_literal(fields[6])),
                        quote::both_clause(
                            quote::equals_clause(OWNER_OPTION@, quote::format_literal(fields[7])),
                            quote::equals_clause(GENERATED_AT_OPTION@, ""@),
                        ),
                    ),
                ),
            ),
        ),
    )
}

/// The pane still shows the source of the name.
pub open spec fn legacy_pane_guard(fields: Seq<Seq<char>>) -> Seq<char> {
    quote::both_clause(
        quote::equals_clause("window_id"@, fields[1]),
        quote::both_clause(
            same_variable("pane_title"@, SOURCE_TITLE_OPTION@),
            same_variable("pane_current_path"@, SOURCE_CWD_OPTION@),
        ),
    )
}

pub open spec fn legacy_pane_commands(fields: Seq<Seq<char>>, now: u64) -> Seq<Seq<char>> {
    seq![
        options::set_text(fields[0], THREAD_OPTION@, quote::quoted(fields[6])),
        options::set_text(fields[0], OWNER_OPTION@, quote::quoted(fields[7])),
        options::set_text(fields[0], GENERATED_AT_OPTION@, number::decimal(now as nat)),
    ]
}

/// Gives the window its automatic name back, then stores the name in the pane
/// where the pane still shows its source.
pub open spec fn legacy_text(fields: Seq<Seq<char>>, now: u64) -> Seq<char> {
    "set-option -wu -t "@ + quote::quoted(fields[1]) + " "@ + THREAD_OPTION@
        + "; set-option -wu -t "@ + quote::quoted(fields[1]) + " "@ + OWNER_OPTION@
        + "; set-option -w -t "@ + quote::quoted(fields[1]) + " automatic-rename on; if-shell -F -t "@
        + quote::quoted(fields[0]) + " "@ + quote::quoted(legacy_pane_guard(fields)) + " "@
        + quote::quoted(scan::join_with(legacy_pane_commands(fields, now), "; "@))
}

pub open spec fn legacy_request(fields: Seq<Seq<char>>, now: u64) -> Seq<Seq<char>> {
    seq![
        "if-shell"@,
        "-F"@,
        "-t"@,
        fields[1],
        legacy_guard(fields),
        legacy_text(fields, now),
    ]
}

pub open spec fn planned_migrations(lines: Seq<Seq<char>>, now: u64) -> Seq<Seq<Seq<u8>>>
    decreases lines.len(),
{
    if lines.len() == 0 {
        Seq::empty()
    } else {
        let rest = planned_migrations(lines.drop_last(), now);
        let fields = state_fields(lines.last());
        if is_legacy(fields) {
            rest.push(text::utf8_words(legacy_request(fields, now)))
        } else {
            rest
        }
    }
}

fn variable_equals(name: &str, other: &str) -> (r: String)
    ensures
        r@ == same_variable(name@, other@),
{
    let mut value = "#{".to_owned();
    value.append(other);
    value.append("}");
    equals(name, &value)
}

fn legacy_command(fields: &Vec<String>, now: u64) -> (r: String)
    requires
        fields.len() == 12,
    ensures
        r@ == legacy_text(text::texts(fields@), now),
{
    let ghost f = text::texts(fields@);
    assert(f[0] == fields@[0]@ && f[1] == fields@[1]@ && f[6] == fields@[6]@ && f[7]
        == fields@[7]@);
    let pane_id = fields[0].as_str();
    let window = tmux_quote(&fields[1]);
    let guard = both(
        &equals("window_id", &fields[1]),
        &both(
            &variable_equals("pane_title", SOURCE_TITLE_OPTION),
            &variable_equals("pane_current_path", SOURCE_CWD_OPTION),
        ),
    );
    let mut parts = text::no_texts();
    put(&mut parts, &set_command(pane_id, THREAD_OPTION, &tmux_quote(&fields[6])));
    put(&mut parts, &set_command(pane_id, OWNER_OPTION, &tmux_quote(&fields[7])));
    put(&mut parts, &set_command(pane_id, GENERATED_AT_OPTION, &decimal_text(now)));
    assert(text::texts(parts@) =~= legacy_pane_commands(f, now));
    let mut s = "set-option -wu -t ".to_owned();
    s.append(&window);
    s.append(" ");
    s.append(THREAD_OPTION);
    s.append("; set-option -wu -t ");
    s.append(&window);
    s.append(" ");
    s.append(OWNER_OPTION);
    s.append("; set-option -w -t ");
    s.append(&window);
    s.append(" automatic-rename on; if-shell -F -t ");
    s.append(&tmux_quote(pane_id));
    s.append(" ");
    s.append(&tmux_quote(&guard));
    s.append(" ");
    s.append(&tmux_quote(&text::join_texts(&parts, "; ")));
    s
}

fn plan_migration(line: &str, now: u64) -> (r: Option<Vec<String>>)
    ensures
        match r {
            Some(request) => is_legacy(state_fields(line@)) && text::texts(request@)
                == legacy_request(state_fields(line@), now),
            None => !is_legacy(state_fields(line@)),
        },
{
    let fields = split_state_fields(line);
    let ghost f = state_fields(line@);
    assert(f.len() == fields@.len());
    if fields.len() != 12 {
        return None;
    }
    assert forall|i: int| 0 <= i < 12 implies #[trigger] f[i] == fields@[i]@ by {}
    if !text_equal(&fields[4], "0") || !text_equal(&fields[5], "1") || !text_equal(
        &fields[3],
        &fields[7],
    ) || blank(&fields[6]) || blank(&fields[7]) || !blank(&fields[10]) {
        return None;
    }
    let guard = both(
        &equals("window_id", &fields[1]),
        &both(
            &equals("window_panes", "1"),
            &both(
                &equals("automatic-rename", "0"),
                &both(
                    &variable_equals("window_name", OWNER_OPTION),
                    &both(
                        &equals(THREAD_OPTION, &tmux_format_literal(&fields[6])),
                        &both(
                            &equals(OWNER_OPTION, &tmux_format_literal(&fields[7])),
                            &equals(GENERATED_AT_OPTION, ""),
                        ),
                    ),
                ),
            ),
        ),
    );
    Some(list6("if-shell", "-F", "-t", &fields[1], &guard, &legacy_command(&fields, now)))
}

// ---------------------------------------------------------------------------
// Giving names up
// ---------------------------------------------------------------------------

/// The stored name is still the one to give up.
pub open spec fn stored_guard(g: GeneratedName) -> Seq<char> {
    quote::both_clause(
        quote::equals_clause(THREAD_OPTION@, quote::format_literal(g.thread_id@)),
        quote::both_clause(
            quote::equals_clause(OWNER_OPTION@, quote::format_literal(g.name@)),
            quote::both_clause(
                quote::equals_clause(SOURCE_PID_OPTION@, source_pid_text(g)),
                quote::equals_clause(
                    SOURCE_SESSION_OPTION@,
                    quote::format_literal(g.source_session@),
                ),
            ),
        ),
    )
}

/// The commands that unset each option of a list, as texts.
pub open spec fn unset_texts(pane: Seq<char>, opts: Seq<Seq<char>>) -> Seq<Seq<char>> {
    Seq::new(opts.len(), |i: int| options::unset_text(pane, opts[i]))
}

pub open spec fn clear_request(pane: Seq<char>, g: GeneratedName) -> Seq<Seq<char>> {
    seq![
        "if-shell"@,
        "-F"@,
        "-t"@,
        pane,
        stored_guard(g),
        scan::join_with(unset_texts(pane, options::generated_options()), "; "@),
    ]
}

pub open spec fn planned_clears(names: Seq<NamedPane>) -> Seq<Seq<Seq<u8>>> {
    Seq::new(
        names.len(),
        |i: int| text::utf8_words(clear_request(names[i].pane@, names[i].name)),
    )
}

pub open spec fn planned_unsets(lines: Seq<Seq<char>>) -> Seq<Seq<Seq<u8>>> {
    Seq::new(
        lines.len(),
        |i: int|
            text::utf8_words(options::unset_sequence(lines[i], options::generated_options())),
    )
}

/// The text that gives up a generated name.
pub fn clear_marker_command(pane_id: &str) -> (r: String)
    ensures
        r@ == scan::join_with(unset_texts(pane_id@, options::generated_options()), "; "@),
{
    let list = generated_option_list();
    let ghost all = options::generated_options();
    let mut parts = text::no_texts();
    let mut i: usize = 0;
    while i < list.len()
        invariant
            i <= list.len(),
            text::texts(list@) == all,
            text::texts(parts@) =~= unset_texts(pane_id@, all).take(i as int),
        decreases list.len() - i,
    {
        assert(all[i as int] == list@[i as int]@);
        put(&mut parts, &unset_command(pane_id, &list[i]));
        i += 1;
    }
    assert(text::texts(parts@) =~= unset_texts(pane_id@, all));
    text::join_texts(&parts, "; ")
}

fn plan_clear(pane: &str, g: &GeneratedName) -> (r: Vec<String>)
    ensures
        text::texts(r@) == clear_request(pane@, *g),
{
    let guard = both(
        &equals(THREAD_OPTION, &tmux_format_literal(&g.thread_id)),
        &both(
            &equals(OWNER_OPTION, &tmux_format_literal(&g.name)),
            &both(
                &equals(SOURCE_PID_OPTION, &decimal_text(g.source_pane_pid as u64)),
                &equals(SOURCE_SESSION_OPTION, &tmux_format_literal(g.source_session.as_str())),
            ),
        ),
    );
    list6("if-shell", "-F", "-t", pane, &guard, &clear_marker_command(pane))
}

// ---------------------------------------------------------------------------
// The reconciler
// ---------------------------------------------------------------------------

/// A reply counts only with exit status zero.
pub open spec fn accepted(reply: Result<OutputModel, ErrorModel>) -> Option<OutputModel> {
    match reply {
        Ok(output) => if output.status == Some(0i32) {
            Some(output)
        } else {
            None
        },
        Err(_) => None,
    }
}

/// The requests of a trace.
pub open spec fn requests_of(trace: Seq<Exchange>) -> Seq<Seq<Seq<u8>>> {
    Seq::new(trace.len(), |i: int| trace[i].request)
}

/// A list was asked for first; where it came, the planned requests followed.
pub open spec fn listed_then(
    list: Seq<Seq<char>>,
    trace: Seq<Exchange>,
    planned: spec_fn(Seq<Seq<char>>) -> Seq<Seq<Seq<u8>>>,
) -> bool {
    &&& trace.len() >= 1
    &&& trace[0].request == text::utf8_words(list)
    &&& requests_of(trace.skip(1)) == match accepted(trace[0].reply) {
        Some(output) => planned(scan::lines(text::lossy_text(output.stdout))),
        None => Seq::empty(),
    }
}

pub open spec fn state_query() -> Seq<Seq<char>> {
    seq!["list-panes"@, "-a"@, "-F"@, STATE_FORMAT@]
}

pub open spec fn legacy_query() -> Seq<Seq<char>> {
    seq!["list-panes"@, "-a"@, "-F"@, LEGACY_STATE_FORMAT@]
}

pub open spec fn pane_query() -> Seq<Seq<char>> {
    seq!["list-panes"@, "-a"@, "-F"@, "#{pane_id}"@]
}

/// The identities of a list of panes.
pub open spec fn id_list(ids: Seq<PaneId>) -> Seq<Seq<char>> {
    Seq::new(ids.len(), |i: int| ids[i]@)
}

fn holds_id(ids: &Vec<PaneId>, id: &PaneId) -> (r: bool)
    ensures
        r == id_list(ids@).contains(id@),
{
    let mut i: usize = 0;
    while i < ids.len()
        invariant
            i <= ids.len(),
            forall|j: int| 0 <= j < i ==> #[trigger] id_list(ids@)[j] != id@,
        decreases ids.len() - i,
    {
        if ids[i].same_as(id) {
            assert(id_list(ids@)[i as int] == id@);
            return true;
        }
        i += 1;
    }
    false
}

fn state_from_row(row: &Vec<String>) -> (r: Vec<String>)
    requires
        row.len() >= 1,
    ensures
        text::texts(r@) == text::texts(row@).skip(1),
{
    let mut r = text::no_texts();
    let mut i: usize = 1;
    while i < row.len()
        invariant
            1 <= i <= row.len(),
            text::texts(r@) =~= text::texts(row@).subrange(1, i as int),
        decreases row.len() - i,
    {
        put(&mut r, &row[i]);
        i += 1;
    }
    assert(text::texts(r@) =~= text::texts(row@).skip(1));
    r
}

/// Stores generated titles as pane-local metadata.
pub struct OwnedTmuxNames<R> {
    pub runner: LoggedRunner<R>,
}

impl<R: TmuxCommandRunner> OwnedTmuxNames<R> {
    pub fn new(runner: R) -> (r: Self)
        ensures
            r.runner.wrapped() == runner,
            r.runner.history() == Seq::<Exchange>::empty(),
    {
        OwnedTmuxNames { runner: LoggedRunner::new(runner) }
    }

    fn run(&mut self, arguments: &Vec<String>) -> (r: Result<CommandOutput, MuxError>)
        ensures
            final(self).runner.history() == old(self).runner.history().push(
                Exchange {
                    request: text::utf8_words(text::texts(arguments@)),
                    reply: final(self).runner.history().last().reply,
                },
            ),
            match r {
                Ok(output) => accepted(final(self).runner.history().last().reply) == Some(output@),
                Err(_) => accepted(final(self).runner.history().last().reply) is None,
            },
    {
        let output = match self.runner.run(&to_words(arguments)) {
            Ok(output) => output,
            Err(e) => return Err(e),
        };
        let success = match output.status {
            Some(code) => code == 0,
            None => false,
        };
        if success {
            Ok(output)
        } else {
            Err(command_error("tmux smart naming command failed"))
        }
    }

    /// Asks for a list and hands its output back as text.
    fn list(&mut self, query: &Vec<String>) -> (r: Option<String>)
        ensures
            final(self).runner.history() == old(self).runner.history().push(
                Exchange {
                    request: text::utf8_words(text::texts(query@)),
                    reply: final(self).runner.history().last().reply,
                },
            ),
            match r {
                Some(printed) => accepted(final(self).runner.history().last().reply) is Some
                    && printed@ == text::lossy_text(
                    accepted(final(self).runner.history().last().reply)->0.stdout,
                ),
                None => accepted(final(self).runner.history().last().reply) is None,
            },
    {
        match self.run(query) {
            Ok(output) => Some(utf8_lossy(&output.stdout)),
            Err(_) => None,
        }
    }

    /// Reconciles names whose pane title proves their thread.
    pub fn reconcile(&mut self, names: &Vec<NamedPane>) -> (r: bool)
        ensures
            old(self).runner.history().is_prefix_of(final(self).runner.history()),
            listed_then(
                state_query(),
                actions::exchanged(old(self).runner.history(), final(self).runner.history()),
                |lines: Seq<Seq<char>>|
                    planned_updates(names@, Seq::empty(), state_rows(lines)),
            ),
            r == match accepted(
                actions::exchanged(
                    old(self).runner.history(),
                    final(self).runner.history(),
                )[0].reply,
            ) {
                Some(output) => name_pending(
                    state_rows(scan::lines(text::lossy_text(output.stdout))),
                ),
                None => false,
            },
    {
        let none: Vec<PaneId> = Vec::new();
        let r = self.reconcile_with_verified_volatile(names, &none);
        assert(id_list(none@) =~= Seq::<Seq<char>>::empty());
        r
    }

    /// Reconciles names, also those whose pane was verified by other means, with
    /// the live state of their panes. The result says whether some pane waits to
    /// be named.
    pub fn reconcile_with_verified_volatile(
        &mut self,
        names: &Vec<NamedPane>,
        verified_volatile: &Vec<PaneId>,
    ) -> (r: bool)
        ensures
            old(self).runner.history().is_prefix_of(final(self).runner.history()),
            listed_then(
                state_query(),
                actions::exchanged(old(self).runner.history(), final(self).runner.history()),
                |lines: Seq<Seq<char>>|
                    planned_updates(names@, id_list(verified_volatile@), state_rows(lines)),
            ),
            r == match accepted(
                actions::exchanged(
                    old(self).runner.history(),
                    final(self).runner.history(),
                )[0].reply,
            ) {
                Some(output) => name_pending(
                    state_rows(scan::lines(text::lossy_text(output.stdout))),
                ),
                None => false,
            },
    {
        let ghost start = self.runner.history();
        let query = list4("list-panes", "-a", "-F", STATE_FORMAT);
        let listed = self.list(&query);
        let ghost first = self.runner.history();
        let ghost verified = id_list(verified_volatile@);
        proof {
            let trace = actions::exchanged(start, first);
            assert(trace =~= seq![first.last()]);
            assert(requests_of(trace.skip(1)) =~= Seq::<Seq<Seq<u8>>>::empty());
        }
        let printed = match listed {
            Some(printed) => printed,
            None => return false,
        };
        let rows = read_rows(&printed);
        let ghost all = state_rows(scan::lines(printed@));
        proof {
            rows_have_fields(scan::lines(printed@));
            assert forall|i: int| 0 <= i < rows.len() implies (#[trigger] rows@[i]).len()
                >= 14 by {
                assert(text::rows(rows@)[i].len() == rows@[i]@.len());
                assert(all[i].len() >= 14);
            }
        }
        let pending = any_pending(&rows);
        let mut i: usize = 0;
        assert(names@.take(0).len() == 0);
        while i < names.len()
            invariant
                i <= names.len(),
                start.is_prefix_of(self.runner.history()),
                first.is_prefix_of(self.runner.history()),
                requests_of(actions::exchanged(first, self.runner.history())) =~= planned_updates(
                    names@.take(i as int),
                    verified,
                    all,
                ),
            decreases names.len() - i,
        {
            let ghost before = self.runner.history();
            let named = &names[i];
            proof {
                assert(names@.take(i + 1).drop_last() =~= names@.take(i as int));
                assert(names@.take(i + 1).last() == *named);
            }
            if named.name.stable_source_title || holds_id(verified_volatile, &named.pane) {
                if let Some(at) = find_row(&rows, named.pane.as_str()) {
                    assert(all[at as int] == text::texts(rows@[at as int]@));
                    let state = state_from_row(&rows[at]);
                    let plan = plan_update(named.pane.as_str(), &named.name, &state);
                    if let Some(request) = plan {
                        let _ = self.run(&request);
                        proof {
                            let after = self.runner.history();
                            assert(requests_of(actions::exchanged(first, after)) =~= requests_of(
                                actions::exchanged(first, before),
                            ).push(after.last().request));
                        }
                    }
                }
            }
            i += 1;
        }
        proof {
            let end = self.runner.history();
            let trace = actions::exchanged(start, end);
            assert(names@.take(names@.len() as int) =~= names@);
            assert(trace.skip(1) =~= actions::exchanged(first, end));
            assert(trace[0] == first.last());
        }
        pending
    }

    /// Moves each explicit request whose pane can be named on to generating.
    pub fn mark_auto_name_generating(&mut self, panes: &Vec<Pane>)
        ensures
            old(self).runner.history().is_prefix_of(final(self).runner.history()),
            requests_of(
                actions::exchanged(old(self).runner.history(), final(self).runner.history()),
            ) == planned_advances(panes@),
    {
        let ghost start = self.runner.history();
        let mut i: usize = 0;
        assert(panes@.take(0).len() == 0);
        while i < panes.len()
            invariant
                i <= panes.len(),
                start.is_prefix_of(self.runner.history()),
                requests_of(actions::exchanged(start, self.runner.history()))
                    =~= planned_advances(panes@.take(i as int)),
            decreases panes.len() - i,
        {
            let ghost before = self.runner.history();
            proof {
                assert(panes@.take(i + 1).drop_last() =~= panes@.take(i as int));
                assert(panes@.take(i + 1).last() == panes@[i as int]);
            }
            if let Some(request) = plan_advance(&panes[i]) {
                let _ = self.run(&request);
                proof {
                    let after = self.runner.history();
                    assert(requests_of(actions::exchanged(start, after)) =~= requests_of(
                        actions::exchanged(start, before),
                    ).push(after.last().request));
                }
            }
            i += 1;
        }
        assert(panes@.take(panes@.len() as int) =~= panes@);
    }

    /// Moves names from windows, where an earlier release put them, to panes.
    pub fn migrate_legacy_window_names(&mut self, generated_at_unix: u64)
        ensures
            old(self).runner.history().is_prefix_of(final(self).runner.history()),
            listed_then(
                legacy_query(),
                actions::exchanged(old(self).runner.history(), final(self).runner.history()),
                |lines: Seq<Seq<char>>| planned_migrations(lines, generated_at_unix),
            ),
    {
        let ghost start = self.runner.history();
        let query = list4("list-panes", "-a", "-F", LEGACY_STATE_FORMAT);
        let listed = self.list(&query);
        let ghost first = self.runner.history();
        proof {
            let trace = actions::exchanged(start, first);
            assert(trace =~= seq![first.last()]);
            assert(requests_of(trace.skip(1)) =~= Seq::<Seq<Seq<u8>>>::empty());
        }
        let printed = match listed {
            Some(printed) => printed,
            None => return ,
        };
        let lines = text_lines(&printed);
        let ghost all = scan::lines(printed@);
        let mut i: usize = 0;
        assert(all.take(0).len() == 0);
        while i < lines.len()
            invariant
                i <= lines.len(),
                start.is_prefix_of(self.runner.history()),
                first.is_prefix_of(self.runner.history()),
                requests_of(actions::exchanged(first, self.runner.history()))
                    =~= planned_migrations(all.take(i as int), generated_at_unix),
            decreases lines.len() - i,
        {
            let ghost before = self.runner.history();
            proof {
                assert(all.take(i + 1).drop_last() =~= all.take(i as int));
                assert(all.take(i + 1).last() == lines@[i as int]@);
            }
            if let Some(request) = plan_migration(&lines[i], generated_at_unix) {
                let _ = self.run(&request);
                proof {
                    let after = self.runner.history();
                    assert(requests_of(actions::exchanged(first, after)) =~= requests_of(
                        actions::exchanged(first, before),
                    ).push(after.last().request));
                }
            }
            i += 1;
        }
        proof {
            let end = self.runner.history();
            let trace = actions::exchanged(start, end);
            assert(all.take(all.len() as int) =~= all);
            assert(trace.skip(1) =~= actions::exchanged(first, end));
            assert(trace[0] == first.last());
        }
    }

    /// Gives up the generated name of every pane.
    pub fn clear_all(&mut self)
        ensures
            old(self).runner.history().is_prefix_of(final(self).runner.history()),
            listed_then(
                pane_query(),
                actions::exchanged(old(self).runner.history(), final(self).runner.history()),
                |lines: Seq<Seq<char>>| planned_unsets(lines),
            ),
    {
        let ghost start = self.runner.history();
        let query = list4("list-panes", "-a", "-F", "#{pane_id}");
        let listed = self.list(&query);
        let ghost first = self.runner.history();
        proof {
            let trace = actions::exchanged(start, first);
            assert(trace =~= seq![first.last()]);
            assert(requests_of(trace.skip(1)) =~= Seq::<Seq<Seq<u8>>>::empty());
        }
        let printed = match listed {
            Some(printed) => printed,
            None => return ,
        };
        let lines = text_lines(&printed);
        let ghost all = scan::lines(printed@);
        let mut i: usize = 0;
        while i < lines.len()
            invariant
                i <= lines.len(),
                start.is_prefix_of(self.runner.history()),
                first.is_prefix_of(self.runner.history()),
                requests_of(actions::exchanged(first, self.runner.history())) =~= planned_unsets(
                    all,
                ).take(i as int),
            decreases lines.len() - i,
        {
            let ghost before = self.runner.history();
            assert(all[i as int] == lines@[i as int]@);
            let _ = self.run(&clear_marker_arguments(&lines[i]));
            proof {
                let after = self.runner.history();
                assert(requests_of(actions::exchanged(first, after)) =~= requests_of(
                    actions::exchanged(first, before),
                ).push(after.last().request));
            }
            i += 1;
        }
        proof {
            let end = self.runner.history();
            let trace = actions::exchanged(start, end);
            assert(planned_unsets(all).take(all.len() as int) =~= planned_unsets(all));
            assert(trace.skip(1) =~= actions::exchanged(first, end));
            assert(trace[0] == first.last());
        }
    }

    /// Gives up names whose thread could not be verified again, each only while
    /// its pane still holds exactly that name.
    pub fn clear_generated(&mut self, panes: &Vec<NamedPane>)
        ensures
            old(self).runner.history().is_prefix_of(final(self).runner.history()),
            requests_of(
                actions::exchanged(old(self).runner.history(), final(self).runner.history()),
            ) == planned_clears(panes@),
    {
        let ghost start = self.runner.history();
        let mut i: usize = 0;
        while i < panes.len()
            invariant
                i <= panes.len(),
                start.is_prefix_of(self.runner.history()),
                requests_of(actions::exchanged(start, self.runner.history())) =~= planned_clears(
                    panes@,
                ).take(i as int),
            decreases panes.len() - i,
        {
            let ghost before = self.runner.history();
            let request = plan_clear(panes[i].pane.as_str(), &panes[i].name);
            let _ = self.run(&request);
            proof {
                let after = self.runner.history();
                assert(requests_of(actions::exchanged(start, after)) =~= requests_of(
                    actions::exchanged(start, before),
                ).push(after.last().request));
            }
            i += 1;
        }
    }
}

} // verus!
