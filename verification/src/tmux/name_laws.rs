//! What the requests that store, advance, migrate and clear generated names do.

use vstd::prelude::*;
use crate::domain::{AutoNameStatus, Exchange, Pane};
use crate::number;
use crate::scan;
use crate::smart_naming::names::GeneratedName;
use crate::text;
use crate::tmux::action_laws;
use crate::tmux::options;
use crate::tmux::owned_names;
use crate::tmux::owned_names::NamedPane;
use crate::tmux::quote;

verus! {

// ---------------------------------------------------------------------------
// The state of the panes
// ---------------------------------------------------------------------------

/// A row of the state of a pane reads back field by field, and the last row of a pane is
/// the one that counts.
pub proof fn a_state_row_reads_back(lines: Seq<Seq<char>>, f: Seq<Seq<char>>)
    requires
        14 <= f.len() <= 17,
        forall|i: int| 0 <= i < f.len() ==> !(#[trigger] f[i]).contains('\x1f'),
    ensures
        ({
            let row = scan::join_with(f, seq!['\x1f']);
            let rows = owned_names::state_rows(lines.push(row));
            &&& owned_names::state_of(rows, f[0]) == Some(f.skip(1))
            &&& forall|pane: Seq<char>|
                pane != f[0] ==> #[trigger] owned_names::state_of(rows, pane)
                    == owned_names::state_of(owned_names::state_rows(lines), pane)
        }),
{
    let row = scan::join_with(f, seq!['\x1f']);
    let head = scan::join_with(f.drop_last(), seq!['\x1f']);
    assert(row[head.len() as int] == '\x1f');
    scan::split_undoes_join(f, '\x1f');
    assert(owned_names::state_fields(row) == f);
    assert(lines.push(row).drop_last() =~= lines);
    let rows = owned_names::state_rows(lines.push(row));
    assert(rows.drop_last() =~= owned_names::state_rows(lines));
}

/// A row with too few or too many fields says nothing of any pane.
pub proof fn a_broken_state_row_is_ignored(lines: Seq<Seq<char>>, f: Seq<Seq<char>>)
    requires
        f.len() > 1,
        f.len() < 14 || f.len() > 17,
        forall|i: int| 0 <= i < f.len() ==> !(#[trigger] f[i]).contains('\x1f'),
    ensures
        owned_names::state_rows(lines.push(scan::join_with(f, seq!['\x1f'])))
            == owned_names::state_rows(lines),
{
    let row = scan::join_with(f, seq!['\x1f']);
    let head = scan::join_with(f.drop_last(), seq!['\x1f']);
    assert(row[head.len() as int] == '\x1f');
    scan::split_undoes_join(f, '\x1f');
    assert(lines.push(row).drop_last() =~= lines);
}

// ---------------------------------------------------------------------------
// Storing a name
// ---------------------------------------------------------------------------

/// A state is of the pane that a name was made for: the same directory, process and
/// session, the same title where that proves the thread, and no manual name.
pub open spec fn still_there(g: GeneratedName, state: Seq<Seq<char>>) -> bool {
    &&& state[1] == text::lossy_text(g.source_cwd@)
    &&& state[2] == number::decimal(g.source_pane_pid as nat)
    &&& state[3] == g.source_session@
    &&& g.stable_source_title ==> state[0] == g.source_title@
    &&& state[12] != "1"@
}

/// A name is stored only in the pane that it was made for, and not over an explicit request
/// that it does not answer.
pub proof fn a_name_is_stored_where_it_belongs(g: GeneratedName, state: Seq<Seq<char>>)
    requires
        owned_names::needs_update(g, state),
    ensures
        still_there(g, state),
        state[11] == "1"@ && state.len() > 13 && (state[13] == "recovering"@ || state[13]
            == "queued"@ || state[13] == "generating"@) ==> state.len() > 15 && state[15].len() > 0
            && g.auto_name_token is Some && g.auto_name_token->0@ == state[15],
{
}

/// In the pane that a name was made for, with nothing asked for explicitly, the name is
/// stored exactly where anything that is kept with it differs, or something is still asked
/// for.
pub proof fn a_changed_name_is_stored(g: GeneratedName, state: Seq<Seq<char>>)
    requires
        13 <= state.len() <= 16,
        still_there(g, state),
        state[11] != "1"@,
    ensures
        owned_names::needs_update(g, state) <==> state[4] != g.thread_id@ || state[5] != g.name@
            || state[6] != g.source_title@ || state[7] != text::lossy_text(g.source_cwd@)
            || state[8] != number::decimal(g.source_pane_pid as nat) || state[9]
            != g.source_session@ || state[10] != number::decimal(g.generated_at_unix as nat)
            || state[11].len() > 0 || state[12].len() > 0,
{
}

/// An explicit request is answered by the name with its token, whatever is stored.
pub proof fn an_answer_is_stored(g: GeneratedName, state: Seq<Seq<char>>)
    requires
        state.len() == 16,
        still_there(g, state),
        state[11] == "1"@,
        state[13] == "recovering"@ || state[13] == "queued"@ || state[13] == "generating"@,
        state[15].len() > 0,
        g.auto_name_token is Some,
        g.auto_name_token->0@ == state[15],
    ensures
        owned_names::needs_update(g, state),
{
    reveal_strlit("1");
}

/// What a stored name leaves in its pane: the thread, the name, and where and when it was
/// made, each under its own option; and that nothing is asked for any more.
pub proof fn a_stored_name_is_what_was_made(
    pane: Seq<char>,
    g: GeneratedName,
    state: Seq<Seq<char>>,
)
    ensures
        ({
            let request = owned_names::store_request(pane, g, state);
            let commands = request[5];
            &&& request.len() == 6
            &&& request.take(4) == seq!["if-shell"@, "-F"@, "-t"@, pane]
            &&& action_laws::runs(
                commands,
                action_laws::set_of(
                    pane,
                    "@codex_mux_generated_thread"@,
                    quote::quoted(g.thread_id@),
                ),
            )
            &&& action_laws::runs(
                commands,
                action_laws::set_of(pane, "@codex_mux_generated_name"@, quote::quoted(g.name@)),
            )
            &&& action_laws::runs(
                commands,
                action_laws::set_of(
                    pane,
                    "@codex_mux_generated_source_title"@,
                    quote::quoted(g.source_title@),
                ),
            )
            &&& action_laws::runs(
                commands,
                action_laws::set_of(
                    pane,
                    "@codex_mux_generated_source_cwd"@,
                    quote::quoted(text::lossy_text(g.source_cwd@)),
                ),
            )
            &&& action_laws::runs(
                commands,
                action_laws::set_of(
                    pane,
                    "@codex_mux_generated_source_pid"@,
                    number::decimal(g.source_pane_pid as nat),
                ),
            )
            &&& action_laws::runs(
                commands,
                action_laws::set_of(
                    pane,
                    "@codex_mux_generated_source_session"@,
                    quote::quoted(g.source_session@),
                ),
            )
            &&& action_laws::runs(
                commands,
                action_laws::set_of(
                    pane,
                    "@codex_mux_generated_at"@,
                    number::decimal(g.generated_at_unix as nat),
                ),
            )
            &&& action_laws::runs(commands, action_laws::unset_of(pane, "@codex_mux_name_now"@))
        }),
{
    let request = owned_names::store_request(pane, g, state);
    assert(request.take(4) =~= seq!["if-shell"@, "-F"@, "-t"@, pane]);
    let parts = owned_names::store_commands(pane, g, owned_names::request_pending(state));
    action_laws::a_joined_command_runs(parts, 0);
    action_laws::a_joined_command_runs(parts, 1);
    action_laws::a_joined_command_runs(parts, 2);
    action_laws::a_joined_command_runs(parts, 3);
    action_laws::a_joined_command_runs(parts, 4);
    action_laws::a_joined_command_runs(parts, 5);
    action_laws::a_joined_command_runs(parts, 6);
    action_laws::a_joined_command_runs(parts, 7);
}

/// A name that answers an explicit request ends it, and with it a wait after an unpin.
pub proof fn an_answer_ends_the_request(pane: Seq<char>, g: GeneratedName, state: Seq<Seq<char>>)
    requires
        state.len() > 15,
        state[11] == "1"@,
        state[13] == "recovering"@ || state[13] == "queued"@ || state[13] == "generating"@,
        state[15].len() > 0,
    ensures
        ({
            let request = owned_names::store_request(pane, g, state);
            let commands = request[5];
            &&& action_laws::runs(
                commands,
                action_laws::set_of(pane, "@codex_mux_auto_name_status"@, "success"@),
            )
            &&& action_laws::runs(
                commands,
                action_laws::unset_of(pane, "@codex_mux_auto_name_token"@),
            )
            &&& action_laws::runs(
                commands,
                action_laws::unset_of(pane, "@codex_mux_unpin_waiting"@),
            )
            &&& action_laws::runs(
                commands,
                action_laws::unset_of(pane, "@codex_mux_unpin_waiting_title"@),
            )
            &&& action_laws::runs(
                commands,
                action_laws::unset_of(pane, "@codex_mux_unpin_waiting_pid"@),
            )
            &&& action_laws::runs(
                commands,
                action_laws::unset_of(pane, "@codex_mux_unpin_waiting_session"@),
            )
            &&& action_laws::demands(request[4], "@codex_mux_name_now"@, "1"@)
            &&& action_laws::demands(
                request[4],
                "@codex_mux_auto_name_status"@,
                quote::format_literal(state[13]),
            )
            &&& action_laws::demands(
                request[4],
                "@codex_mux_auto_name_started"@,
                quote::format_literal(state[14]),
            )
            &&& action_laws::demands(
                request[4],
                "@codex_mux_auto_name_token"@,
                quote::format_literal(state[15]),
            )
        }),
{
    let parts = owned_names::store_commands(pane, g, true);
    action_laws::a_joined_command_runs(parts, 8);
    action_laws::a_joined_command_runs(parts, 9);
    action_laws::a_joined_command_runs(parts, 10);
    action_laws::a_joined_command_runs(parts, 11);
    action_laws::a_joined_command_runs(parts, 12);
    action_laws::a_joined_command_runs(parts, 13);
    let now = quote::equals_clause("@codex_mux_name_now"@, "1"@);
    let status = quote::equals_clause(
        "@codex_mux_auto_name_status"@,
        quote::format_literal(state[13]),
    );
    let started = quote::equals_clause(
        "@codex_mux_auto_name_started"@,
        quote::format_literal(state[14]),
    );
    let token = quote::equals_clause(
        "@codex_mux_auto_name_token"@,
        quote::format_literal(state[15]),
    );
    let last = quote::both_clause(started, token);
    let middle = quote::both_clause(status, last);
    let asked = quote::both_clause(now, middle);
    assert(asked == owned_names::request_guard(state));
    let source = owned_names::source_guard(g);
    action_laws::occurs_itself(now);
    action_laws::occurs_itself(status);
    action_laws::occurs_itself(started);
    action_laws::occurs_itself(token);
    stands_in_both(started, token, started);
    stands_in_both(started, token, token);
    stands_in_both(status, last, status);
    stands_in_both(status, last, started);
    stands_in_both(status, last, token);
    stands_in_both(now, middle, now);
    stands_in_both(now, middle, status);
    stands_in_both(now, middle, started);
    stands_in_both(now, middle, token);
    stands_in_both(source, asked, now);
    stands_in_both(source, asked, status);
    stands_in_both(source, asked, started);
    stands_in_both(source, asked, token);
}

proof fn stands_in_both(a: Seq<char>, b: Seq<char>, p: Seq<char>)
    requires
        scan::occurs(a, p) || scan::occurs(b, p),
    ensures
        scan::occurs(quote::both_clause(a, b), p),
{
    let whole = quote::both_clause(a, b);
    if scan::occurs(a, p) {
        action_laws::occurs_inside("#{&&:"@, a, ","@ + b + "}"@, p);
        assert(whole =~= "#{&&:"@ + a + (","@ + b + "}"@));
    } else {
        action_laws::occurs_inside("#{&&:"@ + a + ","@, b, "}"@, p);
        assert(whole =~= ("#{&&:"@ + a + ","@) + b + "}"@);
    }
}

/// A name is stored only while its pane is still the one that it was made for.
pub proof fn a_name_meets_the_pane_it_was_made_for(
    pane: Seq<char>,
    g: GeneratedName,
    state: Seq<Seq<char>>,
)
    ensures
        ({
            let condition = owned_names::store_request(pane, g, state)[4];
            &&& action_laws::demands(condition, "@codex_mux_manual_name"@, ""@)
            &&& action_laws::demands(
                condition,
                "pane_pid"@,
                number::decimal(g.source_pane_pid as nat),
            )
            &&& action_laws::demands(
                condition,
                "session_id"@,
                quote::format_literal(g.source_session@),
            )
            &&& action_laws::demands(
                condition,
                "pane_current_path"@,
                quote::format_literal(text::lossy_text(g.source_cwd@)),
            )
            &&& g.stable_source_title ==> action_laws::demands(
                condition,
                "pane_title"@,
                quote::format_literal(g.source_title@),
            )
        }),
{
    let manual = quote::equals_clause("@codex_mux_manual_name"@, ""@);
    let pid = quote::equals_clause("pane_pid"@, number::decimal(g.source_pane_pid as nat));
    let session = quote::equals_clause("session_id"@, quote::format_literal(g.source_session@));
    let path = quote::equals_clause(
        "pane_current_path"@,
        quote::format_literal(text::lossy_text(g.source_cwd@)),
    );
    let shown = quote::equals_clause("pane_title"@, quote::format_literal(g.source_title@));
    let title = if g.stable_source_title {
        shown
    } else {
        "1"@
    };
    let identity = quote::both_clause(pid, session);
    let place = quote::both_clause(path, identity);
    let titled = quote::both_clause(title, place);
    let guard = quote::both_clause(manual, titled);
    assert(guard == owned_names::source_guard(g));
    action_laws::occurs_itself(manual);
    action_laws::occurs_itself(pid);
    action_laws::occurs_itself(session);
    action_laws::occurs_itself(path);
    action_laws::occurs_itself(title);
    stands_in_both(pid, session, pid);
    stands_in_both(pid, session, session);
    stands_in_both(path, identity, pid);
    stands_in_both(path, identity, session);
    stands_in_both(path, identity, path);
    stands_in_both(title, place, pid);
    stands_in_both(title, place, session);
    stands_in_both(title, place, path);
    stands_in_both(title, place, title);
    stands_in_both(manual, titled, manual);
    stands_in_both(manual, titled, pid);
    stands_in_both(manual, titled, session);
    stands_in_both(manual, titled, path);
    stands_in_both(manual, titled, title);
    if owned_names::request_pending(state) {
        let asked = owned_names::request_guard(state);
        stands_in_both(guard, asked, manual);
        stands_in_both(guard, asked, pid);
        stands_in_both(guard, asked, session);
        stands_in_both(guard, asked, path);
        stands_in_both(guard, asked, title);
    }
}

/// Every name that its pane calls for, and that can be trusted, is stored.
pub proof fn every_wanted_name_is_stored(
    names: Seq<NamedPane>,
    verified: Seq<Seq<char>>,
    rows: Seq<Seq<Seq<char>>>,
    i: int,
)
    requires
        0 <= i < names.len(),
        names[i].name.stable_source_title || verified.contains(names[i].pane@),
        owned_names::state_of(rows, names[i].pane@) is Some,
        owned_names::needs_update(
            names[i].name,
            owned_names::state_of(rows, names[i].pane@)->0,
        ),
    ensures
        owned_names::planned_updates(names, verified, rows).contains(
            text::utf8_words(
                owned_names::store_request(
                    names[i].pane@,
                    names[i].name,
                    owned_names::state_of(rows, names[i].pane@)->0,
                ),
            ),
        ),
    decreases names.len(),
{
    let wanted = text::utf8_words(
        owned_names::store_request(
            names[i].pane@,
            names[i].name,
            owned_names::state_of(rows, names[i].pane@)->0,
        ),
    );
    let planned = owned_names::planned_updates(names, verified, rows);
    let head = names.drop_last();
    let rest = owned_names::planned_updates(head, verified, rows);
    if i == names.len() - 1 {
        assert(planned.last() == wanted);
    } else {
        assert(head[i] == names[i]);
        every_wanted_name_is_stored(head, verified, rows, i);
        let k = rest.index_of(wanted);
        assert(planned[k] == wanted);
    }
}

// ---------------------------------------------------------------------------
// Explicit requests
// ---------------------------------------------------------------------------

/// A request of a pane moves on exactly where it is pending, the pane has no manual name,
/// and the title that an unpin waits for has come; each such pane is asked, and no other.
pub proof fn pending_requests_move_on(panes: Seq<Pane>, i: int)
    requires
        0 <= i < panes.len(),
    ensures
        owned_names::can_advance(panes[i]) ==> owned_names::planned_advances(panes).contains(
            text::utf8_words(owned_names::advance_request(panes[i])),
        ),
        owned_names::planned_advances(panes).len() <= panes.len(),
        owned_names::can_advance(panes[i]) <==> {
            let pane = panes[i];
            &&& pane.immediate_naming
            &&& !pane.manual_name
            &&& pane.auto_name_status is Some
            &&& pane.auto_name_status->0 == AutoNameStatus::RecoveringIdentity
                || pane.auto_name_status->0 == AutoNameStatus::Queued
            &&& pane.auto_name_token is Some
            &&& pane.auto_name_started_at_unix_nanos is Some
            &&& pane.unpin_waiting ==> text::option_view(pane.title) != text::option_view(
                pane.unpin_waiting_title,
            ) && pane.unpin_waiting_pid is Some && pane.unpin_waiting_pid->0 == pane.pane_pid
                && pane.unpin_waiting_session is Some && pane.unpin_waiting_session->0@
                == pane.session_id@
        },
    decreases panes.len(),
{
    let planned = owned_names::planned_advances(panes);
    let head = panes.drop_last();
    let rest = owned_names::planned_advances(head);
    let wanted = text::utf8_words(owned_names::advance_request(panes[i]));
    if i == panes.len() - 1 {
        if head.len() > 0 {
            pending_requests_move_on(head, 0);
        }
        if owned_names::can_advance(panes[i]) {
            assert(planned.last() == wanted);
        }
    } else {
        pending_requests_move_on(head, i);
        if owned_names::can_advance(panes[i]) {
            let k = rest.index_of(wanted);
            assert(planned[k] == wanted);
        }
    }
}

/// No request is made for a pane whose request is not pending.
pub proof fn only_pending_requests_move_on(panes: Seq<Pane>, k: int)
    requires
        0 <= k < owned_names::planned_advances(panes).len(),
    ensures
        exists|i: int|
            0 <= i < panes.len() && owned_names::can_advance(#[trigger] panes[i])
                && owned_names::planned_advances(panes)[k] == text::utf8_words(
                owned_names::advance_request(panes[i]),
            ),
    decreases panes.len(),
{
    let planned = owned_names::planned_advances(panes);
    let head = panes.drop_last();
    let rest = owned_names::planned_advances(head);
    if k < rest.len() {
        only_pending_requests_move_on(head, k);
        let i = choose|i: int|
            0 <= i < head.len() && owned_names::can_advance(#[trigger] head[i]) && rest[k]
                == text::utf8_words(owned_names::advance_request(head[i]));
        assert(panes[i] == head[i]);
    } else {
        assert(panes[panes.len() - 1] == panes.last());
    }
}

/// A request that moves on is told to be generating, and only while it is still the same
/// request of the same pane.
pub proof fn a_request_that_moves_on_is_generating(pane: Pane)
    requires
        owned_names::can_advance(pane),
    ensures
        ({
            let request = owned_names::advance_request(pane);
            &&& request.len() == 6
            &&& request.take(4) == seq!["if-shell"@, "-F"@, "-t"@, pane.id@]
            &&& request[5] == action_laws::set_of(
                pane.id@,
                "@codex_mux_auto_name_status"@,
                "generating"@,
            )
            &&& action_laws::demands(
                request[4],
                "pane_pid"@,
                number::decimal(pane.pane_pid as nat),
            )
            &&& action_laws::demands(
                request[4],
                "session_id"@,
                quote::format_literal(pane.session_id@),
            )
            &&& action_laws::demands(request[4], "@codex_mux_name_now"@, "1"@)
            &&& action_laws::demands(
                request[4],
                "@codex_mux_auto_name_started"@,
                number::decimal(pane.auto_name_started_at_unix_nanos->0 as nat),
            )
            &&& action_laws::demands(
                request[4],
                "@codex_mux_auto_name_token"@,
                quote::format_literal(pane.auto_name_token->0@),
            )
            &&& action_laws::demands(
                request[4],
                "@codex_mux_auto_name_status"@,
                quote::format_literal(
                    if pane.auto_name_status == Some(AutoNameStatus::Queued) {
                        "queued"@
                    } else {
                        "recovering"@
                    },
                ),
            )
        }),
{
    let request = owned_names::advance_request(pane);
    assert(request.take(4) =~= seq!["if-shell"@, "-F"@, "-t"@, pane.id@]);
    let guard = owned_names::advance_guard(pane);
    action_laws::every_clause_is_demanded(guard, 0);
    action_laws::every_clause_is_demanded(guard, 1);
    action_laws::every_clause_is_demanded(guard, 2);
    action_laws::every_clause_is_demanded(guard, 3);
    action_laws::every_clause_is_demanded(guard, 4);
    action_laws::every_clause_is_demanded(guard, 5);
}

// ---------------------------------------------------------------------------
// Clearing and migrating
// ---------------------------------------------------------------------------

/// Clearing a name takes every option of it away from its pane, and only while the pane
/// still holds that very name.
pub proof fn a_cleared_name_leaves_nothing(names: Seq<NamedPane>, i: int, option: Seq<char>)
    requires
        0 <= i < names.len(),
        option == "@codex_mux_generated_thread"@ || option == "@codex_mux_generated_name"@ || option
            == "@codex_mux_generated_source_title"@ || option == "@codex_mux_generated_source_cwd"@
            || option == "@codex_mux_generated_source_pid"@ || option
            == "@codex_mux_generated_source_session"@ || option == "@codex_mux_generated_at"@
            || option == "@codex_mux_name_now"@ || option == "@codex_mux_auto_name_status"@
            || option == "@codex_mux_auto_name_started"@ || option == "@codex_mux_auto_name_token"@,
    ensures
        ({
            let pane = names[i].pane@;
            let g = names[i].name;
            let request = owned_names::clear_request(pane, g);
            &&& owned_names::planned_clears(names).len() == names.len()
            &&& owned_names::planned_clears(names)[i] == text::utf8_words(request)
            &&& request.len() == 6
            &&& request.take(4) == seq!["if-shell"@, "-F"@, "-t"@, pane]
            &&& action_laws::runs(request[5], action_laws::unset_of(pane, option))
            &&& action_laws::demands(
                request[4],
                "@codex_mux_generated_thread"@,
                quote::format_literal(g.thread_id@),
            )
            &&& action_laws::demands(
                request[4],
                "@codex_mux_generated_name"@,
                quote::format_literal(g.name@),
            )
            &&& action_laws::demands(
                request[4],
                "@codex_mux_generated_source_pid"@,
                number::decimal(g.source_pane_pid as nat),
            )
            &&& action_laws::demands(
                request[4],
                "@codex_mux_generated_source_session"@,
                quote::format_literal(g.source_session@),
            )
        }),
{
    let pane = names[i].pane@;
    let g = names[i].name;
    let request = owned_names::clear_request(pane, g);
    assert(request.take(4) =~= seq!["if-shell"@, "-F"@, "-t"@, pane]);
    let opts = options::generated_options();
    let k = option_place(option);
    let parts = owned_names::unset_texts(pane, opts);
    action_laws::a_joined_command_runs(parts, k);
    let thread = quote::equals_clause(
        "@codex_mux_generated_thread"@,
        quote::format_literal(g.thread_id@),
    );
    let name = quote::equals_clause("@codex_mux_generated_name"@, quote::format_literal(g.name@));
    let pid = quote::equals_clause(
        "@codex_mux_generated_source_pid"@,
        number::decimal(g.source_pane_pid as nat),
    );
    let session = quote::equals_clause(
        "@codex_mux_generated_source_session"@,
        quote::format_literal(g.source_session@),
    );
    action_laws::occurs_itself(thread);
    action_laws::occurs_itself(name);
    action_laws::occurs_itself(pid);
    action_laws::occurs_itself(session);
    let identity = quote::both_clause(pid, session);
    let named = quote::both_clause(name, identity);
    stands_in_both(pid, session, pid);
    stands_in_both(pid, session, session);
    stands_in_both(name, identity, name);
    stands_in_both(name, identity, pid);
    stands_in_both(name, identity, session);
    stands_in_both(thread, named, thread);
    stands_in_both(thread, named, name);
    stands_in_both(thread, named, pid);
    stands_in_both(thread, named, session);
}

proof fn option_place(option: Seq<char>) -> (k: int)
    requires
        option == "@codex_mux_generated_thread"@ || option == "@codex_mux_generated_name"@ || option
            == "@codex_mux_generated_source_title"@ || option == "@codex_mux_generated_source_cwd"@
            || option == "@codex_mux_generated_source_pid"@ || option
            == "@codex_mux_generated_source_session"@ || option == "@codex_mux_generated_at"@
            || option == "@codex_mux_name_now"@ || option == "@codex_mux_auto_name_status"@
            || option == "@codex_mux_auto_name_started"@ || option == "@codex_mux_auto_name_token"@,
    ensures
        0 <= k < options::generated_options().len(),
        options::generated_options()[k] == option,
{
    let opts = options::generated_options();
    assert(opts[0] == "@codex_mux_generated_thread"@);
    assert(opts[1] == "@codex_mux_generated_name"@);
    assert(opts[2] == "@codex_mux_generated_source_title"@);
    assert(opts[3] == "@codex_mux_generated_source_cwd"@);
    assert(opts[4] == "@codex_mux_generated_source_pid"@);
    assert(opts[5] == "@codex_mux_generated_source_session"@);
    assert(opts[6] == "@codex_mux_generated_at"@);
    assert(opts[7] == "@codex_mux_name_now"@);
    assert(opts[8] == "@codex_mux_auto_name_status"@);
    assert(opts[9] == "@codex_mux_auto_name_started"@);
    assert(opts[10] == "@codex_mux_auto_name_token"@);
    choose|k: int| 0 <= k < opts.len() && opts[k] == option
}

/// Clearing every pane takes every option of a generated name away from each pane that is
/// listed.
pub proof fn every_listed_pane_is_cleared(lines: Seq<Seq<char>>, i: int, option: Seq<char>)
    requires
        0 <= i < lines.len(),
        options::generated_options().contains(option),
    ensures
        owned_names::planned_unsets(lines).len() == lines.len(),
        exists|words: Seq<Seq<char>>|
            owned_names::planned_unsets(lines)[i] == #[trigger] text::utf8_words(words)
                && scan::occurs(words, seq!["set-option"@, "-pu"@, "-t"@, lines[i], option]),
{
    let opts = options::generated_options();
    let k = opts.index_of(option);
    let words = options::unset_sequence(lines[i], opts);
    let at = action_laws::unset_stands(lines[i], opts, k);
    assert(scan::occurs(words, seq!["set-option"@, "-pu"@, "-t"@, lines[i], option]));
    assert(owned_names::planned_unsets(lines)[i] == text::utf8_words(words));
}

/// A window that an earlier version named is given back: its options are unset and its
/// automatic name is turned on again; its one pane takes over the thread and the name.
pub proof fn a_named_window_is_given_back(fields: Seq<Seq<char>>, now: u64)
    requires
        owned_names::is_legacy(fields),
    ensures
        ({
            let request = owned_names::legacy_request(fields, now);
            let window = quote::quoted(fields[1]);
            &&& request.take(4) == seq!["if-shell"@, "-F"@, "-t"@, fields[1]]
            &&& scan::occurs(
                request[5],
                "set-option -wu -t "@ + window + " "@ + "@codex_mux_generated_thread"@ + ";"@,
            )
            &&& scan::occurs(
                request[5],
                "set-option -wu -t "@ + window + " "@ + "@codex_mux_generated_name"@ + ";"@,
            )
            &&& scan::occurs(
                request[5],
                "set-option -w -t "@ + window + " automatic-rename on;"@,
            )
            &&& exists|commands: Seq<char>|
                scan::occurs(request[5], #[trigger] quote::quoted(commands)) && action_laws::runs(
                    commands,
                    action_laws::set_of(
                        fields[0],
                        "@codex_mux_generated_thread"@,
                        quote::quoted(fields[6]),
                    ),
                ) && action_laws::runs(
                    commands,
                    action_laws::set_of(
                        fields[0],
                        "@codex_mux_generated_name"@,
                        quote::quoted(fields[7]),
                    ),
                ) && action_laws::runs(
                    commands,
                    action_laws::set_of(
                        fields[0],
                        "@codex_mux_generated_at"@,
                        number::decimal(now as nat),
                    ),
                )
        }),
{
    let request = owned_names::legacy_request(fields, now);
    assert(request.take(4) =~= seq!["if-shell"@, "-F"@, "-t"@, fields[1]]);
    let window = quote::quoted(fields[1]);
    let commands = scan::join_with(owned_names::legacy_pane_commands(fields, now), "; "@);
    legacy_text_in_parts(fields, now);
    stand_in_a_row(
        "set-option -wu -t "@ + window + " "@ + "@codex_mux_generated_thread"@ + ";"@,
        "set-option -wu -t "@ + window + " "@ + "@codex_mux_generated_name"@ + ";"@,
        "set-option -w -t "@ + window + " automatic-rename on;"@,
        legacy_tail(fields),
        quote::quoted(commands),
    );
    action_laws::a_joined_command_runs(owned_names::legacy_pane_commands(fields, now), 0);
    action_laws::a_joined_command_runs(owned_names::legacy_pane_commands(fields, now), 1);
    action_laws::a_joined_command_runs(owned_names::legacy_pane_commands(fields, now), 2);
}

/// Five texts in a row, a blank behind the first two.
pub open spec fn in_a_row(
    a: Seq<char>,
    b: Seq<char>,
    c: Seq<char>,
    d: Seq<char>,
    e: Seq<char>,
) -> Seq<char> {
    a + " "@ + b + " "@ + c + d + e
}

/// What stands between giving the window back and the commands for its pane.
pub open spec fn legacy_tail(fields: Seq<Seq<char>>) -> Seq<char> {
    " if-shell -F -t "@ + quote::quoted(fields[0]) + " "@ + quote::quoted(
        owned_names::legacy_pane_guard(fields),
    ) + " "@
}

proof fn legacy_text_in_parts(fields: Seq<Seq<char>>, now: u64)
    ensures
        ({
            let window = quote::quoted(fields[1]);
            owned_names::legacy_text(fields, now) == in_a_row(
                "set-option -wu -t "@ + window + " "@ + "@codex_mux_generated_thread"@ + ";"@,
                "set-option -wu -t "@ + window + " "@ + "@codex_mux_generated_name"@ + ";"@,
                "set-option -w -t "@ + window + " automatic-rename on;"@,
                legacy_tail(fields),
                quote::quoted(
                    scan::join_with(owned_names::legacy_pane_commands(fields, now), "; "@),
                ),
            )
        }),
{
    reveal_strlit(";");
    reveal_strlit("; set-option -wu -t ");
    reveal_strlit("; set-option -w -t ");
    reveal_strlit("set-option -wu -t ");
    reveal_strlit("set-option -w -t ");
    reveal_strlit(" automatic-rename on; if-shell -F -t ");
    reveal_strlit(" automatic-rename on;");
    reveal_strlit(" if-shell -F -t ");
    reveal_strlit(" ");
    assert("; set-option -wu -t "@ =~= ";"@ + " "@ + "set-option -wu -t "@);
    assert("; set-option -w -t "@ =~= ";"@ + " "@ + "set-option -w -t "@);
    assert(" automatic-rename on; if-shell -F -t "@ =~= " automatic-rename on;"@
        + " if-shell -F -t "@);
    regrouped(
        "set-option -wu -t "@,
        quote::quoted(fields[1]),
        " "@,
        ";"@,
        "@codex_mux_generated_thread"@,
        "@codex_mux_generated_name"@,
        "set-option -w -t "@,
        " automatic-rename on;"@,
        " if-shell -F -t "@,
        quote::quoted(fields[0]),
        quote::quoted(owned_names::legacy_pane_guard(fields)),
        quote::quoted(scan::join_with(owned_names::legacy_pane_commands(fields, now), "; "@)),
    );
}

proof fn regrouped(
    unset: Seq<char>,
    window: Seq<char>,
    blank: Seq<char>,
    end: Seq<char>,
    thread: Seq<char>,
    name: Seq<char>,
    set: Seq<char>,
    on: Seq<char>,
    guard: Seq<char>,
    pane: Seq<char>,
    condition: Seq<char>,
    commands: Seq<char>,
)
    ensures
        unset + window + blank + thread + (end + blank + unset) + window + blank + name + (end
            + blank + set) + window + (on + guard) + pane + blank + condition + blank + commands
            == (unset + window + blank + thread + end) + blank + (unset + window + blank + name
            + end) + blank + (set + window + on) + (guard + pane + blank + condition + blank)
            + commands,
{
    assert(unset + window + blank + thread + (end + blank + unset) + window + blank + name + (end
        + blank + set) + window + (on + guard) + pane + blank + condition + blank + commands
        =~= (unset + window + blank + thread + end) + blank + (unset + window + blank + name + end)
        + blank + (set + window + on) + (guard + pane + blank + condition + blank) + commands);
}

proof fn stand_in_a_row(a: Seq<char>, b: Seq<char>, c: Seq<char>, d: Seq<char>, e: Seq<char>)
    ensures
        scan::occurs(in_a_row(a, b, c, d, e), a),
        scan::occurs(in_a_row(a, b, c, d, e), b),
        scan::occurs(in_a_row(a, b, c, d, e), c),
        scan::occurs(in_a_row(a, b, c, d, e), e),
{
    let whole = in_a_row(a, b, c, d, e);
    let at_b = a.len() + " "@.len();
    let at_c = at_b + b.len() + " "@.len();
    let at_e = at_c + c.len() + d.len();
    assert(whole.subrange(0, a.len() as int) =~= a);
    assert(scan::occurs_at(whole, a, 0));
    assert(whole.subrange(at_b as int, (at_b + b.len()) as int) =~= b);
    assert(scan::occurs_at(whole, b, at_b as int));
    assert(whole.subrange(at_c as int, (at_c + c.len()) as int) =~= c);
    assert(scan::occurs_at(whole, c, at_c as int));
    assert(whole.subrange(at_e as int, (at_e + e.len()) as int) =~= e);
    assert(scan::occurs_at(whole, e, at_e as int));
}

/// A window counts as named by an earlier version only where it has one pane, its own name
/// is the stored one and is not renamed automatically, and the pane has no name of its own.
pub proof fn only_windows_named_before_are_given_back(fields: Seq<Seq<char>>)
    requires
        owned_names::is_legacy(fields),
    ensures
        fields.len() == 12,
        fields[5] == "1"@,
        fields[4] == "0"@,
        fields[3] == fields[7],
        !scan::is_blank(fields[6]),
        !scan::is_blank(fields[7]),
        scan::is_blank(fields[10]),
{
}

/// A list is asked for once, and what follows it is planned from what it shows; nothing
/// follows where it is refused.
pub proof fn a_list_comes_before_what_it_plans(
    list: Seq<Seq<char>>,
    trace: Seq<Exchange>,
    planned: spec_fn(Seq<Seq<char>>) -> Seq<Seq<Seq<u8>>>,
)
    requires
        owned_names::listed_then(list, trace, planned),
    ensures
        trace[0].request == text::utf8_words(list),
        trace[0].reply is Err ==> trace.len() == 1,
        trace[0].reply matches Ok(output) ==> if output.status == Some(0i32) {
            &&& trace.len() == 1 + planned(scan::lines(text::lossy_text(output.stdout))).len()
            &&& forall|k: int|
                0 < k < trace.len() ==> (#[trigger] trace[k]).request == planned(
                    scan::lines(text::lossy_text(output.stdout)),
                )[k - 1]
        } else {
            trace.len() == 1
        },
{
    let rest = owned_names::requests_of(trace.skip(1));
    assert(rest.len() == trace.len() - 1);
    assert forall|k: int| 0 < k < trace.len() implies (#[trigger] trace[k]).request == rest[k
        - 1] by {
        assert(trace.skip(1)[k - 1] == trace[k]);
    }
}

} // verus!
