//! What the naming worker names, keeps and gives up, and how it is started.

use vstd::prelude::*;
use crate::app::cycle;
use crate::app::cycle::{CandidateModel, Verdict};
use crate::app::daemon;
use crate::app::daemon_loop;
use crate::app::daemon_loop::{DaemonAction, DaemonEvent};
use crate::app::names;
use crate::app::names::{Answer, KnownModel};
use crate::app::places;
use crate::app::process;
use crate::app::reloader;
use crate::app::targets;
use crate::domain::{Exchange, Pane};
use crate::error::ErrorModel;
use crate::number;
use crate::path;
use crate::scan;
use crate::smart_naming::target;
use crate::text;
use crate::tmux::owned_names;
use crate::tmux::owned_names::NamedPane;
use crate::tmux::quote;

verus! {

// ---------------------------------------------------------------------------
// The server and the worker
// ---------------------------------------------------------------------------

/// The environment of a pane names its server: the socket, commas in it and all, then the
/// process, then the session.
pub proof fn the_environment_names_its_server(socket: Seq<char>, pid: u32, session: Seq<char>)
    requires
        path::is_absolute(text::utf8(socket)),
        pid > 0,
        !session.contains(','),
    ensures
        daemon::server_of(
            text::utf8(socket + ","@ + number::decimal(pid as nat) + ","@ + session),
        ) == Ok::<(Seq<u8>, u32), ErrorModel>((text::utf8(socket), pid)),
{
    reveal_strlit(",");
    let comma = ","@;
    assert(comma =~= seq![',']);
    let printed = number::decimal(pid as nat);
    let front = socket + comma + printed;
    let value = front + comma + session;
    text::utf8_decodes_back(value);
    number::decimal_digits(pid as nat);
    assert(!printed.contains(',')) by {
        if printed.contains(',') {
            let i = printed.index_of(',');
            assert(text::is_digit(printed[i]));
        }
    }
    scan::split_on_append(socket, ',', printed);
    scan::split_on_append(front, ',', session);
    scan::split_on_without(printed, ',');
    scan::split_on_without(session, ',');
    scan::split_on_nonempty(socket, ',');
    scan::join_undoes_split(socket, ',');
    let parts = scan::split_on(socket, ',');
    let fields = scan::split_on(value, ',');
    assert(fields =~= parts + seq![printed] + seq![session]);
    let n = fields.len() as int;
    assert(fields.take(n - 2) =~= parts);
    assert(fields[n - 2] == printed);
    number::unsigned_value_of_decimal(pid as nat, u32::MAX as nat);
}

/// The worker is started as this very program, with everything that is looked for, by the
/// command for it.
pub proof fn the_worker_is_this_program(
    executable: Seq<u8>,
    p: process::ResolvedModel,
    c: Seq<char>,
)
    requires
        daemon::worker_command(executable, p) == Ok::<Seq<char>, ErrorModel>(c),
    ensures
        text::utf8_decoded(executable) is Some,
        process::cli_words(p) is Ok,
        c == "exec"@ + " "@ + quote::quoted(text::utf8_decoded(executable)->0) + " "@
            + scan::join_with(process::cli_words(p)->Ok_0, " "@) + " "@ + "smart-naming-worker"@,
{
    let word = quote::quoted(text::utf8_decoded(executable)->0);
    let words = process::cli_words(p)->Ok_0;
    let front = seq!["exec"@, word];
    let last = seq!["smart-naming-worker"@];
    reveal_with_fuel(scan::join_with, 3);
    assert(front.drop_last() =~= seq!["exec"@]);
    assert(words.len() > 0);
    scan::join_append(front, words, " "@);
    scan::join_append(front + words, last, " "@);
    assert(scan::join_with(front, " "@) =~= "exec"@ + " "@ + word);
    assert(c =~= "exec"@ + " "@ + word + " "@ + scan::join_with(words, " "@) + " "@
        + "smart-naming-worker"@);
}

/// A worker that cannot be started is waited for longer each time, twice as long, up to a
/// bound.
pub proof fn waits_grow_up_to_a_bound(millis: u64)
    requires
        millis <= 5000,
    ensures
        cycle::longer_retry(millis) <= 5000,
        cycle::longer_retry(millis) >= millis,
        2 * millis <= 5000 ==> cycle::longer_retry(millis) == 2 * millis,
        2 * millis > 5000 ==> cycle::longer_retry(millis) == 5000,
{
}

/// While naming is enabled and the server is the same, a round is run exactly when it is
/// due; a name that is asked for wakes the worker; a worker that has finished is replaced.
pub proof fn the_loop_goes_on_while_it_may(
    retry: u64,
    enabled: bool,
    same_server: bool,
    due: bool,
    pending: bool,
    finished: bool,
    over: bool,
)
    ensures
        ({
            let looked = daemon_loop::action_after(
                DaemonAction::Look,
                retry,
                DaemonEvent::Looked { enabled, same_server, due },
            );
            &&& looked == DaemonAction::Stop <==> !(enabled && same_server)
            &&& looked == DaemonAction::Reconcile <==> enabled && same_server && due
            &&& looked == DaemonAction::Inspect <==> enabled && same_server && !due
        }),
        daemon_loop::action_after(
            DaemonAction::Reconcile,
            retry,
            DaemonEvent::Reconciled { pending },
        ) == DaemonAction::Wake <==> pending,
        daemon_loop::action_after(
            DaemonAction::Inspect,
            retry,
            DaemonEvent::Inspected { finished },
        ) is Wait <==> finished,
        daemon_loop::action_after(
            DaemonAction::Wait(retry),
            retry,
            DaemonEvent::Waited { over },
        ) == DaemonAction::Restart <==> over,
        daemon_loop::action_after(
            DaemonAction::Stop,
            retry,
            DaemonEvent::Stopped { enabled },
        ) == DaemonAction::Clear <==> !enabled,
{
}

// ---------------------------------------------------------------------------
// Targets and names
// ---------------------------------------------------------------------------

/// A pane whose title shows its thread is a target by that title; another is one only by
/// the thread that was found for its process.
pub proof fn every_known_pane_is_a_target(
    panes: Seq<Pane>,
    found: Option<Seq<Option<Seq<char>>>>,
    n: int,
    i: int,
)
    requires
        0 <= i < n <= panes.len(),
    ensures
        target::titled_target(panes[i]) matches Some(t) ==> targets::targets_in(
            panes,
            found,
            n,
        ).contains(t),
        target::titled_target(panes[i]) is None ==> (names::thread_at(
            found,
            targets::untitled_before(panes, i),
        ) matches Some(id) ==> (target::verified_target(panes[i], id) matches Some(t)
            ==> targets::targets_in(panes, found, n).contains(t))),
        targets::targets_in(panes, found, n).len() <= n,
    decreases n,
{
    let all = targets::targets_in(panes, found, n);
    let rest = targets::targets_in(panes, found, n - 1);
    if n > 1 {
        if i < n - 1 {
            every_known_pane_is_a_target(panes, found, n - 1, i);
        } else {
            every_known_pane_is_a_target(panes, found, n - 1, 0);
        }
    }
    if let Some(t) = targets::target_at(panes, found, i) {
        if i == n - 1 {
            assert(all.last() == t);
        } else {
            let k = rest.index_of(t);
            assert(all[k] == t);
        }
    }
}

/// The process that is asked for a pane without such a title is the leader of that pane, in
/// its place among the others.
pub proof fn untitled_panes_are_asked_in_order(panes: Seq<Pane>, n: int, i: int)
    requires
        0 <= i < n <= panes.len(),
        target::titled_target(panes[i]) is None,
    ensures
        0 <= targets::untitled_before(panes, i) < targets::untitled_leaders(panes, n).len(),
        targets::untitled_leaders(panes, n)[targets::untitled_before(panes, i)]
            == panes[i].pane_pid,
        targets::untitled_leaders(panes, n).len() == targets::untitled_before(panes, n),
    decreases n,
{
    leaders_are_counted(panes, n);
    leaders_are_counted(panes, i);
    if i < n - 1 {
        untitled_panes_are_asked_in_order(panes, n - 1, i);
    } else {
        leaders_are_counted(panes, n - 1);
    }
}

proof fn leaders_are_counted(panes: Seq<Pane>, n: int)
    requires
        0 <= n <= panes.len(),
    ensures
        targets::untitled_leaders(panes, n).len() == targets::untitled_before(panes, n),
        targets::untitled_before(panes, n) >= 0,
    decreases n,
{
    if n > 0 {
        leaders_are_counted(panes, n - 1);
    }
}

/// A thread is known of a pane exactly where one was found for it.
pub proof fn found_threads_are_known(
    c: Seq<CandidateModel>,
    found: Option<Seq<Option<Seq<char>>>>,
    n: int,
    i: int,
    thread: Seq<char>,
)
    requires
        0 <= i < n <= c.len(),
        names::thread_at(found, i) == Some(thread),
    ensures
        cycle::authority(c, found, n).contains(KnownModel { pane: c[i].pane, thread }),
    decreases n,
{
    let all = cycle::authority(c, found, n);
    let rest = cycle::authority(c, found, n - 1);
    let wanted = KnownModel { pane: c[i].pane, thread };
    if i == n - 1 {
        assert(all.last() == wanted);
    } else {
        found_threads_are_known(c, found, n - 1, i, thread);
        let k = rest.index_of(wanted);
        assert(all[k] == wanted);
    }
}

/// What two answers say of a thread.
pub open spec fn answer_is(answer: Answer, thread: Seq<char>) -> bool {
    answer.found is Some && answer.found->0.len() > 0 && answer.found->0[0] == Some(thread)
}

/// A name whose title does not prove its thread is kept exactly where the thread is known,
/// the pane is there, and its process proves the thread before and after the name is stored;
/// it is given up where the thread is not known or not proved.
pub proof fn a_name_is_kept_while_it_is_proved(
    named: NamedPane,
    panes: Seq<Pane>,
    known: Seq<KnownModel>,
    answers: Seq<Answer>,
)
    ensures
        ({
            let thread = named.name.thread_id@;
            let (v, asked) = cycle::verdict(named, panes, known, answers);
            let is_known = names::known_thread(known, named.pane@, 0) == Some(thread);
            let is_there = cycle::pane_place(panes, named.pane@, 0) is Some;
            &&& v == Verdict::Kept <==> is_known && is_there && answer_is(answers[0], thread)
                && answer_is(answers[1], thread)
            &&& v == Verdict::Gone <==> is_known && !is_there
            &&& v == Verdict::Moved <==> is_known && is_there && answer_is(answers[0], thread)
                && !answer_is(answers[1], thread)
            &&& v == Verdict::Rejected <==> !is_known || is_there && !answer_is(
                answers[0],
                thread,
            )
        }),
{
}

/// A name that is given up is cleared in its pane, and in no other; a name that moved is
/// cleared last; a name that is kept is not cleared.
pub proof fn a_name_that_is_given_up_is_cleared(
    named: NamedPane,
    v: Verdict,
    trace: Seq<Exchange>,
)
    requires
        cycle::carried_out(named, v, trace),
    ensures
        ({
            let clear = text::utf8_words(owned_names::clear_request(named.pane@, named.name));
            &&& v == Verdict::Rejected ==> trace.len() == 1 && trace[0].request == clear
            &&& v == Verdict::Moved ==> trace.len() > 1 && trace.last().request == clear
            &&& v == Verdict::Gone ==> trace.len() == 0
        }),
{
    let clear = text::utf8_words(owned_names::clear_request(named.pane@, named.name));
    let planned = owned_names::planned_clears(seq![named]);
    assert(planned.len() == 1 && planned[0] == clear);
    if v == Verdict::Rejected {
        let requests = owned_names::requests_of(trace);
        assert(requests.len() == trace.len());
        assert(requests[0] == trace[0].request);
    }
    if v == Verdict::Moved {
        let requests = owned_names::requests_of(seq![trace.last()]);
        assert(requests[0] == trace.last().request);
    }
}

// ---------------------------------------------------------------------------
// Places and bindings
// ---------------------------------------------------------------------------

/// A shell is set up where that is given, else in its own file: that of Zsh in its own
/// directory where one is set.
pub proof fn a_shell_is_set_up_where_it_reads(
    home: Seq<u8>,
    zdotdir: Seq<u8>,
    given: Seq<u8>,
)
    ensures
        places::bash_place(home, Some(given)) == given,
        places::zsh_place(home, Some(zdotdir), Some(given)) == given,
        places::bash_place(home, None) == path::joined(home, text::utf8(".bashrc"@)),
        places::zsh_place(home, None, None) == path::joined(home, text::utf8(".zshrc"@)),
        zdotdir.len() > 0 ==> places::zsh_place(home, Some(zdotdir), None) == path::joined(
            zdotdir,
            text::utf8(".zshrc"@),
        ),
        zdotdir.len() == 0 ==> places::zsh_place(home, Some(zdotdir), None) == path::joined(
            home,
            text::utf8(".zshrc"@),
        ),
{
}

/// The configuration files that a server has loaded are those that it prints, between
/// commas, without the white space around them.
pub proof fn loaded_files_are_read_one_by_one(parts: Seq<Seq<char>>, part: Seq<char>)
    ensures
        reloader::listed_paths(Seq::empty()) == Seq::<Seq<u8>>::empty(),
        !scan::is_blank(part) ==> reloader::listed_paths(parts.push(part))
            == reloader::listed_paths(parts).push(text::utf8(scan::trimmed(part))),
        scan::is_blank(part) ==> reloader::listed_paths(parts.push(part))
            == reloader::listed_paths(parts),
{
    scan::trimmed_empty_iff_blank(part);
    assert(parts.push(part).drop_last() =~= parts);
}

/// The Left binding is taken away only where it is the own one, and only after looking.
pub proof fn only_the_own_left_binding_is_removed(
    mux: Seq<u8>,
    trace: Seq<Exchange>,
    result: Result<bool, Seq<char>>,
)
    requires
        reloader::left_removed(mux, trace, result),
    ensures
        trace[0].request == text::utf8_words(seq!["list-keys"@, "-T"@, "root"@, "Left"@]),
        trace.len() > 1 ==> trace.len() == 2 && trace[1].request == text::utf8_words(
            seq!["unbind-key"@, "-T"@, "root"@, "Left"@],
        ),
        trace.len() > 1 ==> trace[0].reply is Ok && scan::occurs(
            text::lossy_text(trace[0].reply->Ok_0.stdout),
            "owner="@ + number::hex(mux) + "; if [ -x "@,
        ) && scan::occurs(
            text::lossy_text(trace[0].reply->Ok_0.stdout),
            " smart-left; else "@,
        ),
        result is Ok ==> trace.len() == 2,
{
}

} // verus!
