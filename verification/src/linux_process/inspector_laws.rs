//! When a pane is said to run the configured program.

use vstd::prelude::*;
use crate::config::MatchScope;
use crate::linux_process::evidence::EvidenceModel;
use crate::linux_process::inspector;
use crate::linux_process::inspector::{CandidateFacts, FirstLook, GroupChoice};
use crate::linux_process::replay;
use crate::linux_process::replay::{FoundModel, ProcEvent, SearchModel};
use crate::path;
use crate::text;

verus! {

proof fn the_first_recognised_comes_first(facts: Seq<CandidateFacts>, from: int)
    requires
        0 <= from <= facts.len(),
    ensures
        match inspector::first_recognised(facts, from) {
            Some(k) => from <= k < facts.len() && facts[k].recognised is Some && forall|i: int|
                from <= i < k ==> (#[trigger] facts[i]).recognised is None,
            None => forall|i: int|
                from <= i < facts.len() ==> (#[trigger] facts[i]).recognised is None,
        },
    decreases facts.len() - from,
{
    if from < facts.len() && facts[from].recognised is None {
        the_first_recognised_comes_first(facts, from + 1);
    }
}

proof fn the_first_by_command_comes_first(facts: Seq<CandidateFacts>, from: int)
    requires
        0 <= from <= facts.len(),
    ensures
        match inspector::first_by_command(facts, from) {
            Some(k) => from <= k < facts.len() && facts[k].regex && forall|i: int|
                from <= i < k ==> !(#[trigger] facts[i]).regex,
            None => forall|i: int| from <= i < facts.len() ==> !(#[trigger] facts[i]).regex,
        },
    decreases facts.len() - from,
{
    if from < facts.len() && !facts[from].regex {
        the_first_by_command_comes_first(facts, from + 1);
    }
}

proof fn the_leader_leads(candidates: Seq<EvidenceModel>, tpgid: i64, from: int)
    requires
        0 <= from <= candidates.len(),
    ensures
        match inspector::leader_from(candidates, tpgid, from) {
            Some(k) => from <= k < candidates.len() && candidates[k].pid == tpgid
                && candidates[k].executable is Some,
            None => forall|i: int|
                from <= i < candidates.len() && (#[trigger] candidates[i]).pid == tpgid
                    ==> candidates[i].executable is None,
        },
    decreases candidates.len() - from,
{
    if from < candidates.len() && !(candidates[from].pid == tpgid
        && candidates[from].executable is Some) {
        the_leader_leads(candidates, tpgid, from + 1);
    }
}

/// Of a foreground group, the process that is a configured executable counts, and the
/// first of several. Only where there is none does a command line count, and only where
/// none matches does the leader of the group stand in.
pub proof fn executables_count_before_commands(
    candidates: Seq<EvidenceModel>,
    facts: Seq<CandidateFacts>,
    tpgid: i64,
    k: int,
)
    requires
        facts.len() == candidates.len() <= usize::MAX,
        0 <= k < facts.len(),
    ensures
        facts[k].recognised is Some && (forall|i: int|
            0 <= i < k ==> (#[trigger] facts[i]).recognised is None)
            ==> inspector::choice_of(candidates, facts, tpgid) == (GroupChoice::Matched {
            candidate: k as usize,
            configured: facts[k].recognised->0,
        }),
        facts[k].regex && (forall|i: int|
            0 <= i < facts.len() ==> (#[trigger] facts[i]).recognised is None) && (forall|i: int|
            0 <= i < k ==> !(#[trigger] facts[i]).regex) ==> inspector::choice_of(
            candidates,
            facts,
            tpgid,
        ) == (GroupChoice::Matched { candidate: k as usize, configured: 0 }),
        inspector::choice_of(candidates, facts, tpgid) matches GroupChoice::Leader(at) ==> at
            < candidates.len() && candidates[at as int].pid == tpgid
            && candidates[at as int].executable is Some && facts[k].recognised is None
            && !facts[k].regex,
        inspector::choice_of(candidates, facts, tpgid) is Nothing ==> facts[k].recognised is None
            && !facts[k].regex && !(candidates[k].pid == tpgid
            && candidates[k].executable is Some),
{
    the_first_recognised_comes_first(facts, 0);
    the_first_by_command_comes_first(facts, 0);
    the_leader_leads(candidates, tpgid, 0);
}

/// A pane that runs exactly a configured executable is taken as it is. A pane without a
/// terminal is never asked for its group. A pane that has handed its terminal on is not
/// taken for what it once started: its group decides.
pub proof fn a_pane_in_the_background_is_asked_for_its_group(
    pane: EvidenceModel,
    exact: Option<usize>,
    recognised: Option<usize>,
    regex: bool,
)
    ensures
        exact matches Some(i) ==> inspector::first_look_of(pane, exact, recognised, regex)
            == FirstLook::Itself(i),
        exact is None && (pane.tty_nr == 0 || pane.tpgid <= 0) ==> inspector::first_look_of(
            pane,
            exact,
            recognised,
            regex,
        ) == FirstLook::Nothing,
        exact is None && pane.tty_nr != 0 && pane.tpgid > 0 && pane.pgrp != pane.tpgid
            ==> inspector::first_look_of(pane, exact, recognised, regex) == FirstLook::Group,
        exact is None && pane.tty_nr != 0 && pane.tpgid > 0 && pane.pgrp == pane.tpgid ==> (
        recognised matches Some(i) ==> inspector::first_look_of(pane, exact, recognised, regex)
            == FirstLook::Itself(i)),
        exact is None && recognised is None && pane.tty_nr != 0 && pane.tpgid > 0 && pane.pgrp
            == pane.tpgid ==> (inspector::first_look_of(pane, exact, recognised, regex)
            is Itself <==> regex),
{
}

/// What is called proven was read again at the end: the last or the last but one question
/// is for that very process, and the answer has its number and its start.
pub proof fn a_proven_match_is_looked_at_again(
    w: Seq<ProcEvent>,
    k: int,
    pid: u32,
    search: SearchModel,
    found: FoundModel,
    end: int,
)
    requires
        replay::foreground_at(w, k, pid, search) == Some((Ok::<_, Seq<char>>(Some(found)), end)),
        found.proven,
    ensures
        exists|j: int|
            end - 2 <= j < end && 0 <= j < w.len() && (#[trigger] w[j] matches ProcEvent::Read {
                pid: asked,
                reply: Ok(Some(e)),
            } && asked == found.identity.pid && e.pid == found.identity.pid && e.start_time
                == found.identity.start_time),
{
    let pane = (replay::read_at(w, k, pid)->0).0->Ok_0->0;
    let n = (replay::read_at(w, k, pid)->0).1;
    let resolved = replay::resolved_from(w, n, search.configured, 0, false, Seq::empty())->0;
    let files = resolved.0;
    let own = replay::files_at(w, resolved.1, pane)->0;
    let look = inspector::first_look_of(
        pane,
        replay::recognised(pane, own.0, search.configured, files, true),
        replay::recognised(pane, own.0, search.configured, files, false),
        crate::linux_process::command::command_matches(pane, search.expressions),
    );
    if look is Itself {
        assert(w[end - 1] is Read);
    } else {
        assert(look is Group);
        assert(w[end - 1] is Read);
        assert(w[end - 2] is Read);
    }
}

/// A pane is a shell only where `bash` or `zsh` is asked for, the pane itself leads the
/// group that has the terminal, its executable has that name, and a second look at the
/// end finds the same process with the same arguments.
pub proof fn a_shell_leads_its_terminal(
    w: Seq<ProcEvent>,
    k: int,
    pid: u32,
    command: Seq<char>,
    end: int,
)
    requires
        replay::shell_at(w, k, pid, command) == Some((Ok::<bool, Seq<char>>(true), end)),
    ensures
        command == "bash"@ || command == "zsh"@,
        0 <= k < end <= w.len(),
        w[k] matches ProcEvent::Read { pid: first, reply: Ok(Some(pane)) } && first == pid
            && pane.tty_nr != 0 && pane.pid == pane.pgrp && pane.pgrp == pane.tpgid && (
        pane.executable matches Some(e) && path::file_name(e) == Some(text::utf8(command))) && (
        w[end - 1] matches ProcEvent::Read { pid: last, reply: Ok(Some(again)) } && last == pid
            && again.pid == pane.pid && again.start_time == pane.start_time && again.arguments
            == pane.arguments && again.tpgid == pane.tpgid),
{
    let pane = (replay::read_at(w, k, pid)->0).0->Ok_0->0;
    let program = replay::shell_program_at(w, k + 1, pane.executable->0, command)->0;
    the_shell_is_looked_up(w, k + 1, pane.executable->0, command);
    assert(w[program.1] is Read);
}

proof fn trust_moves_on(
    w: Seq<ProcEvent>,
    k: int,
    executable: Seq<u8>,
    file: Option<Seq<u8>>,
    places: Seq<Seq<u8>>,
    i: int,
)
    requires
        0 <= i <= places.len(),
    ensures
        replay::trusted_from(w, k, executable, file, places, i) matches Some((_, n)) ==> n >= k,
    decreases places.len() - i,
{
    if i < places.len() {
        trust_moves_on(w, k + 1, executable, file, places, i + 1);
        trust_moves_on(w, k + 2, executable, file, places, i + 1);
    }
}

proof fn the_shell_is_looked_up(
    w: Seq<ProcEvent>,
    k: int,
    executable: Seq<u8>,
    command: Seq<char>,
)
    ensures
        replay::shell_program_at(w, k, executable, command) matches Some((_, n)) ==> n >= k,
{
    if replay::canonical_at(w, k, executable) is Some && replay::search_at(w, k + 1) is Some {
        let file = (replay::canonical_at(w, k, executable)->0).0;
        let search = (replay::search_at(w, k + 1)->0).0;
        trust_moves_on(
            w,
            k + 2,
            executable,
            file,
            Seq::new(search.len(), |i: int| path::joined(search[i], text::utf8(command))),
            0,
        );
    }
}

/// In a search by terminal, a process is found only where the terminal of the pane has an
/// absolute path, its device was asked for and is the one that the pane is on.
pub proof fn a_terminal_is_told_by_its_device(
    w: Seq<ProcEvent>,
    k: int,
    pid: u32,
    tty: Seq<u8>,
    search: SearchModel,
    found: FoundModel,
    end: int,
)
    requires
        search.scope == MatchScope::PaneTty,
        replay::scoped_at(w, k, pid, tty, search) == Some((Ok::<_, Seq<char>>(Some(found)), end)),
    ensures
        path::is_absolute(tty),
        0 <= k < w.len(),
        w[k] matches ProcEvent::Read { pid: asked, reply: Ok(Some(pane)) } && asked == pid
            && exists|j: int|
            0 <= j < w.len() && (#[trigger] w[j] matches ProcEvent::Device {
                path: of,
                reply: Some(device),
            } && of == tty && pane.tty_nr == device as i64),
{
    let m = (replay::snapshot_at(w, k + 1)->0).1;
    assert(w[m] is Device);
}

/// A process is found by its executable or its command line, and by nothing else.
pub proof fn only_a_candidate_that_fits_is_found(
    w: Seq<ProcEvent>,
    k: int,
    initial: EvidenceModel,
    candidates: Seq<EvidenceModel>,
    facts: Seq<CandidateFacts>,
    search: SearchModel,
    round: int,
    i: int,
    found: FoundModel,
    end: int,
)
    requires
        facts.len() == candidates.len(),
        0 <= i <= candidates.len(),
        0 <= round,
        replay::scoped_from(w, k, initial, candidates, facts, search, round, i) == Some(
            (Ok::<_, Seq<char>>(Some(found)), end),
        ),
    ensures
        found.proven,
        exists|j: int|
            0 <= j < candidates.len() && found.identity.pid == (#[trigger] candidates[j]).pid
                && found.identity.start_time == candidates[j].start_time && (
            facts[j].recognised is Some || facts[j].regex),
    decreases 2 - round, candidates.len() - i,
{
    if i >= candidates.len() {
        only_a_candidate_that_fits_is_found(
            w,
            k,
            initial,
            candidates,
            facts,
            search,
            round + 1,
            0,
            found,
            end,
        );
    } else {
        let fits = if round <= 0 {
            facts[i].recognised is Some
        } else {
            facts[i].regex
        };
        if !fits {
            only_a_candidate_that_fits_is_found(
                w,
                k,
                initial,
                candidates,
                facts,
                search,
                round,
                i + 1,
                found,
                end,
            );
        } else {
            let snapshot = replay::snapshot_at(w, k)->0;
            if inspector::scoped_current(
                initial,
                candidates[i],
                snapshot.0->Ok_0,
                search.scope,
            ) {
                assert(found.identity.pid == candidates[i].pid);
            } else {
                only_a_candidate_that_fits_is_found(
                    w,
                    snapshot.1,
                    initial,
                    candidates,
                    facts,
                    search,
                    round,
                    i + 1,
                    found,
                    end,
                );
            }
        }
    }
}

} // verus!
