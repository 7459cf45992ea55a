//! Which processes belong to a pane.

use vstd::prelude::*;
use crate::linux_process::evidence;
use crate::linux_process::evidence::EvidenceModel;
use crate::scan;

verus! {

proof fn nonempty_keeps_all(pieces: Seq<Seq<u8>>)
    requires
        forall|i: int| 0 <= i < pieces.len() ==> (#[trigger] pieces[i]).len() > 0,
    ensures
        evidence::nonempty(pieces) == pieces,
    decreases pieces.len(),
{
    if pieces.len() > 0 {
        let head = pieces.drop_last();
        assert forall|i: int| 0 <= i < head.len() implies (#[trigger] head[i]).len() > 0 by {
            assert(head[i] == pieces[i]);
        }
        nonempty_keeps_all(head);
        assert(pieces[pieces.len() - 1].len() > 0);
        assert(head.push(pieces.last()) =~= pieces);
    }
}

/// A command line reads back: each argument ends in a zero byte.
pub proof fn a_command_line_reads_back(arguments: Seq<Seq<u8>>)
    requires
        arguments.len() > 0,
        forall|i: int|
            0 <= i < arguments.len() ==> (#[trigger] arguments[i]).len() > 0
                && !arguments[i].contains(0u8),
    ensures
        evidence::arguments_in(scan::join_with(arguments, seq![0u8]) + seq![0u8]) == arguments,
{
    let all = arguments.push(Seq::empty());
    assert(all.drop_last() =~= arguments);
    let line = scan::join_with(arguments, seq![0u8]) + seq![0u8];
    assert(scan::join_with(all, seq![0u8]) =~= line);
    assert forall|i: int| 0 <= i < all.len() implies !(#[trigger] all[i]).contains(0u8) by {
        if i < arguments.len() {
            assert(all[i] == arguments[i]);
        }
    }
    scan::split_undoes_join(all, 0u8);
    nonempty_keeps_all(arguments);
}

/// The foreground of a pane is every process of the group that its terminal is in, and
/// nothing else.
pub proof fn the_foreground_is_the_terminal_group(
    processes: Seq<EvidenceModel>,
    pane: EvidenceModel,
    e: EvidenceModel,
)
    ensures
        evidence::group_of(processes, pane).contains(e) <==> processes.contains(e) && e.pgrp
            == pane.tpgid && e.tty_nr == pane.tty_nr,
    decreases processes.len(),
{
    let kept = evidence::group_of(processes, pane);
    if processes.len() > 0 {
        let head = processes.drop_last();
        the_foreground_is_the_terminal_group(head, pane, e);
        kept_or_not(
            processes,
            evidence::group_of(head, pane),
            kept,
            e,
            processes.last().pgrp == pane.tpgid && processes.last().tty_nr == pane.tty_nr,
        );
    }
}

proof fn kept_or_not(
    all: Seq<EvidenceModel>,
    before: Seq<EvidenceModel>,
    kept: Seq<EvidenceModel>,
    e: EvidenceModel,
    keep: bool,
)
    requires
        all.len() > 0,
        kept == if keep {
            before.push(all.last())
        } else {
            before
        },
    ensures
        all.contains(e) <==> all.drop_last().contains(e) || e == all.last(),
        kept.contains(e) <==> before.contains(e) || (keep && e == all.last()),
{
    let head = all.drop_last();
    if all.contains(e) {
        let i = all.index_of(e);
        if i < head.len() {
            assert(head[i] == e);
        }
    }
    if head.contains(e) {
        let i = head.index_of(e);
        assert(all[i] == e);
    }
    if e == all.last() {
        assert(all[all.len() - 1] == e);
    }
    if kept.contains(e) {
        let i = kept.index_of(e);
        if i < before.len() {
            assert(before[i] == e);
        }
    }
    if before.contains(e) {
        let i = before.index_of(e);
        assert(kept[i] == e);
    }
    if keep && e == all.last() {
        assert(kept.last() == e);
    }
}

/// The processes of a terminal are all those that have it, and nothing else.
pub proof fn a_terminal_has_its_processes(
    processes: Seq<EvidenceModel>,
    tty_nr: i64,
    e: EvidenceModel,
)
    ensures
        evidence::on_terminal(processes, tty_nr).contains(e) <==> processes.contains(e) && e.tty_nr
            == tty_nr,
    decreases processes.len(),
{
    if processes.len() > 0 {
        let head = processes.drop_last();
        a_terminal_has_its_processes(head, tty_nr, e);
        kept_or_not(
            processes,
            evidence::on_terminal(head, tty_nr),
            evidence::on_terminal(processes, tty_nr),
            e,
            processes.last().tty_nr == tty_nr,
        );
    }
}

/// The tree of a process is every process that descends from it, and nothing else.
pub proof fn a_tree_has_its_descendants(
    processes: Seq<EvidenceModel>,
    all: Seq<EvidenceModel>,
    root: u32,
    e: EvidenceModel,
)
    ensures
        evidence::tree_of(processes, all, root).contains(e) <==> processes.contains(e)
            && evidence::descends(all, root, e.pid),
    decreases processes.len(),
{
    if processes.len() > 0 {
        let head = processes.drop_last();
        a_tree_has_its_descendants(head, all, root, e);
        kept_or_not(
            processes,
            evidence::tree_of(head, all, root),
            evidence::tree_of(processes, all, root),
            e,
            evidence::descends(all, root, processes.last().pid),
        );
    }
}

/// A process descends from itself, and a child from whatever its parent descends from.
pub proof fn children_descend_with_their_parents(
    processes: Seq<EvidenceModel>,
    root: u32,
    i: int,
)
    requires
        0 <= i < processes.len(),
    ensures
        evidence::descends(processes, root, root),
        evidence::descends(processes, root, processes[i].parent_pid) ==> evidence::descends(
            processes,
            root,
            processes[i].pid,
        ),
{
    assert(evidence::below(processes, root, root, 0));
    if evidence::descends(processes, root, processes[i].parent_pid) {
        let n = choose|n: nat| evidence::below(processes, root, processes[i].parent_pid, n);
        assert(evidence::below(processes, root, processes[i].pid, n + 1));
    }
}

/// A process counts as unchanged in the foreground only with its number, its start time and
/// its terminal, while that has a foreground.
pub proof fn only_the_same_process_stays_in_the_foreground(
    initial: EvidenceModel,
    current: EvidenceModel,
)
    requires
        evidence::same_foreground(initial, current),
    ensures
        initial.pid == current.pid,
        initial.start_time == current.start_time,
        initial.tty_nr == current.tty_nr,
        initial.tpgid == current.tpgid,
        current.tty_nr != 0,
        current.tpgid > 0,
{
}

} // verus!
