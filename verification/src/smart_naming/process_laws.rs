//! What the processes of a pane tell of its thread, and which lane a thread is in.

use vstd::prelude::*;
use crate::error::ErrorModel;
use crate::number;
use crate::scan;
use crate::smart_naming::lanes;
use crate::smart_naming::processes;
use crate::smart_naming::processes::ProcessEntry;
use crate::smart_naming::shell_snapshot;
use crate::smart_naming::target::TargetModel;
use crate::text;

verus! {

// ---------------------------------------------------------------------------
// Processes
// ---------------------------------------------------------------------------

proof fn the_last_close_counts(front: Seq<char>, rest: Seq<char>, n: int)
    requires
        ({
            let stat = front + seq![')', ' '] + rest;
            &&& front.len() <= n < stat.len()
            &&& forall|i: int|
                front.len() < i && i + 2 <= stat.len() ==> !(#[trigger] stat[i] == ')' && stat[i + 1]
                    == ' ')
        }),
    ensures
        processes::after_last_close(front + seq![')', ' '] + rest, n) == Some(rest),
    decreases n,
{
    let stat = front + seq![')', ' '] + rest;
    let at = front.len() as int;
    assert(stat[at] == ')' && stat[at + 1] == ' ');
    assert(stat.skip(at + 2) =~= rest);
    if n > at {
        if n + 2 <= stat.len() {
            assert(!(stat[n] == ')' && stat[n + 1] == ' '));
        }
        the_last_close_counts(front, rest, n - 1);
    }
}

/// Of a process, its parent and its start time are read behind its name, whatever the name
/// holds: the second and the twentieth of the words there.
pub proof fn a_process_is_told_by_parent_and_start(
    front: Seq<char>,
    rest: Seq<char>,
    parent: u32,
    started: u64,
)
    requires
        forall|i: int|
            0 <= i && i + 2 <= rest.len() ==> !(#[trigger] rest[i] == ')' && rest[i + 1] == ' '),
        rest.len() > 0 && rest[0] != ' ',
        scan::words(rest).len() >= 20,
        scan::words(rest)[1] == number::decimal(parent as nat),
        scan::words(rest)[19] == number::decimal(started as nat),
    ensures
        processes::stat_identity(front + seq![')', ' '] + rest) == Ok::<(u32, u64), ErrorModel>(
            (parent, started),
        ),
{
    let stat = front + seq![')', ' '] + rest;
    let at = front.len() as int;
    assert forall|i: int| at < i && i + 2 <= stat.len() implies !(#[trigger] stat[i] == ')'
        && stat[i + 1] == ' ') by {
        if i >= at + 2 {
            assert(stat[i] == rest[i - at - 2]);
            assert(stat[i + 1] == rest[i - at - 1]);
            assert(!(rest[i - at - 2] == ')' && rest[(i - at - 2) + 1] == ' '));
        }
    }
    the_last_close_counts(front, rest, stat.len() - 1);
    number::unsigned_value_of_decimal(parent as nat, u32::MAX as nat);
    number::unsigned_value_of_decimal(started as nat, u64::MAX as nat);
}

proof fn entry_is_first(table: Seq<ProcessEntry>, pid: u32, i: int)
    requires
        0 <= i <= table.len(),
    ensures
        ({
            let n = processes::entry_place(table, pid, i);
            &&& i <= n <= table.len()
            &&& n < table.len() ==> table[n].pid == pid
            &&& forall|j: int| i <= j < n ==> (#[trigger] table[j]).pid != pid
        }),
    decreases table.len() - i,
{
    if i < table.len() && table[i].pid != pid {
        entry_is_first(table, pid, i + 1);
    }
}

/// A process is known by its own row of the table, and not at all without one.
pub proof fn a_process_is_known_by_its_row(table: Seq<ProcessEntry>, pid: u32)
    ensures
        match processes::identity_of(table, pid) {
            Some((parent, started)) => exists|i: int|
                0 <= i < table.len() && (#[trigger] table[i]).pid == pid && table[i].parent
                    == parent && table[i].started == started,
            None => forall|i: int| 0 <= i < table.len() ==> (#[trigger] table[i]).pid != pid,
        },
{
    entry_is_first(table, pid, 0);
    let n = processes::entry_place(table, pid, 0);
    if n < table.len() {
        assert(table[n].pid == pid);
    }
}

/// A child descends wherever its parent does with a step to spare, and a process that is not
/// in the table, or has no parent, descends from itself alone.
pub proof fn descent_goes_by_parents(
    table: Seq<ProcessEntry>,
    pid: u32,
    root: u32,
    steps: nat,
)
    requires
        steps > 0,
        pid != root,
    ensures
        processes::reaches(table, pid, root, steps) <==> {
            &&& processes::identity_of(table, pid) is Some
            &&& (processes::identity_of(table, pid)->0).0 != 0
            &&& (processes::identity_of(table, pid)->0).0 != pid
            &&& processes::reaches(
                table,
                (processes::identity_of(table, pid)->0).0,
                root,
                (steps - 1) as nat,
            )
        },
{
}

// ---------------------------------------------------------------------------
// Environments and snapshots
// ---------------------------------------------------------------------------

/// The last setting of a variable counts.
pub proof fn the_last_setting_of_a_variable_counts(
    fields: Seq<Seq<u8>>,
    name: Seq<u8>,
    value: Seq<char>,
    rest: Seq<Seq<u8>>,
)
    requires
        forall|i: int| 0 <= i < rest.len() ==> !name.is_prefix_of(#[trigger] rest[i]),
    ensures
        shell_snapshot::variable(fields.push(name + text::utf8(value)) + rest, name) == Some(value),
    decreases rest.len(),
{
    let set = name + text::utf8(value);
    let all = fields.push(set) + rest;
    if rest.len() == 0 {
        assert(all =~= fields.push(set));
        assert(set.subrange(0, name.len() as int) =~= name);
        assert(set.skip(name.len() as int) =~= text::utf8(value));
        text::utf8_decodes_back(value);
    } else {
        let head = rest.drop_last();
        assert forall|i: int| 0 <= i < head.len() implies !name.is_prefix_of(#[trigger] head[i]) by {
            assert(head[i] == rest[i]);
        }
        the_last_setting_of_a_variable_counts(fields, name, value, head);
        assert(all.drop_last() =~= fields.push(set) + head);
        assert(all.last() == rest[rest.len() - 1]);
    }
}

/// A variable that is not set is not found.
pub proof fn an_unset_variable_is_not_found(fields: Seq<Seq<u8>>, name: Seq<u8>)
    requires
        forall|i: int| 0 <= i < fields.len() ==> !name.is_prefix_of(#[trigger] fields[i]),
    ensures
        shell_snapshot::variable(fields, name) is None,
    decreases fields.len(),
{
    if fields.len() > 0 {
        let head = fields.drop_last();
        assert(!name.is_prefix_of(fields[fields.len() - 1]));
        assert forall|i: int| 0 <= i < head.len() implies !name.is_prefix_of(#[trigger] head[i]) by {
            assert(head[i] == fields[i]);
        }
        an_unset_variable_is_not_found(head, name);
    }
}

/// A value between single quotes is what stands between them.
pub proof fn a_quoted_value_is_what_it_quotes(value: Seq<char>)
    requires
        !value.contains('\''),
    ensures
        shell_snapshot::literal(seq!['\''] + value + seq!['\'']) == Some(value),
{
    let v = seq!['\''] + value + seq!['\''];
    scan::trimmed_is(v, 0, v.len() as int);
    assert(v.subrange(0, v.len() as int) =~= v);
    assert(v.subrange(1, v.len() - 1) =~= value);
}

/// The first line that exports the pane counts.
pub proof fn the_first_export_counts(lines: Seq<Seq<char>>, value: Seq<char>, i: int, k: int)
    requires
        0 <= i <= k < lines.len(),
        k < 20000,
        lines[k] == "export TMUX_PANE="@ + seq!['\''] + value + seq!['\''],
        !value.contains('\''),
        forall|j: int|
            i <= j < k ==> !"export TMUX_PANE="@.is_prefix_of(#[trigger] lines[j]),
    ensures
        shell_snapshot::pane_in(lines, i) == Some(value),
    decreases k - i,
{
    let front = "export TMUX_PANE="@;
    if i < k {
        the_first_export_counts(lines, value, i + 1, k);
    } else {
        let quoted = seq!['\''] + value + seq!['\''];
        assert(lines[k].subrange(0, front.len() as int) =~= front);
        assert(lines[k].skip(front.len() as int) =~= quoted);
        a_quoted_value_is_what_it_quotes(value);
    }
}

// ---------------------------------------------------------------------------
// Lanes
// ---------------------------------------------------------------------------

/// Every target is worked on in exactly one lane, the one of its thread.
pub proof fn every_target_has_its_lane(
    targets: Seq<TargetModel>,
    lane: usize,
    count: usize,
    t: TargetModel,
)
    requires
        count > 0,
    ensures
        lanes::lane_targets(targets, lane, count).contains(t) <==> targets.contains(t)
            && lanes::lane_of(t.thread_hint, count) == lane,
        lanes::lane_of(t.thread_hint, count) < count,
    decreases targets.len(),
{
    let kept = lanes::lane_targets(targets, lane, count);
    if targets.len() > 0 {
        let head = targets.drop_last();
        let before = lanes::lane_targets(head, lane, count);
        every_target_has_its_lane(head, lane, count, t);
        if targets.contains(t) {
            let i = targets.index_of(t);
            if i < head.len() {
                assert(head[i] == t);
            }
        }
        if head.contains(t) {
            let i = head.index_of(t);
            assert(targets[i] == t);
        }
        if kept.contains(t) {
            let i = kept.index_of(t);
            if i < before.len() {
                assert(before[i] == t);
            } else {
                assert(targets[targets.len() - 1] == t);
            }
        }
        if before.contains(t) {
            let i = before.index_of(t);
            assert(kept[i] == t);
        }
        if t == targets.last() && kept.len() > before.len() {
            assert(kept.last() == t);
        }
    }
}

} // verus!
