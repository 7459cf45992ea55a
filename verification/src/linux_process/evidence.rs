//! What procfs says of a process, and how processes hang together.

use vstd::prelude::*;
use crate::domain;
use crate::domain::ProcessMatchIdentity;
use crate::number;
use crate::path;
use crate::path::UnixPath;
use crate::scan;
use crate::scan::split_ascii_whitespace;
use crate::text;
use crate::text::{bytes_equal, copy_bytes, read_utf8, slice_bytes};

verus! {

// ---------------------------------------------------------------------------
// The stat file
// ---------------------------------------------------------------------------

/// The parent, the process group, the terminal, the foreground group of the
/// terminal and the start time in a stat file. The command name in it stands in
/// parentheses and may hold any character, so the fields start behind the last
/// closing one.
pub open spec fn stat_fields(stat: Seq<u8>) -> Option<(nat, int, int, int, nat)> {
    let close = path::last_index(stat, 41);
    if close < 0 {
        None
    } else {
        match text::utf8_decoded(stat.skip(close + 1)) {
            None => None,
            Some(rest) => {
                let fields = scan::ascii_words(rest);
                if fields.len() < 20 {
                    None
                } else {
                    let parent = number::unsigned_value(fields[1], u32::MAX as nat);
                    let pgrp = number::signed_value(fields[2]);
                    let tty = number::signed_value(fields[4]);
                    let tpgid = number::signed_value(fields[5]);
                    let start = number::unsigned_value(fields[19], u64::MAX as nat);
                    if parent is Some && pgrp is Some && tty is Some && tpgid is Some
                        && start is Some {
                        Some((parent->0, pgrp->0, tty->0, tpgid->0, start->0))
                    } else {
                        None
                    }
                }
            },
        }
    }
}

pub open spec fn stat_view(r: Option<(u32, i64, i64, i64, u64)>) -> Option<
    (nat, int, int, int, nat),
> {
    match r {
        Some(s) => Some((s.0 as nat, s.1 as int, s.2 as int, s.3 as int, s.4 as nat)),
        None => None,
    }
}

fn last_close(stat: &[u8]) -> (r: Option<usize>)
    ensures
        match r {
            Some(i) => i == path::last_index(stat@, 41) && i < stat@.len(),
            None => path::last_index(stat@, 41) < 0,
        },
{
    let mut n: usize = stat.len();
    assert(stat@.take(n as int) =~= stat@);
    while n > 0
        invariant
            n <= stat@.len(),
            path::last_index(stat@, 41) == path::last_index(stat@.take(n as int), 41),
        decreases n,
    {
        if stat[n - 1] == 41 {
            return Some(n - 1);
        }
        assert(stat@.take(n as int).drop_last() =~= stat@.take(n - 1));
        n -= 1;
    }
    None
}

/// Reads a stat file.
pub fn parse_stat(stat: &[u8]) -> (r: Option<(u32, i64, i64, i64, u64)>)
    ensures
        stat_view(r) == stat_fields(stat@),
{
    let close: usize = match last_close(stat) {
        Some(i) => i,
        None => return None,
    };
    let end: usize = stat.len();
    let rest = slice_bytes(stat, close + 1, end);
    assert(rest@ =~= stat@.skip(close + 1));
    let remainder = match read_utf8(&rest) {
        Some(t) => t,
        None => return None,
    };
    let fields = split_ascii_whitespace(&remainder);
    let ghost all = scan::ascii_words(remainder@);
    assert(all.len() == fields.len());
    if fields.len() < 20 {
        return None;
    }
    assert(all[1] == fields@[1]@ && all[2] == fields@[2]@ && all[4] == fields@[4]@ && all[5]
        == fields@[5]@ && all[19] == fields@[19]@);
    match (
        number::parse_u32(&fields[1]),
        number::parse_i64(&fields[2]),
        number::parse_i64(&fields[4]),
        number::parse_i64(&fields[5]),
        number::parse_u64(&fields[19]),
    ) {
        (Some(parent), Some(pgrp), Some(tty), Some(tpgid), Some(start)) => Some(
            (parent, pgrp, tty, tpgid, start),
        ),
        _ => None,
    }
}

// ---------------------------------------------------------------------------
// Evidence
// ---------------------------------------------------------------------------

/// One process as procfs showed it.
#[derive(Debug)]
pub struct ProcessEvidence {
    pub pid: u32,
    pub parent_pid: u32,
    pub pgrp: i64,
    pub tty_nr: i64,
    pub tpgid: i64,
    pub start_time: u64,
    pub executable: Option<UnixPath>,
    pub arguments: Vec<Vec<u8>>,
}

#[verifier::ext_equal]
pub struct EvidenceModel {
    pub pid: u32,
    pub parent_pid: u32,
    pub pgrp: i64,
    pub tty_nr: i64,
    pub tpgid: i64,
    pub start_time: u64,
    pub executable: Option<Seq<u8>>,
    pub arguments: Seq<Seq<u8>>,
}

impl View for ProcessEvidence {
    type V = EvidenceModel;

    open spec fn view(&self) -> EvidenceModel {
        EvidenceModel {
            pid: self.pid,
            parent_pid: self.parent_pid,
            pgrp: self.pgrp,
            tty_nr: self.tty_nr,
            tpgid: self.tpgid,
            start_time: self.start_time,
            executable: domain::path_view(self.executable),
            arguments: text::words(self.arguments@),
        }
    }
}

pub open spec fn evidence_list(v: Seq<ProcessEvidence>) -> Seq<EvidenceModel> {
    Seq::new(v.len(), |i: int| v[i]@)
}

pub(crate) fn copy_words(v: &Vec<Vec<u8>>) -> (r: Vec<Vec<u8>>)
    ensures
        text::words(r@) == text::words(v@),
{
    let mut r = text::no_words();
    let mut i: usize = 0;
    assert(text::words(r@) =~= text::words(v@).take(0));
    while i < v.len()
        invariant
            i <= v.len(),
            text::words(r@) == text::words(v@).take(i as int),
        decreases v.len() - i,
    {
        text::push_word(&mut r, copy_bytes(&v[i]));
        assert(text::words(v@).take(i + 1) =~= text::words(v@).take(i as int).push(
            text::words(v@)[i as int],
        ));
        i += 1;
    }
    assert(text::words(v@).take(i as int) =~= text::words(v@));
    r
}

pub(crate) fn copy_path(p: &Option<UnixPath>) -> (r: Option<UnixPath>)
    ensures
        domain::path_view(r) == domain::path_view(*p),
{
    match p {
        Some(p) => Some(p.clone()),
        None => None,
    }
}

impl ProcessEvidence {
    /// What tells this process from a later one with its number.
    pub fn identity(&self) -> (r: ProcessMatchIdentity)
        ensures
            r.pid == self.pid,
            r.start_time == self.start_time,
    {
        ProcessMatchIdentity { pid: self.pid, start_time: self.start_time }
    }

    pub fn copy(&self) -> (r: ProcessEvidence)
        ensures
            r@ == self@,
    {
        ProcessEvidence {
            pid: self.pid,
            parent_pid: self.parent_pid,
            pgrp: self.pgrp,
            tty_nr: self.tty_nr,
            tpgid: self.tpgid,
            start_time: self.start_time,
            executable: copy_path(&self.executable),
            arguments: copy_words(&self.arguments),
        }
    }
}

/// The first stat file of a process.
#[derive(Debug)]
pub enum StatRead {
    Bytes(Vec<u8>),
    /// The process is gone or not for us to see.
    Hidden,
    /// Anything else that went wrong.
    Failed(String),
}

/// What was read of a process, in this order.
#[derive(Debug)]
pub struct ProcReads {
    pub stat: StatRead,
    pub executable: Option<UnixPath>,
    pub cmdline: Option<Vec<u8>>,
    /// The stat file once more.
    pub second_stat: Option<Vec<u8>>,
}

/// The pieces of a list that are not empty.
pub open spec fn nonempty(pieces: Seq<Seq<u8>>) -> Seq<Seq<u8>>
    decreases pieces.len(),
{
    if pieces.len() == 0 {
        Seq::empty()
    } else {
        let rest = nonempty(pieces.drop_last());
        if pieces.last().len() > 0 {
            rest.push(pieces.last())
        } else {
            rest
        }
    }
}

/// The arguments in a cmdline file, each ended by a zero byte.
pub open spec fn arguments_in(cmdline: Seq<u8>) -> Seq<Seq<u8>> {
    nonempty(scan::split_on(cmdline, 0))
}

pub fn split_arguments(cmdline: &[u8]) -> (r: Vec<Vec<u8>>)
    ensures
        text::words(r@) == arguments_in(cmdline@),
{
    let pieces = scan::split_bytes(cmdline, 0);
    let ghost all = scan::split_on(cmdline@, 0u8);
    let mut r = text::no_words();
    let mut i: usize = 0;
    assert(text::words(r@) =~= nonempty(all.take(0)));
    while i < pieces.len()
        invariant
            i <= pieces.len(),
            text::words(r@) == nonempty(all.take(i as int)),
        decreases pieces.len() - i,
    {
        proof {
            assert(all.take(i + 1).drop_last() =~= all.take(i as int));
            assert(all.take(i + 1).last() == pieces@[i as int]@);
        }
        if pieces[i].len() > 0 {
            text::push_word(&mut r, copy_bytes(&pieces[i]));
        }
        i += 1;
    }
    assert(all.take(all.len() as int) =~= all);
    r
}

/// A process, where everything read of it belongs to one and the same process:
/// both stat files say the same.
pub open spec fn assembled(pid: u32, reads: ProcReads) -> Result<Option<EvidenceModel>, Seq<char>> {
    match reads.stat {
        StatRead::Failed(message) => Err(message@),
        StatRead::Hidden => Ok(None),
        StatRead::Bytes(stat) => match (stat_fields(stat@), reads.second_stat) {
            (Some(first), Some(again)) => if stat_fields(again@) == Some(first) {
                Ok(
                    Some(
                        EvidenceModel {
                            pid,
                            parent_pid: first.0 as u32,
                            pgrp: first.1 as i64,
                            tty_nr: first.2 as i64,
                            tpgid: first.3 as i64,
                            start_time: first.4 as u64,
                            executable: domain::path_view(reads.executable),
                            arguments: match reads.cmdline {
                                Some(cmdline) => arguments_in(cmdline@),
                                None => Seq::empty(),
                            },
                        },
                    ),
                )
            } else {
                Ok(None)
            },
            _ => Ok(None),
        },
    }
}

pub open spec fn evidence_view(r: Result<Option<ProcessEvidence>, String>) -> Result<
    Option<EvidenceModel>,
    Seq<char>,
> {
    match r {
        Ok(Some(e)) => Ok(Some(e@)),
        Ok(None) => Ok(None),
        Err(message) => Err(message@),
    }
}

/// Puts together what was read of a process.
pub fn assemble(pid: u32, reads: ProcReads) -> (r: Result<Option<ProcessEvidence>, String>)
    ensures
        evidence_view(r) == assembled(pid, reads),
{
    let stat = match reads.stat {
        StatRead::Failed(message) => return Err(message),
        StatRead::Hidden => return Ok(None),
        StatRead::Bytes(stat) => stat,
    };
    let first = match parse_stat(&stat) {
        Some(first) => first,
        None => return Ok(None),
    };
    let again = match &reads.second_stat {
        Some(again) => match parse_stat(again) {
            Some(again) => again,
            None => return Ok(None),
        },
        None => return Ok(None),
    };
    if first.0 != again.0 || first.1 != again.1 || first.2 != again.2 || first.3 != again.3
        || first.4 != again.4 {
        return Ok(None);
    }
    let arguments = match &reads.cmdline {
        Some(cmdline) => split_arguments(cmdline),
        None => text::no_words(),
    };
    Ok(
        Some(
            ProcessEvidence {
                pid,
                parent_pid: first.0,
                pgrp: first.1,
                tty_nr: first.2,
                tpgid: first.3,
                start_time: first.4,
                executable: reads.executable,
                arguments,
            },
        ),
    )
}

/// The number that a procfs entry names, `None` for an entry that is no process.
pub open spec fn entry_pid(name: Seq<u8>) -> Option<nat> {
    match text::utf8_decoded(name) {
        Some(t) => number::unsigned_value(t, u32::MAX as nat),
        None => None,
    }
}

pub fn parse_entry(name: &[u8]) -> (r: Option<u32>)
    ensures
        match r {
            Some(pid) => entry_pid(name@) == Some(pid as nat),
            None => entry_pid(name@) is None,
        },
{
    match read_utf8(name) {
        Some(t) => number::parse_u32(&t),
        None => None,
    }
}

// ---------------------------------------------------------------------------
// The same process, the same foreground
// ---------------------------------------------------------------------------

/// The process still leads the same terminal with the same foreground group.
pub open spec fn same_foreground(initial: EvidenceModel, current: EvidenceModel) -> bool {
    &&& initial.pid == current.pid
    &&& initial.start_time == current.start_time
    &&& initial.tty_nr == current.tty_nr
    &&& initial.tpgid == current.tpgid
    &&& current.tty_nr != 0
    &&& current.tpgid > 0
}

pub fn same_foreground_snapshot(initial: &ProcessEvidence, current: &ProcessEvidence) -> (r: bool)
    ensures
        r == same_foreground(initial@, current@),
{
    initial.pid == current.pid && initial.start_time == current.start_time && initial.tty_nr
        == current.tty_nr && initial.tpgid == current.tpgid && current.tty_nr != 0 && current.tpgid
        > 0
}

/// The two are the same in every respect; executables are compared as paths.
pub open spec fn same_evidence(initial: EvidenceModel, current: EvidenceModel) -> bool {
    &&& initial.pid == current.pid
    &&& initial.parent_pid == current.parent_pid
    &&& initial.pgrp == current.pgrp
    &&& initial.tty_nr == current.tty_nr
    &&& initial.tpgid == current.tpgid
    &&& initial.start_time == current.start_time
    &&& same_executable(initial.executable, current.executable)
    &&& initial.arguments == current.arguments
}

pub open spec fn same_executable(a: Option<Seq<u8>>, b: Option<Seq<u8>>) -> bool {
    match (a, b) {
        (Some(x), Some(y)) => path::same_path(x, y),
        (None, None) => true,
        _ => false,
    }
}

pub(crate) fn executables_agree(a: &Option<UnixPath>, b: &Option<UnixPath>) -> (r: bool)
    ensures
        r == same_executable(domain::path_view(*a), domain::path_view(*b)),
{
    match (a, b) {
        (Some(x), Some(y)) => x.same_as(y),
        (None, None) => true,
        _ => false,
    }
}

pub(crate) fn words_agree(a: &Vec<Vec<u8>>, b: &Vec<Vec<u8>>) -> (r: bool)
    ensures
        r == (text::words(a@) == text::words(b@)),
{
    if a.len() != b.len() {
        assert(text::words(a@).len() != text::words(b@).len());
        return false;
    }
    let mut i: usize = 0;
    while i < a.len()
        invariant
            i <= a.len(),
            a.len() == b.len(),
            forall|j: int| 0 <= j < i ==> text::words(a@)[j] == text::words(b@)[j],
        decreases a.len() - i,
    {
        if !bytes_equal(&a[i], &b[i]) {
            assert(text::words(a@)[i as int] != text::words(b@)[i as int]);
            return false;
        }
        i += 1;
    }
    assert(text::words(a@) =~= text::words(b@));
    true
}

pub fn same_process_evidence(initial: &ProcessEvidence, current: &ProcessEvidence) -> (r: bool)
    ensures
        r == same_evidence(initial@, current@),
{
    initial.pid == current.pid && initial.parent_pid == current.parent_pid && initial.pgrp
        == current.pgrp && initial.tty_nr == current.tty_nr && initial.tpgid == current.tpgid
        && initial.start_time == current.start_time && executables_agree(
        &initial.executable,
        &current.executable,
    ) && words_agree(&initial.arguments, &current.arguments)
}

/// A number that was given to another process is told apart: the same evidence
/// has the same start time.
pub proof fn reused_numbers_are_told_apart(a: EvidenceModel, b: EvidenceModel)
    requires
        a.pid == b.pid,
        a.start_time != b.start_time,
    ensures
        !same_evidence(a, b),
        !same_foreground(a, b),
{
}

// ---------------------------------------------------------------------------
// Descendants
// ---------------------------------------------------------------------------

/// A process number is at most `n` generations below a root.
pub open spec fn below(processes: Seq<EvidenceModel>, root: u32, pid: u32, n: nat) -> bool
    decreases n,
{
    if n == 0 {
        pid == root
    } else {
        below(processes, root, pid, (n - 1) as nat) || exists|i: int|
            0 <= i < processes.len() && (#[trigger] processes[i]).pid == pid && below(
                processes,
                root,
                processes[i].parent_pid,
                (n - 1) as nat,
            )
    }
}

/// A process number is the root or below it.
pub open spec fn descends(processes: Seq<EvidenceModel>, root: u32, pid: u32) -> bool {
    exists|n: nat| below(processes, root, pid, n)
}

/// Those of the processes that are the root or below it, in order.
pub open spec fn tree_of(processes: Seq<EvidenceModel>, all: Seq<EvidenceModel>, root: u32) -> Seq<
    EvidenceModel,
>
    decreases processes.len(),
{
    if processes.len() == 0 {
        Seq::empty()
    } else {
        let rest = tree_of(processes.drop_last(), all, root);
        if descends(all, root, processes.last().pid) {
            rest.push(processes.last())
        } else {
            rest
        }
    }
}

/// How many of the first `n` processes are not in a list of numbers.
pub open spec fn missing(processes: Seq<EvidenceModel>, found: Seq<u32>, n: nat) -> nat
    decreases n,
{
    if n == 0 {
        0
    } else {
        missing(processes, found, (n - 1) as nat) + if found.contains(processes[n - 1].pid) {
            0nat
        } else {
            1nat
        }
    }
}

proof fn missing_shrinks(processes: Seq<EvidenceModel>, found: Seq<u32>, pid: u32, n: nat, i: int)
    requires
        n <= processes.len(),
    ensures
        missing(processes, found.push(pid), n) <= missing(processes, found, n),
        0 <= i < n && processes[i].pid == pid && !found.contains(pid) ==> missing(
            processes,
            found.push(pid),
            n,
        ) < missing(processes, found, n),
    decreases n,
{
    if n > 0 {
        missing_shrinks(processes, found, pid, (n - 1) as nat, i);
        let last = processes[n - 1].pid;
        if found.contains(last) {
            let k = choose|k: int| 0 <= k < found.len() && found[k] == last;
            assert(found.push(pid)[k] == last);
        }
        assert(found.push(pid)[found.len() as int] == pid);
    }
}

fn holds(v: &Vec<u32>, x: u32) -> (r: bool)
    ensures
        r == v@.contains(x),
{
    let mut i: usize = 0;
    while i < v.len()
        invariant
            i <= v.len(),
            forall|j: int| 0 <= j < i ==> v@[j] != x,
        decreases v.len() - i,
    {
        if v[i] == x {
            assert(v@[i as int] == x);
            return true;
        }
        i += 1;
    }
    false
}

proof fn child_descends(processes: Seq<EvidenceModel>, root: u32, i: int)
    requires
        0 <= i < processes.len(),
        descends(processes, root, processes[i].parent_pid),
    ensures
        descends(processes, root, processes[i].pid),
{
    let n = choose|n: nat| below(processes, root, processes[i].parent_pid, n);
    assert(below(processes, root, processes[i].pid, n + 1));
}

/// Numbers that are closed under children hold every descendant.
proof fn closed_holds_descendants(
    processes: Seq<EvidenceModel>,
    root: u32,
    found: Seq<u32>,
    pid: u32,
    n: nat,
)
    requires
        found.contains(root),
        forall|i: int|
            0 <= i < processes.len() && found.contains(processes[i].parent_pid)
                ==> found.contains((#[trigger] processes[i]).pid),
        below(processes, root, pid, n),
    ensures
        found.contains(pid),
    decreases n,
{
    if n > 0 {
        if below(processes, root, pid, (n - 1) as nat) {
            closed_holds_descendants(processes, root, found, pid, (n - 1) as nat);
        } else {
            let i = choose|i: int|
                0 <= i < processes.len() && (#[trigger] processes[i]).pid == pid && below(
                    processes,
                    root,
                    processes[i].parent_pid,
                    (n - 1) as nat,
                );
            closed_holds_descendants(
                processes,
                root,
                found,
                processes[i].parent_pid,
                (n - 1) as nat,
            );
        }
    }
}

/// The numbers of a root and of everything below it.
fn tree_numbers(processes: &Vec<ProcessEvidence>, root: u32) -> (r: Vec<u32>)
    ensures
        forall|pid: u32|
            r@.contains(pid) <==> #[trigger] descends(evidence_list(processes@), root, pid),
{
    let ghost all = evidence_list(processes@);
    let mut found: Vec<u32> = Vec::new();
    found.push(root);
    assert(found@[0] == root);
    assert(below(all, root, root, 0));
    loop
        invariant
            found@.contains(root),
            forall|k: int| 0 <= k < found@.len() ==> descends(all, root, #[trigger] found@[k]),
        decreases missing(all, found@, all.len()),
    {
        let ghost before = found@;
        let mut i: usize = 0;
        let mut grew = false;
        while i < processes.len()
            invariant
                i <= processes.len(),
                found@.contains(root),
                forall|k: int| 0 <= k < found@.len() ==> descends(all, root, #[trigger] found@[k]),
                missing(all, found@, all.len()) <= missing(all, before, all.len()),
                grew ==> missing(all, found@, all.len()) < missing(all, before, all.len()),
                !grew ==> found@ == before,
                !grew ==> forall|j: int|
                    0 <= j < i && found@.contains(all[j].parent_pid) ==> found@.contains(
                        (#[trigger] all[j]).pid,
                    ),
            decreases processes.len() - i,
        {
            assert(all[i as int] == processes@[i as int]@);
            let pid: u32 = processes[i].pid;
            if holds(&found, processes[i].parent_pid) && !holds(&found, pid) {
                proof {
                    let k = choose|k: int|
                        0 <= k < found@.len() && found@[k] == all[i as int].parent_pid;
                    assert(descends(all, root, found@[k]));
                    child_descends(all, root, i as int);
                    missing_shrinks(all, found@, pid, all.len(), i as int);
                }
                let ghost now = found@;
                found.push(pid);
                proof {
                    let r = choose|k: int| 0 <= k < now.len() && now[k] == root;
                    assert(found@[r] == root);
                }
                grew = true;
            }
            i += 1;
        }
        if !grew {
            proof {
                assert forall|pid: u32|
                    found@.contains(pid) <==> #[trigger] descends(all, root, pid) by {
                    if found@.contains(pid) {
                        let k = choose|k: int| 0 <= k < found@.len() && found@[k] == pid;
                        assert(descends(all, root, found@[k]));
                    }
                    if descends(all, root, pid) {
                        let n = choose|n: nat| below(all, root, pid, n);
                        closed_holds_descendants(all, root, found@, pid, n);
                    }
                }
            }
            return found;
        }
    }
}

/// The root and every process below it.
pub fn descendants(processes: &Vec<ProcessEvidence>, root: u32) -> (r: Vec<ProcessEvidence>)
    ensures
        evidence_list(r@) == tree_of(
            evidence_list(processes@),
            evidence_list(processes@),
            root,
        ),
{
    let found = tree_numbers(processes, root);
    let ghost all = evidence_list(processes@);
    let mut r: Vec<ProcessEvidence> = Vec::new();
    let mut i: usize = 0;
    assert(evidence_list(r@) =~= tree_of(all.take(0), all, root));
    while i < processes.len()
        invariant
            i <= processes.len(),
            evidence_list(r@) == tree_of(all.take(i as int), all, root),
        decreases processes.len() - i,
    {
        proof {
            assert(all.take(i + 1).drop_last() =~= all.take(i as int));
            assert(all.take(i + 1).last() == processes@[i as int]@);
            assert(descends(all, root, all[i as int].pid) == found@.contains(
                all[i as int].pid,
            ));
        }
        if holds(&found, processes[i].pid) {
            let ghost before = evidence_list(r@);
            let one = processes[i].copy();
            r.push(one);
            assert(evidence_list(r@) =~= before.push(all[i as int]));
        }
        i += 1;
    }
    assert(all.take(all.len() as int) =~= all);
    r
}

/// A process whose parent is not below a root is not below it either, unless it
/// is the root: a chain that was broken is not followed.
pub proof fn a_broken_chain_is_not_followed(processes: Seq<EvidenceModel>, root: u32, pid: u32)
    requires
        pid != root,
        forall|i: int|
            0 <= i < processes.len() && (#[trigger] processes[i]).pid == pid ==> !descends(
                processes,
                root,
                processes[i].parent_pid,
            ),
    ensures
        !descends(processes, root, pid),
{
    if descends(processes, root, pid) {
        let n = choose|n: nat| below(processes, root, pid, n);
        not_below(processes, root, pid, n);
    }
}

proof fn not_below(processes: Seq<EvidenceModel>, root: u32, pid: u32, n: nat)
    requires
        pid != root,
        forall|i: int|
            0 <= i < processes.len() && (#[trigger] processes[i]).pid == pid ==> !descends(
                processes,
                root,
                processes[i].parent_pid,
            ),
    ensures
        !below(processes, root, pid, n),
    decreases n,
{
    if n > 0 {
        not_below(processes, root, pid, (n - 1) as nat);
        if below(processes, root, pid, n) {
            let i = choose|i: int|
                0 <= i < processes.len() && (#[trigger] processes[i]).pid == pid && below(
                    processes,
                    root,
                    processes[i].parent_pid,
                    (n - 1) as nat,
                );
            assert(descends(processes, root, processes[i].parent_pid));
        }
    }
}

// ---------------------------------------------------------------------------
// Order and groups
// ---------------------------------------------------------------------------

/// A process put into a list ordered by number, behind its equals.
pub open spec fn inserted(list: Seq<EvidenceModel>, e: EvidenceModel) -> Seq<EvidenceModel>
    decreases list.len(),
{
    if list.len() > 0 && e.pid < list.last().pid {
        inserted(list.drop_last(), e).push(list.last())
    } else {
        list.push(e)
    }
}

/// Processes ordered by their numbers.
pub open spec fn ordered(list: Seq<EvidenceModel>) -> Seq<EvidenceModel>
    decreases list.len(),
{
    if list.len() == 0 {
        Seq::empty()
    } else {
        inserted(ordered(list.drop_last()), list.last())
    }
}

pub(crate) fn insert_process(list: Vec<ProcessEvidence>, e: ProcessEvidence) -> (r: Vec<
    ProcessEvidence,
>)
    ensures
        evidence_list(r@) == inserted(evidence_list(list@), e@),
    decreases list@.len(),
{
    let mut list = list;
    let ghost before = evidence_list(list@);
    if list.len() > 0 {
        let n: usize = list.len() - 1;
        assert(before.last() == list@[n as int]@);
        if e.pid < list[n].pid {
            match list.pop() {
                Some(last) => {
                    assert(evidence_list(list@) =~= before.drop_last());
                    let mut r = insert_process(list, e);
                    let ghost rest = evidence_list(r@);
                    r.push(last);
                    assert(evidence_list(r@) =~= rest.push(before.last()));
                    return r;
                },
                None => {
                    return list;
                },
            }
        }
    }
    let ghost one = e@;
    list.push(e);
    assert(evidence_list(list@) =~= before.push(one));
    list
}

/// The foreground group of a terminal leader: those of the processes that are in
/// that group on that terminal.
pub open spec fn group_of(processes: Seq<EvidenceModel>, pane: EvidenceModel) -> Seq<EvidenceModel>
    decreases processes.len(),
{
    if processes.len() == 0 {
        Seq::empty()
    } else {
        let rest = group_of(processes.drop_last(), pane);
        let e = processes.last();
        if e.pgrp == pane.tpgid && e.tty_nr == pane.tty_nr {
            rest.push(e)
        } else {
            rest
        }
    }
}

pub fn foreground_group(processes: &Vec<ProcessEvidence>, pane: &ProcessEvidence) -> (r: Vec<
    ProcessEvidence,
>)
    ensures
        evidence_list(r@) == group_of(evidence_list(processes@), pane@),
{
    let ghost all = evidence_list(processes@);
    let mut r: Vec<ProcessEvidence> = Vec::new();
    let mut i: usize = 0;
    assert(evidence_list(r@) =~= group_of(all.take(0), pane@));
    while i < processes.len()
        invariant
            i <= processes.len(),
            evidence_list(r@) == group_of(all.take(i as int), pane@),
        decreases processes.len() - i,
    {
        proof {
            assert(all.take(i + 1).drop_last() =~= all.take(i as int));
            assert(all.take(i + 1).last() == processes@[i as int]@);
        }
        if processes[i].pgrp == pane.tpgid && processes[i].tty_nr == pane.tty_nr {
            let ghost before = evidence_list(r@);
            let one = processes[i].copy();
            r.push(one);
            assert(evidence_list(r@) =~= before.push(all[i as int]));
        }
        i += 1;
    }
    assert(all.take(all.len() as int) =~= all);
    r
}

/// Those of the processes that are on a terminal.
pub open spec fn on_terminal(processes: Seq<EvidenceModel>, tty_nr: i64) -> Seq<EvidenceModel>
    decreases processes.len(),
{
    if processes.len() == 0 {
        Seq::empty()
    } else {
        let rest = on_terminal(processes.drop_last(), tty_nr);
        if processes.last().tty_nr == tty_nr {
            rest.push(processes.last())
        } else {
            rest
        }
    }
}

pub fn terminal_processes(processes: &Vec<ProcessEvidence>, tty_nr: i64) -> (r: Vec<
    ProcessEvidence,
>)
    ensures
        evidence_list(r@) == on_terminal(evidence_list(processes@), tty_nr),
{
    let ghost all = evidence_list(processes@);
    let mut r: Vec<ProcessEvidence> = Vec::new();
    let mut i: usize = 0;
    assert(evidence_list(r@) =~= on_terminal(all.take(0), tty_nr));
    while i < processes.len()
        invariant
            i <= processes.len(),
            evidence_list(r@) == on_terminal(all.take(i as int), tty_nr),
        decreases processes.len() - i,
    {
        proof {
            assert(all.take(i + 1).drop_last() =~= all.take(i as int));
            assert(all.take(i + 1).last() == processes@[i as int]@);
        }
        if processes[i].tty_nr == tty_nr {
            let ghost before = evidence_list(r@);
            let one = processes[i].copy();
            r.push(one);
            assert(evidence_list(r@) =~= before.push(all[i as int]));
        }
        i += 1;
    }
    assert(all.take(all.len() as int) =~= all);
    r
}

/// The terminal number of a device: its major and minor numbers, put together
/// the way stat files write them, are the device number itself.
pub fn tty_number(device: u64) -> (r: i64)
    ensures
        r == device as i64,
{
    let major: u64 = ((device >> 8) & 0x0fff) | ((device >> 32) & !0x0fffu64);
    let minor: u64 = (device & 0x00ff) | ((device >> 12) & !0x00ffu64);
    let number: u64 = ((major & 0x0fff) << 8) | (minor & 0x00ff) | ((minor & !0x00ffu64) << 12) | ((
    major & !0x0fffu64) << 32);
    assert(number == device) by (bit_vector)
        requires
            major == ((device >> 8) & 0x0fff) | ((device >> 32) & !0x0fffu64),
            minor == (device & 0x00ff) | ((device >> 12) & !0x00ffu64),
            number == ((major & 0x0fff) << 8) | (minor & 0x00ff) | ((minor & !0x00ffu64) << 12)
                | ((major & !0x0fffu64) << 32),
    ;
    number as i64
}

} // verus!
