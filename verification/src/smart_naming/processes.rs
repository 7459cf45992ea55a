//! Processes of a pane: who started whom, and who is still who.

use vstd::prelude::*;
use crate::error;
use crate::error::{ErrorModel, MuxError};
use crate::number;
use crate::scan;
use crate::scan::split_whitespace;
use crate::smart_naming::title;
use crate::smart_naming::title::protocol;
use crate::text;
use crate::text::{slice_text, to_chars};

verus! {

/// Most processes that are looked at.
pub const MAX_PROCESS_ENTRIES: usize = 100_000;

/// Most descriptors of one process that are looked at.
pub const MAX_PROCESS_FDS: usize = 512;

/// Most descriptors that one search looks at.
pub const MAX_PROCESS_SCAN_FDS: usize = 8_192;

/// Most bytes that one search reads.
pub const MAX_PROCESS_SCAN_BYTES: u64 = 32 * 1024 * 1024;

/// Most ancestors that are followed.
pub const MAX_ANCESTORS: usize = 128;

// ---------------------------------------------------------------------------
// The stat file
// ---------------------------------------------------------------------------

/// What stands behind the last `) ` that begins at or before a place.
pub open spec fn after_last_close(stat: Seq<char>, n: int) -> Option<Seq<char>>
    decreases n + 1,
{
    if n < 0 {
        None
    } else if n + 2 <= stat.len() && stat[n] == ')' && stat[n + 1] == ' ' {
        Some(stat.skip(n + 2))
    } else {
        after_last_close(stat, n - 1)
    }
}

/// The parent and the start time that a stat file gives.
pub open spec fn stat_identity(stat: Seq<char>) -> Result<(u32, u64), ErrorModel> {
    match after_last_close(stat, stat.len() - 1) {
        None => Err(title::protocol_error("process stat is malformed"@)),
        Some(rest) => {
            let fields = scan::words(rest);
            let parent = if fields.len() > 1 {
                number::unsigned_value(fields[1], u32::MAX as nat)
            } else {
                None
            };
            let started = if fields.len() > 19 {
                number::unsigned_value(fields[19], u64::MAX as nat)
            } else {
                None
            };
            if parent is None {
                Err(title::protocol_error("process parent is malformed"@))
            } else if started is None {
                Err(title::protocol_error("process start time is malformed"@))
            } else {
                Ok((parent->0 as u32, started->0 as u64))
            }
        },
    }
}

/// The fields of a stat file behind the command name.
pub fn stat_rest(stat: &str) -> (r: Option<String>)
    ensures
        text::option_view(r) == after_last_close(stat@, stat@.len() - 1),
{
    let v = to_chars(stat);
    let len: usize = v.len();
    let mut n: usize = len;
    while n > 0
        invariant
            n <= len == v@.len(),
            v@ == stat@,
            after_last_close(stat@, len - 1) == after_last_close(stat@, n - 1),
        decreases n,
    {
        if n < len && v[n - 1] == ')' && v[n] == ' ' {
            let rest = slice_text(&v, n + 1, len);
            assert(rest@ =~= stat@.skip(n + 1));
            return Some(rest);
        }
        n -= 1;
    }
    None
}

/// The parent and the start time that a stat file gives.
pub fn process_stat_identity(stat: &str) -> (r: Result<(u32, u64), MuxError>)
    ensures
        error::outcome(r) == stat_identity(stat@),
{
    let Some(rest) = stat_rest(stat) else {
        return Err(protocol("process stat is malformed"));
    };
    let fields = split_whitespace(&rest);
    let ghost all = scan::words(rest@);
    assert(all.len() == fields.len());
    let parent: Option<u32> = if fields.len() > 1 {
        assert(all[1] == fields@[1]@);
        number::parse_u32(&fields[1])
    } else {
        None
    };
    let started: Option<u64> = if fields.len() > 19 {
        assert(all[19] == fields@[19]@);
        number::parse_u64(&fields[19])
    } else {
        None
    };
    match parent {
        None => Err(protocol("process parent is malformed")),
        Some(parent) => match started {
            None => Err(protocol("process start time is malformed")),
            Some(started) => Ok((parent, started)),
        },
    }
}

// ---------------------------------------------------------------------------
// The process table
// ---------------------------------------------------------------------------

/// A process: its parent and its start time, which tells a reused number apart.
#[derive(Clone, Copy, Debug, PartialEq, Eq, Structural)]
pub struct ProcessEntry {
    pub pid: u32,
    pub parent: u32,
    pub started: u64,
}

/// The place of a process in a table.
pub open spec fn entry_place(table: Seq<ProcessEntry>, pid: u32, i: int) -> int
    decreases table.len() - i,
{
    if i < 0 || i >= table.len() || table[i].pid == pid {
        i
    } else {
        entry_place(table, pid, i + 1)
    }
}

/// The parent and the start time of a process in a table.
pub open spec fn identity_of(table: Seq<ProcessEntry>, pid: u32) -> Option<(u32, u64)> {
    let i = entry_place(table, pid, 0);
    if i < table.len() {
        Some((table[i].parent, table[i].started))
    } else {
        None
    }
}

pub fn find_identity(table: &Vec<ProcessEntry>, pid: u32) -> (r: Option<(u32, u64)>)
    ensures
        r == identity_of(table@, pid),
{
    let mut i: usize = 0;
    while i < table.len()
        invariant
            i <= table.len(),
            entry_place(table@, pid, 0) == entry_place(table@, pid, i as int),
        decreases table.len() - i,
    {
        if table[i].pid == pid {
            return Some((table[i].parent, table[i].started));
        }
        i += 1;
    }
    None
}

/// A process is another one or was started by it, directly or through others, within
/// a number of generations.
pub open spec fn reaches(table: Seq<ProcessEntry>, pid: u32, root: u32, steps: nat) -> bool
    decreases steps,
{
    if steps == 0 {
        false
    } else if pid == root {
        true
    } else {
        match identity_of(table, pid) {
            None => false,
            Some((parent, _)) => parent != 0 && parent != pid && reaches(
                table,
                parent,
                root,
                (steps - 1) as nat,
            ),
        }
    }
}

pub open spec fn is_descendant(table: Seq<ProcessEntry>, pid: u32, root: u32) -> bool {
    reaches(table, pid, root, MAX_ANCESTORS as nat)
}

/// Whether a process is another one or descends from it.
pub fn descends_from(pid: u32, root: u32, table: &Vec<ProcessEntry>) -> (r: bool)
    ensures
        r == is_descendant(table@, pid, root),
{
    let mut current: u32 = pid;
    let mut steps: usize = MAX_ANCESTORS;
    while steps > 0
        invariant
            steps <= MAX_ANCESTORS,
            is_descendant(table@, pid, root) == reaches(table@, current, root, steps as nat),
        decreases steps,
    {
        if current == root {
            return true;
        }
        match find_identity(table, current) {
            None => return false,
            Some((parent, _)) => {
                if parent == 0 || parent == current {
                    return false;
                }
                current = parent;
            },
        }
        steps -= 1;
    }
    false
}

/// A process descends from itself, and nothing descends from a process that no table
/// knows but that process.
pub proof fn descent_starts_at_itself(table: Seq<ProcessEntry>, pid: u32, root: u32)
    ensures
        is_descendant(table, root, root),
        identity_of(table, pid) is None && pid != root ==> !is_descendant(table, pid, root),
{
}

// ---------------------------------------------------------------------------
// The live chain
// ---------------------------------------------------------------------------

/// What the system says of processes now.
pub trait LiveProcesses {
    /// The parent and the start time of a process, where it can be read.
    fn identity(&mut self, pid: u32) -> Option<(u32, u64)>;
}

/// The chain from a process to a root, link by link as a table has it.
pub open spec fn chain(
    table: Seq<ProcessEntry>,
    pid: u32,
    expected: (u32, u64),
    root: u32,
    root_identity: (u32, u64),
    steps: nat,
) -> bool
    decreases steps,
{
    if pid == root {
        expected == root_identity
    } else if steps == 0 {
        false
    } else {
        identity_of(table, pid) == Some(expected) && identity_of(table, expected.0) is Some
            && chain(
            table,
            expected.0,
            identity_of(table, expected.0)->0,
            root,
            root_identity,
            (steps - 1) as nat,
        )
    }
}

/// The links from a process to a root as a table has them, the root last; `None` where
/// the table has no such chain.
pub open spec fn links(
    table: Seq<ProcessEntry>,
    pid: u32,
    expected: (u32, u64),
    root: u32,
    root_identity: (u32, u64),
    steps: nat,
) -> Option<Seq<ProcessEntry>>
    decreases steps,
{
    let link = ProcessEntry { pid, parent: expected.0, started: expected.1 };
    if pid == root {
        if expected == root_identity {
            Some(seq![link])
        } else {
            None
        }
    } else if steps == 0 || identity_of(table, pid) != Some(expected) {
        None
    } else {
        match identity_of(table, expected.0) {
            None => None,
            Some(next) => match links(
                table,
                expected.0,
                next,
                root,
                root_identity,
                (steps - 1) as nat,
            ) {
                None => None,
                Some(rest) => Some(seq![link] + rest),
            },
        }
    }
}

proof fn links_follow_a_chain(
    table: Seq<ProcessEntry>,
    pid: u32,
    expected: (u32, u64),
    root: u32,
    root_identity: (u32, u64),
    steps: nat,
)
    ensures
        links(table, pid, expected, root, root_identity, steps) is Some <==> chain(
            table,
            pid,
            expected,
            root,
            root_identity,
            steps,
        ),
    decreases steps,
{
    if pid != root && steps > 0 && identity_of(table, expected.0) is Some {
        links_follow_a_chain(
            table,
            expected.0,
            identity_of(table, expected.0)->0,
            root,
            root_identity,
            (steps - 1) as nat,
        );
    }
}

/// Finds the links from a process to a root.
pub fn chain_links(
    pid: u32,
    identity: (u32, u64),
    root: u32,
    root_identity: (u32, u64),
    table: &Vec<ProcessEntry>,
) -> (r: Option<Vec<ProcessEntry>>)
    ensures
        match r {
            Some(found) => links(table@, pid, identity, root, root_identity, table@.len()) == Some(
                found@,
            ),
            None => links(table@, pid, identity, root, root_identity, table@.len()) is None,
        },
{
    let mut found: Vec<ProcessEntry> = Vec::new();
    let mut current: u32 = pid;
    let mut expected: (u32, u64) = identity;
    let mut steps: usize = table.len();
    proof {
        let all = links(table@, pid, identity, root, root_identity, table@.len());
        if all is Some {
            assert(found@ + all->0 =~= all->0);
        }
    }
    while current != root
        invariant
            steps <= table.len(),
            links(table@, pid, identity, root, root_identity, table@.len()) == match links(
                table@,
                current,
                expected,
                root,
                root_identity,
                steps as nat,
            ) {
                None => None,
                Some(rest) => Some(found@ + rest),
            },
        decreases steps,
    {
        if steps == 0 {
            return None;
        }
        match find_identity(table, current) {
            Some(seen) => {
                if seen.0 != expected.0 || seen.1 != expected.1 {
                    return None;
                }
            },
            None => return None,
        }
        match find_identity(table, expected.0) {
            Some(next) => {
                let ghost before = found@;
                let link = ProcessEntry {
                    pid: current,
                    parent: expected.0,
                    started: expected.1,
                };
                found.push(link);
                proof {
                    let rest = links(
                        table@,
                        expected.0,
                        next,
                        root,
                        root_identity,
                        (steps - 1) as nat,
                    );
                    if rest is Some {
                        assert(before + (seq![link] + rest->0) =~= found@ + rest->0);
                    }
                }
                current = expected.0;
                expected = next;
            },
            None => return None,
        }
        steps -= 1;
    }
    if expected.0 != root_identity.0 || expected.1 != root_identity.1 {
        return None;
    }
    let ghost before = found@;
    let last = ProcessEntry { pid: root, parent: expected.0, started: expected.1 };
    found.push(last);
    assert(before + seq![last] =~= found@);
    Some(found)
}

/// Whether a process still descends from a root exactly as a table has it, every link
/// read again.
pub fn revalidate_descendant<L: LiveProcesses>(
    pid: u32,
    identity: (u32, u64),
    root: u32,
    root_identity: (u32, u64),
    table: &Vec<ProcessEntry>,
    live: &mut L,
) -> (r: bool)
    ensures
        r ==> chain(table@, pid, identity, root, root_identity, table@.len()),
{
    proof {
        links_follow_a_chain(table@, pid, identity, root, root_identity, table@.len());
    }
    let Some(found) = chain_links(pid, identity, root, root_identity, table) else {
        return false;
    };
    let mut i: usize = 0;
    while i < found.len()
        invariant
            i <= found.len(),
        decreases found.len() - i,
    {
        match live.identity(found[i].pid) {
            Some(seen) => {
                if seen.0 != found[i].parent || seen.1 != found[i].started {
                    return false;
                }
            },
            None => return false,
        }
        i += 1;
    }
    true
}

// ---------------------------------------------------------------------------
// The budget of a search
// ---------------------------------------------------------------------------

/// What a search has spent, as contracts speak of it.
#[verifier::ext_equal]
pub struct Spent {
    pub fds: nat,
    pub bytes: nat,
}

/// Spends a descriptor.
pub open spec fn fd_spent(cancelled: bool, s: Spent) -> (Result<(), ErrorModel>, Spent) {
    if cancelled {
        (Err(ErrorModel::Cancelled), s)
    } else if s.fds >= MAX_PROCESS_SCAN_FDS {
        (
            Err(
                title::protocol_error(
                    "process rollout discovery exceeded its descriptor budget"@,
                ),
            ),
            s,
        )
    } else {
        (Ok(()), Spent { fds: s.fds + 1, bytes: s.bytes })
    }
}

/// Spends some bytes.
pub open spec fn bytes_spent(cancelled: bool, count: nat, s: Spent) -> (
    Result<(), ErrorModel>,
    Spent,
) {
    if cancelled {
        (Err(ErrorModel::Cancelled), s)
    } else if s.bytes + count > MAX_PROCESS_SCAN_BYTES {
        (
            Err(title::protocol_error("process rollout discovery exceeded its byte budget"@)),
            s,
        )
    } else {
        (Ok(()), Spent { fds: s.fds, bytes: s.bytes + count })
    }
}

/// What a search has spent.
#[derive(Debug)]
pub struct ProcessScanBudget {
    pub fds: usize,
    pub bytes: u64,
}

impl ProcessScanBudget {
    /// No more was spent than is allowed.
    pub open spec fn kept(&self) -> bool {
        self.fds <= MAX_PROCESS_SCAN_FDS && self.bytes <= MAX_PROCESS_SCAN_BYTES
    }

    pub open spec fn spent(&self) -> Spent {
        Spent { fds: self.fds as nat, bytes: self.bytes as nat }
    }

    pub fn new() -> (r: Self)
        ensures
            r.spent() == (Spent { fds: 0, bytes: 0 }),
            r.kept(),
    {
        ProcessScanBudget { fds: 0, bytes: 0 }
    }

    /// Spends a descriptor.
    pub fn fd(&mut self, cancelled: bool) -> (r: Result<(), MuxError>)
        requires
            old(self).kept(),
        ensures
            final(self).kept(),
            (error::outcome(r), final(self).spent()) == fd_spent(cancelled, old(self).spent()),
    {
        if cancelled {
            return Err(MuxError::Cancelled);
        }
        if self.fds >= MAX_PROCESS_SCAN_FDS {
            return Err(protocol("process rollout discovery exceeded its descriptor budget"));
        }
        self.fds += 1;
        Ok(())
    }

    /// Spends some bytes.
    pub fn bytes(&mut self, cancelled: bool, count: u64) -> (r: Result<(), MuxError>)
        requires
            old(self).kept(),
        ensures
            final(self).kept(),
            (error::outcome(r), final(self).spent()) == bytes_spent(
                cancelled,
                count as nat,
                old(self).spent(),
            ),
    {
        if cancelled {
            return Err(MuxError::Cancelled);
        }
        if count > MAX_PROCESS_SCAN_BYTES - self.bytes {
            return Err(protocol("process rollout discovery exceeded its byte budget"));
        }
        self.bytes += count;
        Ok(())
    }
}

} // verus!
