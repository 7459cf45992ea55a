//! What the open descriptors of a process prove.

use vstd::prelude::*;
use crate::error::{ErrorModel, MuxError};
use crate::linux_process::evidence;
use crate::linux_process::evidence::split_arguments;
use crate::number;
use crate::path;
use crate::path::UnixPath;
use crate::scan;
use crate::scan::{split_whitespace, strip_prefix, text_lines};
use crate::smart_naming::processes::{ProcessScanBudget, Spent, MAX_PROCESS_FDS};
use crate::smart_naming::processes;
use crate::smart_naming::rollout;
use crate::smart_naming::rollout::{
    rollout_is_root_identity, rollout_thread_id, searched_bytes, validate_rollout_file, EntryFacts,
};
use crate::smart_naming::title;
use crate::smart_naming::title::protocol;
use crate::text;
use crate::text::{put, read_utf8, slice_text, text_equal, to_chars};

verus! {

// ---------------------------------------------------------------------------
// The flags of a descriptor
// ---------------------------------------------------------------------------

/// The flags and the inode of a descriptor.
#[derive(Clone, Copy, Debug, PartialEq, Eq, Structural)]
pub struct FdInfo {
    pub flags: u32,
    pub ino: u64,
}

/// The value of octal digits.
pub open spec fn octal_value(s: Seq<char>) -> nat
    decreases s.len(),
{
    if s.len() == 0 {
        0
    } else {
        octal_value(s.drop_last()) * 8 + (s.last() as nat - '0' as nat) as nat
    }
}

pub open spec fn all_octal(s: Seq<char>) -> bool {
    forall|i: int| 0 <= i < s.len() ==> '0' <= #[trigger] s[i] <= '7'
}

/// An octal number that fits thirty-two bits, with or without a plus sign.
pub open spec fn octal_number(s: Seq<char>) -> Option<nat> {
    let digits = if s.len() > 0 && s[0] == '+' {
        s.skip(1)
    } else {
        s
    };
    if digits.len() > 0 && all_octal(digits) && octal_value(digits) <= u32::MAX {
        Some(octal_value(digits))
    } else {
        None
    }
}

proof fn octal_grows(s: Seq<char>, i: int)
    requires
        0 <= i <= s.len(),
        all_octal(s),
    ensures
        octal_value(s.take(i)) <= octal_value(s),
    decreases s.len(),
{
    if i < s.len() {
        assert forall|k: int| 0 <= k < s.drop_last().len() implies '0' <= #[trigger] s.drop_last()[k]
            <= '7' by {
            assert(s.drop_last()[k] == s[k]);
        }
        octal_grows(s.drop_last(), i);
        assert(s.drop_last().take(i) =~= s.take(i));
    } else {
        assert(s.take(i) =~= s);
    }
}

/// `u32::from_str_radix` with base eight.
pub fn parse_octal(s: &str) -> (r: Option<u32>)
    ensures
        match r {
            Some(n) => octal_number(s@) == Some(n as nat),
            None => octal_number(s@) is None,
        },
{
    let v = to_chars(s);
    let len: usize = v.len();
    let start: usize = if len > 0 && v[0] == '+' {
        1
    } else {
        0
    };
    let ghost digits = if s@.len() > 0 && s@[0] == '+' {
        s@.skip(1)
    } else {
        s@
    };
    assert(digits =~= s@.skip(start as int));
    if start >= len {
        return None;
    }
    let mut total: u32 = 0;
    let mut i: usize = start;
    assert(digits.take(0) =~= Seq::<char>::empty());
    while i < len
        invariant
            start <= i <= len == v@.len(),
            v@ == s@,
            digits == s@.skip(start as int),
            total == octal_value(digits.take(i - start)),
            all_octal(digits.take(i - start)),
        decreases len - i,
    {
        let c: char = v[i];
        assert(digits[i - start] == c);
        if c < '0' || c > '7' {
            assert(!all_octal(digits));
            return None;
        }
        let d: u32 = c as u32 - '0' as u32;
        proof {
            let now = digits.take(i - start + 1);
            assert(now.drop_last() =~= digits.take(i - start));
            assert(now.last() == c);
            assert forall|k: int| 0 <= k < now.len() implies '0' <= #[trigger] now[k] <= '7' by {
                if k < i - start {
                    assert(digits.take(i - start)[k] == now[k]);
                }
            }
        }
        if total > (u32::MAX - d) / 8 {
            proof {
                if all_octal(digits) {
                    octal_grows(digits, i - start + 1);
                }
            }
            return None;
        }
        total = total * 8 + d;
        i += 1;
    }
    assert(digits.take(digits.len() as int) =~= digits);
    Some(total)
}

/// The first line of a list that has a prefix and a number behind it that is read.
pub open spec fn first_octal(lines: Seq<Seq<char>>, prefix: Seq<char>, i: int) -> Option<nat>
    decreases lines.len() - i,
{
    if i < 0 || i >= lines.len() {
        None
    } else if prefix.is_prefix_of(lines[i]) && octal_number(
        lines[i].skip(prefix.len() as int),
    ) is Some {
        octal_number(lines[i].skip(prefix.len() as int))
    } else {
        first_octal(lines, prefix, i + 1)
    }
}

pub open spec fn first_decimal(lines: Seq<Seq<char>>, prefix: Seq<char>, i: int) -> Option<nat>
    decreases lines.len() - i,
{
    if i < 0 || i >= lines.len() {
        None
    } else if prefix.is_prefix_of(lines[i]) && number::unsigned_value(
        lines[i].skip(prefix.len() as int),
        u64::MAX as nat,
    ) is Some {
        number::unsigned_value(lines[i].skip(prefix.len() as int), u64::MAX as nat)
    } else {
        first_decimal(lines, prefix, i + 1)
    }
}

/// The flags and the inode in an fdinfo file.
pub open spec fn fd_facts(contents: Seq<char>) -> Option<(nat, nat)> {
    let lines = scan::lines(contents);
    match (first_octal(lines, "flags:\t"@, 0), first_decimal(lines, "ino:\t"@, 0)) {
        (Some(flags), Some(ino)) => Some((flags, ino)),
        _ => None,
    }
}

fn find_octal(lines: &Vec<String>, prefix: &str) -> (r: Option<u32>)
    ensures
        match r {
            Some(n) => first_octal(text::texts(lines@), prefix@, 0) == Some(n as nat),
            None => first_octal(text::texts(lines@), prefix@, 0) is None,
        },
{
    let ghost all = text::texts(lines@);
    let mut i: usize = 0;
    while i < lines.len()
        invariant
            i <= lines.len(),
            all == text::texts(lines@),
            first_octal(all, prefix@, 0) == first_octal(all, prefix@, i as int),
        decreases lines.len() - i,
    {
        assert(all[i as int] == lines@[i as int]@);
        if let Some(rest) = strip_prefix(&lines[i], prefix) {
            if let Some(n) = parse_octal(&rest) {
                return Some(n);
            }
        }
        i += 1;
    }
    None
}

fn find_decimal(lines: &Vec<String>, prefix: &str) -> (r: Option<u64>)
    ensures
        match r {
            Some(n) => first_decimal(text::texts(lines@), prefix@, 0) == Some(n as nat),
            None => first_decimal(text::texts(lines@), prefix@, 0) is None,
        },
{
    let ghost all = text::texts(lines@);
    let mut i: usize = 0;
    while i < lines.len()
        invariant
            i <= lines.len(),
            all == text::texts(lines@),
            first_decimal(all, prefix@, 0) == first_decimal(all, prefix@, i as int),
        decreases lines.len() - i,
    {
        assert(all[i as int] == lines@[i as int]@);
        if let Some(rest) = strip_prefix(&lines[i], prefix) {
            if let Some(n) = number::parse_u64(&rest) {
                return Some(n);
            }
        }
        i += 1;
    }
    None
}

/// Reads an fdinfo file.
pub fn fd_info(contents: &str) -> (r: Option<FdInfo>)
    ensures
        match r {
            Some(info) => fd_facts(contents@) == Some((info.flags as nat, info.ino as nat)),
            None => fd_facts(contents@) is None,
        },
{
    let lines = text_lines(contents);
    match find_octal(&lines, "flags:\t") {
        Some(flags) => match find_decimal(&lines, "ino:\t") {
            Some(ino) => Some(FdInfo { flags, ino }),
            None => None,
        },
        None => None,
    }
}

// ---------------------------------------------------------------------------
// Sockets
// ---------------------------------------------------------------------------

/// The inode in the target of a descriptor that is a socket: `socket:[inode]`.
pub open spec fn socket_target(target: Seq<char>) -> Option<nat> {
    let head = "socket:["@;
    if head.is_prefix_of(target) && target.len() > head.len() && target.last() == ']' {
        number::unsigned_value(
            target.subrange(head.len() as int, target.len() - 1),
            u32::MAX as nat,
        )
    } else {
        None
    }
}

pub fn socket_inode(target: &str) -> (r: Option<u32>)
    ensures
        match r {
            Some(n) => socket_target(target@) == Some(n as nat),
            None => socket_target(target@) is None,
        },
{
    let Some(rest) = strip_prefix(target, "socket:[") else {
        return None;
    };
    let v = to_chars(&rest);
    let len: usize = v.len();
    if len == 0 || v[len - 1] != ']' {
        return None;
    }
    let digits = slice_text(&v, 0, len - 1);
    proof {
        let head = "socket:["@;
        assert(rest@ =~= target@.skip(head.len() as int));
        assert(target@.last() == rest@.last());
        assert(digits@ =~= target@.subrange(head.len() as int, target@.len() - 1));
    }
    number::parse_u32(&digits)
}

/// A descriptor as it was looked at: its flags, then where it leads, then its flags
/// again.
#[derive(Debug)]
pub struct SocketDescriptor {
    pub before: Option<FdInfo>,
    pub target: Option<Vec<u8>>,
    pub after: Option<FdInfo>,
}

/// The bit that marks a descriptor as not passed on to other programs.
pub open spec fn is_close_on_exec(flags: u32) -> bool {
    flags & 0o2_000_000 == 0o2_000_000
}

/// The socket that a descriptor is, where it stayed the same while it was looked at.
pub open spec fn proven_socket(d: SocketDescriptor) -> Option<nat> {
    match (d.before, d.target) {
        (Some(before), Some(target)) => if !is_close_on_exec(before.flags) {
            None
        } else {
            match text::utf8_decoded(target@) {
                None => None,
                Some(t) => match socket_target(t) {
                    None => None,
                    Some(inode) => if inode == before.ino && d.after == d.before {
                        Some(inode)
                    } else {
                        None
                    },
                },
            }
        },
        _ => None,
    }
}

pub fn descriptor_socket(d: &SocketDescriptor) -> (r: Option<u32>)
    ensures
        match r {
            Some(n) => proven_socket(*d) == Some(n as nat),
            None => proven_socket(*d) is None,
        },
{
    let (Some(before), Some(target)) = (&d.before, &d.target) else {
        return None;
    };
    if before.flags & 0o2_000_000 != 0o2_000_000 {
        return None;
    }
    let Some(t) = read_utf8(target) else {
        return None;
    };
    let Some(inode) = socket_inode(&t) else {
        return None;
    };
    let Some(after) = &d.after else {
        return None;
    };
    if inode as u64 == before.ino && *after == *before {
        Some(inode)
    } else {
        None
    }
}

/// A set of inodes holds the proven sockets of some descriptors and nothing else.
pub open spec fn is_socket_set(list: Seq<u32>, descriptors: Seq<SocketDescriptor>) -> bool {
    forall|n: u32| #[trigger]
        list.contains(n) <==> exists|i: int|
            0 <= i < descriptors.len() && proven_socket(#[trigger] descriptors[i]) == Some(n as nat)
}

pub fn holds_inode(list: &Vec<u32>, inode: u32) -> (r: bool)
    ensures
        r == list@.contains(inode),
{
    let mut i: usize = 0;
    while i < list.len()
        invariant
            i <= list.len(),
            forall|j: int| 0 <= j < i ==> list@[j] != inode,
        decreases list.len() - i,
    {
        if list[i] == inode {
            return true;
        }
        i += 1;
    }
    false
}

/// The proven sockets of some descriptors, from one on, within a budget.
pub open spec fn sockets_from(
    descriptors: Seq<SocketDescriptor>,
    i: int,
    cancelled: bool,
    s: Spent,
    found: Seq<u32>,
) -> (Result<Seq<u32>, ErrorModel>, Spent)
    decreases descriptors.len() - i,
{
    if i >= descriptors.len() {
        (Ok(found), s)
    } else {
        match processes::fd_spent(cancelled, s) {
            (Err(e), after) => (Err(e), after),
            (Ok(_), after) => if i >= MAX_PROCESS_FDS {
                (
                    Err(title::protocol_error("process exceeded the descriptor scan limit"@)),
                    after,
                )
            } else {
                sockets_from(
                    descriptors,
                    i + 1,
                    cancelled,
                    after,
                    match proven_socket(descriptors[i]) {
                        Some(n) => found.push(n as u32),
                        None => found,
                    },
                )
            },
        }
    }
}

pub open spec fn inodes_outcome(r: Result<Vec<u32>, MuxError>) -> Result<Seq<u32>, ErrorModel> {
    match r {
        Ok(list) => Ok(list@),
        Err(e) => Err(e@),
    }
}

/// The sockets of a process, within the budget of a search.
pub fn process_socket_inodes(
    descriptors: &Vec<SocketDescriptor>,
    cancelled: bool,
    budget: &mut ProcessScanBudget,
) -> (r: Result<Vec<u32>, MuxError>)
    requires
        old(budget).kept(),
    ensures
        final(budget).kept(),
        (inodes_outcome(r), final(budget).spent()) == sockets_from(
            descriptors@,
            0,
            cancelled,
            old(budget).spent(),
            Seq::empty(),
        ),
        r matches Ok(list) ==> is_socket_set(list@, descriptors@),
{
    let mut list: Vec<u32> = Vec::new();
    let mut i: usize = 0;
    while i < descriptors.len()
        invariant
            i <= descriptors.len(),
            budget.kept(),
            sockets_from(descriptors@, 0, cancelled, old(budget).spent(), Seq::empty())
                == sockets_from(descriptors@, i as int, cancelled, budget.spent(), list@),
            forall|n: u32| #[trigger]
                list@.contains(n) <==> exists|k: int|
                    0 <= k < i && proven_socket(#[trigger] descriptors@[k]) == Some(n as nat),
        decreases descriptors.len() - i,
    {
        if let Err(e) = budget.fd(cancelled) {
            return Err(e);
        }
        if i >= MAX_PROCESS_FDS {
            return Err(protocol("process exceeded the descriptor scan limit"));
        }
        let ghost before = list@;
        if let Some(inode) = descriptor_socket(&descriptors[i]) {
            list.push(inode);
            proof {
                assert forall|n: u32| #[trigger] list@.contains(n) <==> before.contains(n) || n
                    == inode by {
                    assert(list@[before.len() as int] == inode);
                    if before.contains(n) {
                        let k = choose|k: int| 0 <= k < before.len() && before[k] == n;
                        assert(list@[k] == n);
                    }
                }
            }
        }
        proof {
            let d = descriptors@[i as int];
            assert forall|n: u32| #[trigger] list@.contains(n) <==> exists|k: int|
                0 <= k < i + 1 && proven_socket(#[trigger] descriptors@[k]) == Some(n as nat) by {
                if before.contains(n) {
                    let k = choose|k: int|
                        0 <= k < i && proven_socket(#[trigger] descriptors@[k]) == Some(n as nat);
                    assert(0 <= k < i + 1 && proven_socket(descriptors@[k]) == Some(n as nat));
                }
                if proven_socket(d) == Some(n as nat) {
                    assert(proven_socket(descriptors@[i as int]) == Some(n as nat));
                }
            }
        }
        i += 1;
    }
    Ok(list)
}

/// The processes that hold a wanted socket, whatever its flags.
pub open spec fn target_inode(target: Option<Vec<u8>>) -> Option<nat> {
    match target {
        Some(bytes) => match text::utf8_decoded(bytes@) {
            Some(t) => socket_target(t),
            None => None,
        },
        None => None,
    }
}

/// The socket that a descriptor leads to, whatever its flags.
pub fn owned_socket(target: &Option<Vec<u8>>) -> (r: Option<u32>)
    ensures
        match r {
            Some(n) => target_inode(*target) == Some(n as nat),
            None => target_inode(*target) is None,
        },
{
    match target {
        Some(bytes) => match read_utf8(bytes) {
            Some(t) => socket_inode(&t),
            None => None,
        },
        None => None,
    }
}

// ---------------------------------------------------------------------------
// Rollouts
// ---------------------------------------------------------------------------

/// A descriptor that may be a rollout: its flags, the file behind it, then its flags
/// again.
#[derive(Debug)]
pub struct RolloutDescriptor {
    pub before: Option<FdInfo>,
    /// The file behind it, where it can be opened.
    pub file: Option<OpenedFile>,
    pub after: Option<FdInfo>,
}

#[derive(Debug)]
pub struct OpenedFile {
    pub ino: Option<u64>,
    /// Where the file is.
    pub actual: Option<UnixPath>,
    pub facts: EntryFacts,
    /// The start of the file, one byte more than is searched at most.
    pub start: Vec<u8>,
}

/// A descriptor for reading and appending that is not passed on to other programs.
pub open spec fn is_recording(flags: u32) -> bool {
    flags & 0o2_002_003 == 0o2_002_002
}

/// The path of a descriptor that may be a rollout below a root.
pub open spec fn rollout_path(d: RolloutDescriptor, root: Seq<u8>) -> Option<Seq<u8>> {
    match (d.before, d.file) {
        (Some(before), Some(file)) => if is_recording(before.flags) && file.ino == Some(before.ino)
            && file.actual is Some && path::is_under(file.actual->0@, root) {
            Some(file.actual->0@)
        } else {
            None
        },
        _ => None,
    }
}

/// The thread of a rollout that a descriptor records, where it is the rollout of a
/// root session: `Ok(None)` where it is none, an error where it cannot be trusted.
pub open spec fn recorded_thread(d: RolloutDescriptor, root: Seq<u8>, user: u32) -> Result<
    Option<Seq<char>>,
    ErrorModel,
> {
    match rollout_path(d, root) {
        None => Ok(None),
        Some(p) => match rollout::path_thread(p) {
            None => Ok(None),
            Some(id) => if !rollout::is_private_file(d.file->0.facts, user) {
                Err(
                    title::protocol_error(
                        "rollout is not a private owned single-link regular file"@,
                    ),
                )
            } else {
                match rollout::root_identity(d.file->0.start@, id) {
                    Err(e) => Err(e),
                    Ok(true) => if d.after == d.before {
                        Ok(Some(id))
                    } else {
                        Ok(None)
                    },
                    Ok(false) => Ok(None),
                }
            },
        },
    }
}

pub open spec fn thread_outcome(r: Result<Option<String>, MuxError>) -> Result<
    Option<Seq<char>>,
    ErrorModel,
> {
    match r {
        Ok(found) => Ok(text::option_view(found)),
        Err(e) => Err(e@),
    }
}

/// The thread of a rollout that a descriptor records.
pub fn descriptor_thread(d: &RolloutDescriptor, root: &UnixPath, user: u32) -> (r: Result<
    Option<String>,
    MuxError,
>)
    ensures
        thread_outcome(r) == recorded_thread(*d, root@, user),
{
    let (Some(before), Some(file)) = (&d.before, &d.file) else {
        return Ok(None);
    };
    if before.flags & 0o2_002_003 != 0o2_002_002 {
        return Ok(None);
    }
    let same = match file.ino {
        Some(ino) => ino == before.ino,
        None => false,
    };
    if !same {
        return Ok(None);
    }
    let Some(actual) = &file.actual else {
        return Ok(None);
    };
    if !actual.starts_with(root) {
        return Ok(None);
    }
    let Some(id) = rollout_thread_id(actual) else {
        return Ok(None);
    };
    if let Err(e) = validate_rollout_file(file.facts, user) {
        return Err(e);
    }
    match rollout_is_root_identity(&file.start, &id) {
        Err(e) => Err(e),
        Ok(false) => Ok(None),
        Ok(true) => {
            let unchanged = match &d.after {
                Some(after) => *after == *before,
                None => false,
            };
            if unchanged {
                Ok(Some(id))
            } else {
                Ok(None)
            }
        },
    }
}

/// How many bytes of the file behind a descriptor are searched for its session.
pub open spec fn searched(d: RolloutDescriptor, root: Seq<u8>, user: u32) -> nat {
    match rollout_path(d, root) {
        None => 0,
        Some(p) => if rollout::path_thread(p) is None || !rollout::is_private_file(
            d.file->0.facts,
            user,
        ) {
            0
        } else {
            rollout::searched_to(d.file->0.start@, 0) as nat
        },
    }
}

fn searched_of(d: &RolloutDescriptor, root: &UnixPath, user: u32) -> (r: u64)
    ensures
        r == searched(*d, root@, user),
{
    let (Some(before), Some(file)) = (&d.before, &d.file) else {
        return 0;
    };
    if before.flags & 0o2_002_003 != 0o2_002_002 {
        return 0;
    }
    let same = match file.ino {
        Some(ino) => ino == before.ino,
        None => false,
    };
    if !same {
        return 0;
    }
    let Some(actual) = &file.actual else {
        return 0;
    };
    if !actual.starts_with(root) {
        return 0;
    }
    if rollout_thread_id(actual).is_none() || validate_rollout_file(file.facts, user).is_err() {
        return 0;
    }
    searched_bytes(&file.start) as u64
}

/// The threads of the rollouts that some descriptors record, from one on, within a
/// budget.
pub open spec fn threads_from(
    descriptors: Seq<RolloutDescriptor>,
    i: int,
    root: Seq<u8>,
    user: u32,
    cancelled: bool,
    s: Spent,
    found: Seq<Seq<char>>,
) -> (Result<Seq<Seq<char>>, ErrorModel>, Spent)
    decreases descriptors.len() - i,
{
    if i >= descriptors.len() {
        (Ok(found), s)
    } else {
        match processes::fd_spent(cancelled, s) {
            (Err(e), after) => (Err(e), after),
            (Ok(_), after) => if i >= MAX_PROCESS_FDS {
                (
                    Err(
                        title::protocol_error(
                            "Codex process exceeded the descriptor scan limit"@,
                        ),
                    ),
                    after,
                )
            } else {
                let count = searched(descriptors[i], root, user);
                let (paid, rest) = if count == 0 {
                    (Ok(()), after)
                } else {
                    processes::bytes_spent(cancelled, count, after)
                };
                match paid {
                    Err(e) => (Err(e), rest),
                    Ok(_) => match recorded_thread(descriptors[i], root, user) {
                        Err(e) => (Err(e), rest),
                        Ok(id) => threads_from(
                            descriptors,
                            i + 1,
                            root,
                            user,
                            cancelled,
                            rest,
                            match id {
                                Some(id) => found.push(id),
                                None => found,
                            },
                        ),
                    },
                }
            },
        }
    }
}

pub open spec fn threads_outcome(r: Result<Vec<String>, MuxError>) -> Result<
    Seq<Seq<char>>,
    ErrorModel,
> {
    match r {
        Ok(list) => Ok(text::texts(list@)),
        Err(e) => Err(e@),
    }
}

/// The threads of the rollouts that a process records, within the budget of a search.
pub fn process_rollouts(
    descriptors: &Vec<RolloutDescriptor>,
    root: &UnixPath,
    user: u32,
    cancelled: bool,
    budget: &mut ProcessScanBudget,
) -> (r: Result<Vec<String>, MuxError>)
    requires
        old(budget).kept(),
    ensures
        final(budget).kept(),
        (threads_outcome(r), final(budget).spent()) == threads_from(
            descriptors@,
            0,
            root@,
            user,
            cancelled,
            old(budget).spent(),
            Seq::empty(),
        ),
{
    let mut found = text::no_texts();
    assert(text::texts(found@) =~= Seq::<Seq<char>>::empty());
    let mut i: usize = 0;
    while i < descriptors.len()
        invariant
            i <= descriptors.len(),
            budget.kept(),
            threads_from(
                descriptors@,
                0,
                root@,
                user,
                cancelled,
                old(budget).spent(),
                Seq::empty(),
            ) == threads_from(
                descriptors@,
                i as int,
                root@,
                user,
                cancelled,
                budget.spent(),
                text::texts(found@),
            ),
        decreases descriptors.len() - i,
    {
        if let Err(e) = budget.fd(cancelled) {
            return Err(e);
        }
        if i >= MAX_PROCESS_FDS {
            return Err(protocol("Codex process exceeded the descriptor scan limit"));
        }
        let count: u64 = searched_of(&descriptors[i], root, user);
        if count > 0 {
            if let Err(e) = budget.bytes(cancelled, count) {
                return Err(e);
            }
        }
        match descriptor_thread(&descriptors[i], root, user) {
            Err(e) => return Err(e),
            Ok(None) => {},
            Ok(Some(id)) => {
                put(&mut found, &id);
            },
        }
        i += 1;
    }
    Ok(found)
}

// ---------------------------------------------------------------------------
// The control socket
// ---------------------------------------------------------------------------

/// One line of the kernel's list of unix sockets, as far as it is needed.
#[verifier::ext_equal]
pub struct UnixLine {
    pub inode: u32,
    pub listening: bool,
    pub at_path: bool,
}

/// What a line says: its seventh word is the inode (zero where it is no number), its
/// sixth word `01` marks a listener, its eighth word is the path.
pub open spec fn unix_line(line: Seq<char>, expected: Seq<u8>) -> UnixLine {
    let fields = scan::words(line);
    UnixLine {
        inode: if fields.len() > 6 && number::unsigned_value(
            fields[6],
            u32::MAX as nat,
        ) is Some {
            number::unsigned_value(fields[6], u32::MAX as nat)->0 as u32
        } else {
            0
        },
        listening: fields.len() > 5 && fields[5] == "01"@,
        at_path: fields.len() > 7 && path::same_path(text::utf8(fields[7]), expected),
    }
}

/// Some line behind the first is an exact peer socket that a process holds, at the
/// control path.
pub open spec fn lists_peer(
    lines: Seq<Seq<char>>,
    expected: Seq<u8>,
    held: Seq<u32>,
    peer: u32,
) -> bool {
    exists|i: int|
        1 <= i < lines.len() && ({
            let l = unix_line(#[trigger] lines[i], expected);
            l.inode == peer && held.contains(l.inode) && l.at_path
        })
}

/// Some line behind the first is a listener that a process holds, at the control path.
pub open spec fn lists_listener(
    lines: Seq<Seq<char>>,
    expected: Seq<u8>,
    held: Seq<u32>,
) -> bool {
    exists|i: int|
        1 <= i < lines.len() && ({
            let l = unix_line(#[trigger] lines[i], expected);
            l.listening && held.contains(l.inode) && l.at_path
        })
}

/// Whether a process holds both an exact peer socket and a listener at the control
/// path, as the kernel's list of unix sockets has it.
pub fn owns_control_socket(
    proc_unix: &str,
    expected: &UnixPath,
    held: &Vec<u32>,
    peer: u32,
) -> (r: bool)
    ensures
        r == (lists_peer(scan::lines(proc_unix@), expected@, held@, peer) && lists_listener(
            scan::lines(proc_unix@),
            expected@,
            held@,
        )),
{
    let lines = text_lines(proc_unix);
    let ghost all = scan::lines(proc_unix@);
    let mut exact = false;
    let mut listener = false;
    let mut i: usize = 1;
    while i < lines.len()
        invariant
            1 <= i,
            i <= lines.len() || i == 1,
            all == text::texts(lines@),
            exact == exists|k: int|
                1 <= k < i && ({
                    let l = unix_line(#[trigger] all[k], expected@);
                    l.inode == peer && held@.contains(l.inode) && l.at_path
                }),
            listener == exists|k: int|
                1 <= k < i && ({
                    let l = unix_line(#[trigger] all[k], expected@);
                    l.listening && held@.contains(l.inode) && l.at_path
                }),
        decreases lines.len() - i,
    {
        assert(all[i as int] == lines@[i as int]@);
        let fields = split_whitespace(&lines[i]);
        let ghost words = scan::words(all[i as int]);
        assert(words.len() == fields.len());
        let inode: u32 = if fields.len() > 6 {
            assert(words[6] == fields@[6]@);
            match number::parse_u32(&fields[6]) {
                Some(n) => n,
                None => 0,
            }
        } else {
            0
        };
        let listening = fields.len() > 5 && text_equal(&fields[5], "01");
        assert(fields.len() > 5 ==> words[5] == fields@[5]@);
        let at_path = fields.len() > 7 && UnixPath::new(&fields[7]).same_as(expected);
        assert(fields.len() > 7 ==> words[7] == fields@[7]@);
        let ghost l = unix_line(all[i as int], expected@);
        assert(l.inode == inode && l.listening == listening && l.at_path == at_path);
        let owned = holds_inode(held, inode);
        if inode == peer && owned && at_path {
            exact = true;
        }
        if listening && owned && at_path {
            listener = true;
        }
        i += 1;
    }
    exact && listener
}

/// The longest command line that is read.
pub const MAX_COMMAND_LINE_BYTES: u64 = 64 * 1024;

/// The entry of a socket.
#[derive(Debug)]
pub struct SocketFacts {
    pub is_socket: bool,
    pub owner: u32,
    pub mode: u32,
}

/// A socket that only its user can reach.
pub open spec fn private_socket(facts: Option<SocketFacts>, user: u32) -> bool {
    match facts {
        Some(f) => f.is_socket && f.owner == user && rollout::only_owner_writes(f.mode),
        None => false,
    }
}

/// Whether a socket is there and private to a user.
pub fn is_private_socket(facts: &Option<SocketFacts>, user: u32) -> (r: bool)
    ensures
        r == private_socket(*facts, user),
{
    match facts {
        Some(f) => f.is_socket && f.owner == user && f.mode & 0o022 == 0,
        None => false,
    }
}

/// What is known of the program behind a possible control server.
#[derive(Debug)]
pub struct ServerFacts {
    /// Where its executable is, where that can be read.
    pub executable: Option<UnixPath>,
    /// The executable itself, and its device and inode.
    pub file: Option<(EntryFacts, u64, u64)>,
    /// The device and inode of what runs.
    pub running: Option<(u64, u64)>,
    /// The command line with which it runs, one byte more than is allowed at most, where
    /// it can be read.
    pub command: Option<Vec<u8>>,
}

/// The directory of installed Codex releases below a Codex home.
pub open spec fn releases(home: Seq<u8>) -> Seq<u8> {
    path::joined(home, text::utf8("packages/standalone/releases"@))
}

/// An executable of a Codex release: below the directory of releases, one release, then
/// `bin/codex`.
pub open spec fn is_release_executable(executable: Seq<u8>, home: Seq<u8>) -> bool {
    let base = path::components(releases(home));
    let all = path::components(executable);
    &&& path::is_under(executable, releases(home))
    &&& all.len() == base.len() + 3
    &&& all[base.len() as int + 1] == text::utf8("bin"@)
    &&& all[base.len() as int + 2] == text::utf8("codex"@)
}

/// The directories from a Codex home to an executable of one of its releases.
pub open spec fn server_directories(executable: Seq<u8>, home: Seq<u8>) -> Option<Seq<Seq<u8>>> {
    match path::parent(executable) {
        None => None,
        Some(bin) => match path::parent(bin) {
            None => None,
            Some(release) => Some(
                seq![
                    home,
                    path::joined(home, text::utf8("packages"@)),
                    path::joined(home, text::utf8("packages/standalone"@)),
                    releases(home),
                    release,
                    bin,
                ],
            ),
        },
    }
}

pub open spec fn paths_of(paths: Seq<UnixPath>) -> Seq<Seq<u8>> {
    paths.map_values(|p: UnixPath| p@)
}

/// Every one of some directories is there and private to a user.
pub open spec fn all_private(directories: Seq<Option<EntryFacts>>, count: nat, user: u32) -> bool {
    &&& directories.len() == count
    &&& forall|i: int|
        0 <= i < directories.len() ==> (#[trigger] directories[i] matches Some(facts)
            && rollout::is_private_directory(facts, user))
}

/// The arguments of a control server: behind the program name, to serve a unix socket.
pub open spec fn serves_unix_socket(arguments: Seq<Seq<u8>>) -> bool {
    &&& arguments.len() > 3
    &&& arguments[1] == text::utf8("app-server"@)
    &&& arguments[2] == text::utf8("--listen"@)
    &&& arguments[3] == text::utf8("unix://"@)
}

/// A program is a control server: a private executable that runs as one.
pub open spec fn is_control_server(facts: ServerFacts, user: u32) -> bool {
    &&& facts.file matches Some((file, device, inode)) && file.is_file && file.owner == user
        && rollout::only_owner_writes(file.mode) && file.mode & 0o111 != 0 && facts.running
        == Some((device, inode))
    &&& facts.command matches Some(command) && command@.len() <= MAX_COMMAND_LINE_BYTES
        && serves_unix_socket(evidence::arguments_in(command@))
}

/// Whether an executable is one of a Codex release.
pub fn has_release_shape(executable: &UnixPath, home: &UnixPath) -> (r: bool)
    ensures
        r == is_release_executable(executable@, home@),
{
    let base = home.join(&UnixPath::new("packages/standalone/releases"));
    if !executable.starts_with(&base) {
        return false;
    }
    let b = base.components();
    let e = executable.components();
    let n: usize = b.len();
    if e.len() < 3 || e.len() - 3 != n {
        return false;
    }
    proof {
        let all = path::components(executable@);
        assert(all[n as int + 1] == e@[n as int + 1]@);
        assert(all[n as int + 2] == e@[n as int + 2]@);
    }
    text::bytes_equal(&e[n + 1], &text::bytes_of("bin")) && text::bytes_equal(
        &e[n + 2],
        &text::bytes_of("codex"),
    )
}

/// Lists the directories from a Codex home to an executable of one of its releases.
pub fn directories_to(executable: &UnixPath, home: &UnixPath) -> (r: Option<Vec<UnixPath>>)
    ensures
        match r {
            Some(paths) => server_directories(executable@, home@) == Some(paths_of(paths@)),
            None => server_directories(executable@, home@) is None,
        },
{
    let Some(bin) = executable.parent() else {
        return None;
    };
    let Some(release) = bin.parent() else {
        return None;
    };
    let mut paths: Vec<UnixPath> = Vec::new();
    paths.push(home.clone());
    paths.push(home.join(&UnixPath::new("packages")));
    paths.push(home.join(&UnixPath::new("packages/standalone")));
    paths.push(home.join(&UnixPath::new("packages/standalone/releases")));
    paths.push(release);
    paths.push(bin);
    assert(server_directories(executable@, home@)->0 =~= paths_of(paths@));
    Some(paths)
}

/// Whether every one of some directories is there and private to a user.
pub fn are_private(directories: &Vec<Option<EntryFacts>>, count: usize, user: u32) -> (r: bool)
    ensures
        r == all_private(directories@, count as nat, user),
{
    if directories.len() != count {
        return false;
    }
    let mut i: usize = 0;
    while i < directories.len()
        invariant
            i <= directories.len(),
            forall|k: int|
                0 <= k < i ==> (#[trigger] directories@[k] matches Some(facts)
                    && rollout::is_private_directory(facts, user)),
        decreases directories.len() - i,
    {
        let private = match &directories[i] {
            Some(facts) => facts.is_directory && facts.owner == user && facts.mode & 0o022 == 0,
            None => false,
        };
        if !private {
            assert(!(directories@[i as int] matches Some(facts) && rollout::is_private_directory(
                facts,
                user,
            )));
            return false;
        }
        i += 1;
    }
    true
}

/// Whether a program is a control server.
pub fn private_control_server_matches(facts: &ServerFacts, user: u32) -> (r: bool)
    ensures
        r == is_control_server(*facts, user),
{
    let Some((file, device, inode)) = &facts.file else {
        return false;
    };
    let runs = match facts.running {
        Some((d, i)) => d == *device && i == *inode,
        None => false,
    };
    if !file.is_file || file.owner != user || file.mode & 0o022 != 0 || file.mode & 0o111 == 0
        || !runs {
        return false;
    }
    let Some(command) = &facts.command else {
        return false;
    };
    if command.len() as u64 > MAX_COMMAND_LINE_BYTES {
        return false;
    }
    let arguments = split_arguments(command);
    if arguments.len() <= 3 {
        return false;
    }
    proof {
        let w = text::words(arguments@);
        assert(w[1] == arguments@[1]@ && w[2] == arguments@[2]@ && w[3] == arguments@[3]@);
    }
    text::bytes_equal(&arguments[1], &text::bytes_of("app-server")) && text::bytes_equal(
        &arguments[2],
        &text::bytes_of("--listen"),
    ) && text::bytes_equal(&arguments[3], &text::bytes_of("unix://"))
}

} // verus!
