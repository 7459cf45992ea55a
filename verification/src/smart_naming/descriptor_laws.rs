//! When an open descriptor proves something.

use vstd::prelude::*;
use crate::linux_process::evidence;
use crate::number;
use crate::path;
use crate::scan;
use crate::smart_naming::descriptors;
use crate::smart_naming::descriptors::{
    RolloutDescriptor, ServerFacts, SocketDescriptor,
};
use crate::smart_naming::rollout;
use crate::text;

verus! {

/// A digit more is eight times the number and the digit.
pub proof fn octal_digits_count_by_eight(s: Seq<char>, digit: char)
    requires
        '0' <= digit <= '7',
    ensures
        descriptors::octal_value(s.push(digit)) == descriptors::octal_value(s) * 8 + (digit as int
            - '0' as int),
        descriptors::octal_value(Seq::empty()) == 0,
{
    assert(s.push(digit).drop_last() =~= s);
    assert(s.push(digit).last() == digit);
}

proof fn the_octal_behind_is_found(lines: Seq<Seq<char>>, prefix: Seq<char>, s: Seq<char>, i: int, from: int)
    requires
        0 <= from <= i < lines.len(),
        lines[i] == prefix + s,
        descriptors::octal_number(s) is Some,
        forall|j: int| from <= j < i ==> !prefix.is_prefix_of(#[trigger] lines[j]),
    ensures
        descriptors::first_octal(lines, prefix, from) == descriptors::octal_number(s),
    decreases i - from,
{
    if from < i {
        assert(!prefix.is_prefix_of(lines[from]));
        the_octal_behind_is_found(lines, prefix, s, i, from + 1);
    } else {
        assert((prefix + s).subrange(0, prefix.len() as int) =~= prefix);
        assert((prefix + s).skip(prefix.len() as int) =~= s);
    }
}

proof fn the_decimal_behind_is_found(lines: Seq<Seq<char>>, prefix: Seq<char>, s: Seq<char>, i: int, from: int)
    requires
        0 <= from <= i < lines.len(),
        lines[i] == prefix + s,
        number::unsigned_value(s, u64::MAX as nat) is Some,
        forall|j: int| from <= j < i ==> !prefix.is_prefix_of(#[trigger] lines[j]),
    ensures
        descriptors::first_decimal(lines, prefix, from) == number::unsigned_value(
            s,
            u64::MAX as nat,
        ),
    decreases i - from,
{
    if from < i {
        assert(!prefix.is_prefix_of(lines[from]));
        the_decimal_behind_is_found(lines, prefix, s, i, from + 1);
    } else {
        assert((prefix + s).subrange(0, prefix.len() as int) =~= prefix);
        assert((prefix + s).skip(prefix.len() as int) =~= s);
    }
}

/// The facts of a descriptor are the number behind `flags:` and the number behind `ino:`,
/// each from the first line of its kind.
pub proof fn a_descriptor_is_told_by_flags_and_inode(
    contents: Seq<char>,
    flags: Seq<char>,
    ino: Seq<char>,
    i: int,
    j: int,
)
    requires
        0 <= i < scan::lines(contents).len(),
        0 <= j < scan::lines(contents).len(),
        scan::lines(contents)[i] == "flags:\t"@ + flags,
        scan::lines(contents)[j] == "ino:\t"@ + ino,
        descriptors::octal_number(flags) is Some,
        number::unsigned_value(ino, u64::MAX as nat) is Some,
        forall|k: int|
            0 <= k < i ==> !"flags:\t"@.is_prefix_of(#[trigger] scan::lines(contents)[k]),
        forall|k: int| 0 <= k < j ==> !"ino:\t"@.is_prefix_of(#[trigger] scan::lines(contents)[k]),
    ensures
        descriptors::fd_facts(contents) == Some(
            (
                descriptors::octal_number(flags)->0,
                number::unsigned_value(ino, u64::MAX as nat)->0,
            ),
        ),
{
    the_octal_behind_is_found(scan::lines(contents), "flags:\t"@, flags, i, 0);
    the_decimal_behind_is_found(scan::lines(contents), "ino:\t"@, ino, j, 0);
}

/// The target of a descriptor is a socket where it is a number in `socket:[` and `]`.
pub proof fn a_socket_target_reads_back(inside: Seq<char>)
    ensures
        descriptors::socket_target("socket:["@ + inside + "]"@) == number::unsigned_value(
            inside,
            u32::MAX as nat,
        ),
{
    reveal_strlit("socket:[");
    reveal_strlit("]");
    let head = "socket:["@;
    let whole = head + inside + "]"@;
    assert(whole.subrange(0, head.len() as int) =~= head);
    assert(whole.last() == ']');
    assert(whole.subrange(head.len() as int, whole.len() - 1) =~= inside);
}

/// A descriptor proves a socket only where it looked the same before and after, is not
/// passed on to other programs, and has the inode of the socket that it points to.
pub proof fn a_socket_is_proven_by_two_looks(d: SocketDescriptor, n: nat)
    requires
        descriptors::proven_socket(d) == Some(n),
    ensures
        d.before is Some,
        d.after == d.before,
        d.before->0.ino == n,
        d.before->0.flags & 0o2_000_000 != 0,
        descriptors::target_inode(d.target) == Some(n),
{
    let flags = d.before->0.flags;
    assert(flags & 0o2_000_000 == 0o2_000_000 ==> flags & 0o2_000_000 != 0) by (bit_vector);
}

/// A conversation is recorded only through a descriptor that looked the same before and
/// after, is open for appending, reading and writing, and has the inode of a file of the
/// user alone below the directory of rollouts, whose name says the conversation.
pub proof fn a_recording_is_proven_by_two_looks(
    d: RolloutDescriptor,
    root: Seq<u8>,
    user: u32,
    id: Seq<char>,
)
    requires
        descriptors::recorded_thread(d, root, user) == Ok::<_, crate::error::ErrorModel>(Some(id)),
    ensures
        d.before is Some,
        d.after == d.before,
        d.before->0.flags & 0o3 == 0o2,
        d.before->0.flags & 0o2_000 == 0o2_000,
        d.before->0.flags & 0o2_000_000 == 0o2_000_000,
        d.file is Some,
        d.file->0.ino == Some(d.before->0.ino),
        d.file->0.facts.is_file,
        d.file->0.facts.owner == user,
        d.file->0.facts.links == 1,
        d.file->0.actual matches Some(p) && path::is_under(p@, root) && rollout::path_thread(p@)
            == Some(id),
{
    let flags = d.before->0.flags;
    assert(flags & 0o2_002_003 == 0o2_002_002 ==> flags & 0o3 == 0o2 && flags & 0o2_000 == 0o2_000
        && flags & 0o2_000_000 == 0o2_000_000) by (bit_vector);
}

/// The kernel lists a listener in the line whose sixth word is `01`, whose seventh word is
/// an inode that is held, and whose eighth word is the path. The first line is a heading.
pub proof fn a_listener_is_listed_with_its_path(
    lines: Seq<Seq<char>>,
    expected: Seq<u8>,
    held: Seq<u32>,
    i: int,
    inode: u32,
)
    requires
        1 <= i < lines.len(),
        scan::words(lines[i]).len() == 8,
        number::unsigned_value(scan::words(lines[i])[6], u32::MAX as nat) == Some(inode as nat),
        held.contains(inode),
        path::same_path(text::utf8(scan::words(lines[i])[7]), expected),
    ensures
        descriptors::lists_peer(lines, expected, held, inode),
        scan::words(lines[i])[5] == "01"@ ==> descriptors::lists_listener(lines, expected, held),
{
    let l = descriptors::unix_line(lines[i], expected);
    assert(l.inode == inode && l.at_path);
}

/// Nothing is listed that is not held: without a descriptor of one's own there is neither
/// a listener nor a peer.
pub proof fn nothing_is_listed_that_is_not_held(
    lines: Seq<Seq<char>>,
    expected: Seq<u8>,
    peer: u32,
)
    ensures
        !descriptors::lists_listener(lines, expected, Seq::empty()),
        !descriptors::lists_peer(lines, expected, Seq::empty(), peer),
{
}

/// A server is the control server only where what runs is the executable file itself, a
/// file of the user that nobody else writes, and where it was told to serve a socket.
pub proof fn the_control_server_is_what_runs(facts: ServerFacts, user: u32)
    requires
        descriptors::is_control_server(facts, user),
    ensures
        facts.file matches Some((file, device, inode)) && facts.running == Some((device, inode))
            && file.is_file && file.owner == user && file.mode & 0o022 == 0 && file.mode & 0o111
            != 0,
        facts.command matches Some(command) && command@.len() <= 64 * 1024 && ({
            let words = evidence::arguments_in(command@);
            &&& words.len() > 3
            &&& words[1] == text::utf8("app-server"@)
            &&& words[2] == text::utf8("--listen"@)
            &&& words[3] == text::utf8("unix://"@)
        }),
{
}

/// The directories on the way to a server begin with the Codex home and end with the
/// directory of the executable, which lies in the directory of its release.
pub proof fn the_way_to_a_server_is_walked(executable: Seq<u8>, home: Seq<u8>)
    ensures
        descriptors::server_directories(executable, home) matches Some(way) ==> way.len() == 6
            && way[0] == home && way[1] == path::joined(home, text::utf8("packages"@)) && way[2]
            == path::joined(home, text::utf8("packages/standalone"@)) && way[3] == path::joined(
            home,
            text::utf8("packages/standalone/releases"@),
        ) && path::parent(executable) == Some(way[5]) && path::parent(way[5]) == Some(way[4]),
        descriptors::server_directories(executable, home) is None ==> path::parent(executable)
            is None || path::parent(path::parent(executable)->0) is None,
{
}

} // verus!
