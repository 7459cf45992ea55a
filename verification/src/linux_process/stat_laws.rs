//! How a process is read from procfs.

use vstd::prelude::*;
use crate::linux_process::evidence;
use crate::linux_process::evidence::{ProcReads, StatRead};
use crate::number;
use crate::path;
use crate::scan;
use crate::text;

verus! {

proof fn the_last_close(head: Seq<u8>, tail: Seq<u8>)
    requires
        !tail.contains(41),
    ensures
        path::last_index(head + seq![41u8] + tail, 41) == head.len(),
    decreases tail.len(),
{
    let whole = head + seq![41u8] + tail;
    if tail.len() > 0 {
        assert(tail.contains(tail.last()));
        assert(whole.last() == tail.last());
        assert(whole.drop_last() =~= head + seq![41u8] + tail.drop_last());
        assert forall|i: int| 0 <= i < tail.drop_last().len() implies tail.drop_last()[i]
            != 41 by {
            assert(tail.contains(tail[i]));
        }
        the_last_close(head, tail.drop_last());
    } else {
        assert(whole.last() == 41);
    }
}

/// A stat row reads back: behind the name of the program, whatever the name holds, come the
/// state, the parent, the group, the session, the terminal, the group that has the terminal,
/// and as the twentieth word the start.
pub proof fn a_stat_row_reads_back(
    name: Seq<u8>,
    tail: Seq<u8>,
    rest: Seq<char>,
    parent: nat,
    group: int,
    terminal: int,
    foreground: int,
    start: nat,
)
    requires
        !tail.contains(41),
        text::utf8_decoded(tail) == Some(rest),
        scan::ascii_words(rest).len() >= 20,
        scan::ascii_words(rest)[1] == number::decimal(parent),
        parent <= u32::MAX,
        number::signed_value(scan::ascii_words(rest)[2]) == Some(group),
        number::signed_value(scan::ascii_words(rest)[4]) == Some(terminal),
        number::signed_value(scan::ascii_words(rest)[5]) == Some(foreground),
        scan::ascii_words(rest)[19] == number::decimal(start),
        start <= u64::MAX,
    ensures
        evidence::stat_fields(name + seq![41u8] + tail) == Some(
            (parent, group, terminal, foreground, start),
        ),
{
    the_last_close(name, tail);
    assert((name + seq![41u8] + tail).skip(name.len() as int + 1) =~= tail);
    number::unsigned_value_of_decimal(parent, u32::MAX as nat);
    number::unsigned_value_of_decimal(start, u64::MAX as nat);
}

/// A number reads back, with its sign.
pub proof fn a_signed_number_reads_back(n: nat)
    requires
        n <= 0x7fff_ffff_ffff_ffff,
    ensures
        number::signed_value(number::decimal(n)) == Some(n as int),
        number::signed_value(seq!['-'] + number::decimal(n)) == Some(-(n as int)),
{
    number::unsigned_value_of_decimal(n, 0x7fff_ffff_ffff_ffff);
    number::decimal_digits(n);
    number::decimal_value(n);
    assert((seq!['-'] + number::decimal(n)).skip(1) =~= number::decimal(n));
    assert((seq!['-'] + number::decimal(n))[0] == '-');
}

/// A process counts only where a second look at its stat row says the same. Its evidence is
/// what the row says, with the arguments and the executable that were read in between.
pub proof fn a_process_is_looked_at_twice(pid: u32, reads: ProcReads)
    ensures
        reads.stat matches StatRead::Bytes(stat) && (reads.second_stat matches Some(again)
            ==> evidence::stat_fields(again@) != evidence::stat_fields(stat@))
            ==> evidence::assembled(pid, reads) == Ok::<_, Seq<char>>(
            None::<evidence::EvidenceModel>,
        ),
        evidence::assembled(pid, reads) matches Ok(Some(e)) ==> e.pid == pid && (
        reads.stat matches StatRead::Bytes(stat) && reads.second_stat is Some && (
        evidence::stat_fields(stat@) matches Some((parent, group, terminal, foreground, start))
            && e.parent_pid == parent as u32 && e.pgrp == group as i64 && e.tty_nr
            == terminal as i64 && e.tpgid == foreground as i64 && e.start_time == start as u64)) && (
        reads.executable matches Some(p) ==> e.executable == Some(p@)) && (
        reads.executable is None ==> e.executable is None) && (reads.cmdline matches Some(bytes)
            ==> e.arguments == evidence::arguments_in(bytes@)),
        reads.stat is Failed <==> evidence::assembled(pid, reads) is Err,
{
}

} // verus!
