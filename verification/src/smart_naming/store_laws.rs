//! Which processes and sockets count for a pane, and what a look at them may cost.

use vstd::prelude::*;
use crate::path;
use crate::smart_naming::diagnostics;
use crate::smart_naming::process_store;
use crate::smart_naming::processes;
use crate::smart_naming::processes::{ProcessEntry, Spent};
use crate::smart_naming::sockets;
use crate::smart_naming::sockets::{ByteOrder, SocketsModel};
use crate::smart_naming::store_replay;
use crate::smart_naming::store_replay::{HostEvent, StoreModel};
use crate::text;

verus! {

/// Every look at a descriptor is paid for, and none goes beyond the budget. A cancelled
/// search pays nothing more.
pub proof fn descriptors_are_paid_for(cancelled: bool, s: Spent)
    ensures
        processes::fd_spent(cancelled, s).0 is Ok <==> !cancelled && s.fds < 8192,
        processes::fd_spent(cancelled, s).0 is Ok ==> processes::fd_spent(cancelled, s).1.fds
            == s.fds + 1,
        processes::fd_spent(cancelled, s).0 is Err ==> processes::fd_spent(cancelled, s).1 == s,
        processes::fd_spent(cancelled, s).1.bytes == s.bytes,
{
}

/// Every byte is paid for, and none goes beyond the budget of 32 MiB. A cancelled search
/// pays nothing more.
pub proof fn bytes_are_paid_for(cancelled: bool, count: nat, s: Spent)
    ensures
        processes::bytes_spent(cancelled, count, s).0 is Ok <==> !cancelled && s.bytes + count
            <= 33554432,
        processes::bytes_spent(cancelled, count, s).0 is Ok ==> processes::bytes_spent(
            cancelled,
            count,
            s,
        ).1.bytes == s.bytes + count,
        processes::bytes_spent(cancelled, count, s).0 is Err ==> processes::bytes_spent(
            cancelled,
            count,
            s,
        ).1 == s,
        processes::bytes_spent(cancelled, count, s).1.fds == s.fds,
{
}

/// A pane has one conversation, none, or too many to tell.
pub proof fn a_pane_has_one_conversation(id: Seq<char>, other: Seq<char>, rest: Seq<Seq<char>>)
    ensures
        process_store::sole_thread(Seq::empty()) == Ok::<_, crate::error::ErrorModel>(
            None::<Seq<char>>,
        ),
        process_store::sole_thread(seq![id]) == Ok::<_, crate::error::ErrorModel>(Some(id)),
        process_store::sole_thread(seq![id, other] + rest) is Err,
{
}

/// The state is kept where the environment says, and below the home otherwise.
pub proof fn the_state_directory_comes_first(directory: Seq<u8>, home: Option<Seq<u8>>)
    ensures
        diagnostics::state_root(Some(directory), home) == Some(directory),
        diagnostics::state_root(None, Some(directory)) == Some(
            path::joined(directory, text::utf8(".local/state"@)),
        ),
        diagnostics::state_root(None, None) is None,
{
}

/// The peer of a socket is what the attribute for it says, and its name stays as it was.
/// The name is what the attribute for names says, and the peer stays as it was. Nothing
/// is said of another socket.
pub proof fn an_attribute_is_about_its_socket(
    known: SocketsModel,
    inode: u32,
    peer: u32,
    name: Seq<u8>,
    order: ByteOrder,
    other: u32,
)
    requires
        0 < name.len() < 1000,
        name.last() != 0,
        other != inode,
    ensures
        ({
            let bytes = sockets::u16_bytes(8, order) + sockets::u16_bytes(2, order)
                + sockets::u32_bytes(peer, order);
            let after = sockets::with_attribute(known, inode, bytes, 0, order);
            &&& after.peers.contains_key(inode) && after.peers[inode] == peer
            &&& after.names == known.names
            &&& after.peers.contains_key(other) == known.peers.contains_key(other)
        }),
        ({
            let bytes = sockets::u16_bytes((4 + name.len()) as u16, order) + sockets::u16_bytes(
                0,
                order,
            ) + name;
            let after = sockets::with_attribute(known, inode, bytes, 0, order);
            &&& after.names.contains_key(inode) && after.names[inode] == name
            &&& after.peers == known.peers
            &&& after.names.contains_key(other) == known.names.contains_key(other)
        }),
        ({
            let bytes = sockets::u16_bytes((5 + name.len()) as u16, order) + sockets::u16_bytes(
                0,
                order,
            ) + name.push(0);
            let after = sockets::with_attribute(known, inode, bytes, 0, order);
            after.names.contains_key(inode) && after.names[inode] == name
        }),
{
    let asked = sockets::u16_bytes(8, order) + sockets::u16_bytes(2, order) + sockets::u32_bytes(
        peer,
        order,
    );
    sockets::u32_reads_back(peer, order);
    assert(sockets::u16_at(asked, 0, order) == 8);
    assert(sockets::u16_at(asked, 2, order) == 2);
    assert(sockets::u32_at(asked, 4, order) == sockets::u32_at(
        sockets::u32_bytes(peer, order),
        0,
        order,
    ));
    let plain = (4 + name.len()) as u16;
    let named = sockets::u16_bytes(plain, order) + sockets::u16_bytes(0, order) + name;
    assert(plain % 0x100 + 0x100 * (plain / 0x100) == plain);
    assert(sockets::u16_at(named, 0, order) == plain);
    assert(sockets::u16_at(named, 2, order) == 0);
    assert(named.subrange(4, 4 + name.len() as int) =~= name);
    let longer = (5 + name.len()) as u16;
    let ended = sockets::u16_bytes(longer, order) + sockets::u16_bytes(0, order) + name.push(0);
    assert(longer % 0x100 + 0x100 * (longer / 0x100) == longer);
    assert(sockets::u16_at(ended, 0, order) == longer);
    assert(sockets::u16_at(ended, 2, order) == 0);
    assert(ended.subrange(4, 5 + name.len() as int) =~= name.push(0));
    assert(name.push(0).drop_last() =~= name);
}

/// A candidate of a pane is a process below it, and its program was asked for and is one
/// of those that count.
pub proof fn candidates_run_below_their_pane(
    w: Seq<HostEvent>,
    k: int,
    pane: u32,
    table: Seq<ProcessEntry>,
    i: int,
    store: StoreModel,
    found: Seq<ProcessEntry>,
    all: Seq<ProcessEntry>,
    end: int,
    c: int,
)
    requires
        0 <= i <= table.len(),
        store_replay::candidates_from(w, k, pane, table, i, store, found) == Some((all, end)),
        found.len() <= c < all.len(),
    ensures
        processes::is_descendant(table, all[c].pid, pane),
        exists|j: int|
            0 <= j < w.len() && (#[trigger] w[j] matches HostEvent::Program {
                pid,
                reply: Some(file),
            } && pid == all[c].pid && store.programs.contains(file)),
    decreases table.len() - i,
{
    if i < table.len() {
        if !processes::is_descendant(table, table[i].pid, pane) {
            candidates_run_below_their_pane(
                w,
                k,
                pane,
                table,
                i + 1,
                store,
                found,
                all,
                end,
                c,
            );
        } else {
            let fits = (store_replay::matches_at(w, k, table[i].pid, store)->0).0;
            let next = if fits {
                found.push(table[i])
            } else {
                found
            };
            candidates_stay(w, k + 1, pane, table, i + 1, store, next, all, end);
            if c < next.len() {
                assert(all[c] == next[c]);
                assert(w[k] is Program);
            } else {
                candidates_run_below_their_pane(
                    w,
                    k + 1,
                    pane,
                    table,
                    i + 1,
                    store,
                    next,
                    all,
                    end,
                    c,
                );
            }
        }
    }
}

proof fn candidates_stay(
    w: Seq<HostEvent>,
    k: int,
    pane: u32,
    table: Seq<ProcessEntry>,
    i: int,
    store: StoreModel,
    found: Seq<ProcessEntry>,
    all: Seq<ProcessEntry>,
    end: int,
)
    requires
        0 <= i <= table.len(),
        store_replay::candidates_from(w, k, pane, table, i, store, found) == Some((all, end)),
    ensures
        found.is_prefix_of(all),
    decreases table.len() - i,
{
    if i < table.len() {
        if !processes::is_descendant(table, table[i].pid, pane) {
            candidates_stay(w, k, pane, table, i + 1, store, found, all, end);
        } else if (store_replay::matches_at(w, k, table[i].pid, store)->0).0 {
            candidates_stay(w, k + 1, pane, table, i + 1, store, found.push(table[i]), all, end);
            assert(found.push(table[i]).is_prefix_of(all));
            assert forall|x: int| 0 <= x < found.len() implies found[x] == all[x] by {
                assert(found.push(table[i])[x] == found[x]);
            }
            assert(found =~= all.subrange(0, found.len() as int));
        } else {
            candidates_stay(w, k + 1, pane, table, i + 1, store, found, all, end);
        }
    }
}

} // verus!
