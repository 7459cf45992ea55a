//! Unix sockets and their peers, as the kernel reports them through netlink.

use vstd::prelude::*;
use std::collections::HashMap;
use crate::error::{ErrorModel, MuxError};
use crate::smart_naming::netlink_log::LoggedNetlink;
use crate::smart_naming::processes;
use crate::smart_naming::title;
use crate::smart_naming::title::protocol;
use crate::text::slice_bytes;

verus! {

broadcast use vstd::std_specs::hash::group_hash_axioms;

pub const SOCK_DIAG_BY_FAMILY: u16 = 20;

pub const NETLINK_DONE: u16 = 3;

pub const NETLINK_ERROR: u16 = 2;

pub const UNIX_DIAG_NAME: u16 = 0;

pub const UNIX_DIAG_PEER: u16 = 2;

/// Most datagrams of one answer.
pub const MAX_DATAGRAMS: usize = 256;

// ---------------------------------------------------------------------------
// Machine integers
// ---------------------------------------------------------------------------

/// The byte order of the machine.
#[derive(Clone, Copy, Debug, PartialEq, Eq, Structural)]
pub enum ByteOrder {
    Little,
    Big,
}

/// The number in two bytes.
pub open spec fn u16_at(bytes: Seq<u8>, i: int, order: ByteOrder) -> int {
    match order {
        ByteOrder::Little => bytes[i] + 0x100 * bytes[i + 1],
        ByteOrder::Big => bytes[i + 1] + 0x100 * bytes[i],
    }
}

/// The number in four bytes.
pub open spec fn u32_at(bytes: Seq<u8>, i: int, order: ByteOrder) -> int {
    match order {
        ByteOrder::Little => u16_at(bytes, i, order) + 0x10000 * u16_at(bytes, i + 2, order),
        ByteOrder::Big => u16_at(bytes, i + 2, order) + 0x10000 * u16_at(bytes, i, order),
    }
}

fn read_u16(bytes: &[u8], i: usize, order: ByteOrder) -> (r: u16)
    requires
        i + 2 <= bytes@.len(),
    ensures
        r == u16_at(bytes@, i as int, order),
{
    let a: u16 = bytes[i] as u16;
    let b: u16 = bytes[i + 1] as u16;
    match order {
        ByteOrder::Little => a + 0x100 * b,
        ByteOrder::Big => b + 0x100 * a,
    }
}

fn read_u32(bytes: &[u8], i: usize, order: ByteOrder) -> (r: u32)
    requires
        i + 4 <= bytes@.len(),
    ensures
        r == u32_at(bytes@, i as int, order),
{
    let _total: usize = bytes.len();
    let a: u32 = read_u16(bytes, i, order) as u32;
    let b: u32 = read_u16(bytes, i + 2, order) as u32;
    match order {
        ByteOrder::Little => a + 0x10000 * b,
        ByteOrder::Big => b + 0x10000 * a,
    }
}

/// The two bytes of a number.
pub open spec fn u16_bytes(n: u16, order: ByteOrder) -> Seq<u8> {
    match order {
        ByteOrder::Little => seq![(n % 0x100) as u8, (n / 0x100) as u8],
        ByteOrder::Big => seq![(n / 0x100) as u8, (n % 0x100) as u8],
    }
}

/// The four bytes of a number.
pub open spec fn u32_bytes(n: u32, order: ByteOrder) -> Seq<u8> {
    match order {
        ByteOrder::Little => u16_bytes((n % 0x10000) as u16, order) + u16_bytes(
            (n / 0x10000) as u16,
            order,
        ),
        ByteOrder::Big => u16_bytes((n / 0x10000) as u16, order) + u16_bytes(
            (n % 0x10000) as u16,
            order,
        ),
    }
}

/// Reading four bytes gives back the number that wrote them.
pub proof fn u32_reads_back(n: u32, order: ByteOrder)
    ensures
        u32_bytes(n, order).len() == 4,
        u32_at(u32_bytes(n, order), 0, order) == n,
{
}

fn put_u16(v: &mut Vec<u8>, n: u16, order: ByteOrder)
    ensures
        final(v)@ == old(v)@ + u16_bytes(n, order),
{
    let low: u8 = (n % 0x100) as u8;
    let high: u8 = (n / 0x100) as u8;
    match order {
        ByteOrder::Little => {
            v.push(low);
            v.push(high);
        },
        ByteOrder::Big => {
            v.push(high);
            v.push(low);
        },
    }
    assert(v@ =~= old(v)@ + u16_bytes(n, order));
}

fn put_u32(v: &mut Vec<u8>, n: u32, order: ByteOrder)
    ensures
        final(v)@ == old(v)@ + u32_bytes(n, order),
{
    let low: u16 = (n % 0x10000) as u16;
    let high: u16 = (n / 0x10000) as u16;
    match order {
        ByteOrder::Little => {
            put_u16(v, low, order);
            put_u16(v, high, order);
        },
        ByteOrder::Big => {
            put_u16(v, high, order);
            put_u16(v, low, order);
        },
    }
    assert(v@ =~= old(v)@ + u32_bytes(n, order));
}

/// The request for all unix sockets with their names and peers: the netlink header
/// (length, type, flags, sequence number, sender), then the family, the protocol, two
/// bytes of padding, the states, the inode, what to show, and no cookie.
pub open spec fn request_bytes(order: ByteOrder) -> Seq<u8> {
    u32_bytes(40, order) + u16_bytes(SOCK_DIAG_BY_FAMILY, order) + u16_bytes(0x301, order)
        + u32_bytes(1, order) + u32_bytes(0, order) + seq![1u8, 0u8] + u16_bytes(0, order)
        + u32_bytes(u32::MAX, order) + u32_bytes(0, order) + u32_bytes(5, order) + u32_bytes(
        u32::MAX,
        order,
    ) + u32_bytes(u32::MAX, order)
}

/// The request for all unix sockets.
pub fn socket_request(order: ByteOrder) -> (r: Vec<u8>)
    ensures
        r@ == request_bytes(order),
        r@.len() == 40,
{
    let mut v: Vec<u8> = Vec::new();
    put_u32(&mut v, 40, order);
    assert(v@ =~= u32_bytes(40, order));
    put_u16(&mut v, SOCK_DIAG_BY_FAMILY, order);
    put_u16(&mut v, 0x301, order);
    put_u32(&mut v, 1, order);
    put_u32(&mut v, 0, order);
    let ghost head = v@;
    v.push(1);
    v.push(0);
    assert(v@ =~= head + seq![1u8, 0u8]);
    put_u16(&mut v, 0, order);
    put_u32(&mut v, u32::MAX, order);
    put_u32(&mut v, 0, order);
    put_u32(&mut v, 5, order);
    put_u32(&mut v, u32::MAX, order);
    put_u32(&mut v, u32::MAX, order);
    v
}

// ---------------------------------------------------------------------------
// Answers
// ---------------------------------------------------------------------------

/// Sockets by inode: the inode of the peer, and the name.
pub struct UnixSocketDiagnostics {
    pub peers: HashMap<u32, u32>,
    pub names: HashMap<u32, Vec<u8>>,
    pub scanned_bytes: u64,
}

#[verifier::ext_equal]
pub struct SocketsModel {
    pub peers: Map<u32, u32>,
    pub names: Map<u32, Seq<u8>>,
}

impl View for UnixSocketDiagnostics {
    type V = SocketsModel;

    open spec fn view(&self) -> SocketsModel {
        SocketsModel {
            peers: self.peers@,
            names: self.names@.map_values(|name: Vec<u8>| name@),
        }
    }
}

pub open spec fn no_sockets() -> SocketsModel {
    SocketsModel { peers: Map::empty(), names: Map::empty() }
}

/// A length rounded up to a multiple of four.
pub open spec fn aligned(n: int) -> int {
    (n + 3) / 4 * 4
}

fn align(n: usize) -> (r: usize)
    requires
        n <= 0x7fff_ffff,
    ensures
        r == aligned(n as int),
        n <= r <= n + 3,
{
    (n + 3) / 4 * 4
}

/// A name without the zero byte that may end it.
pub open spec fn without_zero(name: Seq<u8>) -> Seq<u8> {
    if name.len() > 0 && name.last() == 0 {
        name.drop_last()
    } else {
        name
    }
}

/// What one attribute of a socket adds.
pub open spec fn with_attribute(
    sockets: SocketsModel,
    inode: u32,
    bytes: Seq<u8>,
    at: int,
    order: ByteOrder,
) -> SocketsModel {
    let len = u16_at(bytes, at, order);
    let kind = u16_at(bytes, at + 2, order);
    if kind == UNIX_DIAG_PEER && len >= 8 {
        SocketsModel {
            peers: sockets.peers.insert(inode, u32_at(bytes, at + 4, order) as u32),
            ..sockets
        }
    } else if kind == UNIX_DIAG_NAME && len > 4 {
        SocketsModel {
            names: sockets.names.insert(
                inode,
                without_zero(bytes.subrange(at + 4, at + len)),
            ),
            ..sockets
        }
    } else {
        sockets
    }
}

/// What the attributes of a socket add, from a place to the end of its frame.
pub open spec fn with_attributes(
    sockets: SocketsModel,
    inode: u32,
    bytes: Seq<u8>,
    at: int,
    end: int,
    order: ByteOrder,
) -> Result<SocketsModel, ErrorModel>
    decreases end + 4 - at,
{
    if at + 4 > end {
        Ok(sockets)
    } else {
        let len = u16_at(bytes, at, order);
        if len < 4 || at + len > end {
            Err(title::protocol_error("netlink sock_diag returned a malformed attribute"@))
        } else {
            with_attributes(
                with_attribute(sockets, inode, bytes, at, order),
                inode,
                bytes,
                at + aligned(len),
                end,
                order,
            )
        }
    }
}

/// What a datagram amounts to: what is known of the sockets after it, and whether the
/// answer is complete.
pub open spec fn with_frames(
    sockets: SocketsModel,
    bytes: Seq<u8>,
    at: int,
    order: ByteOrder,
) -> Result<(SocketsModel, bool), ErrorModel>
    decreases bytes.len() + 4 - at,
{
    if at < 0 || at + 16 > bytes.len() {
        Ok((sockets, false))
    } else {
        let len = u32_at(bytes, at, order);
        let kind = u16_at(bytes, at + 4, order);
        if len < 16 || at + len > bytes.len() {
            Err(title::protocol_error("netlink sock_diag returned a malformed frame"@))
        } else if kind == NETLINK_DONE {
            Ok((sockets, true))
        } else if kind == NETLINK_ERROR {
            Err(title::protocol_error("netlink sock_diag returned an error"@))
        } else if kind == SOCK_DIAG_BY_FAMILY && len >= 32 {
            match with_attributes(
                sockets,
                u32_at(bytes, at + 20, order) as u32,
                bytes,
                at + 32,
                at + len,
                order,
            ) {
                Err(e) => Err(e),
                Ok(after) => with_frames(after, bytes, at + aligned(len), order),
            }
        } else {
            with_frames(sockets, bytes, at + aligned(len), order)
        }
    }
}

impl UnixSocketDiagnostics {
    pub fn new() -> (r: Self)
        ensures
            r@ == no_sockets(),
            r.scanned_bytes == 0,
    {
        let r = UnixSocketDiagnostics {
            peers: HashMap::new(),
            names: HashMap::new(),
            scanned_bytes: 0,
        };
        proof {
            assert(r@.peers =~= Map::empty());
            assert(r@.names =~= Map::empty());
        }
        r
    }

    fn add_attribute(&mut self, inode: u32, bytes: &[u8], at: usize, len: usize, order: ByteOrder)
        requires
            len == u16_at(bytes@, at as int, order),
            4 <= len,
            at + len <= bytes@.len(),
        ensures
            final(self)@ == with_attribute(old(self)@, inode, bytes@, at as int, order),
            final(self).scanned_bytes == old(self).scanned_bytes,
    {
        let _total: usize = bytes.len();
        let kind: u16 = read_u16(bytes, at + 2, order);
        if kind == UNIX_DIAG_PEER && len >= 8 {
            let peer: u32 = read_u32(bytes, at + 4, order);
            self.peers.insert(inode, peer);
            assert(self@.names =~= old(self)@.names);
        } else if kind == UNIX_DIAG_NAME && len > 4 {
            let mut name = slice_bytes(bytes, at + 4, at + len);
            let ghost whole = name@;
            let n: usize = name.len();
            if name[n - 1] == 0 {
                name.pop();
                assert(name@ =~= whole.drop_last());
            }
            assert(name@ == without_zero(whole));
            let ghost kept = name@;
            self.names.insert(inode, name);
            assert(self@.names =~= old(self)@.names.insert(inode, kept));
        }
    }

    fn add_attributes(
        &mut self,
        inode: u32,
        bytes: &[u8],
        from: usize,
        end: usize,
        order: ByteOrder,
    ) -> (r: Result<(), MuxError>)
        requires
            end <= bytes@.len(),
            from <= end,
            bytes@.len() <= 0x4000_0000,
        ensures
            final(self).scanned_bytes == old(self).scanned_bytes,
            match r {
                Ok(_) => with_attributes(
                    old(self)@,
                    inode,
                    bytes@,
                    from as int,
                    end as int,
                    order,
                ) == Ok::<SocketsModel, ErrorModel>(final(self)@),
                Err(e) => with_attributes(
                    old(self)@,
                    inode,
                    bytes@,
                    from as int,
                    end as int,
                    order,
                ) == Err::<SocketsModel, ErrorModel>(e@),
            },
    {
        let ghost start = self@;
        let mut at: usize = from;
        while at + 4 <= end
            invariant
                at <= end + 3,
                end <= bytes@.len() <= 0x4000_0000,
                self.scanned_bytes == old(self).scanned_bytes,
                with_attributes(start, inode, bytes@, from as int, end as int, order)
                    == with_attributes(self@, inode, bytes@, at as int, end as int, order),
            decreases end + 4 - at,
        {
            let len: usize = read_u16(bytes, at, order) as usize;
            if len < 4 || at + len > end {
                return Err(protocol("netlink sock_diag returned a malformed attribute"));
            }
            self.add_attribute(inode, bytes, at, len, order);
            at += align(len);
        }
        Ok(())
    }

    /// Reads a datagram of the answer; whether the answer is complete.
    pub fn add_datagram(&mut self, bytes: &[u8], order: ByteOrder) -> (r: Result<bool, MuxError>)
        requires
            bytes@.len() <= 0x4000_0000,
        ensures
            final(self).scanned_bytes == old(self).scanned_bytes,
            match r {
                Ok(done) => with_frames(old(self)@, bytes@, 0, order) == Ok::<
                    (SocketsModel, bool),
                    ErrorModel,
                >((final(self)@, done)),
                Err(e) => with_frames(old(self)@, bytes@, 0, order) == Err::<
                    (SocketsModel, bool),
                    ErrorModel,
                >(e@),
            },
    {
        let received: usize = bytes.len();
        let ghost start = self@;
        let mut at: usize = 0;
        while at + 16 <= received
            invariant
                at <= received + 3,
                received == bytes@.len() <= 0x4000_0000,
                self.scanned_bytes == old(self).scanned_bytes,
                with_frames(start, bytes@, 0, order) == with_frames(
                    self@,
                    bytes@,
                    at as int,
                    order,
                ),
            decreases received + 4 - at,
        {
            let len32: u32 = read_u32(bytes, at, order);
            let kind: u16 = read_u16(bytes, at + 4, order);
            if len32 < 16 || len32 > 0x4000_0000 {
                return Err(protocol("netlink sock_diag returned a malformed frame"));
            }
            let len: usize = len32 as usize;
            if at + len > received {
                return Err(protocol("netlink sock_diag returned a malformed frame"));
            }
            if kind == NETLINK_DONE {
                return Ok(true);
            }
            if kind == NETLINK_ERROR {
                return Err(protocol("netlink sock_diag returned an error"));
            }
            if kind == SOCK_DIAG_BY_FAMILY && len >= 32 {
                let inode: u32 = read_u32(bytes, at + 20, order);
                if let Err(e) = self.add_attributes(inode, bytes, at + 32, at + len, order) {
                    return Err(e);
                }
            }
            at += align(len);
        }
        Ok(false)
    }
}

/// The netlink socket.
pub trait NetlinkSource {
    /// Whether the caller gave up.
    fn is_cancelled(&mut self) -> bool;

    /// The next datagram, no longer than a gigabyte.
    fn receive(&mut self) -> Result<Vec<u8>, MuxError>;
}

/// A question to the kernel, with its answer.
pub enum NetlinkEvent {
    Cancelled(bool),
    Datagram(Result<Seq<u8>, ErrorModel>),
}

/// What the answer of the kernel comes to, from an event and a datagram on: the
/// sockets and how many bytes were read; `None` where these are not the events of such
/// a search.
pub open spec fn received_from(
    log: Seq<NetlinkEvent>,
    k: int,
    n: int,
    sockets: SocketsModel,
    scanned: nat,
    order: ByteOrder,
) -> Option<(Result<(SocketsModel, nat), ErrorModel>, int)>
    decreases MAX_DATAGRAMS - n,
{
    if n >= MAX_DATAGRAMS {
        Some((Err(title::protocol_error("netlink sock_diag exceeded its response limit"@)), k))
    } else if k < 0 || k >= log.len() {
        None
    } else {
        match log[k] {
            NetlinkEvent::Cancelled(true) => Some((Err(ErrorModel::Cancelled), k + 1)),
            NetlinkEvent::Cancelled(false) => if k + 1 >= log.len() {
                None
            } else {
                match log[k + 1] {
                    NetlinkEvent::Datagram(Err(e)) => Some((Err(e), k + 2)),
                    NetlinkEvent::Datagram(Ok(bytes)) => if scanned + bytes.len()
                        > processes::MAX_PROCESS_SCAN_BYTES {
                        Some(
                            (
                                Err(
                                    title::protocol_error(
                                        "netlink sock_diag exceeded the process byte budget"@,
                                    ),
                                ),
                                k + 2,
                            ),
                        )
                    } else {
                        match with_frames(sockets, bytes, 0, order) {
                            Err(e) => Some((Err(e), k + 2)),
                            Ok((after, true)) => Some((Ok((after, scanned + bytes.len())), k + 2)),
                            Ok((after, false)) => received_from(
                                log,
                                k + 2,
                                n + 1,
                                after,
                                scanned + bytes.len(),
                                order,
                            ),
                        }
                    },
                    _ => None,
                }
            },
            _ => None,
        }
    }
}

/// The sockets with what it took to read them, or the error in their place.
pub open spec fn received(r: Result<UnixSocketDiagnostics, MuxError>) -> Result<
    (SocketsModel, nat),
    ErrorModel,
> {
    match r {
        Ok(sockets) => Ok((sockets@, sockets.scanned_bytes as nat)),
        Err(e) => Err(e@),
    }
}

pub open spec fn datagram_outcome(r: Result<Vec<u8>, MuxError>) -> Result<Seq<u8>, ErrorModel> {
    match r {
        Ok(bytes) => Ok(bytes@),
        Err(e) => Err(e@),
    }
}

/// However the kernel answers, no more is read than its budget allows.
pub proof fn reading_sockets_keeps_the_byte_budget(
    log: Seq<NetlinkEvent>,
    k: int,
    n: int,
    sockets: SocketsModel,
    scanned: nat,
    order: ByteOrder,
)
    requires
        scanned <= processes::MAX_PROCESS_SCAN_BYTES,
    ensures
        received_from(log, k, n, sockets, scanned, order) matches Some((Ok((_, read)), _))
            ==> read <= processes::MAX_PROCESS_SCAN_BYTES,
    decreases MAX_DATAGRAMS - n,
{
    if n < MAX_DATAGRAMS && 0 <= k && k + 1 < log.len() {
        if let NetlinkEvent::Datagram(Ok(bytes)) = log[k + 1] {
            if let Ok((after, false)) = with_frames(sockets, bytes, 0, order) {
                if scanned + bytes.len() <= processes::MAX_PROCESS_SCAN_BYTES {
                    reading_sockets_keeps_the_byte_budget(
                        log,
                        k + 2,
                        n + 1,
                        after,
                        scanned + bytes.len(),
                        order,
                    );
                }
            }
        }
    }
}

/// Reads the answer of the kernel: datagrams up to the one that completes it, within
/// a number of datagrams and of bytes.
pub fn unix_socket_diagnostics<N: NetlinkSource>(
    source: &mut LoggedNetlink<N>,
    order: ByteOrder,
) -> (r: Result<UnixSocketDiagnostics, MuxError>)
    ensures
        old(source).events().is_prefix_of(final(source).events()),
        received_from(
            final(source).events(),
            old(source).events().len() as int,
            0,
            no_sockets(),
            0,
            order,
        ) == Some((received(r), final(source).events().len() as int)),
        r matches Ok(sockets) ==> sockets.scanned_bytes <= processes::MAX_PROCESS_SCAN_BYTES,
{
    let mut sockets = UnixSocketDiagnostics::new();
    let ghost first: int = source.events().len() as int;
    let mut n: usize = 0;
    while n < MAX_DATAGRAMS
        invariant
            n <= MAX_DATAGRAMS,
            first == old(source).events().len(),
            old(source).events().is_prefix_of(source.events()),
            sockets.scanned_bytes <= processes::MAX_PROCESS_SCAN_BYTES,
            forall|w: Seq<NetlinkEvent>|
                source.events().is_prefix_of(w) ==> #[trigger] received_from(
                    w,
                    first,
                    0,
                    no_sockets(),
                    0,
                    order,
                ) == received_from(
                    w,
                    source.events().len() as int,
                    n as int,
                    sockets@,
                    sockets.scanned_bytes as nat,
                    order,
                ),
        decreases MAX_DATAGRAMS - n,
    {
        let ghost here = source.events();
        let cancelled = source.is_cancelled();
        proof {
            assert(here.is_prefix_of(source.events()));
        }
        if cancelled {
            return Err(MuxError::Cancelled);
        }
        let answer = source.receive();
        let ghost there = source.events();
        proof {
            assert(here.is_prefix_of(there));
            let end: int = here.len() as int;
            assert forall|w: Seq<NetlinkEvent>| there.is_prefix_of(w) implies here.is_prefix_of(w)
                && w[end] == NetlinkEvent::Cancelled(false) && w[end + 1]
                == NetlinkEvent::Datagram(datagram_outcome(answer)) by {
                assert(w.take(end + 2)[end] == there[end]);
                assert(w.take(end + 2)[end + 1] == there[end + 1]);
                assert(w.take(end) =~= here) by {
                    assert forall|i: int| 0 <= i < end implies w[i] == here[i] by {
                        assert(w.take(end + 2)[i] == there[i]);
                    }
                }
            }
        }
        let datagram = match answer {
            Ok(datagram) => datagram,
            Err(e) => return Err(e),
        };
        let len: usize = datagram.len();
        if len > 0x4000_0000 || len as u64 > processes::MAX_PROCESS_SCAN_BYTES
            - sockets.scanned_bytes {
            return Err(protocol("netlink sock_diag exceeded the process byte budget"));
        }
        sockets.scanned_bytes = sockets.scanned_bytes + len as u64;
        match sockets.add_datagram(&datagram, order) {
            Ok(true) => return Ok(sockets),
            Ok(false) => {},
            Err(e) => return Err(e),
        }
        n += 1;
    }
    Err(protocol("netlink sock_diag exceeded its response limit"))
}

} // verus!
