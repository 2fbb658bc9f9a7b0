//! The connection state-change event, and its decoding from the raw record.
use vstd::prelude::*;
use vstd::arithmetic::div_mod::lemma_fundamental_div_mod_converse;
use crate::net::octet;

verus! {

/// A TCP state change of one socket, as the kernel program reports it. The
/// numbers are in the host's byte order, as the kernel wrote them. The
/// addresses are the four address bytes, in the order they stand in the record,
/// held as a word whose least significant byte is the first (see `net::octet`),
/// so that their dotted-quad text lists those bytes in that order on every host.
#[derive(Debug, Copy, Clone)]
pub struct ConnEvent {
    pub pid: u32,
    pub saddr: u32,
    pub daddr: u32,
    pub sport: u16,
    pub dport: u16,
    pub family: u16,
    pub protocol: u16,
    pub oldstate: u32,
    pub newstate: u32,
    pub comm: [u8; 16],
}

/// The size in bytes of the raw record of a `ConnEvent`.
pub const CONN_EVENT_SIZE: usize = 44;

/// The 16-bit little-endian number held in `b[at..at + 2]`.
pub open spec fn le16(b: Seq<u8>, at: int) -> int {
    b[at] + 256 * b[at + 1]
}

/// The 16-bit big-endian number held in `b[at..at + 2]`.
pub open spec fn be16(b: Seq<u8>, at: int) -> int {
    256 * b[at] + b[at + 1]
}

/// The 32-bit little-endian number held in `b[at..at + 4]`.
pub open spec fn le32(b: Seq<u8>, at: int) -> int {
    b[at] + 256 * b[at + 1] + 65536 * b[at + 2] + 16777216 * b[at + 3]
}

/// The 32-bit big-endian number held in `b[at..at + 4]`.
pub open spec fn be32(b: Seq<u8>, at: int) -> int {
    16777216 * b[at] + 65536 * b[at + 1] + 256 * b[at + 2] + b[at + 3]
}

/// The 16-bit number held in `b[at..at + 2]`, little-endian or big-endian.
pub open spec fn num16(b: Seq<u8>, at: int, little_endian: bool) -> int {
    if little_endian {
        le16(b, at)
    } else {
        be16(b, at)
    }
}

/// The 32-bit number held in `b[at..at + 4]`, little-endian or big-endian.
pub open spec fn num32(b: Seq<u8>, at: int, little_endian: bool) -> int {
    if little_endian {
        le32(b, at)
    } else {
        be32(b, at)
    }
}

/// `e` is the event that the raw record `b` holds on a host of the given byte
/// order: the fields in declaration order, without padding, each number in that
/// byte order, the addresses as described at `ConnEvent`.
pub open spec fn decodes_to(b: Seq<u8>, e: ConnEvent, little_endian: bool) -> bool {
    &&& e.pid == num32(b, 0, little_endian)
    &&& e.saddr == le32(b, 4)
    &&& e.daddr == le32(b, 8)
    &&& e.sport == num16(b, 12, little_endian)
    &&& e.dport == num16(b, 14, little_endian)
    &&& e.family == num16(b, 16, little_endian)
    &&& e.protocol == num16(b, 18, little_endian)
    &&& e.oldstate == num32(b, 20, little_endian)
    &&& e.newstate == num32(b, 24, little_endian)
    &&& e.comm@ == b.subrange(28, 44)
}

fn read_u16(data: &[u8], at: usize, little_endian: bool) -> (v: u16)
    requires
        at + 2 <= data@.len(),
    ensures
        v == num16(data@, at as int, little_endian),
{
    if little_endian {
        data[at] as u16 + (data[at + 1] as u16) * 256
    } else {
        (data[at] as u16) * 256 + data[at + 1] as u16
    }
}

fn read_u32(data: &[u8], at: usize, little_endian: bool) -> (v: u32)
    requires
        at + 4 <= data@.len(),
    ensures
        v == num32(data@, at as int, little_endian),
{
    if little_endian {
        data[at] as u32 + (data[at + 1] as u32) * 256 + (data[at + 2] as u32) * 65536 + (data[at
            + 3] as u32) * 16777216
    } else {
        (data[at] as u32) * 16777216 + (data[at + 1] as u32) * 65536 + (data[at + 2] as u32) * 256
            + data[at + 3] as u32
    }
}

/// `u16::from_ne_bytes`: the two bytes read as a number in the host's byte
/// order. Stated: the result is their little-endian or their big-endian reading.
/// Not stated: which of the two; that depends on the machine.
#[verifier::external_body]
fn u16_from_ne_bytes(bytes: [u8; 2]) -> (v: u16)
    ensures
        v == bytes@[0] + 256 * bytes@[1] || v == 256 * bytes@[0] + bytes@[1],
{
    u16::from_ne_bytes(bytes)
}

/// Whether this host stores numbers least significant byte first.
pub fn host_is_little_endian() -> bool {
    u16_from_ne_bytes([1, 0]) == 1
}

impl ConnEvent {
    /// Decodes the raw record `data` written on a host of the given byte order;
    /// `None` when it is shorter than an event (bytes beyond the event are ignored).
    pub fn decode(data: &[u8], little_endian: bool) -> (r: Option<ConnEvent>)
        ensures
            r is None <==> data@.len() < CONN_EVENT_SIZE,
            r matches Some(e) ==> decodes_to(data@, e, little_endian),
    {
        if data.len() < CONN_EVENT_SIZE {
            return None;
        }
        let comm: [u8; 16] = [
            data[28],
            data[29],
            data[30],
            data[31],
            data[32],
            data[33],
            data[34],
            data[35],
            data[36],
            data[37],
            data[38],
            data[39],
            data[40],
            data[41],
            data[42],
            data[43],
        ];
        let e = ConnEvent {
            pid: read_u32(data, 0, little_endian),
            saddr: read_u32(data, 4, true),
            daddr: read_u32(data, 8, true),
            sport: read_u16(data, 12, little_endian),
            dport: read_u16(data, 14, little_endian),
            family: read_u16(data, 16, little_endian),
            protocol: read_u16(data, 18, little_endian),
            oldstate: read_u32(data, 20, little_endian),
            newstate: read_u32(data, 24, little_endian),
            comm,
        };
        assert(e.comm@ =~= data@.subrange(28, 44));
        Some(e)
    }

    /// Decodes the raw record `data` that the kernel of this host wrote (see
    /// `decode`, with the host's byte order).
    pub fn from_bytes(data: &[u8]) -> (r: Option<ConnEvent>)
        ensures
            r is None <==> data@.len() < CONN_EVENT_SIZE,
            r matches Some(e) ==> decodes_to(data@, e, true) || decodes_to(data@, e, false),
    {
        let little_endian = host_is_little_endian();
        ConnEvent::decode(data, little_endian)
    }
}

/// The octets (see `net::octet`) of a word read as `le32` are the four bytes it was read from.
proof fn lemma_le32_octets(b: Seq<u8>, at: int)
    requires
        0 <= at,
        at + 4 <= b.len(),
        0 <= le32(b, at) < 0x1_0000_0000,
    ensures
        octet(le32(b, at) as u32, 0) == b[at],
        octet(le32(b, at) as u32, 1) == b[at + 1],
        octet(le32(b, at) as u32, 2) == b[at + 2],
        octet(le32(b, at) as u32, 3) == b[at + 3],
{
    let x = le32(b, at);
    let (b0, b1, b2, b3) = (b[at] as int, b[at + 1] as int, b[at + 2] as int, b[at + 3] as int);
    lemma_fundamental_div_mod_converse(x, 1, x, 0);
    lemma_fundamental_div_mod_converse(x, 256, b1 + 256 * b2 + 65536 * b3, b0);
    lemma_fundamental_div_mod_converse(x, 65536, b2 + 256 * b3, b0 + 256 * b1);
    lemma_fundamental_div_mod_converse(x, 16777216, b3, b0 + 256 * b1 + 65536 * b2);
    lemma_fundamental_div_mod_converse(b1 + 256 * b2 + 65536 * b3, 256, b2 + 256 * b3, b1);
    lemma_fundamental_div_mod_converse(b2 + 256 * b3, 256, b3, b2);
    lemma_fundamental_div_mod_converse(b3, 256, 0, b3);
}

/// The octets of a word read as `be32` are the four bytes it was read from, last first.
proof fn lemma_be32_octets(b: Seq<u8>, at: int)
    requires
        0 <= at,
        at + 4 <= b.len(),
        0 <= be32(b, at) < 0x1_0000_0000,
    ensures
        octet(be32(b, at) as u32, 0) == b[at + 3],
        octet(be32(b, at) as u32, 1) == b[at + 2],
        octet(be32(b, at) as u32, 2) == b[at + 1],
        octet(be32(b, at) as u32, 3) == b[at],
{
    let x = be32(b, at);
    let (b0, b1, b2, b3) = (b[at + 3] as int, b[at + 2] as int, b[at + 1] as int, b[at] as int);
    lemma_fundamental_div_mod_converse(x, 1, x, 0);
    lemma_fundamental_div_mod_converse(x, 256, b1 + 256 * b2 + 65536 * b3, b0);
    lemma_fundamental_div_mod_converse(x, 65536, b2 + 256 * b3, b0 + 256 * b1);
    lemma_fundamental_div_mod_converse(x, 16777216, b3, b0 + 256 * b1 + 65536 * b2);
    lemma_fundamental_div_mod_converse(b1 + 256 * b2 + 65536 * b3, 256, b2 + 256 * b3, b1);
    lemma_fundamental_div_mod_converse(b2 + 256 * b3, 256, b3, b2);
    lemma_fundamental_div_mod_converse(b3, 256, 0, b3);
}

/// The byte at position `i` (0 for the least significant) of the number held
/// in `b[at..at + width]` in the given byte order.
pub open spec fn byte_of(b: Seq<u8>, at: int, width: int, i: int, little_endian: bool) -> u8 {
    if little_endian {
        b[at + i]
    } else {
        b[at + width - 1 - i]
    }
}

/// The 32-bit number `x` is held in `b[at..at + 4]` in the given byte order.
pub open spec fn holds32(b: Seq<u8>, at: int, x: u32, little_endian: bool) -> bool {
    forall|i: nat| i < 4 ==> octet(x, i) == byte_of(b, at, 4, i as int, little_endian)
}

/// The 16-bit number `x` is held in `b[at..at + 2]` in the given byte order.
pub open spec fn holds16(b: Seq<u8>, at: int, x: u16, little_endian: bool) -> bool {
    &&& x % 256 == byte_of(b, at, 2, 0, little_endian)
    &&& x / 256 == byte_of(b, at, 2, 1, little_endian)
}

proof fn lemma_num32_holds(b: Seq<u8>, at: int, little_endian: bool)
    requires
        0 <= at,
        at + 4 <= b.len(),
    ensures
        holds32(b, at, num32(b, at, little_endian) as u32, little_endian),
{
    if little_endian {
        lemma_le32_octets(b, at);
    } else {
        lemma_be32_octets(b, at);
    }
    let x = num32(b, at, little_endian) as u32;
    assert forall|i: nat| i < 4 implies octet(x, i) == byte_of(b, at, 4, i as int, little_endian) by {
        if i == 0 {
        } else if i == 1 {
        } else if i == 2 {
        } else {
        }
    }
}

proof fn lemma_num16_holds(b: Seq<u8>, at: int, little_endian: bool)
    requires
        0 <= at,
        at + 2 <= b.len(),
    ensures
        holds16(b, at, num16(b, at, little_endian) as u16, little_endian),
{
    let x = num16(b, at, little_endian);
    if little_endian {
        lemma_fundamental_div_mod_converse(x, 256, b[at + 1] as int, b[at] as int);
    } else {
        lemma_fundamental_div_mod_converse(x, 256, b[at] as int, b[at + 1] as int);
    }
}

/// Every number field of a decoded event is held in the record at its offset
/// in one and the same byte order, the host's: written back in that order, the
/// pid, the ports, the family, the protocol and both states give the record's
/// bytes.
pub proof fn lemma_event_numbers_in_host_order(b: Seq<u8>, e: ConnEvent, little_endian: bool)
    requires
        b.len() >= CONN_EVENT_SIZE,
        decodes_to(b, e, little_endian),
    ensures
        holds32(b, 0, e.pid, little_endian),
        holds16(b, 12, e.sport, little_endian),
        holds16(b, 14, e.dport, little_endian),
        holds16(b, 16, e.family, little_endian),
        holds16(b, 18, e.protocol, little_endian),
        holds32(b, 20, e.oldstate, little_endian),
        holds32(b, 24, e.newstate, little_endian),
{
    lemma_num32_holds(b, 0, little_endian);
    lemma_num32_holds(b, 20, little_endian);
    lemma_num32_holds(b, 24, little_endian);
    lemma_num16_holds(b, 12, little_endian);
    lemma_num16_holds(b, 14, little_endian);
    lemma_num16_holds(b, 16, little_endian);
    lemma_num16_holds(b, 18, little_endian);
}

/// The octets of a decoded event's addresses are the record's address bytes
/// in the order they stand in: bytes 4 to 7 for the source, 8 to 11 for the destination.
pub proof fn lemma_event_address_octets(b: Seq<u8>, e: ConnEvent, little_endian: bool)
    requires
        b.len() >= CONN_EVENT_SIZE,
        decodes_to(b, e, little_endian),
    ensures
        forall|i: nat| i < 4 ==> octet(e.saddr, i) == b[4 + i as int] && octet(e.daddr, i) == b[8 + i as int],
{
    lemma_le32_octets(b, 4);
    lemma_le32_octets(b, 8);
    assert forall|i: nat| i < 4 implies octet(e.saddr, i) == b[4 + i as int] && octet(e.daddr, i) == b[8
        + i as int] by {
        if i == 0 {
        } else if i == 1 {
        } else if i == 2 {
        } else {
        }
    }
}

} // verus!
