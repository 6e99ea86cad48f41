//! Wire codec for the DHCP/BOOTP messages the responder consumes and emits.
//!
//! A datagram is well formed when it holds the full fixed header, the magic
//! cookie, and a cleanly delimited option region. The decoder extracts the
//! fields the responder reads; the encoder lays out the one fixed reply
//! shape the responder sends (a 256-byte image with message-type,
//! lease-time and server-identifier options followed by the end marker).

use vstd::prelude::*;
use crate::net::{Ipv4Address, MacAddr};

verus! {

use vstd::pervasive::VecAdditionalExecFns;
use vstd::pervasive::unreached;

/// The DHCP message types this system tells apart. Every other type value
/// decodes to `Other` and is ignored by the responder.
#[derive(Clone, Copy, PartialEq, Eq, Structural, Debug)]
pub enum MsgKind {
    Discover,
    Offer,
    Request,
    Ack,
    Other,
}

/// Message type option values as carried on the wire.
pub open spec fn kind_of(v: u8) -> MsgKind {
    if v == 1 {
        MsgKind::Discover
    } else if v == 2 {
        MsgKind::Offer
    } else if v == 3 {
        MsgKind::Request
    } else if v == 5 {
        MsgKind::Ack
    } else {
        MsgKind::Other
    }
}

/// The wire value written for each message type (`Other` never names a
/// reply the responder builds; it is given the unused value 0).
pub open spec fn kind_byte(k: MsgKind) -> u8 {
    match k {
        MsgKind::Discover => 1,
        MsgKind::Offer => 2,
        MsgKind::Request => 3,
        MsgKind::Ack => 5,
        MsgKind::Other => 0,
    }
}

/// A decoded DHCP message: exactly the fields this system consumes or
/// produces.
#[derive(Clone, Copy, PartialEq, Eq, Structural, Debug)]
pub struct DhcpMessage {
    /// BOOTP operation code (1 request, 2 reply).
    pub op: u8,
    /// Transaction identifier chosen by the client.
    pub xid: u32,
    /// Seconds elapsed since the client began acquisition.
    pub secs: u16,
    /// BOOTP flags field.
    pub flags: u16,
    /// "Your" address: the address assigned by a reply.
    pub yiaddr: Ipv4Address,
    /// Client hardware address (first 6 of the 16 on-wire bytes).
    pub chaddr: MacAddr,
    /// The message-type option, when present with its 1-byte payload.
    pub msg_type: Option<MsgKind>,
    /// The address-lease-time option, when present with its 4-byte payload.
    pub lease_time: Option<u32>,
    /// The server-identifier option, when present with its 4-byte payload.
    pub server_id: Option<Ipv4Address>,
}

/// Big-endian 16-bit value of two bytes.
pub open spec fn be16_of(a: u8, b: u8) -> u16 {
    (a * 256 + b) as u16
}

/// Big-endian 32-bit value of four bytes.
pub open spec fn be32_of(a: u8, b: u8, c: u8, d: u8) -> u32 {
    (a * 0x1000000 + b * 0x10000 + c * 0x100 + d) as u32
}

/// The four magic cookie bytes stand right before the options.
pub open spec fn cookie_ok(b: Seq<u8>) -> bool {
    &&& b.len() >= 240
    &&& b[236] == 99u8
    &&& b[237] == 130u8
    &&& b[238] == 83u8
    &&& b[239] == 99u8
}

/// Scan the option region from position `i` for the first option with the
/// given code, skipping pad bytes, stopping at the end marker or the end of
/// the datagram; `None` when the option is absent or the region is cut off
/// inside an option.
pub open spec fn opt_payload(b: Seq<u8>, i: int, code: u8) -> Option<Seq<u8>>
    decreases b.len() - i,
{
    if i < 0 || i >= b.len() {
        None
    } else if b[i] == 255u8 {
        None
    } else if b[i] == 0u8 {
        opt_payload(b, i + 1, code)
    } else if i + 2 > b.len() || i + 2 + b[i + 1] > b.len() {
        None
    } else if b[i] == code {
        Some(b.subrange(i + 2, i + 2 + b[i + 1]))
    } else {
        opt_payload(b, i + 2 + b[i + 1], code)
    }
}

/// The option region from position `i` is cleanly delimited: options fit
/// inside the datagram up to the end marker or the end of the buffer.
pub open spec fn opts_wf(b: Seq<u8>, i: int) -> bool
    decreases b.len() - i,
{
    if i < 0 {
        false
    } else if i >= b.len() {
        true
    } else if b[i] == 255u8 {
        true
    } else if b[i] == 0u8 {
        opts_wf(b, i + 1)
    } else if i + 2 > b.len() || i + 2 + b[i + 1] > b.len() {
        false
    } else {
        opts_wf(b, i + 2 + b[i + 1])
    }
}

/// A datagram is well formed when the fixed header and cookie are whole and
/// the option region is cleanly delimited.
pub open spec fn well_formed(b: Seq<u8>) -> bool {
    &&& b.len() >= 240
    &&& cookie_ok(b)
    &&& opts_wf(b, 240)
}

/// The message-type field of a well-formed datagram: present when option 53
/// carries exactly one byte.
pub open spec fn spec_msg_type(b: Seq<u8>) -> Option<MsgKind> {
    match opt_payload(b, 240, 53) {
        Some(p) => if p.len() == 1 {
            Some(kind_of(p[0]))
        } else {
            None
        },
        None => None,
    }
}

/// The address-lease-time field: present when option 51 carries four bytes.
pub open spec fn spec_lease_time(b: Seq<u8>) -> Option<u32> {
    match opt_payload(b, 240, 51) {
        Some(p) => if p.len() == 4 {
            Some(be32_of(p[0], p[1], p[2], p[3]))
        } else {
            None
        },
        None => None,
    }
}

/// The server-identifier field: present when option 54 carries four bytes.
pub open spec fn spec_server_id(b: Seq<u8>) -> Option<Ipv4Address> {
    match opt_payload(b, 240, 54) {
        Some(p) => if p.len() == 4 {
            Some(Ipv4Address { o0: p[0], o1: p[1], o2: p[2], o3: p[3] })
        } else {
            None
        },
        None => None,
    }
}

/// The message a well-formed datagram decodes to.
pub open spec fn decoded(b: Seq<u8>) -> DhcpMessage {
    DhcpMessage {
        op: b[0],
        xid: be32_of(b[4], b[5], b[6], b[7]),
        secs: be16_of(b[8], b[9]),
        flags: be16_of(b[10], b[11]),
        yiaddr: Ipv4Address { o0: b[16], o1: b[17], o2: b[18], o3: b[19] },
        chaddr: MacAddr { b0: b[28], b1: b[29], b2: b[30], b3: b[31], b4: b[32], b5: b[33] },
        msg_type: spec_msg_type(b),
        lease_time: spec_lease_time(b),
        server_id: spec_server_id(b),
    }
}

/// Why a datagram was rejected; rejection never mutates any state.
#[derive(Clone, Copy, PartialEq, Eq, Structural, Debug)]
pub enum DecodeError {
    /// Shorter than the fixed header plus cookie.
    Truncated,
    /// The four bytes before the options are not the magic cookie.
    WrongCookie,
    /// An option runs past the end of the datagram.
    MalformedOptions,
}

/// Map a wire message-type value to its kind.
pub fn msg_kind_from(v: u8) -> (r: MsgKind)
    ensures
        r == kind_of(v),
{
    if v == 1 {
        MsgKind::Discover
    } else if v == 2 {
        MsgKind::Offer
    } else if v == 3 {
        MsgKind::Request
    } else if v == 5 {
        MsgKind::Ack
    } else {
        MsgKind::Other
    }
}

/// The wire value of a message type.
pub fn kind_value(k: MsgKind) -> (r: u8)
    ensures
        r == kind_byte(k),
{
    match k {
        MsgKind::Discover => 1,
        MsgKind::Offer => 2,
        MsgKind::Request => 3,
        MsgKind::Ack => 5,
        MsgKind::Other => 0,
    }
}

/// Find the payload of the first option with the given code, as its start
/// and length inside the datagram.
fn find_option(b: &Vec<u8>, code: u8) -> (r: Option<(usize, usize)>)
    requires
        b@.len() >= 240,
        code != 0u8,
        code != 255u8,
    ensures
        match r {
            Some(sl) => {
                &&& sl.0 + sl.1 <= b@.len()
                &&& opt_payload(b@, 240, code) == Some(b@.subrange(sl.0 as int, sl.0 + sl.1))
            },
            None => opt_payload(b@, 240, code) is None,
        },
{
    let n: usize = b.len();
    let mut i: usize = 240;
    loop
        invariant
            240 <= i <= n,
            n == b@.len(),
            opt_payload(b@, 240, code) == opt_payload(b@, i as int, code),
            code != 0u8,
            code != 255u8,
        decreases n - i,
    {
        if i >= n {
            return None;
        }
        let c = b[i];
        if c == 255 {
            return None;
        }
        if c == 0 {
            i = i + 1;
        } else if n - i < 2 {
            return None;
        } else {
            let l: usize = b[i + 1] as usize;
            if l > n - (i + 2) {
                return None;
            }
            if c == code {
                return Some((i + 2, l));
            }
            i = i + 2 + l;
        }
    }
}

/// Check that the option region is cleanly delimited.
fn options_well_formed(b: &Vec<u8>) -> (r: bool)
    requires
        b@.len() >= 240,
    ensures
        r == opts_wf(b@, 240),
{
    let n: usize = b.len();
    let mut i: usize = 240;
    loop
        invariant
            240 <= i <= n,
            n == b@.len(),
            opts_wf(b@, 240) == opts_wf(b@, i as int),
        decreases n - i,
    {
        if i >= n {
            return true;
        }
        let c = b[i];
        if c == 255 {
            return true;
        }
        if c == 0 {
            i = i + 1;
        } else if n - i < 2 {
            return false;
        } else {
            let l: usize = b[i + 1] as usize;
            if l > n - (i + 2) {
                return false;
            }
            i = i + 2 + l;
        }
    }
}

/// Read the big-endian 32-bit value of four bytes.
pub fn be32_value(a: u8, b: u8, c: u8, d: u8) -> (r: u32)
    ensures
        r == be32_of(a, b, c, d),
{
    (a as u32) * 0x1000000 + (b as u32) * 0x10000 + (c as u32) * 0x100 + (d as u32)
}

/// Read the big-endian 16-bit value of two bytes.
pub fn be16_value(a: u8, b: u8) -> (r: u16)
    ensures
        r == be16_of(a, b),
{
    (a as u16) * 256 + (b as u16)
}

/// Decode a datagram. Succeeds exactly on well-formed input and then
/// returns the decoded message; each error names the first defect found.
pub fn decode(b: &Vec<u8>) -> (r: Result<DhcpMessage, DecodeError>)
    ensures
        r is Ok <==> well_formed(b@),
        r matches Ok(m) ==> m == decoded(b@),
        r matches Err(e) ==> match e {
            DecodeError::Truncated => b@.len() < 240,
            DecodeError::WrongCookie => b@.len() >= 240 && !cookie_ok(b@),
            DecodeError::MalformedOptions => cookie_ok(b@) && !opts_wf(b@, 240),
        },
{
    if b.len() < 240 {
        return Err(DecodeError::Truncated);
    }
    if !(b[236] == 99 && b[237] == 130 && b[238] == 83 && b[239] == 99) {
        return Err(DecodeError::WrongCookie);
    }
    if !options_well_formed(b) {
        return Err(DecodeError::MalformedOptions);
    }
    let msg_type: Option<MsgKind> = match find_option(b, 53) {
        Some((s, l)) => if l == 1 {
            Some(msg_kind_from(b[s]))
        } else {
            None
        },
        None => None,
    };
    let lease_time: Option<u32> = match find_option(b, 51) {
        Some((s, l)) => if l == 4 {
            Some(be32_value(b[s], b[s + 1], b[s + 2], b[s + 3]))
        } else {
            None
        },
        None => None,
    };
    let server_id: Option<Ipv4Address> = match find_option(b, 54) {
        Some((s, l)) => if l == 4 {
            Some(Ipv4Address::new(b[s], b[s + 1], b[s + 2], b[s + 3]))
        } else {
            None
        },
        None => None,
    };
    Ok(DhcpMessage {
        op: b[0],
        xid: be32_value(b[4], b[5], b[6], b[7]),
        secs: be16_value(b[8], b[9]),
        flags: be16_value(b[10], b[11]),
        yiaddr: Ipv4Address::new(b[16], b[17], b[18], b[19]),
        chaddr: MacAddr::new(b[28], b[29], b[30], b[31], b[32], b[33]),
        msg_type,
        lease_time,
        server_id,
    })
}

/// Most significant byte of a 32-bit value.
pub open spec fn b32_0(x: u32) -> u8 {
    (x / 0x1000000) as u8
}

/// Second byte of a 32-bit value.
pub open spec fn b32_1(x: u32) -> u8 {
    ((x / 0x10000) % 0x100) as u8
}

/// Third byte of a 32-bit value.
pub open spec fn b32_2(x: u32) -> u8 {
    ((x / 0x100) % 0x100) as u8
}

/// Least significant byte of a 32-bit value.
pub open spec fn b32_3(x: u32) -> u8 {
    (x % 0x100) as u8
}

/// Most significant byte of a 16-bit value.
pub open spec fn b16_0(x: u16) -> u8 {
    (x / 0x100) as u8
}

/// Least significant byte of a 16-bit value.
pub open spec fn b16_1(x: u16) -> u8 {
    (x % 0x100) as u8
}

/// Splitting a 32-bit value into its big-endian bytes and reading them back
/// is the identity.
pub proof fn lemma_be32_split(x: u32)
    ensures
        be32_of(b32_0(x), b32_1(x), b32_2(x), b32_3(x)) == x,
{
    assert(x / 0x1000000 < 0x100 && (x / 0x10000) % 0x100 < 0x100 && (x / 0x100) % 0x100 < 0x100
        && x % 0x100 < 0x100 && (x / 0x1000000) * 0x1000000 + ((x / 0x10000) % 0x100) * 0x10000 + (
    (x / 0x100) % 0x100) * 0x100 + x % 0x100 == x) by (bit_vector);
}

/// Splitting a 16-bit value into its big-endian bytes and reading them back
/// is the identity.
pub proof fn lemma_be16_split(x: u16)
    ensures
        be16_of(b16_0(x), b16_1(x)) == x,
{
    assert(x / 0x100 < 0x100 && x % 0x100 < 0x100 && (x / 0x100) * 0x100 + x % 0x100 == x)
        by (bit_vector);
}

/// The byte at each position of the reply image built from a message:
/// fixed BOOTP header, the message's header fields, zero padding, the magic
/// cookie, then the message-type, lease-time and server-identifier options
/// and the end marker.
pub open spec fn reply_byte(m: DhcpMessage, i: int) -> u8 {
    if i == 0 {
        m.op
    } else if i == 1 {
        1  // hardware type: ethernet
    } else if i == 2 {
        6  // hardware address length
    } else if i == 4 {
        b32_0(m.xid)
    } else if i == 5 {
        b32_1(m.xid)
    } else if i == 6 {
        b32_2(m.xid)
    } else if i == 7 {
        b32_3(m.xid)
    } else if i == 8 {
        b16_0(m.secs)
    } else if i == 9 {
        b16_1(m.secs)
    } else if i == 10 {
        b16_0(m.flags)
    } else if i == 11 {
        b16_1(m.flags)
    } else if i == 16 {
        m.yiaddr.o0
    } else if i == 17 {
        m.yiaddr.o1
    } else if i == 18 {
        m.yiaddr.o2
    } else if i == 19 {
        m.yiaddr.o3
    } else if i == 28 {
        m.chaddr.b0
    } else if i == 29 {
        m.chaddr.b1
    } else if i == 30 {
        m.chaddr.b2
    } else if i == 31 {
        m.chaddr.b3
    } else if i == 32 {
        m.chaddr.b4
    } else if i == 33 {
        m.chaddr.b5
    } else if i == 236 {
        99
    } else if i == 237 {
        130
    } else if i == 238 {
        83
    } else if i == 239 {
        99
    } else if i == 240 {
        53
    } else if i == 241 {
        1
    } else if i == 242 {
        kind_byte(m.msg_type.unwrap())
    } else if i == 243 {
        51
    } else if i == 244 {
        4
    } else if i == 245 {
        b32_0(m.lease_time.unwrap())
    } else if i == 246 {
        b32_1(m.lease_time.unwrap())
    } else if i == 247 {
        b32_2(m.lease_time.unwrap())
    } else if i == 248 {
        b32_3(m.lease_time.unwrap())
    } else if i == 249 {
        54
    } else if i == 250 {
        4
    } else if i == 251 {
        m.server_id.unwrap().o0
    } else if i == 252 {
        m.server_id.unwrap().o1
    } else if i == 253 {
        m.server_id.unwrap().o2
    } else if i == 254 {
        m.server_id.unwrap().o3
    } else if i == 255 {
        255
    } else {
        0
    }
}

/// The full 256-byte reply image of a message.
pub open spec fn encoded_reply(m: DhcpMessage) -> Seq<u8> {
    Seq::new(256, |i: int| reply_byte(m, i))
}

/// Serialize a reply message into its wire image.
pub fn encode_reply(m: &DhcpMessage) -> (r: Vec<u8>)
    requires
        m.msg_type is Some,
        m.lease_time is Some,
        m.server_id is Some,
    ensures
        r@ == encoded_reply(*m),
        r@.len() == 256,
{
    let mut v: Vec<u8> = Vec::new();
    while v.len() < 256
        invariant
            v@.len() <= 256,
            forall|j: int| 0 <= j < v@.len() ==> v@[j] == 0u8,
        decreases 256 - v@.len(),
    {
        v.push(0u8);
    }
    v.set(0, m.op);
    v.set(1, 1);
    v.set(2, 6);
    let x = m.xid;
    v.set(4, (x / 0x1000000) as u8);
    v.set(5, ((x / 0x10000) % 0x100) as u8);
    v.set(6, ((x / 0x100) % 0x100) as u8);
    v.set(7, (x % 0x100) as u8);
    v.set(8, (m.secs / 0x100) as u8);
    v.set(9, (m.secs % 0x100) as u8);
    v.set(10, (m.flags / 0x100) as u8);
    v.set(11, (m.flags % 0x100) as u8);
    v.set(16, m.yiaddr.o0);
    v.set(17, m.yiaddr.o1);
    v.set(18, m.yiaddr.o2);
    v.set(19, m.yiaddr.o3);
    v.set(28, m.chaddr.b0);
    v.set(29, m.chaddr.b1);
    v.set(30, m.chaddr.b2);
    v.set(31, m.chaddr.b3);
    v.set(32, m.chaddr.b4);
    v.set(33, m.chaddr.b5);
    v.set(236, 99);
    v.set(237, 130);
    v.set(238, 83);
    v.set(239, 99);
    v.set(240, 53);
    v.set(241, 1);
    let k: MsgKind = match m.msg_type {
        Some(k) => k,
        None => unreached(),
    };
    v.set(242, kind_value(k));
    v.set(243, 51);
    v.set(244, 4);
    let lt: u32 = match m.lease_time {
        Some(t) => t,
        None => unreached(),
    };
    v.set(245, (lt / 0x1000000) as u8);
    v.set(246, ((lt / 0x10000) % 0x100) as u8);
    v.set(247, ((lt / 0x100) % 0x100) as u8);
    v.set(248, (lt % 0x100) as u8);
    v.set(249, 54);
    v.set(250, 4);
    let sid: Ipv4Address = match m.server_id {
        Some(s) => s,
        None => unreached(),
    };
    v.set(251, sid.o0);
    v.set(252, sid.o1);
    v.set(253, sid.o2);
    v.set(254, sid.o3);
    v.set(255, 255);
    proof {
        assert forall|j: int| 0 <= j < 256 implies v@[j] == reply_byte(*m, j) by {
            assert(encoded_reply(*m)[j] == reply_byte(*m, j));
        }
        assert(v@ =~= encoded_reply(*m));
    }
    v
}

/// Writing a type's wire value and reading it back names the same type.
pub proof fn lemma_kind_round_trip(k: MsgKind)
    ensures
        kind_of(kind_byte(k)) == k,
{
}

/// A reply image is well formed and decodes back to the very message it
/// was built from: nothing is lost or altered on the wire.
pub proof fn lemma_reply_round_trip(m: DhcpMessage)
    requires
        m.msg_type is Some,
        m.lease_time is Some,
        m.server_id is Some,
    ensures
        well_formed(encoded_reply(m)),
        decoded(encoded_reply(m)) == m,
{
    let b = encoded_reply(m);
    assert(b.len() == 256);
    assert(forall|i: int| 0 <= i < 256 ==> b[i] == reply_byte(m, i));
    let k = m.msg_type.unwrap();
    let lt = m.lease_time.unwrap();
    let sid = m.server_id.unwrap();
    // The cookie bytes stand at their places.
    assert(cookie_ok(b));
    // The option region is delimited: walk it option by option.
    assert(opts_wf(b, 255));
    assert(opts_wf(b, 249));
    assert(opts_wf(b, 243));
    assert(opts_wf(b, 240));
    // Message type option.
    assert(opt_payload(b, 240, 53) == Some(b.subrange(242, 243)));
    assert(b.subrange(242, 243).len() == 1);
    assert(b.subrange(242, 243)[0] == kind_byte(k));
    lemma_kind_round_trip(k);
    assert(spec_msg_type(b) == Some(k));
    // Lease time option: the scan skips the message type option first.
    assert(opt_payload(b, 240, 51) == opt_payload(b, 243, 51));
    assert(opt_payload(b, 243, 51) == Some(b.subrange(245, 249)));
    let pl = b.subrange(245, 249);
    assert(pl.len() == 4);
    assert(pl[0] == b32_0(lt) && pl[1] == b32_1(lt) && pl[2] == b32_2(lt) && pl[3] == b32_3(lt));
    lemma_be32_split(lt);
    assert(spec_lease_time(b) == Some(lt));
    // Server identifier option: the scan skips the first two options.
    assert(opt_payload(b, 240, 54) == opt_payload(b, 243, 54));
    assert(opt_payload(b, 243, 54) == opt_payload(b, 249, 54));
    assert(opt_payload(b, 249, 54) == Some(b.subrange(251, 255)));
    let ps = b.subrange(251, 255);
    assert(ps[0] == sid.o0 && ps[1] == sid.o1 && ps[2] == sid.o2 && ps[3] == sid.o3);
    assert(spec_server_id(b) == Some(sid));
    // Header fields.
    lemma_be32_split(m.xid);
    lemma_be16_split(m.secs);
    lemma_be16_split(m.flags);
    assert(decoded(b) == m);
}

} // verus!
