//! The single-lease DHCP responder: reply construction, the lease record
//! with its first-writer-wins discipline, and the per-event step of the
//! receive loop.

use vstd::prelude::*;
use crate::net::{Ipv4Address, MacAddr};
use crate::codec::{
    DhcpMessage, MsgKind, decode, decoded, encode_reply, encoded_reply, spec_msg_type,
    well_formed,
};

verus! {

/// BOOTP operation code of every reply.
pub const OP_BOOT_REPLY: u8 = 2;

/// The fixed lease duration offered and acknowledged, in seconds.
pub const LEASE_TIME_SECS: u32 = 3600;

/// The well-known DHCP server port the responder's socket binds.
pub const DHCP_SERVER_PORT: u16 = 67;

/// The client port replies are broadcast to.
pub const DHCP_CLIENT_PORT: u16 = 68;

/// The shared outcome of the handshake: set at most once, by the first
/// accepted request, and never overwritten.
#[derive(Clone, Copy, PartialEq, Eq, Structural, Debug)]
pub struct LeaseRecord {
    /// Hardware address of the device the lease was granted to.
    pub mac: Option<MacAddr>,
    /// The address granted.
    pub ip: Option<Ipv4Address>,
    /// Whether the handshake has completed.
    pub completed: bool,
}

impl LeaseRecord {
    /// The record is never partially populated: it is complete exactly when
    /// both fields are set.
    pub open spec fn wf(self) -> bool {
        self.completed <==> (self.mac is Some && self.ip is Some)
    }

    /// The empty record every run starts from.
    pub open spec fn spec_empty() -> LeaseRecord {
        LeaseRecord { mac: None, ip: None, completed: false }
    }

    /// Create the empty record.
    pub fn new() -> (r: LeaseRecord)
        ensures
            r == LeaseRecord::spec_empty(),
            r.wf(),
    {
        LeaseRecord { mac: None, ip: None, completed: false }
    }
}

impl Default for LeaseRecord {
    /// Same empty record as `new`.
    fn default() -> (r: LeaseRecord)
        ensures
            r == LeaseRecord::spec_empty(),
            r.wf(),
    {
        LeaseRecord::new()
    }
}

/// The reply to a message: same transaction identifier, elapsed seconds,
/// flags and hardware address as the input, the candidate address offered,
/// the fixed lease duration, and the bound interface as server identifier.
pub open spec fn reply_message(m: DhcpMessage, kind: MsgKind, candidate: Ipv4Address,
    server_ip: Ipv4Address) -> DhcpMessage {
    DhcpMessage {
        op: OP_BOOT_REPLY,
        xid: m.xid,
        secs: m.secs,
        flags: m.flags,
        yiaddr: candidate,
        chaddr: m.chaddr,
        msg_type: Some(kind),
        lease_time: Some(LEASE_TIME_SECS),
        server_id: Some(server_ip),
    }
}

/// Build the reply to a message.
pub fn build_reply(m: &DhcpMessage, kind: MsgKind, candidate: Ipv4Address,
    server_ip: Ipv4Address) -> (r: DhcpMessage)
    ensures
        r == reply_message(*m, kind, candidate, server_ip),
{
    DhcpMessage {
        op: OP_BOOT_REPLY,
        xid: m.xid,
        secs: m.secs,
        flags: m.flags,
        yiaddr: candidate,
        chaddr: m.chaddr,
        msg_type: Some(kind),
        lease_time: Some(LEASE_TIME_SECS),
        server_id: Some(server_ip),
    }
}

/// The lease record after one datagram: a well-formed request completes an
/// incomplete record with the requester's hardware address and the
/// candidate address; everything else leaves the record as it stands.
pub open spec fn record_after(r: LeaseRecord, b: Seq<u8>, candidate: Ipv4Address) -> LeaseRecord {
    if well_formed(b) && spec_msg_type(b) == Some(MsgKind::Request) && !r.completed {
        LeaseRecord { mac: Some(decoded(b).chaddr), ip: Some(candidate), completed: true }
    } else {
        r
    }
}

/// The reply a datagram provokes: an offer image for a well-formed
/// discovery, an acknowledgement image for a well-formed request, nothing
/// otherwise.
pub open spec fn reply_bytes_for(b: Seq<u8>, server_ip: Ipv4Address,
    candidate: Ipv4Address) -> Option<Seq<u8>> {
    if well_formed(b) && spec_msg_type(b) == Some(MsgKind::Discover) {
        Some(encoded_reply(reply_message(decoded(b), MsgKind::Offer, candidate, server_ip)))
    } else if well_formed(b) && spec_msg_type(b) == Some(MsgKind::Request) {
        Some(encoded_reply(reply_message(decoded(b), MsgKind::Ack, candidate, server_ip)))
    } else {
        None
    }
}

/// Consume one datagram: decode it, answer a discovery with an offer and a
/// request with an acknowledgement, complete the lease record on the first
/// request, and discard everything else untouched.
pub fn handle_datagram(b: &Vec<u8>, server_ip: Ipv4Address, candidate: Ipv4Address,
    record: &mut LeaseRecord) -> (reply: Option<Vec<u8>>)
    requires
        old(record).wf(),
    ensures
        final(record).wf(),
        *final(record) == record_after(*old(record), b@, candidate),
        match reply {
            Some(v) => reply_bytes_for(b@, server_ip, candidate) == Some(v@),
            None => reply_bytes_for(b@, server_ip, candidate) is None,
        },
{
    let msg = match decode(b) {
        Ok(m) => m,
        Err(_) => {
            return None;
        },
    };
    match msg.msg_type {
        Some(MsgKind::Discover) => {
            let offer = build_reply(&msg, MsgKind::Offer, candidate, server_ip);
            Some(encode_reply(&offer))
        },
        Some(MsgKind::Request) => {
            if !record.completed {
                *record = LeaseRecord {
                    mac: Some(msg.chaddr),
                    ip: Some(candidate),
                    completed: true,
                };
            }
            let ack = build_reply(&msg, MsgKind::Ack, candidate, server_ip);
            Some(encode_reply(&ack))
        },
        _ => None,
    }
}

/// What the receive loop races on: a datagram arriving or the one-shot
/// shutdown signal firing.
pub enum ResponderEvent {
    Datagram(Vec<u8>),
    Shutdown,
}

/// What one loop turn does with an event: broadcast a reply image to the
/// client port, ignore the datagram, or exit the loop.
pub enum LoopStep {
    Reply(Vec<u8>),
    Ignore,
    Exit,
}

/// One turn of the responder loop. The loop exits exactly on the shutdown
/// signal; a datagram is handled as `handle_datagram` says and never ends
/// the loop.
pub fn responder_step(ev: &ResponderEvent, server_ip: Ipv4Address, candidate: Ipv4Address,
    record: &mut LeaseRecord) -> (r: LoopStep)
    requires
        old(record).wf(),
    ensures
        final(record).wf(),
        (r is Exit) <==> (ev is Shutdown),
        ev is Shutdown ==> *final(record) == *old(record),
        ev matches ResponderEvent::Datagram(d) ==> {
            &&& *final(record) == record_after(*old(record), d@, candidate)
            &&& match r {
                LoopStep::Reply(v) => reply_bytes_for(d@, server_ip, candidate) == Some(v@),
                LoopStep::Ignore => reply_bytes_for(d@, server_ip, candidate) is None,
                LoopStep::Exit => false,
            }
        },
{
    match ev {
        ResponderEvent::Shutdown => LoopStep::Exit,
        ResponderEvent::Datagram(d) => {
            match handle_datagram(d, server_ip, candidate, record) {
                Some(v) => LoopStep::Reply(v),
                None => LoopStep::Ignore,
            }
        },
    }
}

/// A well-formed discovery always provokes exactly one reply, and that
/// reply is a well-formed offer that echoes the transaction identifier,
/// elapsed seconds, flags and hardware address of the input, offers the
/// candidate address for the fixed lease duration, names the bound
/// interface as server identifier — and leaves the lease record untouched.
pub proof fn lemma_discovery_yields_offer(r: LeaseRecord, b: Seq<u8>, server_ip: Ipv4Address,
    candidate: Ipv4Address)
    requires
        well_formed(b),
        spec_msg_type(b) == Some(MsgKind::Discover),
    ensures
        record_after(r, b, candidate) == r,
        reply_bytes_for(b, server_ip, candidate) is Some,
        ({
            let reply = reply_bytes_for(b, server_ip, candidate).unwrap();
            &&& well_formed(reply)
            &&& decoded(reply) == reply_message(decoded(b), MsgKind::Offer, candidate, server_ip)
            &&& decoded(reply).msg_type == Some(MsgKind::Offer)
            &&& decoded(reply).op == OP_BOOT_REPLY
            &&& decoded(reply).xid == decoded(b).xid
            &&& decoded(reply).secs == decoded(b).secs
            &&& decoded(reply).flags == decoded(b).flags
            &&& decoded(reply).chaddr == decoded(b).chaddr
            &&& decoded(reply).yiaddr == candidate
            &&& decoded(reply).lease_time == Some(LEASE_TIME_SECS)
            &&& decoded(reply).server_id == Some(server_ip)
        }),
{
    crate::codec::lemma_reply_round_trip(
        reply_message(decoded(b), MsgKind::Offer, candidate, server_ip),
    );
}

/// A well-formed request always provokes exactly one reply, and that reply
/// is a well-formed acknowledgement built by the same field rules as the
/// offer; an incomplete record completes with the requester's hardware
/// address and the candidate address, a complete one stands untouched.
pub proof fn lemma_request_yields_ack(r: LeaseRecord, b: Seq<u8>, server_ip: Ipv4Address,
    candidate: Ipv4Address)
    requires
        well_formed(b),
        spec_msg_type(b) == Some(MsgKind::Request),
    ensures
        !r.completed ==> record_after(r, b, candidate) == (LeaseRecord {
            mac: Some(decoded(b).chaddr),
            ip: Some(candidate),
            completed: true,
        }),
        r.completed ==> record_after(r, b, candidate) == r,
        reply_bytes_for(b, server_ip, candidate) is Some,
        ({
            let reply = reply_bytes_for(b, server_ip, candidate).unwrap();
            &&& well_formed(reply)
            &&& decoded(reply) == reply_message(decoded(b), MsgKind::Ack, candidate, server_ip)
            &&& decoded(reply).msg_type == Some(MsgKind::Ack)
            &&& decoded(reply).xid == decoded(b).xid
            &&& decoded(reply).chaddr == decoded(b).chaddr
            &&& decoded(reply).yiaddr == candidate
        }),
{
    crate::codec::lemma_reply_round_trip(
        reply_message(decoded(b), MsgKind::Ack, candidate, server_ip),
    );
}

/// First-writer-wins: once the record is complete, no datagram whatever
/// changes it again, so however many requests arrive the record transitions
/// from incomplete to complete at most once.
pub proof fn lemma_lease_completes_at_most_once(r: LeaseRecord, b1: Seq<u8>, b2: Seq<u8>,
    candidate: Ipv4Address)
    ensures
        r.completed ==> record_after(r, b1, candidate) == r,
        record_after(r, b1, candidate).completed ==> record_after(
            record_after(r, b1, candidate),
            b2,
            candidate,
        ) == record_after(r, b1, candidate),
{
}

/// The lease record after a whole run of datagrams, in arrival order.
pub open spec fn record_after_datagrams(r: LeaseRecord, ds: Seq<Seq<u8>>,
    candidate: Ipv4Address) -> LeaseRecord
    decreases ds.len(),
{
    if ds.len() == 0 {
        r
    } else {
        record_after_datagrams(
            record_after(r, ds[0], candidate),
            ds.subrange(1, ds.len() as int),
            candidate,
        )
    }
}

/// A complete record survives any run of datagrams untouched.
pub proof fn lemma_complete_record_is_final(r: LeaseRecord, ds: Seq<Seq<u8>>,
    candidate: Ipv4Address)
    requires
        r.completed,
    ensures
        record_after_datagrams(r, ds, candidate) == r,
    decreases ds.len(),
{
    if ds.len() > 0 {
        lemma_complete_record_is_final(r, ds.subrange(1, ds.len() as int), candidate);
    }
}

/// Over any run of datagrams the record completes exactly when it already
/// was complete or some datagram of the run is a well-formed request — so
/// it transitions from incomplete to complete at most once, however many
/// requests arrive.
pub proof fn lemma_completes_iff_some_request(r: LeaseRecord, ds: Seq<Seq<u8>>,
    candidate: Ipv4Address)
    ensures
        record_after_datagrams(r, ds, candidate).completed <==> r.completed || exists|i: int|
            0 <= i < ds.len() && well_formed(#[trigger] ds[i]) && spec_msg_type(ds[i]) == Some(
                MsgKind::Request,
            ),
    decreases ds.len(),
{
    if ds.len() == 0 {
    } else {
        let tail = ds.subrange(1, ds.len() as int);
        let r1 = record_after(r, ds[0], candidate);
        lemma_completes_iff_some_request(r1, tail, candidate);
        if r1.completed && !r.completed {
            assert(well_formed(ds[0]) && spec_msg_type(ds[0]) == Some(MsgKind::Request));
        }
        if record_after_datagrams(r, ds, candidate).completed && !r1.completed {
            let j = choose|j: int|
                0 <= j < tail.len() && well_formed(#[trigger] tail[j]) && spec_msg_type(tail[j])
                    == Some(MsgKind::Request);
            assert(tail[j] == ds[j + 1]);
            assert(well_formed(ds[j + 1]) && spec_msg_type(ds[j + 1]) == Some(MsgKind::Request));
        }
        if !record_after_datagrams(r, ds, candidate).completed {
            assert forall|i: int|
                0 <= i < ds.len() implies !(well_formed(#[trigger] ds[i]) && spec_msg_type(ds[i])
                == Some(MsgKind::Request)) by {
                if i >= 1 {
                    assert(tail[i - 1] == ds[i]);
                }
            }
        }
    }
}

/// A malformed datagram — truncated, wrong magic cookie, a cut-off option —
/// provokes no reply and never alters the lease record; neither does a
/// well-formed datagram of any type other than a request alter it.
pub proof fn lemma_malformed_no_effect(r: LeaseRecord, b: Seq<u8>, server_ip: Ipv4Address,
    candidate: Ipv4Address)
    ensures
        !well_formed(b) ==> reply_bytes_for(b, server_ip, candidate) is None,
        !well_formed(b) ==> record_after(r, b, candidate) == r,
        spec_msg_type(b) != Some(MsgKind::Request) ==> record_after(r, b, candidate) == r,
{
}

} // verus!
