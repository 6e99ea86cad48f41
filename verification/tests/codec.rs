use lease_responder::codec::{decode, encode_reply, DecodeError, DhcpMessage, MsgKind};
use lease_responder::net::{Ipv4Address, MacAddr};
use dhcproto::v4::{DhcpOption, Message, MessageType, OptionCode};
use dhcproto::{Decodable, Decoder};

fn sample_reply(kind: MsgKind) -> DhcpMessage {
    DhcpMessage {
        op: 2,
        xid: 0x12345678,
        secs: 7,
        flags: 0x8000,
        yiaddr: Ipv4Address::new(192, 168, 1, 200),
        chaddr: MacAddr::new(0xaa, 0xbb, 0xcc, 0xdd, 0xee, 0xff),
        msg_type: Some(kind),
        lease_time: Some(3600),
        server_id: Some(Ipv4Address::new(192, 168, 1, 10)),
    }
}

#[test]
fn encode_then_decode_offer_is_identity() {
    let m = sample_reply(MsgKind::Offer);
    let bytes = encode_reply(&m);
    assert_eq!(bytes.len(), 256);
    let back = decode(&bytes).expect("reply image must be well formed");
    assert_eq!(back, m);
}

#[test]
fn encode_then_decode_ack_is_identity() {
    let m = sample_reply(MsgKind::Ack);
    let back = decode(&encode_reply(&m)).expect("reply image must be well formed");
    assert_eq!(back, m);
}

#[test]
fn encode_lays_out_header_and_options() {
    let m = sample_reply(MsgKind::Offer);
    let b = encode_reply(&m);
    assert_eq!(&b[0..4], &[2, 1, 6, 0]);
    assert_eq!(&b[4..8], &[0x12, 0x34, 0x56, 0x78]);
    assert_eq!(&b[8..10], &[0, 7]);
    assert_eq!(&b[10..12], &[0x80, 0x00]);
    assert_eq!(&b[16..20], &[192, 168, 1, 200]);
    assert_eq!(&b[28..34], &[0xaa, 0xbb, 0xcc, 0xdd, 0xee, 0xff]);
    assert_eq!(&b[236..240], &[99, 130, 83, 99]);
    assert_eq!(&b[240..243], &[53, 1, 2]);
    assert_eq!(&b[243..249], &[51, 4, 0, 0, 0x0e, 0x10]);
    assert_eq!(&b[249..255], &[54, 4, 192, 168, 1, 10]);
    assert_eq!(b[255], 255);
}

#[test]
fn truncated_datagram_is_rejected() {
    let bytes = vec![0u8; 239];
    assert_eq!(decode(&bytes), Err(DecodeError::Truncated));
    assert_eq!(decode(&Vec::new()), Err(DecodeError::Truncated));
}

#[test]
fn wrong_cookie_is_rejected() {
    let mut bytes = vec![0u8; 240];
    bytes[236] = 99;
    bytes[237] = 130;
    bytes[238] = 83;
    bytes[239] = 98;
    assert_eq!(decode(&bytes), Err(DecodeError::WrongCookie));
}

#[test]
fn option_running_past_the_end_is_rejected() {
    let mut bytes = vec![0u8; 243];
    bytes[236] = 99;
    bytes[237] = 130;
    bytes[238] = 83;
    bytes[239] = 99;
    bytes[240] = 53;
    bytes[241] = 9;
    bytes[242] = 1;
    assert_eq!(decode(&bytes), Err(DecodeError::MalformedOptions));
}

#[test]
fn unknown_message_type_decodes_as_other() {
    let m = sample_reply(MsgKind::Offer);
    let mut bytes = encode_reply(&m);
    bytes[242] = 9;
    let back = decode(&bytes).expect("still well formed");
    assert_eq!(back.msg_type, Some(MsgKind::Other));
}

#[test]
fn missing_message_type_decodes_as_none() {
    let mut bytes = vec![0u8; 241];
    bytes[236] = 99;
    bytes[237] = 130;
    bytes[238] = 83;
    bytes[239] = 99;
    bytes[240] = 255;
    let back = decode(&bytes).expect("end marker alone is well formed");
    assert_eq!(back.msg_type, None);
    assert_eq!(back.lease_time, None);
    assert_eq!(back.server_id, None);
}

#[test]
fn pad_bytes_are_skipped_in_the_option_region() {
    let mut bytes = vec![0u8; 248];
    bytes[236] = 99;
    bytes[237] = 130;
    bytes[238] = 83;
    bytes[239] = 99;
    bytes[240] = 0;
    bytes[241] = 0;
    bytes[242] = 53;
    bytes[243] = 1;
    bytes[244] = 1;
    bytes[245] = 255;
    let back = decode(&bytes).expect("padded region is well formed");
    assert_eq!(back.msg_type, Some(MsgKind::Discover));
}

#[test]
fn dhcproto_reads_back_our_offer() {
    let m = sample_reply(MsgKind::Offer);
    let bytes = encode_reply(&m);
    let mut dec = Decoder::new(&bytes);
    let msg = Message::decode(&mut dec).expect("dhcproto must accept the image");
    assert_eq!(msg.xid(), 0x12345678);
    assert_eq!(msg.secs(), 7);
    assert_eq!(msg.yiaddr().octets(), [192, 168, 1, 200]);
    assert_eq!(&msg.chaddr()[0..6], &[0xaa, 0xbb, 0xcc, 0xdd, 0xee, 0xff]);
    assert_eq!(msg.opts().msg_type(), Some(MessageType::Offer));
    assert_eq!(
        msg.opts().get(OptionCode::AddressLeaseTime),
        Some(&DhcpOption::AddressLeaseTime(3600))
    );
    match msg.opts().get(OptionCode::ServerIdentifier) {
        Some(DhcpOption::ServerIdentifier(ip)) => assert_eq!(ip.octets(), [192, 168, 1, 10]),
        other => panic!("server identifier missing: {:?}", other),
    }
}
