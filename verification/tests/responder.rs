use lease_responder::codec::{decode, MsgKind};
use lease_responder::net::{get_lease_ip, Ipv4Address, MacAddr};
use lease_responder::responder::{
    handle_datagram, responder_step, LeaseRecord, LoopStep, ResponderEvent,
};
use lease_responder::waiter::wait_for_lease;
use std::sync::atomic::{AtomicBool, Ordering};
use std::sync::Arc;
use std::time::Duration;

/// Build a minimal client datagram: fixed header, cookie, one message-type
/// option, end marker.
fn client_datagram(kind_byte: u8, xid: u32, mac: [u8; 6]) -> Vec<u8> {
    let mut b = vec![0u8; 244];
    b[0] = 1; // boot request
    b[1] = 1;
    b[2] = 6;
    b[4] = (xid >> 24) as u8;
    b[5] = (xid >> 16) as u8;
    b[6] = (xid >> 8) as u8;
    b[7] = xid as u8;
    b[28..34].copy_from_slice(&mac);
    b[236] = 99;
    b[237] = 130;
    b[238] = 83;
    b[239] = 99;
    b[240] = 53;
    b[241] = 1;
    b[242] = kind_byte;
    b[243] = 255;
    b
}

const SERVER: Ipv4Address = Ipv4Address { o0: 192, o1: 168, o2: 1, o3: 10 };
const MAC: [u8; 6] = [0xaa, 0xbb, 0xcc, 0xdd, 0xee, 0xff];

#[test]
fn candidate_address_has_fixed_host_octet() {
    let candidate = get_lease_ip(SERVER);
    assert_eq!(candidate, Ipv4Address::new(192, 168, 1, 200));
}

#[test]
fn discovery_yields_offer_and_leaves_record() {
    let candidate = get_lease_ip(SERVER);
    let mut record = LeaseRecord::new();
    let discover = client_datagram(1, 0xdeadbeef, MAC);
    let reply = handle_datagram(&discover, SERVER, candidate, &mut record)
        .expect("a discovery always provokes an offer");
    let offer = decode(&reply).expect("the offer must be well formed");
    assert_eq!(offer.op, 2);
    assert_eq!(offer.msg_type, Some(MsgKind::Offer));
    assert_eq!(offer.xid, 0xdeadbeef);
    assert_eq!(offer.chaddr, MacAddr::new(0xaa, 0xbb, 0xcc, 0xdd, 0xee, 0xff));
    assert_eq!(offer.yiaddr, Ipv4Address::new(192, 168, 1, 200));
    assert_eq!(offer.lease_time, Some(3600));
    assert_eq!(offer.server_id, Some(SERVER));
    assert_eq!(record, LeaseRecord::new());
}

#[test]
fn request_yields_ack_and_completes_record() {
    let candidate = get_lease_ip(SERVER);
    let mut record = LeaseRecord::new();
    let request = client_datagram(3, 0xdeadbeef, MAC);
    let reply = handle_datagram(&request, SERVER, candidate, &mut record)
        .expect("a request always provokes an acknowledgement");
    let ack = decode(&reply).expect("the acknowledgement must be well formed");
    assert_eq!(ack.msg_type, Some(MsgKind::Ack));
    assert_eq!(ack.xid, 0xdeadbeef);
    assert_eq!(ack.yiaddr, Ipv4Address::new(192, 168, 1, 200));
    assert!(record.completed);
    assert_eq!(record.mac, Some(MacAddr::new(0xaa, 0xbb, 0xcc, 0xdd, 0xee, 0xff)));
    assert_eq!(record.ip, Some(Ipv4Address::new(192, 168, 1, 200)));
}

#[test]
fn second_request_is_acknowledged_but_never_rewrites_the_record() {
    let candidate = get_lease_ip(SERVER);
    let mut record = LeaseRecord::new();
    let first = client_datagram(3, 1, MAC);
    handle_datagram(&first, SERVER, candidate, &mut record).unwrap();
    let after_first = record;
    let second = client_datagram(3, 2, [0x11, 0x22, 0x33, 0x44, 0x55, 0x66]);
    let reply = handle_datagram(&second, SERVER, candidate, &mut record);
    assert!(reply.is_some(), "duplicates are still acknowledged");
    assert_eq!(record, after_first, "first writer wins");
}

#[test]
fn full_handshake_scenario() {
    // Bound interface 192.168.1.10; candidate computed as 192.168.1.200.
    let candidate = get_lease_ip(SERVER);
    let mut record = LeaseRecord::new();
    let discover = client_datagram(1, 42, MAC);
    let offer = decode(&handle_datagram(&discover, SERVER, candidate, &mut record).unwrap())
        .unwrap();
    assert_eq!(offer.yiaddr, Ipv4Address::new(192, 168, 1, 200));
    assert_eq!(offer.chaddr, MacAddr::new(0xaa, 0xbb, 0xcc, 0xdd, 0xee, 0xff));
    let request = client_datagram(3, 42, MAC);
    let ack = decode(&handle_datagram(&request, SERVER, candidate, &mut record).unwrap())
        .unwrap();
    assert_eq!(ack.yiaddr, Ipv4Address::new(192, 168, 1, 200));
    assert_eq!(
        record,
        LeaseRecord {
            mac: Some(MacAddr::new(0xaa, 0xbb, 0xcc, 0xdd, 0xee, 0xff)),
            ip: Some(Ipv4Address::new(192, 168, 1, 200)),
            completed: true,
        }
    );
    // The waiter then hands the leased address back.
    assert_eq!(
        wait_for_lease(&vec![record]),
        Some(Ipv4Address::new(192, 168, 1, 200))
    );
}

#[test]
fn malformed_datagrams_never_touch_the_record() {
    let candidate = get_lease_ip(SERVER);
    let mut record = LeaseRecord::new();

    // Truncated.
    let truncated = vec![0u8; 100];
    assert!(handle_datagram(&truncated, SERVER, candidate, &mut record).is_none());
    assert_eq!(record, LeaseRecord::new());

    // Wrong magic cookie.
    let mut bad_cookie = client_datagram(3, 7, MAC);
    bad_cookie[239] = 0;
    assert!(handle_datagram(&bad_cookie, SERVER, candidate, &mut record).is_none());
    assert_eq!(record, LeaseRecord::new());

    // Unknown message type.
    let unknown = client_datagram(8, 7, MAC);
    assert!(handle_datagram(&unknown, SERVER, candidate, &mut record).is_none());
    assert_eq!(record, LeaseRecord::new());

    // An offer from elsewhere is not answered either.
    let offer = client_datagram(2, 7, MAC);
    assert!(handle_datagram(&offer, SERVER, candidate, &mut record).is_none());
    assert_eq!(record, LeaseRecord::new());
}

#[test]
fn shutdown_event_exits_the_loop() {
    let candidate = get_lease_ip(SERVER);
    let mut record = LeaseRecord::new();
    let step = responder_step(&ResponderEvent::Shutdown, SERVER, candidate, &mut record);
    assert!(matches!(step, LoopStep::Exit));
    assert_eq!(record, LeaseRecord::new());
}

#[test]
fn firing_shutdown_exits_the_loop_and_frees_the_port() {
    let rt = tokio::runtime::Builder::new_current_thread().enable_all().build().unwrap();
    rt.block_on(async {
        let candidate = get_lease_ip(SERVER);
        let socket = tokio::net::UdpSocket::bind("127.0.0.1:0").await.unwrap();
        let addr = socket.local_addr().unwrap();
        let shutdown = Arc::new(AtomicBool::new(false));
        let loop_shutdown = shutdown.clone();

        let handle = tokio::spawn(async move {
            let mut record = LeaseRecord::new();
            let mut buf = vec![0u8; 1500];
            loop {
                if loop_shutdown.load(Ordering::SeqCst) {
                    let step =
                        responder_step(&ResponderEvent::Shutdown, SERVER, candidate, &mut record);
                    assert!(matches!(step, LoopStep::Exit));
                    break;
                }
                let recv = tokio::time::timeout(
                    Duration::from_millis(20),
                    socket.recv_from(&mut buf),
                );
                if let Ok(Ok((len, _))) = recv.await {
                    let ev = ResponderEvent::Datagram(buf[..len].to_vec());
                    let step = responder_step(&ev, SERVER, candidate, &mut record);
                    assert!(!matches!(step, LoopStep::Exit));
                }
            }
            // The socket is dropped here, when the loop exits.
        });

        shutdown.store(true, Ordering::SeqCst);
        handle.await.unwrap();

        // After the loop has been joined, the same port can be bound again.
        let rebound = tokio::net::UdpSocket::bind(addr).await;
        assert!(rebound.is_ok(), "the port must be rebindable after shutdown");
    });
}

#[test]
fn datagram_event_never_exits_the_loop() {
    let candidate = get_lease_ip(SERVER);
    let mut record = LeaseRecord::new();
    let ev = ResponderEvent::Datagram(client_datagram(1, 9, MAC));
    let step = responder_step(&ev, SERVER, candidate, &mut record);
    assert!(matches!(step, LoopStep::Reply(_)));
    let junk = ResponderEvent::Datagram(vec![1, 2, 3]);
    let step = responder_step(&junk, SERVER, candidate, &mut record);
    assert!(matches!(step, LoopStep::Ignore));
}
