use mayara_signalk_wasm::socket::{check_status, OpenRequest, SocketOp, SocketType, UdpSocket};

fn open_socket(handle: i32) -> UdpSocket {
    UdpSocket::new_v4().complete(handle).expect("a non-negative handle opens a socket")
}

fn addr_buf(text: &[u8]) -> [u8; 46] {
    let mut buf = [0u8; 46];
    buf[..text.len()].copy_from_slice(text);
    buf
}

#[test]
fn socket_type_codes() {
    assert_eq!(SocketType::Udp4.code(), 0);
    assert_eq!(SocketType::Udp6.code(), 1);
}

#[test]
fn new_v4_and_new_v6_ask_for_their_family() {
    assert_eq!(UdpSocket::new_v4(), OpenRequest { socket_type: SocketType::Udp4 });
    assert_eq!(UdpSocket::new_v6(), OpenRequest { socket_type: SocketType::Udp6 });
    assert_eq!(UdpSocket::new_v6().type_code(), 1);
    assert_eq!(UdpSocket::new(SocketType::Udp4).type_code(), 0);
}

#[test]
fn create_status_opens_or_fails() {
    let s = open_socket(7);
    assert_eq!(s.id(), 7);
    assert_eq!(open_socket(0).id(), 0);
    assert_eq!(UdpSocket::new_v6().complete(-1).err(), Some("Failed to create socket"));
}

#[test]
fn every_refused_call_has_its_message() {
    let cases = [
        (SocketOp::Create, "Failed to create socket"),
        (SocketOp::Bind, "Failed to bind socket"),
        (SocketOp::JoinMulticast, "Failed to join multicast group"),
        (SocketOp::LeaveMulticast, "Failed to leave multicast group"),
        (SocketOp::SetMulticastTtl, "Failed to set multicast TTL"),
        (SocketOp::SetMulticastLoopback, "Failed to set multicast loopback"),
        (SocketOp::SetBroadcast, "Failed to set broadcast"),
        (SocketOp::Send, "Failed to send data"),
        (SocketOp::Receive, "Failed to receive data"),
    ];
    for (op, msg) in cases {
        assert_eq!(op.failure_message(), msg);
        assert_eq!(check_status(op, -1), Err(msg));
        assert_eq!(check_status(op, i32::MIN), Err(msg));
        assert_eq!(check_status(op, 0), Ok(0));
        assert_eq!(check_status(op, 12), Ok(12));
    }
}

#[test]
fn pending_counts_and_has_data() {
    let s = open_socket(3);
    assert_eq!(s.pending(-5), 0);
    assert_eq!(s.pending(0), 0);
    assert_eq!(s.pending(4), 4);
    assert!(!s.has_data(-1));
    assert!(!s.has_data(0));
    assert!(s.has_data(2));
}

#[test]
fn recv_from_reads_the_hosts_answer() {
    let s = open_socket(3);
    let addr = addr_buf(b"172.31.6.1");
    assert_eq!(s.recv_from(-1, &addr, 10010), Err("Failed to receive data"));
    assert_eq!(s.recv_from(0, &addr, 10010), Ok(None));
    assert_eq!(
        s.recv_from(32, &addr, 10010),
        Ok(Some((32, "172.31.6.1".to_string(), 10010)))
    );
}

#[test]
fn recv_from_address_edge_cases() {
    let s = open_socket(3);
    // No NUL at all: the whole buffer is the address.
    let full = [b'a'; 46];
    let got = s.recv_from(1, &full, 1).unwrap().unwrap();
    assert_eq!(got.1, "a".repeat(46));
    // Invalid UTF-8 before the NUL gives an empty address.
    let bad = addr_buf(&[0xff, 0xfe, b'1']);
    assert_eq!(s.recv_from(1, &bad, 1).unwrap().unwrap().1, "");
    // Empty address.
    let empty = [0u8; 46];
    assert_eq!(s.recv_from(1, &empty, 1).unwrap().unwrap().1, "");
    // Multi-byte UTF-8 text decodes.
    let utf = addr_buf("hôte".as_bytes());
    assert_eq!(s.recv_from(1, &utf, 1).unwrap().unwrap().1, "hôte");
}

#[test]
fn recv_datagram_copies_the_received_bytes() {
    let s = open_socket(3);
    let addr = addr_buf(b"10.0.0.2");
    let buf = [9u8, 8, 7, 6, 5];
    let d = s.recv_datagram(3, &buf, &addr, 4000).unwrap().unwrap();
    assert_eq!(d.data, vec![9, 8, 7]);
    assert_eq!(d.source_addr, "10.0.0.2");
    assert_eq!(d.source_port, 4000);
    assert!(s.recv_datagram(0, &buf, &addr, 4000).unwrap().is_none());
    assert_eq!(s.recv_datagram(-2, &buf, &addr, 4000).err(), Some("Failed to receive data"));
}
