use mayara_signalk_wasm::radar::{
    beacon_packet_bytes, found_delta_text, process_furuno_data, LocatorSetup, PollStep,
    RadarInfo, RadarLocator, SetupProgress, SetupRequest, FURUNO_BEACON_ADDRESS,
    FURUNO_BEACON_PORT,
};

const HEADER: [u8; 11] = [0x01, 0x00, 0x00, 0x01, 0x00, 0x00, 0x00, 0x00, 0x00, 0x01, 0x00];

/// A Furuno radar report whose bytes 20.. hold `model_field`, padded to `len`.
fn report(model_field: &[u8], len: usize) -> Vec<u8> {
    let mut p = vec![0u8; len.max(20 + model_field.len())];
    p[..11].copy_from_slice(&HEADER);
    p[16] = b'R';
    p[20..20 + model_field.len()].copy_from_slice(model_field);
    p.truncate(len);
    p
}

fn addr_buf(text: &str) -> [u8; 46] {
    let mut buf = [0u8; 46];
    buf[..text.len()].copy_from_slice(text.as_bytes());
    buf
}

fn ready_locator(brand: &str) -> RadarLocator {
    let mut setup = RadarLocator::new(brand, None);
    let mut statuses = [5, 0, 0].into_iter();
    loop {
        match setup.advance(statuses.next().unwrap()) {
            SetupProgress::Pending(s) => setup = s,
            SetupProgress::Ready(l) => return l,
            SetupProgress::Failed(e) => panic!("setup failed: {}", e),
        }
    }
}

fn receive(l: &mut RadarLocator, packet: &[u8], from: &str) -> Option<String> {
    let mut buf = [0u8; 2048];
    buf[..packet.len()].copy_from_slice(packet);
    match l.on_received(packet.len() as i32, &buf, &addr_buf(from), 10010) {
        PollStep::Receive { socket, delta } => {
            assert_eq!(socket, 5);
            delta
        }
        _ => panic!("expected to keep receiving"),
    }
}

#[test]
fn beacon_packet_is_the_furuno_request() {
    assert_eq!(
        beacon_packet_bytes(),
        vec![0x01, 0x00, 0x00, 0x01, 0x00, 0x00, 0x00, 0x00, 0x01, 0x01, 0x00, 0x08, 0x01, 0x00, 0x00, 0x00]
    );
    assert_eq!(FURUNO_BEACON_ADDRESS, "172.31.255.255");
    assert_eq!(FURUNO_BEACON_PORT, 10010);
}

#[test]
fn report_with_model_name() {
    let p = report(b"DRS4D-NXT\0", 40);
    let r = process_furuno_data(&p, "172.31.6.1").unwrap();
    assert_eq!(r.brand, "Furuno");
    assert_eq!(r.model, "DRS4D-NXT");
    assert_eq!(r.serial, "172.31.6.1");
    assert_eq!(r.address, "172.31.6.1");
}

#[test]
fn model_name_stops_at_byte_30_and_at_non_ascii() {
    let p = report(b"ABCDEFGHIJKL", 40);
    assert_eq!(process_furuno_data(&p, "a").unwrap().model, "ABCDEFGHIJ");
    let p = report(b"DRS\x80XYZ", 40);
    assert_eq!(process_furuno_data(&p, "a").unwrap().model, "DRS");
    let p = report(b"\0DRS", 40);
    assert_eq!(process_furuno_data(&p, "a").unwrap().model, "");
}

#[test]
fn short_report_names_drs() {
    let p = report(b"XYZ", 30);
    assert_eq!(process_furuno_data(&p, "a").unwrap().model, "DRS");
    let p = report(b"", 21);
    assert_eq!(process_furuno_data(&p, "a").unwrap().model, "DRS");
}

#[test]
fn packets_that_are_not_reports() {
    // Too short.
    let p = report(b"", 20);
    assert!(process_furuno_data(&p, "a").is_none());
    // Wrong header.
    let mut p = report(b"DRS4D", 40);
    p[8] = 1;
    assert!(process_furuno_data(&p, "a").is_none());
    // No identity marker.
    let mut p = report(b"DRS4D", 40);
    p[16] = b'Q';
    assert!(process_furuno_data(&p, "a").is_none());
    // The beacon request itself is not a report.
    assert!(process_furuno_data(&beacon_packet_bytes(), "a").is_none());
}

#[test]
fn found_delta_matches_signalk_format() {
    let r = RadarInfo {
        brand: "Furuno".to_string(),
        model: "DRS4D-NXT".to_string(),
        serial: "172.31.6.1".to_string(),
        address: "172.31.6.1".to_string(),
    };
    let expected = "{\"updates\":[{\"values\":[\n                            {\"path\":\"sensors.radar.172_31_6_1.brand\",\"value\":\"Furuno\"},\n                            {\"path\":\"sensors.radar.172_31_6_1.model\",\"value\":\"DRS4D-NXT\"},\n                            {\"path\":\"sensors.radar.172_31_6_1.address\",\"value\":\"172.31.6.1\"},\n                            {\"path\":\"sensors.radar.172_31_6_1.status\",\"value\":\"found\"}\n                        ]}]}";
    assert_eq!(found_delta_text(&r), expected);
}

#[test]
fn setup_asks_for_socket_bind_and_broadcast() {
    let setup = RadarLocator::new("Furuno", None);
    assert_eq!(setup.request(), SetupRequest::CreateSocket { type_code: 0 });
    let setup = match setup.advance(9) {
        SetupProgress::Pending(s) => s,
        _ => panic!(),
    };
    assert_eq!(setup.request(), SetupRequest::Bind { socket: 9, port: 10010 });
    let setup = match setup.advance(0) {
        SetupProgress::Pending(s) => s,
        _ => panic!(),
    };
    assert_eq!(setup.request(), SetupRequest::SetBroadcast { socket: 9, enabled: true });
    match setup.advance(0) {
        SetupProgress::Ready(l) => assert!(l.radars().is_empty()),
        _ => panic!("without an interface, the locator is ready after broadcast"),
    }
}

#[test]
fn setup_with_interface_joins_on_it() {
    let setup = RadarLocator::new("Furuno", Some("172.31.3.1"));
    let setup = match setup.advance(9) {
        SetupProgress::Pending(s) => s,
        _ => panic!(),
    };
    let setup = match setup.advance(0) {
        SetupProgress::Pending(s) => s,
        _ => panic!(),
    };
    assert_eq!(setup.request(), SetupRequest::SetBroadcast { socket: 9, enabled: true });
    let setup = match setup.advance(0) {
        SetupProgress::Pending(s) => s,
        _ => panic!("an interface needs one more call"),
    };
    assert_eq!(
        setup.request(),
        SetupRequest::JoinMulticast {
            socket: 9,
            group: "172.31.255.255",
            interface: "172.31.3.1".to_string(),
        }
    );
    match setup.advance(0) {
        SetupProgress::Ready(l) => assert!(l.radars().is_empty()),
        _ => panic!(),
    }
}

#[test]
fn setup_fails_when_the_interface_is_refused() {
    let mut setup = LocatorSetup::for_brand("furuno".to_string(), Some("eth1".to_string()));
    for status in [4, 0, 0] {
        setup = match setup.advance(status) {
            SetupProgress::Pending(s) => s,
            _ => panic!(),
        };
    }
    match setup.advance(-1) {
        SetupProgress::Failed(e) => assert_eq!(e, "Failed to join multicast group"),
        _ => panic!(),
    }
}

#[test]
fn setup_failures() {
    match RadarLocator::new("furuno", None).advance(-1) {
        SetupProgress::Failed(e) => assert_eq!(e, "Failed to create socket"),
        _ => panic!(),
    }
    let s = match LocatorSetup::for_brand("furuno".to_string(), None).advance(2) {
        SetupProgress::Pending(s) => s,
        _ => panic!(),
    };
    match s.advance(-3) {
        SetupProgress::Failed(e) => assert_eq!(e, "Failed to bind socket"),
        _ => panic!(),
    }
    let s = match LocatorSetup::for_brand("furuno".to_string(), None).advance(2) {
        SetupProgress::Pending(s) => s,
        _ => panic!(),
    };
    let s = match s.advance(0) {
        SetupProgress::Pending(s) => s,
        _ => panic!(),
    };
    match s.advance(-1) {
        SetupProgress::Failed(e) => assert_eq!(e, "Failed to set broadcast"),
        _ => panic!(),
    }
}

#[test]
fn furuno_poll_sends_the_beacon() {
    // The brand is matched without regard to case.
    let l = ready_locator("FURUNO");
    match l.poll() {
        PollStep::Send { socket, data, addr, port } => {
            assert_eq!(socket, 5);
            assert_eq!(data, beacon_packet_bytes());
            assert_eq!(addr, "172.31.255.255");
            assert_eq!(port, 10010);
        }
        _ => panic!("a Furuno locator sends a beacon"),
    }
}

#[test]
fn other_brands_cannot_poll() {
    let cases = [
        ("navico", "Navico not yet implemented"),
        ("Raymarine", "Raymarine not yet implemented"),
        ("garmin", "Garmin not yet implemented"),
        ("simrad", "Unknown radar brand"),
    ];
    for (brand, msg) in cases {
        match ready_locator(brand).poll() {
            PollStep::Finished(Err(e)) => assert_eq!(e, msg),
            _ => panic!("{} should not poll", brand),
        }
    }
}

#[test]
fn send_outcome() {
    let mut l = ready_locator("furuno");
    match l.on_sent(-1) {
        PollStep::Finished(Err(e)) => assert_eq!(e, "Failed to send data"),
        _ => panic!(),
    }
    match l.on_sent(16) {
        PollStep::Receive { socket, delta } => {
            assert_eq!(socket, 5);
            assert!(delta.is_none());
        }
        _ => panic!(),
    }
}

#[test]
fn a_poll_cycle_finds_each_radar_once() {
    let mut l = ready_locator("furuno");
    let a = report(b"DRS4D-NXT\0", 40);
    let b = report(b"DRS6A\0", 40);

    let d1 = receive(&mut l, &a, "172.31.6.1").expect("a new radar is announced");
    assert!(d1.contains("sensors.radar.172_31_6_1.model\",\"value\":\"DRS4D-NXT\""));
    // The same radar again: silent, nothing recorded.
    assert!(receive(&mut l, &a, "172.31.6.1").is_none());
    assert_eq!(l.radars().len(), 1);
    // Junk is ignored.
    assert!(receive(&mut l, &[1, 2, 3], "172.31.6.9").is_none());
    // A second radar.
    assert!(receive(&mut l, &b, "172.31.6.2").is_some());
    assert_eq!(l.radars().len(), 2);
    assert_eq!(l.radars()[0].model, "DRS4D-NXT");
    assert_eq!(l.radars()[1].model, "DRS6A");

    // An empty socket ends the poll with the count.
    let buf = [0u8; 2048];
    match l.on_received(0, &buf, &addr_buf(""), 0) {
        PollStep::Finished(Ok(n)) => assert_eq!(n, 2),
        _ => panic!(),
    }
    match l.on_received(-1, &buf, &addr_buf(""), 0) {
        PollStep::Finished(Err(e)) => assert_eq!(e, "Failed to receive data"),
        _ => panic!(),
    }
    assert_eq!(l.radars().len(), 2);
}

#[test]
fn non_furuno_locator_ignores_reports() {
    let mut l = ready_locator("navico");
    let a = report(b"DRS4D-NXT\0", 40);
    assert!(receive(&mut l, &a, "172.31.6.1").is_none());
    assert!(l.radars().is_empty());
    assert!(l.process_data(&a, "172.31.6.1").is_none());
}

#[test]
fn empty_interface_means_all_interfaces() {
    for mut setup in [
        RadarLocator::new("furuno", Some("")),
        LocatorSetup::for_brand("furuno".to_string(), Some(String::new())),
    ] {
        for status in [4, 0] {
            setup = match setup.advance(status) {
                SetupProgress::Pending(s) => s,
                _ => panic!(),
            };
        }
        assert_eq!(setup.request(), SetupRequest::SetBroadcast { socket: 4, enabled: true });
        match setup.advance(0) {
            SetupProgress::Ready(l) => assert!(l.radars().is_empty()),
            _ => panic!("an empty interface needs no join"),
        }
    }
}
