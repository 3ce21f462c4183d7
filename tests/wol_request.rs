use wol::dispatch::{IoOutcome, WolAction, WolSession, WolStage, BIND_PORT, WOL_PORT};
use wol::net::{parse_ip_addr, parse_mac_address, IpAddress};
use wol::packet::create_magic_packet;
use wol::request::{AddrField, WolError, WolRequest};

/// Runs a dispatch, answering each step with the next outcome from `outcomes`
/// (then `Done`), and returns the result with the actions that were asked for.
fn run_session(
    request: &WolRequest,
    mut outcomes: Vec<IoOutcome>,
) -> (Result<(), WolError>, Vec<WolAction>) {
    let mut session = match WolSession::start(request) {
        Ok(s) => s,
        Err(e) => return (Err(e), Vec::new()),
    };
    outcomes.reverse();
    let mut actions = Vec::new();
    loop {
        actions.push(session.action());
        let outcome = outcomes.pop().unwrap_or(IoOutcome::Done);
        if let Some(result) = session.advance(outcome) {
            return (result, actions);
        }
    }
}

fn send_wol(request: &WolRequest) -> Result<(), WolError> {
    run_session(request, Vec::new()).0
}

fn expected_packet(mac: [u8; 6]) -> Vec<u8> {
    let mut p = vec![0xffu8; 6];
    for _ in 0..16 {
        p.extend_from_slice(&mac);
    }
    p
}

#[test]
fn test_create_magic_packet() {
    let mac_address = "A4:93:9F:F4:04:5A";
    let mac = parse_mac_address(mac_address).unwrap();
    let magic_packet = create_magic_packet(&mac);
    let buffer = expected_packet([0xA4, 0x93, 0x9F, 0xF4, 0x04, 0x5A]);
    assert_eq!(magic_packet, buffer);
}

#[test]
fn test_parse_ip_addr() {
    let ip_addr = "0.0.0.0";
    let parsed_ip = parse_ip_addr(ip_addr).unwrap();
    assert_eq!(parsed_ip, IpAddress::V4([0, 0, 0, 0]));
}

#[test]
fn test_wol_request() {
    let mac_address = "F4:93:9F:F4:04:5B".to_string();
    let bind_addr = Some("0.0.0.0".to_string());
    let broadcast_addr = Some("255.255.255.255".to_string());

    let request = WolRequest::new(&mac_address, &bind_addr, &broadcast_addr);
    assert_eq!(request.mac_address, mac_address);
    assert_eq!(request.bind_addr, bind_addr);
    assert_eq!(request.broadcast_addr, broadcast_addr);
}

#[test]
fn test_send_wol() {
    let mac_address = "A4:93:9F:F4:04:5A".to_string();
    let bind_addr = Some("0.0.0.0".to_string());
    let broadcast_addr = Some("255.255.255.255".to_string());

    let request = WolRequest::new(&mac_address, &bind_addr, &broadcast_addr);

    let result = send_wol(&request).unwrap();
    assert_eq!(result, ());
}

#[test]
fn test_send_wol_wrong_mac() {
    let mac_address = "A4:93:9F:F4:04:6B.XXXX".to_string();
    let bind_addr = Some("0.0.0.0".to_string());
    let broadcast_addr = Some("255.255.255.255".to_string());

    let request = WolRequest::new(&mac_address, &bind_addr, &broadcast_addr);

    let result = send_wol(&request).unwrap_err();
    assert_eq!(
        result.message(),
        "Failed to get MAC address: A4:93:9F:F4:04:6B.XXXX"
    );
}

#[test]
fn test_send_wol_empty_addr() {
    let mac_address = "F4:93:9F:F4:04:5B".to_string();
    let bind_addr = None;
    let broadcast_addr = None;

    let request = WolRequest::new(&mac_address, &bind_addr, &broadcast_addr);

    let result = send_wol(&request).unwrap();
    assert_eq!(result, ());
}

#[test]
fn test_send_wol_wrong_addr() {
    let mac_address = "A4:93:9F:F4:04:5A".to_string();
    let bind_addr = Some("0.0.0.0.XXX".to_string());
    let broadcast_addr = Some("255.255.255.255".to_string());

    let request = WolRequest::new(&mac_address, &bind_addr, &broadcast_addr);

    let result = send_wol(&request).unwrap_err();
    assert_eq!(
        result.message(),
        "Failed to get bind address for: \"0.0.0.0.XXX\""
    );
}

#[test]
fn magic_packet_layout_for_scenario_mac() {
    let request = WolRequest::new(&"A4:93:9F:F4:04:5A".to_string(), &None, &None);
    let session = WolSession::start(&request).unwrap();
    let p = &session.packet;
    assert_eq!(p.len(), 102);
    assert_eq!(&p[0..6], &[0xff; 6]);
    assert_eq!(&p[6..12], &[0xA4, 0x93, 0x9F, 0xF4, 0x04, 0x5A]);
    assert_eq!(&p[96..102], &p[6..12]);
    for i in 0..16 {
        assert_eq!(&p[6 + 6 * i..12 + 6 * i], &[0xA4, 0x93, 0x9F, 0xF4, 0x04, 0x5A]);
    }
}

#[test]
fn magic_packet_of_zero_and_full_macs() {
    assert_eq!(create_magic_packet(&[0; 6]), expected_packet([0; 6]));
    assert_eq!(create_magic_packet(&[0xff; 6]), vec![0xffu8; 102]);
}

#[test]
fn mac_parse_accepts_hyphens_and_mixed_separators() {
    assert_eq!(
        parse_mac_address("a4-93-9f-f4-04-5a"),
        Some([0xA4, 0x93, 0x9F, 0xF4, 0x04, 0x5A])
    );
    assert_eq!(
        parse_mac_address("a4:93-9F:f4-04:5A"),
        Some([0xA4, 0x93, 0x9F, 0xF4, 0x04, 0x5A])
    );
}

#[test]
fn mac_parse_rejects_loose_forms() {
    assert_eq!(parse_mac_address("A4939FF4045A"), None);
    assert_eq!(parse_mac_address("1:1:1:1:1:1:1:1:1"), None);
    assert_eq!(parse_mac_address("0:1:2:3:4:5:ZZZZZ"), None);
    assert_eq!(parse_mac_address("+0:11:22:33:44:55"), None);
    assert_eq!(parse_mac_address("00000000001:2:3:4"), None);
    assert_eq!(parse_mac_address("A4:93:9F:F4:04:5A "), None);
}

#[test]
fn mac_parse_rejects_malformed_text() {
    assert_eq!(parse_mac_address(""), None);
    assert_eq!(parse_mac_address("A4:93:9F:F4:04"), None);
    assert_eq!(parse_mac_address("A4:93:9F:F4:04:5A:00"), None);
    assert_eq!(parse_mac_address("A4:93:9F:F4:04:5G"), None);
    assert_eq!(parse_mac_address("Ä4:93:9F:F4:04:5"), None);
}

#[test]
fn malformed_mac_gives_invalid_mac_before_any_step() {
    for text in [
        "",
        "A4:93:9F:F4:04",
        "A4:93:9F:F4:04:ZZ",
        "not a mac",
        "1:1:1:1:1:1:1:1:1",
        "0:1:2:3:4:5:ZZZZZ",
        "+0:11:22:33:44:55",
        "A4939FF4045A",
    ] {
        let request = WolRequest::new(&text.to_string(), &Some("bad".to_string()), &None);
        let (result, actions) = run_session(&request, Vec::new());
        assert!(actions.is_empty());
        match result {
            Err(WolError::InvalidMac { input }) => assert_eq!(input, text),
            other => panic!("unexpected {:?}", other),
        }
    }
}

#[test]
fn malformed_addresses_name_their_field() {
    let mac = "A4:93:9F:F4:04:5A".to_string();
    let bad = Some("300.1.1.1".to_string());
    let request = WolRequest::new(&mac, &bad, &None);
    let (result, actions) = run_session(&request, Vec::new());
    assert!(actions.is_empty());
    match result {
        Err(WolError::InvalidAddress { field, input }) => {
            assert_eq!(field, AddrField::Bind);
            assert_eq!(input, "300.1.1.1");
        }
        other => panic!("unexpected {:?}", other),
    }

    let request = WolRequest::new(&mac, &None, &Some("broadcast".to_string()));
    let (result, actions) = run_session(&request, Vec::new());
    assert!(actions.is_empty());
    let err = result.unwrap_err();
    assert_eq!(
        err.message(),
        "Failed to get broadcast address for: \"broadcast\""
    );
    match err {
        WolError::InvalidAddress { field, input } => {
            assert_eq!(field, AddrField::Broadcast);
            assert_eq!(input, "broadcast");
        }
        other => panic!("unexpected {:?}", other),
    }
}

#[test]
fn bad_bind_is_reported_before_bad_broadcast() {
    let request = WolRequest::new(
        &"A4:93:9F:F4:04:5A".to_string(),
        &Some("x".to_string()),
        &Some("y".to_string()),
    );
    match WolSession::start(&request) {
        Err(WolError::InvalidAddress { field, .. }) => assert_eq!(field, AddrField::Bind),
        other => panic!("unexpected {:?}", other.err()),
    }
}

#[test]
fn address_text_is_quoted_with_escapes_in_messages() {
    let request = WolRequest::new(
        &"A4:93:9F:F4:04:5A".to_string(),
        &Some("a\"b".to_string()),
        &None,
    );
    let err = WolSession::start(&request).err().unwrap();
    assert_eq!(err.message(), "Failed to get bind address for: \"a\\\"b\"");
}

#[test]
fn ip_literals_of_both_families() {
    assert_eq!(
        parse_ip_addr("255.255.255.255"),
        Some(IpAddress::V4([255, 255, 255, 255]))
    );
    assert_eq!(parse_ip_addr("192.168.1.20"), Some(IpAddress::V4([192, 168, 1, 20])));
    let mut loopback = [0u8; 16];
    loopback[15] = 1;
    assert_eq!(parse_ip_addr("::1"), Some(IpAddress::V6(loopback)));
    assert_eq!(parse_ip_addr("01.2.3.4"), None);
    assert_eq!(parse_ip_addr("1.2.3"), None);
    assert_eq!(parse_ip_addr(""), None);
}

#[test]
fn valid_request_steps_bind_broadcast_send() {
    let request = WolRequest::new(&"A4:93:9F:F4:04:5A".to_string(), &None, &None);
    let (result, actions) = run_session(&request, Vec::new());
    assert!(result.is_ok());
    assert_eq!(actions.len(), 3);
    match &actions[0] {
        WolAction::Bind { addr, port } => {
            assert_eq!(*addr, IpAddress::V4([0, 0, 0, 0]));
            assert_eq!(*port, BIND_PORT);
            assert_eq!(*port, 0);
        }
        other => panic!("unexpected {:?}", other),
    }
    assert!(matches!(actions[1], WolAction::EnableBroadcast));
    match &actions[2] {
        WolAction::SendTo { packet, addr, port } => {
            assert_eq!(*packet, expected_packet([0xA4, 0x93, 0x9F, 0xF4, 0x04, 0x5A]));
            assert_eq!(*addr, IpAddress::V4([255, 255, 255, 255]));
            assert_eq!(*port, WOL_PORT);
            assert_eq!(*port, 9);
        }
        other => panic!("unexpected {:?}", other),
    }
}

#[test]
fn requested_addresses_are_used() {
    let request = WolRequest::new(
        &"A4:93:9F:F4:04:5A".to_string(),
        &Some("192.168.1.5".to_string()),
        &Some("192.168.1.255".to_string()),
    );
    let session = WolSession::start(&request).unwrap();
    assert_eq!(session.stage, WolStage::Bind);
    assert_eq!(session.bind_addr, IpAddress::V4([192, 168, 1, 5]));
    assert_eq!(session.broadcast_addr, IpAddress::V4([192, 168, 1, 255]));
    assert_eq!(session.bind_input, "192.168.1.5");
}

#[test]
fn bind_failure_ends_with_bind_failed() {
    let request = WolRequest::new(&"A4:93:9F:F4:04:5A".to_string(), &None, &None);
    let outcomes = vec![IoOutcome::Failed { cause: "address in use".to_string() }];
    let (result, actions) = run_session(&request, outcomes);
    assert_eq!(actions.len(), 1);
    let err = result.unwrap_err();
    assert_eq!(err.message(), "Failed to bind UDP socket to: \"0.0.0.0\"");
    match err {
        WolError::BindFailed { addr, cause } => {
            assert_eq!(addr, "0.0.0.0");
            assert_eq!(cause, "address in use");
        }
        other => panic!("unexpected {:?}", other),
    }
}

#[test]
fn broadcast_failure_ends_with_broadcast_unsupported() {
    let request = WolRequest::new(&"A4:93:9F:F4:04:5A".to_string(), &None, &None);
    let outcomes = vec![IoOutcome::Done, IoOutcome::Failed { cause: "denied".to_string() }];
    let (result, actions) = run_session(&request, outcomes);
    assert_eq!(actions.len(), 2);
    let err = result.unwrap_err();
    assert_eq!(err.message(), "Failed to set socket to broadcast mode");
    assert!(matches!(err, WolError::BroadcastUnsupported { ref cause } if cause == "denied"));
}

#[test]
fn send_failure_ends_with_send_failed() {
    let request = WolRequest::new(&"A4:93:9F:F4:04:5A".to_string(), &None, &None);
    let outcomes = vec![
        IoOutcome::Done,
        IoOutcome::Done,
        IoOutcome::Failed { cause: "network unreachable".to_string() },
    ];
    let (result, actions) = run_session(&request, outcomes);
    assert_eq!(actions.len(), 3);
    let err = result.unwrap_err();
    assert_eq!(err.message(), "Failed to send magic packet: network unreachable");
    assert!(matches!(err, WolError::SendFailed { .. }));
}

#[test]
fn repeated_dispatches_are_independent() {
    let request = WolRequest::new(&"A4:93:9F:F4:04:5A".to_string(), &None, &None);
    let (first, first_actions) = run_session(&request, Vec::new());
    let (second, second_actions) = run_session(&request, Vec::new());
    assert!(first.is_ok());
    assert!(second.is_ok());
    assert_eq!(first_actions.len(), 3);
    assert_eq!(format!("{:?}", first_actions), format!("{:?}", second_actions));
}

#[test]
fn getters_apply_defaults() {
    let request = WolRequest::new(&"A4:93:9F:F4:04:5A".to_string(), &None, &None);
    assert_eq!(request.get_mac_address().unwrap(), [0xA4, 0x93, 0x9F, 0xF4, 0x04, 0x5A]);
    assert_eq!(request.get_bind_addr().unwrap(), IpAddress::V4([0, 0, 0, 0]));
    assert_eq!(
        request.get_broadcast_addr().unwrap(),
        IpAddress::V4([255, 255, 255, 255])
    );
}

#[test]
fn getters_report_bad_text() {
    let request = WolRequest::new(
        &"zz".to_string(),
        &Some("1.2.3.4.5".to_string()),
        &Some("fe80::1::2".to_string()),
    );
    match request.get_mac_address() {
        Err(WolError::InvalidMac { input }) => assert_eq!(input, "zz"),
        other => panic!("unexpected {:?}", other),
    }
    match request.get_bind_addr() {
        Err(WolError::InvalidAddress { field, input }) => {
            assert_eq!(field, AddrField::Bind);
            assert_eq!(input, "1.2.3.4.5");
        }
        other => panic!("unexpected {:?}", other),
    }
    match request.get_broadcast_addr() {
        Err(WolError::InvalidAddress { field, input }) => {
            assert_eq!(field, AddrField::Broadcast);
            assert_eq!(input, "fe80::1::2");
        }
        other => panic!("unexpected {:?}", other),
    }
}
