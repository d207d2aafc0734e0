use bridgescope::connection::{
    forget_endpoint, remember_endpoint, restore_recent_endpoints, AdbEndpoint, ConnectionCommand,
    ConnectionEvent, ConnectionState, MAX_RECENT_ENDPOINTS,
};
use bridgescope::device::BridgeError;
use bridgescope::text::parse_u16;
use bridgescope::wireless::{
    endpoint_from_address, MdnsService, WirelessCommand, WirelessEvent, WirelessState,
    MDNS_RETRY_MS,
};

#[test]
fn pair_inputs_validate_host_port_and_code() {
    let mut state = WirelessState::default();
    assert!(state.pair_inputs().is_err(), "empty inputs must fail");
    state.pair_host = "192.168.1.20".to_owned();
    state.pair_port = "not-a-port".to_owned();
    state.pair_code = "123456".to_owned();
    assert!(state.pair_inputs().is_err(), "bad port must fail");
    state.pair_port = "41234".to_owned();
    state.pair_code = "12345".to_owned();
    assert!(state.pair_inputs().is_err(), "short code must fail");
    state.pair_code = "123456".to_owned();
    let (host, port, code) = state.pair_inputs().expect("valid inputs");
    assert_eq!((host.as_str(), port, code.as_str()), ("192.168.1.20", 41234, "123456"));
}

#[test]
fn events_clear_the_pending_markers() {
    let mut state = WirelessState::default();
    let request_id = 1;
    state.pairing = Some(request_id);
    state.handle_event(&WirelessEvent::PairFailed {
        request_id,
        error: BridgeError::invalid_input("wireless.pair_invalid"),
    });
    assert_eq!(state.pairing, None);
    assert!(state.error.is_some());

    let request_id = 2;
    let serial = "1A2B3C4D5E".to_owned();
    state.tcpip = Some((request_id, serial.clone()));
    state.handle_event(&WirelessEvent::TcpIpEnabled { request_id, serial: serial.clone() });
    assert_eq!(state.tcpip, None);
    assert_eq!(state.notice, Some("wireless_tcpip_ok"));
}

#[test]
fn auto_discovers_once_with_backoff() {
    let mut state = WirelessState::default();
    let commands = bridgescope::wireless::auto(&mut state, 1_000);
    assert!(matches!(commands.as_slice(), [WirelessCommand::ListMdnsServices]));
    state.handle_event(&WirelessEvent::MdnsServicesLoaded { services: Vec::new() });
    // Still empty, but inside the backoff window: no repeat discovery.
    assert!(bridgescope::wireless::auto(&mut state, 1_500).is_empty());
    assert!(!state.mdns_loading);
    // Once the window has passed, discovery runs again.
    assert_eq!(bridgescope::wireless::auto(&mut state, 1_000 + MDNS_RETRY_MS).len(), 1);
}

#[test]
fn mdns_addresses_parse_into_endpoints() {
    let endpoint = endpoint_from_address("192.168.1.20:5555").expect("valid address");
    assert_eq!(endpoint.host, "192.168.1.20");
    assert_eq!(endpoint.port, 5555);
    assert!(endpoint_from_address("no-port").is_none());
    assert!(endpoint_from_address("host:99999").is_none());
}

#[test]
fn addresses_split_at_the_last_colon() {
    let endpoint = endpoint_from_address("fe80::1:37000").expect("valid address");
    assert_eq!(endpoint.host, "fe80::1");
    assert_eq!(endpoint.port, 37000);
    assert!(endpoint_from_address(":5555").is_none(), "blank host");
    assert!(endpoint_from_address("host:").is_none(), "missing port");
}

#[test]
fn ports_parse_like_the_standard_library() {
    assert_eq!(parse_u16("0"), Some(0));
    assert_eq!(parse_u16("65535"), Some(65535));
    assert_eq!(parse_u16("+80"), Some(80));
    assert_eq!(parse_u16("0080"), Some(80));
    assert_eq!(parse_u16("65536"), None);
    assert_eq!(parse_u16("+"), None);
    assert_eq!(parse_u16(""), None);
    assert_eq!(parse_u16("-1"), None);
    assert_eq!(parse_u16(" 1"), None);
    for text in ["0", "1", "65535", "+7", "0080", "65536", "+", "", "-1", "1 ", "99999999"] {
        assert_eq!(parse_u16(text), text.parse::<u16>().ok(), "{text}");
    }
}

#[test]
fn pairing_sends_the_validated_inputs() {
    let mut state = WirelessState::default();
    state.pair_host = " 10.0.0.2 ".to_owned();
    state.pair_port = "37123".to_owned();
    state.pair_code = "12345678".to_owned();
    let command = state.start_pairing(9);
    assert!(matches!(
        command,
        Some(WirelessCommand::PairDevice { request_id: 9, ref host, port: 37123, ref code })
            if host == "10.0.0.2" && code == "12345678"
    ));
    assert_eq!(state.notice, Some("wireless_pairing"));
    state.pair_code = "12a456".to_owned();
    assert!(state.start_pairing(10).is_none());
    assert!(state.error.is_some());
}

#[test]
fn tcpip_needs_a_selected_device() {
    let mut state = WirelessState::default();
    assert!(state.enable_tcpip(&None, 1).is_none());
    let command = state.enable_tcpip(&Some("serial".to_owned()), 2);
    assert!(matches!(
        command,
        Some(WirelessCommand::EnableTcpIp { request_id: 2, ref serial, port: 5555 }) if serial == "serial"
    ));
    state.tcpip = Some((2, "serial".to_owned()));
    assert!(state.enable_tcpip(&Some("serial".to_owned()), 3).is_none());
}

#[test]
fn discovered_services_connect_by_address() {
    let mut state = WirelessState::default();
    state.handle_event(&WirelessEvent::MdnsServicesLoaded {
        services: vec![MdnsService {
            name: "adb-1".to_owned(),
            service_type: "_adb-tls-connect._tcp".to_owned(),
            address: "192.168.1.5:40000".to_owned(),
        }],
    });
    let endpoint = state.service_endpoint(0).expect("endpoint");
    assert_eq!((endpoint.host.as_str(), endpoint.port), ("192.168.1.5", 40000));
    assert!(state.service_endpoint(1).is_none());
    assert!(state.discover().is_some());
    assert!(state.discover().is_none());
}

fn endpoint(host: &str, port: u16) -> AdbEndpoint {
    AdbEndpoint::new(host, port).expect("valid endpoint")
}

#[test]
fn remembering_moves_the_endpoint_to_the_front_once() {
    let mut recent = vec![endpoint("a", 1), endpoint("b", 2), endpoint("c", 3)];
    remember_endpoint(&mut recent, endpoint("b", 2));
    let shown: Vec<String> = recent.iter().map(AdbEndpoint::text).collect();
    assert_eq!(shown, vec!["b:2", "a:1", "c:3"]);
    remember_endpoint(&mut recent, endpoint("b", 2));
    assert_eq!(recent.len(), 3);
    assert_eq!(recent[0].text(), "b:2");
}

#[test]
fn remembered_list_keeps_the_most_recent_eight() {
    let mut recent = Vec::new();
    for port in 1..=10 {
        remember_endpoint(&mut recent, endpoint("h", port));
    }
    assert_eq!(recent.len(), MAX_RECENT_ENDPOINTS);
    assert_eq!(recent[0].port, 10);
    assert_eq!(recent[7].port, 3);
    forget_endpoint(&mut recent, &endpoint("h", 10));
    assert_eq!(recent.len(), 7);
    assert_eq!(recent[0].port, 9);
}

#[test]
fn restored_endpoints_drop_invalid_hosts() {
    let stored: Vec<(String, u16)> = (0..12)
        .map(|i| (if i == 1 { "  ".to_owned() } else { format!("host{i}") }, 5555))
        .collect();
    let recent = restore_recent_endpoints(stored);
    assert_eq!(recent.len(), 8);
    assert_eq!(recent[0].host, "host0");
    assert_eq!(recent[1].host, "host2");
}

#[test]
fn connection_form_validates_and_reports() {
    let mut state = ConnectionState::new(Vec::new());
    state.endpoint_host = "192.168.1.20".to_owned();
    state.endpoint_port = "x".to_owned();
    assert!(state.connect_clicked().is_none());
    assert_eq!(state.last_error.as_ref().map(|e| e.message_key.as_str()), Some("adb.endpoint.port_invalid"));
    state.endpoint_port = " 5555 ".to_owned();
    let command = state.connect_clicked();
    assert!(matches!(command, Some(ConnectionCommand::ConnectDevice(ref e)) if e.text() == "192.168.1.20:5555"));
    assert!(state.connect_clicked().is_none(), "a connection is under way");
    state.handle_event(ConnectionEvent::AdbConnectFailed {
        endpoint: endpoint("192.168.1.20", 5555),
        error: BridgeError::invalid_input("adb.connect_failed"),
    });
    assert!(state.connecting_endpoint.is_none());
    assert_eq!(state.last_error.as_ref().map(|e| e.detail.as_str()), Some(" (192.168.1.20:5555)"));
    state.handle_event(ConnectionEvent::AdbConnected(endpoint("192.168.1.20", 5555)));
    assert_eq!(state.recent_endpoints.len(), 1);
    assert!(state.last_error.is_none());
}
