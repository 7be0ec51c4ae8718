use fortinet_vpn_status::status::connection_state;
use fortinet_vpn_status::{classify, Address, Interface, Status};

fn tunnel() -> Interface {
    Interface {
        ifname: "fctvpn123".into(),
        flags: vec!["UP".into()],
        addr_info: vec![Address {
            scope: "global".into(),
            local: "10.0.0.2".into(),
        }],
    }
}

#[test]
fn connected_requires_tunnel() {
    assert_eq!(
        classify("Status: Connected", &[tunnel()]).state,
        "connected"
    );
    assert_eq!(classify("Status: Connected", &[]).state, "degraded");
}

#[test]
fn disconnected_overrides_remaining_interface() {
    for status in ["Disconnected", "Not connected"] {
        assert_eq!(
            classify(&format!("Status: {status}"), &[tunnel()]).state,
            "disconnected"
        );
    }
}

#[test]
fn connecting() {
    for status in ["Connecting", "Reconnecting"] {
        assert_eq!(
            classify(&format!("Status: {status}"), &[]).state,
            "connecting"
        );
    }
}

#[test]
fn unknown_is_not_connected() {
    assert_eq!(classify("unexpected output", &[tunnel()]).state, "unknown");
}

#[test]
fn down_or_unaddressed_tunnel_is_not_connected() {
    let mut down = tunnel();
    down.flags.clear();
    let mut unaddressed = tunnel();
    unaddressed.addr_info.clear();
    let mut local = tunnel();
    local.addr_info[0].scope = "link".into();
    for interface in [down, unaddressed, local, Interface::default()] {
        assert_eq!(
            classify("Status: Connected", &[interface]).state,
            "degraded"
        );
    }
}

#[test]
fn unrelated_interface_is_not_fortinet() {
    let mut link = tunnel();
    link.ifname = "wlan0".into();
    assert_eq!(classify("Status: Connected", &[link]).state, "degraded");
}

#[test]
fn details_exclude_username_and_preserve_colons() {
    let interfaces = [tunnel()];
    let result = classify(
        "  Status: CONNECTED\n  VPN name: Escritório: VPN\n  Username: private\n  IP: fd00::1\n  Duration: 00:01:00\n  Sent bytes: 123\n  Recv bytes: 456",
        &interfaces,
    );
    assert_eq!(result.state, "connected");
    assert_eq!(result.name, "Escritório: VPN");
    assert_eq!(result.ip, "fd00::1");
    assert_eq!(result.duration, "00:01:00");
    assert_eq!(result.sent, "123");
    assert_eq!(result.received, "456");
    assert_eq!(result.interface, "fctvpn123");
    for field in [
        &result.state,
        &result.name,
        &result.ip,
        &result.duration,
        &result.sent,
        &result.received,
        &result.interface,
        &result.error,
    ] {
        assert!(!field.contains("private"));
    }
}

#[test]
fn defaults_and_first_valid_tunnel() {
    let interfaces = [Interface::default(), tunnel(), tunnel()];
    let result = classify("", &interfaces);
    assert_eq!(result.name, "Fortinet");
    assert_eq!(result.ip, "10.0.0.2");
    assert_eq!(result.duration, "");
    assert_eq!(result.sent, "0");
    assert_eq!(result.received, "0");
    assert_eq!(result.interface, "fctvpn123");
}

#[test]
fn errors_accompany_degraded_and_unknown_states() {
    assert_eq!(classify("Status: Connected", &[]).error, "tunnel_unavailable");
    assert_eq!(classify("Status: ???", &[tunnel()]).error, "status_unrecognized");
    assert_eq!(classify("Status: Connected", &[tunnel()]).error, "");
    assert_eq!(classify("Status: Disconnected", &[]).error, "");
}

#[test]
fn last_repeated_key_wins_and_crlf_lines_are_read() {
    let result = classify(
        "Status: Disconnected\r\nStatus: Connected\r\nVPN name: First\r\nVPN name: Second\r\n",
        &[tunnel()],
    );
    assert_eq!(result.state, "connected");
    assert_eq!(result.name, "Second");
}

#[test]
fn listed_ip_wins_over_tunnel_address_and_empty_ip_is_discovered() {
    let result = classify("Status: Connected\nIP: 192.0.2.9", &[tunnel()]);
    assert_eq!(result.ip, "192.0.2.9");
    let result = classify("Status: Connected\nIP:   ", &[tunnel()]);
    assert_eq!(result.ip, "10.0.0.2");
    let mut no_local = tunnel();
    no_local.addr_info[0].local = String::new();
    let result = classify("Status: Connected", &[no_local]);
    assert_eq!(result.ip, "");
    assert_eq!(result.state, "connected");
}

#[test]
fn first_global_address_with_a_local_address_is_used() {
    let mut iface = tunnel();
    iface.addr_info = vec![
        Address { scope: "link".into(), local: "fe80::1".into() },
        Address { scope: "global".into(), local: String::new() },
        Address { scope: "global".into(), local: "2001:db8::17".into() },
    ];
    assert_eq!(classify("Status: Connected", &[iface]).ip, "2001:db8::17");
}

#[test]
fn state_for_lowercased_status_values() {
    assert_eq!(connection_state("connected", true), "connected");
    assert_eq!(connection_state("connected", false), "degraded");
    assert_eq!(connection_state("not connected", true), "disconnected");
    assert_eq!(connection_state("reconnecting", false), "connecting");
    assert_eq!(connection_state("connected ", true), "unknown");
    assert_eq!(connection_state("", true), "unknown");
}

#[test]
fn unavailable_status_carries_the_error() {
    let status = Status::unavailable("forticlient_timeout");
    assert_eq!(status.state, "unknown");
    assert_eq!(status.name, "Fortinet");
    assert_eq!(status.error, "forticlient_timeout");
    assert_eq!(status.ip, "");
    assert_eq!(status.sent, "");
    assert_eq!(status.interface, "");
}
