use fortinet_vpn_status::config::Config;
use fortinet_vpn_status::presentation::{error_message, Display, RateText};
use fortinet_vpn_status::Status;

/// Byte amounts as the panel writes them (binary units, one decimal).
fn byte_text(value: u64) -> String {
    let value = value as f64;
    for (divisor, unit) in [(1073741824.0, "GiB"), (1048576.0, "MiB"), (1024.0, "KiB")] {
        if value >= divisor {
            return format!("{:.1} {unit}", value / divisor);
        }
    }
    format!("{:.0} B", value.round())
}

#[test]
fn actionable_diagnostics() {
    assert!(error_message("forticlient_missing").contains("PATH"));
    assert!(error_message("ip_missing").contains("iproute2"));
    assert!(error_message("config_invalid").contains("config.toml"));
    assert_eq!(error_message(""), "");
    for code in [
        "forticlient_timeout",
        "forticlient_failed",
        "ip_timeout",
        "ip_failed",
        "ip_invalid_json",
        "tunnel_unavailable",
        "status_unrecognized",
        "config_unreadable",
        "invalid_arguments",
    ] {
        assert!(!error_message(code).is_empty());
    }
}

#[test]
fn label_options_and_tooltip_values() {
    let status = Status {
        state: "connected".into(),
        name: "Office".into(),
        sent: "1024".into(),
        received: "2048".into(),
        ..Status::default()
    };
    let rates = RateText {
        sent: byte_text(1024),
        received: byte_text(2048),
    };
    let display = Display::new(&status, &Config::default(), Some(&rates), byte_text);
    assert_eq!(display.label, "VPN ON");
    assert_eq!(display.heading, "Connected");
    assert_eq!(display.sent, "1.0 KiB");
    assert_eq!(display.received, "2.0 KiB");
    assert_eq!(display.upload.as_deref(), Some("1.0 KiB/s"));
    let config = Config {
        show_rates: true,
        show_connection_name: true,
        ..Config::default()
    };
    assert_eq!(
        Display::new(&status, &config, Some(&rates), byte_text).label,
        "VPN ON · Office  ↓ 2.0 KiB/s  ↑ 1.0 KiB/s"
    );
    let display = Display::new(&status, &config, None, byte_text);
    assert_eq!(display.label, "VPN ON · Office");
    assert!(display.download.is_none());
}

#[test]
fn unavailable_connection_never_displays_stale_speed() {
    let config = Config {
        show_rates: true,
        show_connection_name: true,
        ..Config::default()
    };
    for (state, label) in [
        ("disconnected", "VPN OFF"),
        ("connecting", "VPN …"),
        ("degraded", "VPN ?"),
        ("unknown", "VPN ?"),
    ] {
        let status = Status {
            state: state.into(),
            ..Status::default()
        };
        let rates = RateText {
            sent: byte_text(100),
            received: byte_text(100),
        };
        let display = Display::new(&status, &config, Some(&rates), byte_text);
        assert_eq!(display.label, label);
        assert!(display.download.is_none());
        assert_eq!(display.sent, "—");
    }
}

#[test]
fn headings_and_error_messages_follow_the_status() {
    let mut status = Status::unavailable("config_invalid");
    let display = Display::new(&status, &Config::default(), None, byte_text);
    assert_eq!(display.heading, "Status unavailable");
    assert_eq!(display.label, "VPN ?");
    assert!(display.error.contains("2–300"));
    status.state = "degraded".into();
    status.error = "tunnel_unavailable".into();
    let display = Display::new(&status, &Config::default(), None, byte_text);
    assert_eq!(display.heading, "Tunnel unavailable");
    assert!(display.error.contains("tunnel"));
}

#[test]
fn rates_are_hidden_from_the_label_unless_asked_for() {
    let status = Status {
        state: "connected".into(),
        name: "Office".into(),
        sent: "5".into(),
        received: "bad".into(),
        ..Status::default()
    };
    let rates = RateText { sent: "1 B".into(), received: "2 B".into() };
    let config = Config { show_rates: true, ..Config::default() };
    let display = Display::new(&status, &config, Some(&rates), byte_text);
    assert_eq!(display.label, "VPN ON  ↓ 2 B/s  ↑ 1 B/s");
    assert_eq!(display.download.as_deref(), Some("2 B/s"));
    assert_eq!(display.sent, "5 B");
    assert_eq!(display.received, "—");
}

#[test]
fn unknown_codes_have_no_message() {
    assert_eq!(error_message("something_else"), "");
    assert_eq!(error_message("FORTICLIENT_MISSING"), "");
}
