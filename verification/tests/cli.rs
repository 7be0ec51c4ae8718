use fortinet_vpn_status::cli::{command_error, is_refresh_request, CommandFailure, Options};
use fortinet_vpn_status::config::{Config, Settings, Step};
use fortinet_vpn_status::Status;

fn args(list: &[&str]) -> Vec<String> {
    list.iter().map(|s| s.to_string()).collect()
}

#[test]
fn options_accept_each_flag_once() {
    assert_eq!(Options::parse(&args(&[])), Ok(Options { watch: false, config: None }));
    assert_eq!(
        Options::parse(&args(&["--watch", "--config", "config.toml"])),
        Ok(Options { watch: true, config: Some(2) })
    );
    assert_eq!(
        Options::parse(&args(&["--config", "c.toml", "--watch"])),
        Ok(Options { watch: true, config: Some(1) })
    );
    for bad in [
        &["--watch", "--watch"][..],
        &["--config"][..],
        &["--config", ""][..],
        &["--config", "--watch"][..],
        &["--config", "a", "--config", "b"][..],
        &["extra"][..],
    ] {
        assert_eq!(Options::parse(&args(bad)), Err("invalid_arguments"));
    }
}

#[test]
fn refresh_requests_ignore_surrounding_white_space() {
    assert!(is_refresh_request("refresh"));
    assert!(is_refresh_request("  refresh \t\r"));
    assert!(!is_refresh_request("refresh now"));
    assert!(!is_refresh_request("Refresh"));
    assert!(!is_refresh_request(""));
}

#[test]
fn command_failures_name_the_command() {
    assert_eq!(command_error(CommandFailure::Missing, "forticlient"), "forticlient_missing");
    assert_eq!(command_error(CommandFailure::TimedOut, "forticlient"), "forticlient_timeout");
    assert_eq!(command_error(CommandFailure::Failed, "forticlient"), "forticlient_failed");
    assert_eq!(command_error(CommandFailure::Missing, "ip"), "ip_missing");
    assert_eq!(command_error(CommandFailure::TimedOut, "ip"), "ip_timeout");
    assert_eq!(command_error(CommandFailure::Failed, "ip"), "ip_failed");
}

#[test]
fn configuration_interval_range_and_gap() {
    let defaults = Config::default();
    assert_eq!(defaults.poll_interval_seconds, 5);
    assert!(!defaults.show_rates && !defaults.show_connection_name);
    assert_eq!(defaults.validated(), Ok(defaults));
    for seconds in [0, 1, 301, u64::MAX] {
        let config = Config { poll_interval_seconds: seconds, ..Config::default() };
        assert_eq!(config.validated(), Err("config_invalid"));
    }
    for seconds in [2, 300] {
        let config = Config { poll_interval_seconds: seconds, ..Config::default() };
        assert_eq!(config.validated(), Ok(config));
    }
    assert_eq!(defaults.max_gap_seconds(), 30);
    let config = Config { poll_interval_seconds: 12, ..Config::default() };
    assert_eq!(config.max_gap_seconds(), 36);
}

#[test]
fn failed_configuration_falls_back_to_defaults() {
    let settings = Settings::resolve(Err("config_unreadable"));
    assert_eq!(settings.failure, Some("config_unreadable"));
    assert_eq!(settings.config, Config::default());
    assert_eq!(settings.max_gap_seconds, 30);
    let loaded = Config { poll_interval_seconds: 20, show_rates: true, show_connection_name: false };
    let settings = Settings::resolve(Ok(loaded));
    assert_eq!(settings.failure, None);
    assert_eq!(settings.config, loaded);
    assert_eq!(settings.max_gap_seconds, 60);
}

#[test]
fn failed_configuration_is_reported_without_probing() {
    match Settings::resolve(Err("config_invalid")).next_step() {
        Step::Report(status) => {
            assert_eq!(status.state, "unknown");
            assert_eq!(status.name, "Fortinet");
            assert_eq!(status.error, "config_invalid");
        }
        Step::Probe => panic!("a failed configuration must not be probed"),
    }
    assert!(matches!(Settings::resolve(Ok(Config::default())).next_step(), Step::Probe));
}

#[test]
fn probe_failures_become_unavailable_statuses() {
    let status = Status::from_probe(Err("ip_timeout"));
    assert_eq!(status.state, "unknown");
    assert_eq!(status.error, "ip_timeout");
    let classified = Status { state: "connected".into(), ..Status::default() };
    assert_eq!(Status::from_probe(Ok(classified)).state, "connected");
}
