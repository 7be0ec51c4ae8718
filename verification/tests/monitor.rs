use fortinet_vpn_status::monitor::{counter, duration, Monitor, Transfer};
use fortinet_vpn_status::Status;

const SECOND: u128 = 1_000_000_000;

fn sample(sent: &str, received: &str) -> Status {
    Status {
        state: "connected".into(),
        name: "Example".into(),
        interface: "fctvpn123".into(),
        ip: "192.0.2.1".into(),
        sent: sent.into(),
        received: received.into(),
        duration: "00:01:00".into(),
        error: String::new(),
    }
}

/// Bytes per second in each direction, as the panel computes them from a transfer.
fn rates(transfer: Transfer) -> (f64, f64) {
    let seconds = std::time::Duration::from_nanos(transfer.elapsed_nanos as u64).as_secs_f64();
    (transfer.sent as f64 / seconds, transfer.received as f64 / seconds)
}

fn between(before: Status, after: Status, now: u64) -> Option<(f64, f64)> {
    let mut monitor = Monitor::default();
    assert!(monitor.observe(&before, 10 * SECOND, 30 * SECOND).is_none());
    monitor
        .observe(&after, now as u128 * SECOND, 30 * SECOND)
        .map(rates)
}

#[test]
fn speed_uses_actual_elapsed_time() {
    assert_eq!(
        between(sample("100", "200"), sample("400", "800"), 13),
        Some((100.0, 200.0))
    );
}

#[test]
fn unchanged_counters_mean_idle_connection() {
    assert_eq!(
        between(sample("100", "200"), sample("100", "200"), 15),
        Some((0.0, 0.0))
    );
}

#[test]
fn changed_connection_discards_baseline() {
    for field in ["state", "name", "interface", "ip"] {
        let before = sample("100", "200");
        let mut after = sample("400", "800");
        match field {
            "state" => after.state = "disconnected".into(),
            "name" => after.name = "Other".into(),
            "interface" => after.interface = "fctvpn456".into(),
            _ => after.ip = "192.0.2.2".into(),
        }
        assert!(between(before, after, 15).is_none());
    }
}

#[test]
fn counter_and_session_resets_discard_baseline() {
    assert!(between(sample("100", "200"), sample("50", "800"), 15).is_none());
    assert!(between(sample("100", "200"), sample("400", "50"), 15).is_none());
    let mut after = sample("400", "800");
    after.duration = "00:00:01".into();
    assert!(between(sample("100", "200"), after, 15).is_none());
}

#[test]
fn clock_regression_zero_interval_and_long_gaps_discard_baseline() {
    for now in [0, 9, 10, 41] {
        assert!(between(sample("100", "200"), sample("400", "800"), now).is_none());
    }
}

#[test]
fn invalid_counters_are_not_rates() {
    for counter in [
        "",
        "unknown",
        "12 KiB",
        "-1",
        "+1",
        "1.5",
        "18446744073709551616",
    ] {
        assert!(between(sample("100", "200"), sample(counter, "800"), 15).is_none());
    }
}

#[test]
fn large_integer_counters_preserve_small_deltas() {
    assert_eq!(
        between(
            sample("18446744073709551614", "9007199254740992"),
            sample("18446744073709551615", "9007199254740993"),
            11
        ),
        Some((1.0, 1.0))
    );
}

#[test]
fn failure_and_explicit_reset_require_two_new_samples() {
    let mut monitor = Monitor::default();
    let gap = 30 * SECOND;
    assert!(monitor.observe(&sample("100", "200"), 0, gap).is_none());
    assert!(monitor
        .observe(&Status::unavailable("forticlient_timeout"), 5 * SECOND, gap)
        .is_none());
    assert!(monitor.observe(&sample("400", "800"), 10 * SECOND, gap).is_none());
    assert!(monitor.observe(&sample("500", "900"), 15 * SECOND, gap).is_some());
    monitor.reset();
    assert!(monitor.observe(&sample("600", "1000"), 20 * SECOND, gap).is_none());
}

#[test]
fn transfer_holds_exact_counter_differences() {
    let mut monitor = Monitor::default();
    assert!(monitor.observe(&sample("100", "200"), 1_500, 10_000).is_none());
    assert_eq!(
        monitor.observe(&sample("130", "270"), 2_000, 10_000),
        Some(Transfer { sent: 30, received: 70, elapsed_nanos: 500 })
    );
}

#[test]
fn gap_limit_is_inclusive() {
    let mut monitor = Monitor::default();
    assert!(monitor.observe(&sample("1", "1"), 0, 100).is_none());
    assert!(monitor.observe(&sample("2", "2"), 100, 100).is_some());
    assert!(monitor.observe(&sample("3", "3"), 201, 100).is_none());
}

#[test]
fn counters_read_plain_decimal_digits() {
    assert_eq!(counter("0"), Some(0));
    assert_eq!(counter("007"), Some(7));
    assert_eq!(counter("18446744073709551615"), Some(u64::MAX));
    assert_eq!(counter("18446744073709551616"), None);
    assert_eq!(counter(""), None);
    assert_eq!(counter(" 1"), None);
    assert_eq!(counter("١"), None);
}

#[test]
fn durations_read_hours_minutes_seconds() {
    assert_eq!(duration("00:01:00"), Some(60));
    assert_eq!(duration("2:03:04"), Some(7384));
    assert_eq!(duration("100:59:59"), Some(363599));
    assert_eq!(duration("00:60:00"), None);
    assert_eq!(duration("00:00:60"), None);
    assert_eq!(duration("01:00"), None);
    assert_eq!(duration("01:00:00:00"), None);
    assert_eq!(duration("a:00:00"), None);
    assert_eq!(duration(""), None);
    assert_eq!(duration("5124095576030431:00:15"), Some(18446744073709551615));
    assert_eq!(duration("5124095576030431:00:16"), None);
}

#[test]
fn counters_read_back_decimal_numbers() {
    for n in [0u64, 1, 9, 10, 99, 100, 4294967296, 9007199254740993, u64::MAX - 1, u64::MAX] {
        assert_eq!(counter(&n.to_string()), Some(n));
        assert_eq!(counter(&format!("00{}", n)), Some(n));
    }
}
