use clock_sync::pulse_log::{parse_line, Event};
use clock_sync::rig::{
    can_plan, log_event, next_pulse_tick, parse_bssid, release_at, reporter_pause, EdgePlan, Pulser,
    TickPlan,
};

#[test]
fn addresses_are_parsed() {
    assert_eq!(parse_bssid("34:20:E3:63:66:B3"), Some([0x34, 0x20, 0xE3, 0x63, 0x66, 0xB3]));
    assert_eq!(parse_bssid("0:1:a:+f:ff:00ff"), Some([0, 1, 10, 15, 255, 255]));
    assert_eq!(parse_bssid(""), None);
    assert_eq!(parse_bssid("34:20:E3:63:66"), None);
    assert_eq!(parse_bssid("34:20:E3:63:66:B3:01"), None);
    assert_eq!(parse_bssid("34:20:E3:63:66:"), None);
    assert_eq!(parse_bssid("34:20:E3:63:66:100"), None);
    assert_eq!(parse_bssid("34:20:E3:63:66:-1"), None);
    assert_eq!(parse_bssid("34:20:E3:63:66:g0"), None);
}

#[test]
fn pulses_fall_on_round_ticks_with_slack() {
    assert_eq!(next_pulse_tick(0), 100_000_000);
    assert_eq!(next_pulse_tick(95_000_000), 100_000_000);
    assert_eq!(next_pulse_tick(95_000_001), 200_000_000);
    assert_eq!(next_pulse_tick(100_000_000), 200_000_000);
    assert!(can_plan(1_700_000_000_000_000_000));
    assert!(!can_plan(u128::MAX));
    assert_eq!(release_at(7), 1_007);
}

#[test]
fn pulser_waits_for_the_estimator() {
    let mut p = Pulser::new();
    assert_eq!(p.on_time(None), TickPlan::Sleep { ms: 200 });
    assert_eq!(p.on_time(Some(5)), TickPlan::Converged);
    assert_eq!(p.on_time(None), TickPlan::Sleep { ms: 100 });
    assert_eq!(p.on_time(Some(5)), TickPlan::Target { tick_ns: 100_000_000 });
    assert_eq!(p.on_target(None, 9), EdgePlan::Sleep { ms: 100 });
    assert_eq!(
        p.on_target(Some(1_000), 900),
        EdgePlan::Fire { coarse_wait_us: 20, target_local_us: 1_000 }
    );
    assert_eq!(
        p.on_target(Some(1_000), 930),
        EdgePlan::Fire { coarse_wait_us: 0, target_local_us: 1_000 }
    );
    assert_eq!(
        p.on_target(Some(1_000), 5_000),
        EdgePlan::Fire { coarse_wait_us: 0, target_local_us: 1_000 }
    );
    assert_eq!(reporter_pause(false), Some(2));
    assert_eq!(reporter_pause(true), None);
}

#[test]
fn pulser_reports_its_edges() {
    let mut p = Pulser { converged: true, seq: u32::MAX };
    assert_eq!(
        p.on_edge((0xab, 0xcd, 0x0f), Some(123), 100_000_000, 77),
        "pulse_tx mac=ab:cd:0f seq=4294967295 synced_ns=123 target_ns=100000000 cap_us=77"
    );
    assert_eq!(
        p.on_edge((0, 1, 2), None, 200_000_000, 0),
        "pulse_tx mac=00:01:02 seq=0 synced_ns=200000000 target_ns=200000000 cap_us=0"
    );
    assert_eq!(p.seq, 1);
}

#[test]
fn captured_edges_are_reported() {
    assert_eq!(
        log_event("D5", (0x12, 0x34, 0x56), Some(u128::MAX), u64::MAX),
        "pulse_rx port=D5 mac=12:34:56 synced_ns=340282366920938463463374607431768211455 \
         cap_us=18446744073709551615"
    );
    assert_eq!(
        log_event("D34", (0x12, 0x34, 0x56), None, 10),
        "pulse_rx port=D34 mac=12:34:56 synced_ns=NONE cap_us=10"
    );
}

fn tx(line: &str) -> Option<(usize, String, u32, u128)> {
    match parse_line(1, line) {
        Some(Event::Tx { device, mac, seq, synced_ns }) => Some((device, mac, seq, synced_ns)),
        _ => None,
    }
}

fn rx(line: &str) -> Option<(usize, String, u128)> {
    match parse_line(0, line) {
        Some(Event::Rx { device, mac, synced_ns }) => Some((device, mac, synced_ns)),
        _ => None,
    }
}

#[test]
fn printed_lines_are_read_back() {
    let mut p = Pulser { converged: true, seq: 41 };
    let line = p.on_edge((0xab, 0xcd, 0xef), Some(1_700_000_000_000_000_123), 5, 6);
    assert_eq!(tx(&line), Some((1, "ab:cd:ef".to_string(), 41, 1_700_000_000_000_000_123)));
    let line = log_event("D5", (1, 2, 3), Some(99), 4);
    assert_eq!(rx(&line), Some((0, "01:02:03".to_string(), 99)));
    let line = log_event("D5", (1, 2, 3), None, 4);
    assert!(parse_line(0, &line).is_none());
}

#[test]
fn lines_of_other_shapes() {
    assert_eq!(tx("pulse_tx mac=a seq=1 synced_ns=2"), Some((1, "a".to_string(), 1, 2)));
    // Any white space separates; an empty value is a value.
    assert_eq!(
        tx("pulse_tx \tsynced_ns=2\u{2003}\u{a0}seq=+1  mac= \r"),
        Some((1, String::new(), 1, 2))
    );
    // The value begins at the first separator; the last of a key counts.
    assert_eq!(tx("pulse_tx mac=a=b seq=1 seq=2 synced_ns=3"), Some((1, "a=b".to_string(), 2, 3)));
    assert_eq!(tx("pulse_tx mac=a seq=1 synced_ns=3 seq=x"), None);
    // Fields that are missing, malformed or out of range.
    assert_eq!(tx("pulse_tx mac=a seq=1"), None);
    assert_eq!(tx("pulse_tx mac=a synced_ns=1"), None);
    assert_eq!(tx("pulse_tx seq=1 synced_ns=1"), None);
    assert_eq!(tx("pulse_tx mac=a seq=1 synced_ns=2 stray"), None);
    assert_eq!(tx("pulse_tx mac=a seq=4294967296 synced_ns=2"), None);
    assert_eq!(tx("pulse_tx mac=a seq=-1 synced_ns=2"), None);
    assert_eq!(tx("pulse_tx mac=a seq= synced_ns=2"), None);
    assert_eq!(
        tx("pulse_tx mac=a seq=1 synced_ns=340282366920938463463374607431768211456"),
        None
    );
    // A sent pulse with a time of NONE has none; a captured one keeps what it had.
    assert_eq!(tx("pulse_tx mac=a seq=1 synced_ns=2 synced_ns=NONE"), None);
    assert_eq!(
        rx("pulse_rx mac=a synced_ns=2 synced_ns=NONE seq=x"),
        Some((0, "a".to_string(), 2))
    );
    assert_eq!(rx("pulse_rx mac=a synced_ns=2 synced_ns=none"), None);
    // Other lines.
    assert!(parse_line(0, "").is_none());
    assert!(parse_line(0, "pulse_tx").is_none());
    assert!(parse_line(0, " pulse_tx mac=a seq=1 synced_ns=2").is_none());
    assert!(parse_line(0, "stats: samples=1").is_none());
}
