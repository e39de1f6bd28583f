use clock_sync::pulse_log::{parse_line, Event};
use clock_sync::skew::{direction_idx, next_wait, SkewMeter};
use clock_sync::stats::DirStats;

fn sent(device: usize, synced_ns: u128) -> Event {
    Event::Tx { device, mac: String::new(), seq: 0, synced_ns }
}

fn captured(device: usize, synced_ns: u128) -> Event {
    Event::Rx { device, mac: String::new(), synced_ns }
}

fn record(s: &mut DirStats, deltas_us: &[i128]) {
    for &d in deltas_us {
        assert!(s.can_record(d * 1_000));
        s.record(d * 1_000, 0);
    }
}

#[test]
fn percentile_index_matches_its_fraction() {
    for len in 1usize..=1024 {
        let by_fraction = ((len as f64 * 0.99) as usize).min(len - 1);
        assert_eq!(len * 99 / 100, by_fraction);
    }
}

#[test]
fn statistics_of_a_few_differences() {
    let mut s = DirStats::default();
    assert_eq!((s.count(), s.max_abs_us(), s.p99_abs_us(), s.mean_us()), (0, 0, 0, 0));
    record(&mut s, &[10, -30, 5, 5]);
    assert_eq!(s.count(), 4);
    assert_eq!(s.max_abs_us(), 30);
    // -10 / 4, rounded towards zero.
    assert_eq!(s.mean_us(), -2);
    // 1050 / 4 - 4, rounded down.
    assert_eq!(s.variance_us(), 258);
    assert_eq!(s.p99_abs_us(), 30);
    // Less than a microsecond counts as nothing.
    s.record(-999, 0);
    assert_eq!(s.count(), 5);
    assert_eq!(s.mean_us(), -2);
}

#[test]
fn percentile_forgets_old_magnitudes() {
    let mut s = DirStats::default();
    record(&mut s, &[5_000]);
    for i in 0..99 {
        record(&mut s, &[i]);
    }
    // Of 100 magnitudes the one in place 99 is the largest.
    assert_eq!(s.p99_abs_us(), 5_000);
    for _ in 0..901 {
        record(&mut s, &[-7]);
    }
    // Of 1001 magnitudes place 990 is among the larger ones.
    assert_eq!(s.p99_abs_us(), 89);
    for _ in 0..123 {
        record(&mut s, &[3]);
    }
    assert_eq!(s.count(), 1124);
    assert_eq!(s.max_abs_us(), 5_000);
    assert_eq!(s.p99_abs_us(), 7);
}

#[test]
fn spread_never_goes_below_zero() {
    let mut s = DirStats::default();
    record(&mut s, &[4, 4, 4]);
    assert_eq!(s.variance_us(), 0);
    assert_eq!(s.mean_us(), 4);
}

#[test]
fn sums_that_do_not_fit_are_told_apart() {
    let mut s = DirStats::default();
    let far = i64::MAX as i128 * 1_000;
    assert!(s.can_record(far));
    s.record(far, 0);
    assert!(!s.can_record(1_000));
    assert!(s.can_record(999));
    assert!(s.can_record(-far));
}

#[test]
fn statistics_are_formatted() {
    let mut s = DirStats::default();
    record(&mut s, &[10, -30, 5, 5]);
    assert_eq!(
        s.format("device 0 → device 1", 16),
        "device 0 → device 1  n=    4  mean=    -2µs  stddev=   16µs  p99=   30µs  max|Δ|=   30µs"
    );
    record(&mut s, &[123_456]);
    let line = s.format("x", 1_234_567);
    assert_eq!(
        line,
        format!(
            "{}  n={:>5}  mean={:+6}µs  stddev={:>5}µs  p99={:>5}µs  max|Δ|={:>5}µs",
            "x", 5, 24_689, 1_234_567, 123_456, 123_456
        )
    );
}

#[test]
fn directions_go_by_the_sender() {
    assert_eq!(direction_idx(0, 1), 0);
    assert_eq!(direction_idx(1, 0), 1);
}

#[test]
fn captured_pulses_pair_with_the_nearest() {
    let mut m = SkewMeter::new(50);
    assert!(!m.take(&captured(1, 5), 0));
    for t in [1_000_000_000u128, 1_010_000_000, 1_030_000_000] {
        assert!(!m.take(&sent(0, t), 0));
    }
    assert!(m.can_take(&captured(1, 1_012_000_000)));
    assert!(m.take(&captured(1, 1_012_000_000), 0));
    assert_eq!(m.stats(0).count(), 1);
    assert_eq!(m.stats(0).max_abs_us(), 2_000);
    assert_eq!(m.stats(0).mean_us(), 2_000);
    // Of two equally near ones the earlier counts.
    assert!(m.take(&captured(1, 1_020_000_000), 0));
    assert_eq!(m.stats(0).mean_us(), 6_000);
    // Too far from all.
    assert!(m.take(&captured(1, 1_080_000_001), 0));
    assert_eq!(m.stats(0).count(), 2);
    // At the edge of the window.
    assert!(m.take(&captured(1, 1_080_000_000), 0));
    assert_eq!(m.stats(0).max_abs_us(), 50_000);
    // The other direction is its own.
    assert_eq!(m.stats(1).count(), 0);
    assert!(!m.take(&captured(0, 1_000_000_000), 0));
    m.take(&sent(1, 1_000_000_000), 0);
    assert!(m.take(&captured(0, 999_999_000), 0));
    assert_eq!(m.stats(1).mean_us(), -1);
}

#[test]
fn stale_pulses_are_forgotten() {
    let mut m = SkewMeter::new(50);
    m.take(&sent(0, 1_000_000_000), 0);
    m.take(&sent(0, 1_200_000_000), 0);
    m.take(&captured(1, 1_000_000_000), 0);
    assert_eq!(m.stats(0).count(), 1);
    m.take(&sent(0, 1_200_000_001), 0);
    m.take(&captured(1, 1_000_000_000), 0);
    assert_eq!(m.stats(0).count(), 1);
}

#[test]
fn events_that_cannot_be_taken_are_told_apart() {
    let mut m = SkewMeter::new(50);
    assert!(!m.can_take(&sent(2, 0)));
    assert!(!m.can_take(&captured(2, 0)));
    assert!(m.can_take(&sent(1, u128::MAX)));
    m.take(&sent(1, 1u128 << 127), 0);
    assert!(!m.can_take(&captured(0, 1)));
    assert!(m.can_take(&captured(0, u128::MAX)));
}

#[test]
fn running_and_final_output() {
    let mut m = SkewMeter::new(50);
    assert_eq!(m.maybe_print_stats(999_999_999, 100, [0, 0]), None);
    assert_eq!(m.maybe_print_stats(1_000_000_000, 100, [0, 0]), Some(vec![]));
    assert_eq!(
        m.final_lines([0, 0]),
        vec![
            "device 0 → device 1: no matched events".to_string(),
            "device 1 → device 0: no matched events".to_string(),
        ]
    );
    m.take(&sent(0, 1_000_000), 0);
    m.take(&captured(1, 1_100_000), 0);
    assert!(!m.overshoot(100));
    assert!(m.overshoot(99));
    assert_eq!(
        m.maybe_print_stats(1_000_000_000, 100, [7, 0]),
        Some(vec![
            "OK  0→1  n=    1  mean=  +100µs  stddev=    7µs  p99=  100µs  max|Δ|=  100µs"
                .to_string()
        ])
    );
    m.take(&sent(1, 1_000_000), 0);
    m.take(&captured(0, 500_000), 0);
    assert_eq!(
        m.maybe_print_stats(2_000_000_000, 100, [7, 8]),
        Some(vec![
            "OK  0→1  n=    1  mean=  +100µs  stddev=    7µs  p99=  100µs  max|Δ|=  100µs"
                .to_string(),
            "!!  1→0  n=    1  mean=  -500µs  stddev=    8µs  p99=  500µs  max|Δ|=  500µs"
                .to_string(),
        ])
    );
    assert!(m.overshoot(100));
    assert_eq!(
        m.final_lines([7, 8])[1],
        "device 1 → device 0  n=    1  mean=  -500µs  stddev=    8µs  p99=  500µs  max|Δ|=  500µs"
    );
}

#[test]
fn two_streams_are_compared() {
    let mut m = SkewMeter::new(50);
    for i in 0..10u128 {
        let t = 1_700_000_000_000_000_000 + i * 100_000_000;
        let a = format!("pulse_tx mac=aa:bb:cc seq={} synced_ns={} target_ns={} cap_us=1", i, t, t);
        let b = format!("pulse_rx port=D5 mac=dd:ee:ff synced_ns={} cap_us=2", t + 20_000 + i);
        m.take(&parse_line(0, &a).unwrap(), 100_000);
        m.take(&parse_line(1, &b).unwrap(), 100_000);
    }
    assert_eq!(m.stats(0).count(), 10);
    assert_eq!(m.stats(0).mean_us(), 20);
    assert_eq!(m.stats(0).variance_us(), 0);
    assert!(!m.overshoot(100));
}

#[test]
fn waits_end_with_the_run() {
    assert_eq!(next_wait(0), None);
    assert_eq!(next_wait(1), Some(1));
    assert_eq!(next_wait(499_999_999), Some(499_999_999));
    assert_eq!(next_wait(500_000_000), Some(500_000_000));
    assert_eq!(next_wait(60_000_000_000), Some(500_000_000));
}
