use clock_sync::arith::isqrt_u128;
use clock_sync::{Estimator, Quality, Sample, MIN_SAMPLES, WINDOW};

#[test]
fn estimator_recovers_zero_drift() {
    // Server clock ticks 1000 ns per local µs (perfect match), with a
    // constant offset of 1_000_000 ns.
    let mut est = Estimator::new();
    for i in 0..16u64 {
        est.observe(Sample {
            server_ns: 1_000_000 + (i * 100_000) as u128 * 1_000,
            local_us: i * 100_000,
        });
    }
    let q = est.quality();
    assert!(q.n_samples >= MIN_SAMPLES as u16);
    assert!(q.drift_ppb.abs() < 1000, "drift_ppb = {}", q.drift_ppb);
    // Predict at a known local time.
    let predicted = est.synced_ns_at(500_000).unwrap();
    assert!((predicted as i128 - (1_000_000 + 500_000_000) as i128).abs() < 10_000);
}

#[test]
fn estimator_recovers_positive_drift() {
    // Server clock runs 100ppm faster than local (drift_ppb = +100_000).
    let mut est = Estimator::new();
    for i in 0..16u64 {
        let local_us = i * 100_000;
        // server_ns = local_us * (1000 + 100_000/1_000_000) ns/µs
        //           = local_us * 1000.1 ns
        let server_ns = (local_us as u128) * 1_000 + (local_us as u128) / 10;
        est.observe(Sample {
            server_ns,
            local_us,
        });
    }
    let q = est.quality();
    assert!(
        (q.drift_ppb - 100_000).abs() < 5_000,
        "drift_ppb = {}",
        q.drift_ppb
    );
}

#[test]
fn estimator_inverse_is_consistent() {
    let mut est = Estimator::new();
    for i in 0..8u64 {
        let local_us = i * 100_000;
        let server_ns = (local_us as u128) * 1_000 + 5_000_000;
        est.observe(Sample {
            server_ns,
            local_us,
        });
    }
    let target_server_ns = 250_000_000u128 + 5_000_000;
    let local_us = est.local_us_at(target_server_ns).unwrap();
    let predicted = est.synced_ns_at(local_us).unwrap();
    let err = (predicted as i128 - target_server_ns as i128).abs();
    assert!(err < 1_000, "round-trip error {} ns", err);
}

fn fed(samples: &[(u128, u64)]) -> Estimator {
    let mut est = Estimator::default();
    for &(server_ns, local_us) in samples {
        let s = Sample { server_ns, local_us };
        assert!(est.can_observe(s));
        est.observe(s);
    }
    est
}

#[test]
fn too_few_samples_give_no_answer() {
    let mut samples = Vec::new();
    for i in 0..7u64 {
        samples.push((i as u128 * 1_000_000, i * 1_000));
    }
    let est = fed(&samples);
    assert_eq!(est.synced_ns_at(0), None);
    assert_eq!(est.local_us_at(0), None);
    assert_eq!(
        est.quality(),
        Quality { n_samples: 7, residual_us_p95: u32::MAX, drift_ppb: 0, last_update_us: 6_000 }
    );
    assert_eq!(
        Estimator::new().quality(),
        Quality { n_samples: 0, residual_us_p95: u32::MAX, drift_ppb: 0, last_update_us: 0 }
    );
    assert_eq!(
        Quality::default(),
        Quality { n_samples: 0, residual_us_p95: 0, drift_ppb: 0, last_update_us: 0 }
    );
}

#[test]
fn offset_is_the_rounded_mean() {
    // Offsets 0, 1, ..., 7: their mean is 3 after rounding towards zero.
    let mut samples = Vec::new();
    for i in 0..8u64 {
        samples.push((1_000 * i as u128 + i as u128, i));
    }
    let est = fed(&samples);
    assert_eq!(est.synced_ns_at(0), Some(3));
    assert_eq!(est.synced_ns_at(10), Some(10_003));
    assert_eq!(est.local_us_at(3), Some(0));
    assert_eq!(est.local_us_at(2), None);
    assert_eq!(est.local_us_at(1_002), Some(0));
    assert_eq!(est.local_us_at(1_003), Some(1));
}

#[test]
fn negative_server_times_are_not_given() {
    // Offset of -5_000 ns.
    let mut samples = Vec::new();
    for i in 5..13u64 {
        samples.push((1_000 * i as u128 - 5_000, i));
    }
    let est = fed(&samples);
    assert_eq!(est.synced_ns_at(4), None);
    assert_eq!(est.synced_ns_at(5), Some(0));
    assert_eq!(est.local_us_at(0), Some(5));
}

#[test]
fn window_slides_over_the_oldest() {
    // One sample far off, then a full window of good ones.
    let mut samples = vec![(9_000_000_000u128, 0u64)];
    for i in 0..WINDOW as u64 {
        samples.push((1_000 * i as u128 + 70, i));
    }
    let est = fed(&samples);
    assert_eq!(est.quality().n_samples, 256);
    assert_eq!(est.synced_ns_at(0), Some(70));
    assert_eq!(est.quality().residual_us_p95, 0);
    assert_eq!(est.quality().last_update_us, 255);
}

#[test]
fn spread_is_twice_the_deviation() {
    // Offsets alternate by ±3 µs round 100 µs: deviation 3, spread 6.
    let mut samples = Vec::new();
    for i in 0..8u64 {
        let offset: u128 = if i % 2 == 0 { 97_000 } else { 103_000 };
        samples.push((1_000 * i as u128 + offset, i));
    }
    let q = fed(&samples).quality();
    assert_eq!(q.residual_us_p95, 6);
    assert_eq!(q.drift_ppb, 0);
}

#[test]
fn drift_needs_more_than_a_second_and_is_limited() {
    let line = |span_us: u64, extra_ns: u128| {
        let mut samples = Vec::new();
        for i in 0..8u64 {
            let local = i * span_us / 7;
            samples.push((1_000 * local as u128 + extra_ns * i as u128 / 7, local));
        }
        fed(&samples).quality().drift_ppb
    };
    assert_eq!(line(1_000_000, 1_000_000), 0);
    assert_eq!(line(7_000_000, 700_000), 100_000);
    assert_eq!(line(7_000_000, 7_000_000_000), 1_000_000);
}

#[test]
fn clients_with_shifted_clocks_agree() {
    let shift = 123_456_789u64;
    let mut a = Vec::new();
    let mut b = Vec::new();
    for i in 0..40u64 {
        let server = 1_700_000_000_000_000_000u128 + i as u128 * 100_000_000;
        let local = 5_000 + i * 100_000 + (i * 7919) % 83;
        a.push((server, local));
        b.push((server, local + shift));
    }
    let (ea, eb) = (fed(&a), fed(&b));
    let (ta, tb) = (ea.synced_ns_at(9_999).unwrap(), eb.synced_ns_at(9_999 + shift).unwrap());
    assert!(ta.abs_diff(tb) <= 1);
    assert!(ea.synced_ns_at(10_000).unwrap() - ta == 1_000);
    assert_eq!(ea.local_us_at(ta), Some(9_999));
}

#[test]
fn implausible_samples_are_refused_only_where_they_must_be() {
    let mut est = Estimator::new();
    // The offset of this one does not fit 128 bits.
    assert!(!est.can_observe(Sample { server_ns: 1u128 << 127, local_us: 1 }));
    // This one fits.
    let far = Sample { server_ns: (1u128 << 127) - 1, local_us: 0 };
    assert!(est.can_observe(far));
    est.observe(far);
    // Two of them do not add up.
    assert!(!est.can_observe(far));
}

#[test]
fn integer_square_roots() {
    for n in 0u128..10_000 {
        let r = isqrt_u128(n);
        assert!(r * r <= n && n < (r + 1) * (r + 1));
    }
    assert_eq!(isqrt_u128(u128::MAX - 1), (1u128 << 64) - 1);
    assert_eq!(isqrt_u128((1u128 << 100) - 1), (1u128 << 50) - 1);
    assert_eq!(isqrt_u128(1u128 << 100), 1u128 << 50);
}

fn jittered(i: u64) -> (u128, u64) {
    let local = 1_000 + i * 10_000 + (i * 7919) % 97;
    (5_000_000 + 1_000 * local as u128 + ((i * 31) % 11) as u128 * 1_000, local)
}

#[test]
fn order_of_samples_does_not_matter() {
    let forward: Vec<(u128, u64)> = (0..200).map(jittered).collect();
    let mut backward = forward.clone();
    backward.reverse();
    let (a, b) = (fed(&forward), fed(&backward));
    assert_eq!(a.synced_ns_at(123_456), b.synced_ns_at(123_456));
    assert_eq!(a.local_us_at(77_000_000), b.local_us_at(77_000_000));
    let (qa, qb) = (a.quality(), b.quality());
    assert_eq!(qa.residual_us_p95, qb.residual_us_p95);
    assert_eq!(qa.drift_ppb, qb.drift_ppb);
}

#[test]
fn old_samples_leave_no_trace() {
    let recent: Vec<(u128, u64)> = (0..WINDOW as u64).map(jittered).collect();
    let mut after_noise: Vec<(u128, u64)> = (0..77u64).map(|i| (i as u128 * 999_999, i)).collect();
    after_noise.extend(&recent);
    let (a, b) = (fed(&recent), fed(&after_noise));
    assert_eq!(a.synced_ns_at(5), b.synced_ns_at(5));
    assert_eq!(a.local_us_at(99_000_000), b.local_us_at(99_000_000));
    assert_eq!(a.quality(), b.quality());
}
