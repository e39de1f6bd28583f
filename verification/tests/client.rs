use clock_sync::client::{
    ap_tsf_to_instant, full_rx_timestamp, install_step, instant_to_ap_tsf, BeaconAnchor, BssidPoll,
    InstallStep, RxAction, SnifferEvent,
};
use clock_sync::mcpwm_cap::{init, CaptureUnit, ClockReading};
use clock_sync::queue::CHANNEL_DEPTH;
use clock_sync::{install, ClockSyncClient, InstallError, SyncPacket, MAGIC};

const AP: [u8; 6] = [0x34, 0x20, 0xE3, 0x63, 0x66, 0xB3];

fn beacon(bssid: [u8; 6], ap_tsf_us: u64) -> Vec<u8> {
    let mut f = vec![0u8; 40];
    f[0] = 0x80;
    f[16..22].copy_from_slice(&bssid);
    f[24..32].copy_from_slice(&ap_tsf_us.to_le_bytes());
    f
}

fn broadcast(seq: u32, send_unix_ns: u128) -> Vec<u8> {
    let mut f = vec![0x08u8; 50];
    f.extend_from_slice(&SyncPacket { magic: MAGIC, seq, send_unix_ns }.to_bytes());
    f
}

fn locked() -> ClockSyncClient {
    let mut c = ClockSyncClient::new();
    assert_eq!(c.poll_ap_bssid(Some(AP)), BssidPoll { changed: true, wait_ms: 10_000 });
    c
}

fn drain(c: &mut ClockSyncClient) -> usize {
    let mut n = 0;
    while let Some(e) = c.receive() {
        assert!(c.can_consume(e));
        c.consume_samples(e);
        n += 1;
    }
    n
}

#[test]
fn install_reports_what_failed() {
    assert!(matches!(install(false, true, true), Err(InstallError::Promiscuous)));
    assert!(matches!(install(false, false, false), Err(InstallError::Promiscuous)));
    assert!(matches!(install(true, false, true), Err(InstallError::Spawn)));
    assert!(matches!(install(true, true, false), Err(InstallError::Spawn)));
    let c = install(true, true, true).ok().unwrap();
    assert_eq!(c.frames_seen(), 0);
}

#[test]
fn install_goes_step_by_step() {
    let run = |outcomes: &[bool]| {
        let mut step = InstallStep::EnterPromiscuous;
        let mut seen = Vec::new();
        for &ok in outcomes {
            step = install_step(step, ok);
            seen.push(step);
        }
        seen
    };
    assert_eq!(
        run(&[true, true, true, true, true]),
        vec![
            InstallStep::RegisterCallback,
            InstallStep::SpawnConsumer,
            InstallStep::SpawnPoller,
            InstallStep::Installed,
            InstallStep::Installed,
        ]
    );
    assert_eq!(
        run(&[false, true, true]),
        vec![InstallStep::Failed(InstallError::Promiscuous); 3]
    );
    assert_eq!(run(&[true, true, false])[2], InstallStep::Failed(InstallError::Spawn));
    assert_eq!(run(&[true, true, true, false])[3], InstallStep::Failed(InstallError::Spawn));
}

#[test]
fn receive_timestamp_is_completed() {
    assert_eq!(full_rx_timestamp(0x5_0000_1000, 0x0fff), 0x5_0000_0fff);
    assert_eq!(full_rx_timestamp(0x5_0000_1000, 0x1000), 0x5_0000_1000);
    assert_eq!(full_rx_timestamp(0x5_0000_1000, 0xffff_fff0), 0x4_ffff_fff0);
    assert_eq!(full_rx_timestamp(0x10, 0x11), 0xffff_ffff_0000_0011);
}

#[test]
fn association_is_followed() {
    let mut c = ClockSyncClient::new();
    assert_eq!(c.poll_ap_bssid(None), BssidPoll { changed: false, wait_ms: 500 });
    assert_eq!(c.poll_ap_bssid(Some(AP)), BssidPoll { changed: true, wait_ms: 10_000 });
    assert_eq!(c.poll_ap_bssid(Some(AP)), BssidPoll { changed: false, wait_ms: 10_000 });
    assert_eq!(c.poll_ap_bssid(None), BssidPoll { changed: false, wait_ms: 500 });
    assert_eq!(c.poll_ap_bssid(Some([1; 6])), BssidPoll { changed: true, wait_ms: 10_000 });
}

#[test]
fn only_our_beacons_are_used() {
    let mut c = ClockSyncClient::new();
    let frame = beacon(AP, 1_000_000);
    assert_eq!(c.rx_cb(&frame, 50, 70, 60), RxAction::Ignore);
    assert_eq!((c.beacons_seen(), c.beacons_used()), (1, 0));
    assert!(c.receive().is_none());
    c.poll_ap_bssid(Some(AP));
    assert_eq!(c.rx_cb(&beacon([9; 6], 5), 50, 70, 60), RxAction::Ignore);
    let anchor = BeaconAnchor { instant_us: 70, own_tsf_us: 50, ap_tsf_us: 1_000_000 };
    assert_eq!(
        c.rx_cb(&frame, 50, 70, 60),
        RxAction::Beacon { anchor, observed_offset: 999_930, announce: true }
    );
    assert_eq!((c.beacons_seen(), c.beacons_used(), c.frames_seen()), (3, 1, 3));
    assert_eq!(c.receive(), Some(SnifferEvent::Beacon(anchor)));
    assert!(c.receive().is_none());
    // A frame one byte too short is no beacon.
    let mut short = frame.clone();
    short.truncate(35);
    assert_eq!(c.rx_cb(&short, 50, 70, 60), RxAction::Ignore);
    assert_eq!(c.beacons_seen(), 3);
    short.push(0);
    assert!(matches!(c.rx_cb(&short, 50, 70, 60), RxAction::Beacon { .. }));
}

#[test]
fn first_five_beacons_are_announced() {
    let mut c = locked();
    for i in 0..7u64 {
        match c.rx_cb(&beacon(AP, i), 1, 2, 3) {
            RxAction::Beacon { announce, .. } => assert_eq!(announce, i < 5),
            _ => panic!("a beacon was expected"),
        }
    }
}

#[test]
fn conversions_go_by_the_latest_beacon() {
    let mut c = locked();
    assert_eq!(c.own_tsf_to_ap_tsf(5), None);
    c.rx_cb(&beacon(AP, 1_000), 100, 90, 120);
    assert_eq!(c.own_tsf_to_ap_tsf(150), Some(1_050));
    assert_eq!(c.own_tsf_to_ap_tsf(0), Some(900));
    c.rx_cb(&beacon(AP, 10), 100, 90, 120);
    assert_eq!(c.own_tsf_to_ap_tsf(89), None);
    assert_eq!(c.own_tsf_to_ap_tsf(90), Some(0));
}

#[test]
fn broadcasts_feed_the_wall_clock() {
    let mut c = locked();
    // Before the first beacon a broadcast is passed over.
    assert_eq!(
        c.rx_cb(&broadcast(0, 77), 10, 20, 30),
        RxAction::Udp { server_ns: 77, own_tsf_us: 10 }
    );
    assert_eq!(c.frames_matched(), 1);
    assert_eq!(drain(&mut c), 1);
    assert_eq!(c.wall_quality().n_samples, 0);
    // Our TSF is 500 µs behind the access point's, the server at
    // 1_000_000_000 ns plus a thousand per µs of the access point's TSF.
    c.rx_cb(&beacon(AP, 1_500), 1_000, 900, 1_010);
    assert_eq!(drain(&mut c), 1);
    assert_eq!(c.quality().n_samples, 1);
    for i in 0..8u32 {
        let own = 2_000 + 100_000 * i;
        let server = 1_000_000_000 + 1_000 * (own as u128 + 500);
        c.rx_cb(&broadcast(i, server), own, own as u64 - 95, own as u64 + 5);
    }
    assert_eq!(drain(&mut c), 8);
    assert_eq!(c.wall_quality().n_samples, 8);
    assert_eq!(c.wall_quality().residual_us_p95, 0);
    assert_eq!(c.synced_ns_at_own_tsf(3_000), Some(1_003_500_000));
    assert_eq!(c.own_tsf_at(1_003_500_000), Some(3_000));
    assert_eq!(c.own_tsf_at(1_003_500_999), Some(3_000));
    // An edge 10 µs before the capture unit's anchor, which is our TSF 3_010.
    let mut unit = CaptureUnit::new();
    assert_eq!(c.synced_ns_at_cap_ticks(&unit, 7_200), None);
    let first = ClockReading { cap_ticks: 8_000, instant_us: 1, tsf_us: Some(3_010) };
    init(&mut unit, first, ClockReading { cap_ticks: 88_000, instant_us: 1_001, ..first });
    assert_eq!(c.synced_ns_at_cap_ticks(&unit, 7_200), Some(1_003_500_000));
    assert_eq!(c.synced_ns_at_cap_ticks(&unit, 8_000), Some(1_003_510_000));
    assert_eq!(ClockSyncClient::new().synced_ns_at_cap_ticks(&unit, 8_000), None);
    // With an offset filter that predicts 600.
    assert_eq!(c.synced_ns_at(2_900, Some(600)), Some(1_003_500_000));
    assert_eq!(c.synced_ns_now(2_900, Some(600)), Some(1_003_500_000));
    assert_eq!(c.synced_ns_at(2_900, None), None);
    assert_eq!(c.local_us_at(1_003_500_000, |_| Some(600)), Some(2_900));
    assert_eq!(c.local_us_at(1_003_500_000, |_| None), None);
}

#[test]
fn full_queue_drops_and_counts_samples() {
    let mut c = locked();
    for i in 0..CHANNEL_DEPTH as u32 + 3 {
        c.rx_cb(&broadcast(i, i as u128), i, 0, i as u64);
    }
    assert_eq!(CHANNEL_DEPTH, 32);
    assert_eq!(c.samples_dropped(), 3);
    assert_eq!(c.frames_matched(), 35);
    // A beacon that finds the queue full is counted too, but still anchors.
    c.rx_cb(&beacon(AP, 7), 1, 2, 3);
    assert_eq!(c.samples_dropped(), 4);
    // One of another access point gives no sample.
    c.rx_cb(&beacon([9; 6], 8), 1, 2, 3);
    assert_eq!(c.samples_dropped(), 4);
    assert_eq!(c.own_tsf_to_ap_tsf(1), Some(7));
    // The oldest comes out first, and room is made.
    for i in 0..CHANNEL_DEPTH as u32 {
        assert_eq!(
            c.receive(),
            Some(SnifferEvent::Udp { server_ns: i as u128, own_tsf_us: i as u64 })
        );
    }
    assert_eq!(c.receive(), None);
    c.rx_cb(&broadcast(40, 41), 42, 43, 44);
    assert_eq!(c.receive(), Some(SnifferEvent::Udp { server_ns: 41, own_tsf_us: 42 }));
    assert_eq!(c.samples_dropped(), 4);
}

#[test]
fn instant_difference_is_smoothed() {
    let mut c = ClockSyncClient::new();
    assert_eq!(c.instant_us_to_tsf_us(1_000), None);
    c.rx_cb(&[], 0, 500, 100);
    assert_eq!(c.instant_us_to_tsf_us(1_000), Some(600));
    // The difference moves by a 64th of the change, rounded towards zero.
    c.rx_cb(&[], 0, 500 + 640, 100);
    assert_eq!(c.instant_us_to_tsf_us(1_000), Some(590));
    c.rx_cb(&[], 0, 510 + 63, 100);
    assert_eq!(c.instant_us_to_tsf_us(1_000), Some(590));
    assert_eq!(c.instant_us_to_tsf_us(409), None);
    assert_eq!(c.instant_us_to_tsf_us(410), Some(0));
}

#[test]
fn differences_that_do_not_fit_are_told_apart() {
    let mut c = ClockSyncClient::new();
    assert!(c.can_receive(0, 1 << 62));
    c.rx_cb(&[], 0, 0, (1 << 62) + 1);
    assert!(c.can_receive(5, 3));
    assert!(!c.can_receive(1 << 62, 0));
}

#[test]
fn implausible_events_are_told_apart() {
    let mut c = locked();
    c.rx_cb(&beacon(AP, 1), 1, 1, 1);
    drain(&mut c);
    assert!(!c.can_consume(SnifferEvent::Udp { server_ns: 1u128 << 127, own_tsf_us: 5 }));
    assert!(c.can_consume(SnifferEvent::Udp { server_ns: 1u128 << 100, own_tsf_us: 5 }));
}

#[test]
fn instants_and_the_filter() {
    assert_eq!(instant_to_ap_tsf(10, Some(-11)), None);
    assert_eq!(instant_to_ap_tsf(10, Some(-10)), Some(0));
    assert_eq!(instant_to_ap_tsf(u64::MAX, Some(1)), None);
    assert_eq!(instant_to_ap_tsf(u64::MAX, Some(0)), Some(u64::MAX));
    assert_eq!(instant_to_ap_tsf(1, None), None);
    // The second question is put at the answer to the first.
    let drifting = |t: i64| Some(1_000 + t / 100);
    // First offset 1_000 + 500 at 50_000, second 1_000 + 485 at 48_500.
    assert_eq!(ap_tsf_to_instant(50_000, drifting), Some(48_515));
    assert_eq!(ap_tsf_to_instant(10, |_| Some(11)), None);
    assert_eq!(ap_tsf_to_instant(10, |t| if t == 10 { Some(4) } else { None }), None);
}
