use clock_sync::server::{Pacer, Schedule};
use clock_sync::{SyncPacket, DEFAULT_BROADCAST_ADDR, DEFAULT_PORT, MAGIC};

#[test]
fn roundtrip() {
    let p = SyncPacket {
        magic: MAGIC,
        seq: 0xDEAD_BEEF,
        send_unix_ns: 1_700_000_000_123_456_789u128,
    };
    let bytes = p.to_bytes();
    let p2 = SyncPacket::parse(&bytes).unwrap();
    let (seq2, ns2) = (p2.seq, p2.send_unix_ns);
    let (seq1, ns1) = (p.seq, p.send_unix_ns);
    assert_eq!(seq2, seq1);
    assert_eq!(ns2, ns1);
}

#[test]
fn find_in_frame_with_headers() {
    let p = SyncPacket {
        magic: MAGIC,
        seq: 7,
        send_unix_ns: 42,
    };
    let mut frame = vec![0u8; 60]; // simulated 802.11/IP/UDP headers
    frame.extend_from_slice(&p.to_bytes());
    let parsed = SyncPacket::find_in_frame(&frame).unwrap();
    let (seq, ns) = (parsed.seq, parsed.send_unix_ns);
    assert_eq!(seq, 7);
    assert_eq!(ns, 42);
}

#[test]
fn find_in_frame_returns_none_when_absent() {
    let frame = [0u8; 100];
    assert!(SyncPacket::find_in_frame(&frame).is_none());
}

#[test]
fn wire_form_is_little_endian() {
    let p = SyncPacket {
        magic: MAGIC,
        seq: 0x0403_0201,
        send_unix_ns: 0x1817_1615_1413_1211_100f_0e0d_0c0b_0a09,
    };
    let mut expected: Vec<u8> = b"CSY1".to_vec();
    expected.extend(1u8..=4);
    expected.extend(9u8..=24);
    assert_eq!(p.to_bytes().to_vec(), expected);
    assert_eq!(p.to_bytes().len(), SyncPacket::SIZE);
}

#[test]
fn parse_wants_the_mark_and_the_length() {
    let p = SyncPacket { magic: MAGIC, seq: 1, send_unix_ns: 2 };
    let bytes = p.to_bytes();
    assert!(SyncPacket::parse(&bytes[..23]).is_none());
    assert!(SyncPacket::parse(&[]).is_none());
    let mut wrong = bytes;
    wrong[3] = b'2';
    assert!(SyncPacket::parse(&wrong).is_none());
    let mut longer = bytes.to_vec();
    longer.push(99);
    assert_eq!(SyncPacket::parse(&longer), Some(p));
    assert_eq!(SyncPacket::parse(&bytes).unwrap().to_bytes(), bytes);
}

#[test]
fn first_whole_packet_in_a_frame_counts() {
    let a = SyncPacket { magic: MAGIC, seq: 1, send_unix_ns: 10 };
    let b = SyncPacket { magic: MAGIC, seq: 2, send_unix_ns: 20 };
    let mut frame = b"..CSY".to_vec();
    frame.extend_from_slice(&a.to_bytes());
    frame.extend_from_slice(&b.to_bytes());
    assert_eq!(SyncPacket::find_in_frame(&frame), Some(a));
    // The mark alone, with too few bytes behind it, is no packet.
    let mut short = vec![0u8; 30];
    short.extend_from_slice(&MAGIC);
    short.extend_from_slice(&[0u8; 19]);
    assert!(SyncPacket::find_in_frame(&short).is_none());
    short.push(0);
    assert_eq!(
        SyncPacket::find_in_frame(&short),
        Some(SyncPacket { magic: MAGIC, seq: 0, send_unix_ns: 0 })
    );
    assert!(SyncPacket::find_in_frame(&MAGIC).is_none());
}

#[test]
fn defaults_are_limited_broadcast() {
    assert_eq!(DEFAULT_PORT, 51234);
    assert_eq!(DEFAULT_BROADCAST_ADDR, [255, 255, 255, 255]);
    assert_eq!(&MAGIC, b"CSY1");
}

#[test]
fn schedule_steps_by_the_interval() {
    let mut s = Schedule::new(1_000, 100);
    let mut times = Vec::new();
    for i in 0..4u32 {
        assert!(s.can_send());
        let p = s.next_packet();
        assert_eq!(p.magic, MAGIC);
        assert_eq!(p.seq, i);
        times.push(p.send_unix_ns);
    }
    assert_eq!(times, vec![1_000, 100_001_000, 200_001_000, 300_001_000]);
}

#[test]
fn schedule_wraps_and_knows_its_limit() {
    let mut s = Schedule { t0_ns: 5, interval_ns: 10, seq: u32::MAX };
    let p = s.next_packet();
    assert_eq!(p.send_unix_ns, 5 + 10 * (u32::MAX as u128));
    assert_eq!(s.seq, 0);
    assert_eq!(s.next_packet().send_unix_ns, 5);
    assert!(!Schedule { t0_ns: u128::MAX, interval_ns: 1, seq: 1 }.can_send());
    assert!(!Schedule { t0_ns: 0, interval_ns: u128::MAX, seq: 2 }.can_send());
    assert!(Schedule { t0_ns: u128::MAX, interval_ns: 1, seq: 0 }.can_send());
}

#[test]
fn clients_see_the_scheduled_time() {
    let mut s = Schedule::new(1_700_000_000_000_000_000, 100);
    s.seq = 12;
    let p = s.next_packet();
    let mut frame = vec![0xAAu8; 42];
    frame.extend_from_slice(&p.to_bytes());
    frame.extend_from_slice(&[1, 2, 3, 4]);
    let seen = SyncPacket::find_in_frame(&frame).unwrap();
    assert_eq!(seen.send_unix_ns, 1_700_000_000_000_000_000 + 12 * 100_000_000);
}

#[test]
fn pacing_makes_up_for_lateness() {
    let mut p = Pacer::new(100);
    assert_eq!(p.pace(3), 0);
    assert_eq!(p.pace(1_000), 99_999_000);
    // Sent 50 ms late: the next one is still due on the round time.
    assert_eq!(p.pace(250_000_000), 0);
    assert_eq!(p.pace(250_000_001), 49_999_999);
    assert_eq!(p.pace(400_000_000), 0);
    assert_eq!(p, Pacer { due_ns: 500_000_000, interval_ns: 100_000_000 });
    assert!(p.can_pace());
    assert!(!Pacer { due_ns: u128::MAX, interval_ns: 1 }.can_pace());
}
