use clock_sync::firmware::{
    connection, heartbeat_line, pause_ms, rig_stats_line, sync_only_line, ConsoleAction, Counters,
    LineReader, LinkStep, HEARTBEAT_PORT,
};
use clock_sync::Quality;

fn typed(bytes: &[u8]) -> String {
    let mut r = LineReader::new();
    for &b in bytes {
        r.read_line(b);
    }
    r.into_line()
}

#[test]
fn lines_are_typed_and_corrected() {
    assert_eq!(typed(b"my ssid\r"), "my ssid");
    assert_eq!(typed(b"pasx\x08s"), "pass");
    assert_eq!(typed(b"ab\x7f\x7f\x7fc"), "c");
    assert_eq!(typed(b""), "");
    assert_eq!(typed(&[0xe9, 0x41]), "\u{e9}A");
    assert_eq!(typed(&[0xe9, 0x08]), "");
}

#[test]
fn console_echoes_what_it_can() {
    let mut r = LineReader::new();
    assert_eq!(r.read_line(b'a'), ConsoleAction::Echo('a'));
    assert_eq!(r.read_line(b'\r'), ConsoleAction::Quiet);
    assert_eq!(r.read_line(0x7f), ConsoleAction::Quiet);
    assert_eq!(r.read_line(0x80), ConsoleAction::Quiet);
    assert_eq!(r.read_line(0x00), ConsoleAction::Echo('\0'));
    assert_eq!(r.read_line(b'\n'), ConsoleAction::Done);
    assert_eq!(r.into_line(), "\u{80}\0");
}

#[test]
fn link_is_kept_up() {
    let run = |answers: &[bool]| {
        let mut step = LinkStep::AskConnected;
        let mut seen = Vec::new();
        for &a in answers {
            step = connection(step, a);
            seen.push(step);
        }
        seen
    };
    assert_eq!(
        run(&[false, false, true, true]),
        vec![LinkStep::AskStarted, LinkStep::Start, LinkStep::Connect, LinkStep::AskConnected]
    );
    assert_eq!(
        run(&[true, true, true, true, false, true]),
        vec![
            LinkStep::AwaitDisconnect,
            LinkStep::PauseAfterLoss,
            LinkStep::AskStarted,
            LinkStep::Connect,
            LinkStep::PauseAfterFailure,
            LinkStep::AskConnected,
        ]
    );
    assert_eq!(pause_ms(LinkStep::PauseAfterLoss), Some(2_000));
    assert_eq!(pause_ms(LinkStep::PauseAfterFailure), Some(3_000));
    assert_eq!(pause_ms(LinkStep::Connect), None);
}

#[test]
fn lines_of_the_firmware() {
    let q = Quality { n_samples: 12, residual_us_p95: 34, drift_ppb: -56, last_update_us: 9 };
    let c = Counters { seen: 78, matched: 90, dropped: 1 };
    assert_eq!(
        heartbeat_line((0xab, 0x0c, 0xd0), Some(123), q, c),
        "hb mac=ab:0c:d0 synced_ns=123 samples=12 drift_ppb=-56 p95_us=34 dropped=1\n"
    );
    assert_eq!(
        heartbeat_line((0xab, 0x0c, 0xd0), None, q, c),
        "hb mac=ab:0c:d0 synced=NONE samples=12 seen=78 matched=90\n"
    );
    assert_eq!(
        sync_only_line(q, c),
        "no server IP — sync-only: samples=12 drift_ppb=-56 p95_us=34 seen=78 matched=90"
    );
    assert_eq!(
        rig_stats_line(q, c),
        "stats: samples=12 drift_ppb=-56 p95_us=34 seen=78 matched=90 dropped=1"
    );
    assert_eq!(HEARTBEAT_PORT, 51235);
}
