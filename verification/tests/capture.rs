use clock_sync::mcpwm_cap::{
    calibration_end, can_convert_to_instant, cap_ticks_to_instant_us, cap_ticks_to_mac_tsf_us,
    ch0_hits, ch1_hits, init, init_writes, input_select_addr, input_select_value, maybe_unwrap, poll_ch0,
    poll_ch1, sw_capture_ch2_pub, sw_capture_ch2_with_clocks, unwrap_cap_raw, CaptureUnit,
    ClockReading, PWM0_CAP0,
};

/// A unit calibrated at 80 ticks per microsecond: tick 8_000 is instant 1_000.
fn calibrated() -> CaptureUnit {
    let mut unit = CaptureUnit::new();
    let first = ClockReading { cap_ticks: 8_000, instant_us: 1_000, tsf_us: Some(50_000) };
    let second =
        ClockReading { cap_ticks: 320_008_000, instant_us: 4_001_000, tsf_us: Some(4_050_000) };
    init(&mut unit, first, second);
    unit
}

#[test]
fn routing_registers() {
    assert_eq!(input_select_addr(PWM0_CAP0), 0x3FF4_4130 + 436);
    assert_eq!(input_select_value(5), 0x85);
    assert_eq!(input_select_value(34), 0xA2);
    assert_eq!(input_select_value(64 + 3), 0x83);
    assert_eq!(calibration_end(10), 4_000_010);
}

#[test]
fn calibration_measures_the_tick() {
    let unit = calibrated();
    assert_eq!(unit.us_per_tick_instant_q32, 53_687_091);
    assert_eq!(unit.us_per_tick_tsf_q32, 53_687_091);
    assert_eq!(cap_ticks_to_instant_us(&unit, 8_000), Some(1_000));
    let end = cap_ticks_to_instant_us(&unit, 320_008_000).unwrap();
    assert!(end == 4_001_000 || end == 4_000_999);
    assert_eq!(cap_ticks_to_mac_tsf_us(&unit, 8_000), Some(50_000));
    assert_eq!(cap_ticks_to_mac_tsf_us(&unit, 8_000 + 801), Some(50_010));
    // Two captures at the same count leave one microsecond per tick.
    let mut same = CaptureUnit::new();
    let r = ClockReading { cap_ticks: 9, instant_us: 5, tsf_us: None };
    init(&mut same, r, ClockReading { instant_us: 6, ..r });
    assert_eq!(same.us_per_tick_instant_q32, 1 << 32);
    assert_eq!(cap_ticks_to_instant_us(&same, 12), Some(8));
    assert_eq!(cap_ticks_to_mac_tsf_us(&same, 12), None);
}

#[test]
fn nothing_is_converted_before_calibration() {
    let unit = CaptureUnit::new();
    assert!(can_convert_to_instant(&unit, u64::MAX));
    assert_eq!(cap_ticks_to_instant_us(&unit, 5), None);
    assert_eq!(cap_ticks_to_mac_tsf_us(&unit, 5), None);
    assert_eq!(unwrap_cap_raw(&unit, 77, 1_000_000), 77);
}

#[test]
fn captures_before_the_anchor_convert_to_before_it() {
    let unit = calibrated();
    // 800 ticks are ten microseconds.
    assert_eq!(cap_ticks_to_instant_us(&unit, 7_200), Some(990));
    assert_eq!(cap_ticks_to_mac_tsf_us(&unit, 7_200), Some(49_990));
    // Part of a microsecond is rounded down.
    assert_eq!(cap_ticks_to_instant_us(&unit, 7_999), Some(999));
    assert_eq!(cap_ticks_to_mac_tsf_us(&unit, 8_001), Some(50_000));
    assert_eq!(cap_ticks_to_mac_tsf_us(&unit, 0), Some(49_900));
    // An edge that was latched before calibration and is read after it.
    assert_eq!(unwrap_cap_raw(&unit, 7_200, 1_050), 7_200);
}

#[test]
fn conversions_outside_the_range_give_nothing() {
    let mut unit = calibrated();
    // Two microseconds per tick: 501 ticks before the anchor lies before zero.
    unit.us_per_tick_instant_q32 = 1 << 33;
    assert_eq!(cap_ticks_to_instant_us(&unit, 7_500), Some(0));
    assert_eq!(cap_ticks_to_instant_us(&unit, 7_499), None);
    assert_eq!(cap_ticks_to_instant_us(&unit, u64::MAX), None);
    unit.us_per_tick_instant_q32 = u64::MAX;
    assert!(!can_convert_to_instant(&unit, u64::MAX));
    assert!(can_convert_to_instant(&unit, 7_999));
    assert!(can_convert_to_instant(&unit, 8_001));
    unit.cap_anchor_ticks = u64::MAX;
    assert!(!can_convert_to_instant(&unit, 0));
}

#[test]
fn set_up_writes_skip_missing_inputs() {
    let timer = (0x3FF5_E0E8, 1);
    let ch2 = (0x3FF5_E0F8, 0b011);
    assert_eq!(init_writes(None, None), vec![timer, ch2]);
    assert_eq!(
        init_writes(Some(5), None),
        vec![timer, (0x3FF5_E0F0, 0b101), (0x3FF4_4130 + 4 * 109, 0x85), ch2]
    );
    assert_eq!(
        init_writes(None, Some(34)),
        vec![timer, (0x3FF5_E0F4, 0b101), (0x3FF4_4130 + 4 * 110, 0xA2), ch2]
    );
    assert_eq!(
        init_writes(Some(5), Some(34)),
        vec![
            timer,
            (0x3FF5_E0F0, 0b101),
            (0x3FF5_E0F4, 0b101),
            (0x3FF4_4130 + 4 * 109, 0x85),
            (0x3FF4_4130 + 4 * 110, 0xA2),
            ch2,
        ]
    );
}

#[test]
fn software_captures_count_wraps() {
    let mut unit = CaptureUnit::new();
    assert_eq!(sw_capture_ch2_pub(&mut unit, 100), 100);
    assert_eq!(sw_capture_ch2_pub(&mut unit, 100), 100);
    assert_eq!(sw_capture_ch2_pub(&mut unit, 99), 0x1_0000_0063);
    assert_eq!(sw_capture_ch2_pub(&mut unit, 200), 0x1_0000_00c8);
    let r = sw_capture_ch2_with_clocks(&mut unit, 5, 40, Some(41));
    assert_eq!(r, ClockReading { cap_ticks: 0x2_0000_0005, instant_us: 40, tsf_us: Some(41) });
}

#[test]
fn edges_are_unwrapped_by_the_clock() {
    let unit = calibrated();
    // 200 s after the anchor the timer has wrapped three times.
    let now_us = 200_001_000u64;
    let count = 8_000 + 200_000_000u64 * 80;
    assert_eq!(count >> 32, 3);
    let raw = count as u32;
    assert_eq!(unwrap_cap_raw(&unit, raw, now_us), count);
    // An edge shortly before a wrap, read shortly after it.
    let wrap = 3u64 << 32;
    let read_at = 1_000 + (wrap + 1_600 - 8_000) / 80;
    assert_eq!(unwrap_cap_raw(&unit, u32::MAX - 10, read_at), wrap - 11);
    assert_eq!(unwrap_cap_raw(&unit, 10, read_at), wrap + 10);
    // Before the anchor's zero there is no prediction.
    assert_eq!(unwrap_cap_raw(&unit, 9, 0), 9);
}

#[test]
fn polling_reports_each_edge_once() {
    let mut unit = CaptureUnit::new();
    assert_eq!(poll_ch0(&mut unit, 0, 5), None);
    assert_eq!(poll_ch0(&mut unit, 12, 5), Some(12));
    assert_eq!(poll_ch0(&mut unit, 12, 6), None);
    assert_eq!(poll_ch1(&mut unit, 12, 6), Some(12));
    assert_eq!(poll_ch1(&mut unit, 13, 6), Some(13));
    assert_eq!((ch0_hits(&unit), ch1_hits(&unit)), (1, 2));
}

#[test]
fn raw_readings_extend_a_running_count() {
    assert_eq!(maybe_unwrap(10, 11, 0x3_0000_0000), 0x3_0000_000b);
    assert_eq!(maybe_unwrap(10, 9, 0x3_0000_0000), 0x4_0000_0009);
    assert_eq!(maybe_unwrap(10, 9, 0xffff_ffff_0000_0000), 9);
}
