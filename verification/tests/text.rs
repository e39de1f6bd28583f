use clock_sync::text::{
    chars_of, parse_unsigned, position_of, push_dec, push_dec_padded, push_dec_signed, push_hex2,
    push_signed_padded, split_ranges, starts_with, string_of, text_is, white, word_end,
};

#[test]
fn white_space_is_that_of_unicode() {
    for u in 0..=0x10_ffffu32 {
        if let Some(c) = char::from_u32(u) {
            assert_eq!(white(c), c.is_whitespace(), "{:#x}", u);
        }
    }
}

#[test]
fn numbers_are_written_like_those_of_std() {
    let samples = [0u128, 1, 9, 10, 99, 100, 12_345, u64::MAX as u128, u128::MAX - 1, u128::MAX];
    for &n in &samples {
        let mut out = String::from("x");
        push_dec(&mut out, n);
        assert_eq!(out, format!("x{}", n));
        let mut padded = String::new();
        push_dec_padded(&mut padded, n, 5);
        assert_eq!(padded, format!("{:>5}", n));
    }
    for &n in &[0i64, 1, -1, 42, -99_999, 123_456, i64::MAX, i64::MIN] {
        let mut out = String::new();
        push_dec_signed(&mut out, n);
        assert_eq!(out, format!("{}", n));
        let mut padded = String::new();
        push_signed_padded(&mut padded, n, 6);
        assert_eq!(padded, format!("{:+6}", n));
    }
    for b in 0..=255u8 {
        let mut out = String::new();
        push_hex2(&mut out, b);
        assert_eq!(out, format!("{:02x}", b));
    }
}

#[test]
fn numbers_are_read_like_those_of_std() {
    let samples = [
        "", "+", "0", "00", "+0", "-0", "++1", "7", "+42", "007", "4294967295", "4294967296",
        "99999999999999999999999999999999999999999", "1 ", " 1", "1_0", "0x1", "a", "\u{661}",
        "340282366920938463463374607431768211455", "340282366920938463463374607431768211456",
    ];
    for s in samples {
        let c = chars_of(s);
        assert_eq!(parse_unsigned(&c, 10, u128::MAX), s.parse::<u128>().ok(), "{:?}", s);
        assert_eq!(
            parse_unsigned(&c, 10, u32::MAX as u128),
            s.parse::<u32>().ok().map(|n| n as u128),
            "{:?}",
            s
        );
    }
    for s in ["", "0", "ff", "FF", "+fF", "100", "g", "-1", "+", "000ff"] {
        let c = chars_of(s);
        assert_eq!(
            parse_unsigned(&c, 16, 255),
            u8::from_str_radix(s, 16).ok().map(|n| n as u128),
            "{:?}",
            s
        );
    }
}

#[test]
fn texts_are_taken_apart() {
    let c = chars_of("déjà vu=x=y");
    assert_eq!(string_of(&c), "déjà vu=x=y");
    assert_eq!(word_end(&c), 4);
    assert_eq!(position_of(&c, '='), 7);
    assert_eq!(position_of(&c, '#'), 11);
    assert_eq!(split_ranges(&c, '='), vec![(0, 7), (8, 9), (10, 11)]);
    assert_eq!(split_ranges(&[], '='), vec![(0, 0)]);
    assert!(starts_with(&c, "déjà"));
    assert!(!starts_with(&c, "deja"));
    assert!(starts_with(&c, ""));
    assert!(!starts_with(&c[..2], "déjà"));
    assert!(text_is(&c[5..7], "vu"));
    assert!(!text_is(&c[5..7], "v"));
}
