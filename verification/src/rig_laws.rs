//! What the rig's schedule, its lines and their reading mean.

use vstd::prelude::*;

use crate::pulse_log::{EventView, Fields};

verus! {

/// A pulse is due on a multiple of 100 ms of server time, the first that is at
/// least 5 ms ahead.
pub proof fn law_pulses_are_due_on_round_times(now_ns: u128, other: int)
    requires
        other % 100_000_000 == 0,
        other >= now_ns + 5_000_000,
    ensures
        crate::rig::next_tick(now_ns as int) % 100_000_000 == 0,
        crate::rig::next_tick(now_ns as int) >= now_ns + 5_000_000,
        crate::rig::next_tick(now_ns as int) <= other,
{
}

/// Before an edge all but the last 80 µs are slept; nothing, if less than that
/// is left or the time has passed.
pub proof fn law_all_but_80_us_is_slept(target_us: u64, now_us: u64)
    ensures
        target_us >= now_us + 80 ==> now_us + crate::rig::coarse_wait(
            target_us as int,
            now_us as int,
        ) == target_us - 80,
        target_us < now_us + 80 ==> crate::rig::coarse_wait(target_us as int, now_us as int) == 0,
{
}

/// A short address is its three bytes in hexadecimal with colons between.
pub proof fn law_short_address_is_three_bytes(mac: (u8, u8, u8))
    ensures
        crate::text::split_on(crate::rig::mac_text(mac), ':') == seq![
            crate::text::hex2(mac.0),
            crate::text::hex2(mac.1),
            crate::text::hex2(mac.2),
        ],
{
    let a = crate::text::hex2(mac.0);
    let b = crate::text::hex2(mac.1);
    let c = crate::text::hex2(mac.2);
    lemma_hex_has_no_colon(mac.0);
    lemma_hex_has_no_colon(mac.1);
    lemma_hex_has_no_colon(mac.2);
    let tail = b + seq![':'] + c;
    assert(crate::rig::mac_text(mac) =~= a + seq![':'] + tail);
    crate::text_laws::law_separators_part_the_pieces(c, ':', c);
    crate::text_laws::law_separators_part_the_pieces(b, ':', c);
    crate::text_laws::law_separators_part_the_pieces(a, ':', tail);
    assert(crate::text::split_on(crate::rig::mac_text(mac), ':') =~= seq![a, b, c]);
}

proof fn lemma_hex_has_no_colon(b: u8)
    ensures
        forall|i: int| 0 <= i < crate::text::hex2(b).len() ==> crate::text::hex2(b)[i] != ':',
{
}

proof fn lemma_hex_value(b: u8)
    ensures
        crate::text::unsigned_value(crate::text::hex2(b), 16, 255) == Some(b as nat),
{
    let s = crate::text::hex2(b);
    let first = seq![s[0]];
    crate::text_laws::law_hexadecimal_is_two_figures(b);
    let hi = crate::text_laws::figure(s[0]) as nat;
    crate::text_laws::law_numbers_are_made_of_figures(first, s[0], 16, hi);
    crate::text_laws::law_one_more_figure(first, s[1], 16, 255, hi);
    assert(first.push(s[1]) =~= s);
}

/// An address is read when it has six pieces between colons, each a hexadecimal
/// number up to 255, and then as those numbers.
pub proof fn law_addresses_have_six_pieces(s: Seq<char>)
    ensures
        ({
            let pieces = crate::text::split_on(s, ':');
            let good = pieces.len() == 6 && forall|i: int|
                0 <= i < 6 ==> (#[trigger] crate::text::unsigned_value(pieces[i], 16, 255)) is Some;
            &&& crate::rig::bssid_value(s) is Some <==> good
            &&& crate::rig::bssid_value(s) matches Some(b) ==> b.len() == 6 && forall|i: int|
                0 <= i < 6 ==> crate::text::unsigned_value(#[trigger] pieces[i], 16, 255) == Some(
                    b[i] as nat,
                )
        }),
{
    let pieces = crate::text::split_on(s, ':');
    if let Some(b) = crate::rig::bssid_value(s) {
        assert forall|i: int| 0 <= i < 6 implies (#[trigger] crate::text::unsigned_value(
            pieces[i],
            16,
            255,
        )) is Some by {
            let p = pieces[i];
            assert(crate::text::unsigned_value(p, 16, 255) is Some);
        }
    }
}

/// Six bytes in hexadecimal with colons between are read as those bytes.
pub proof fn law_address_is_read_back(b: Seq<u8>)
    requires
        b.len() == 6,
    ensures
        crate::rig::bssid_value(
            crate::text::hex2(b[0]) + seq![':'] + (crate::text::hex2(b[1]) + seq![':'] + (
            crate::text::hex2(b[2]) + seq![':'] + (crate::text::hex2(b[3]) + seq![':'] + (
            crate::text::hex2(b[4]) + seq![':'] + crate::text::hex2(b[5]))))),
        ) == Some(b),
{
    let h = Seq::new(6, |i: int| crate::text::hex2(b[i]));
    let r4 = h[4] + seq![':'] + h[5];
    let r3 = h[3] + seq![':'] + r4;
    let r2 = h[2] + seq![':'] + r3;
    let r1 = h[1] + seq![':'] + r2;
    let s = h[0] + seq![':'] + r1;
    assert forall|i: int| 0 <= i < 6 implies crate::text::unsigned_value(
        #[trigger] h[i],
        16,
        255,
    ) == Some(b[i] as nat) by {
        lemma_hex_value(b[i]);
    }
    lemma_hex_has_no_colon(b[0]);
    lemma_hex_has_no_colon(b[1]);
    lemma_hex_has_no_colon(b[2]);
    lemma_hex_has_no_colon(b[3]);
    lemma_hex_has_no_colon(b[4]);
    lemma_hex_has_no_colon(b[5]);
    crate::text_laws::law_separators_part_the_pieces(h[5], ':', h[5]);
    crate::text_laws::law_separators_part_the_pieces(h[4], ':', h[5]);
    crate::text_laws::law_separators_part_the_pieces(h[3], ':', r4);
    crate::text_laws::law_separators_part_the_pieces(h[2], ':', r3);
    crate::text_laws::law_separators_part_the_pieces(h[1], ':', r2);
    crate::text_laws::law_separators_part_the_pieces(h[0], ':', r1);
    assert(crate::text::split_on(s, ':') =~= h);
    assert(crate::rig::bssid_value(s)->0 =~= b);
}

/// A line about a sent pulse is these words: what was sent, by whom, when, and
/// what the pulse aimed at.
pub proof fn law_words_about_a_sent_pulse(
    mac: (u8, u8, u8),
    seq: u32,
    synced_ns: u128,
    target_ns: u128,
    cap_us: u64,
)
    ensures
        crate::text::words(crate::rig::tx_line(mac, seq, synced_ns, target_ns, cap_us)) == seq![
            "pulse_tx"@,
            "mac="@ + crate::rig::mac_text(mac),
            "seq="@ + crate::text::dec(seq as nat),
            "synced_ns="@ + crate::text::dec(synced_ns as nat),
            "target_ns="@ + crate::text::dec(target_ns as nat),
            "cap_us="@ + crate::text::dec(cap_us as nat),
        ],
{
    let l0 = "pulse_tx"@;
    let w1 = "mac="@ + crate::rig::mac_text(mac);
    let l1 = l0 + seq![' '] + w1;
    let d2 = crate::text::dec(seq as nat);
    let l2 = l1 + " seq="@ + d2;
    let d3 = crate::text::dec(synced_ns as nat);
    let l3 = l2 + " synced_ns="@ + d3;
    let d4 = crate::text::dec(target_ns as nat);
    let l4 = l3 + " target_ns="@ + d4;
    let d5 = crate::text::dec(cap_us as nat);
    let l5 = l4 + " cap_us="@ + d5;
    lemma_rig_literals();
    crate::text_lemmas::lemma_one_word(l0);
    lemma_address_is_plain(mac);
    crate::text_laws::law_last_word(l0, "mac="@, crate::rig::mac_text(mac));
    lemma_number_is_plain(seq as nat);
    lemma_number_is_plain(synced_ns as nat);
    lemma_number_is_plain(target_ns as nat);
    lemma_number_is_plain(cap_us as nat);
    assert(l2 =~= l1 + seq![' '] + ("seq="@ + d2));
    crate::text_laws::law_last_word(l1, "seq="@, d2);
    assert(l3 =~= l2 + seq![' '] + ("synced_ns="@ + d3));
    crate::text_laws::law_last_word(l2, "synced_ns="@, d3);
    assert(l4 =~= l3 + seq![' '] + ("target_ns="@ + d4));
    crate::text_laws::law_last_word(l3, "target_ns="@, d4);
    assert(l5 =~= l4 + seq![' '] + ("cap_us="@ + d5));
    crate::text_laws::law_last_word(l4, "cap_us="@, d5);
    assert("pulse_tx mac="@ + crate::rig::mac_text(mac) =~= l1);
    assert(crate::rig::tx_line(mac, seq, synced_ns, target_ns, cap_us) == l5);
}

/// A line about a captured pulse is these words: where it was captured, by whom
/// and when, with `NONE` for a server time that is not known.
pub proof fn law_words_about_a_captured_pulse(
    port: Seq<char>,
    mac: (u8, u8, u8),
    synced_ns: Option<u128>,
    cap_us: u64,
)
    requires
        forall|i: int| 0 <= i < port.len() ==> !crate::text::is_white(#[trigger] port[i]),
    ensures
        crate::text::words(crate::rig::rx_line(port, mac, synced_ns, cap_us)) == seq![
            "pulse_rx"@,
            "port="@ + port,
            "mac="@ + crate::rig::mac_text(mac),
            "synced_ns="@ + (if synced_ns is Some {
                crate::text::dec(synced_ns->0 as nat)
            } else {
                "NONE"@
            }),
            "cap_us="@ + crate::text::dec(cap_us as nat),
        ],
{
    let l0 = "pulse_rx"@;
    let l1 = l0 + seq![' '] + ("port="@ + port);
    let d2 = crate::rig::mac_text(mac);
    let l2 = l1 + " mac="@ + d2;
    let d3 = crate::rig::synced_text(synced_ns);
    let l3 = l2 + " synced_ns="@ + d3;
    let d4 = crate::text::dec(cap_us as nat);
    let l4 = l3 + " cap_us="@ + d4;
    lemma_rig_literals();
    crate::text_lemmas::lemma_one_word(l0);
    lemma_address_is_plain(mac);
    crate::text_laws::law_last_word(l0, "port="@, port);
    if synced_ns is Some {
        lemma_number_is_plain(synced_ns->0 as nat);
    }
    lemma_number_is_plain(cap_us as nat);
    assert(l2 =~= l1 + seq![' '] + ("mac="@ + d2));
    crate::text_laws::law_last_word(l1, "mac="@, d2);
    assert(l3 =~= l2 + seq![' '] + ("synced_ns="@ + d3));
    crate::text_laws::law_last_word(l2, "synced_ns="@, d3);
    assert(l4 =~= l3 + seq![' '] + ("cap_us="@ + d4));
    crate::text_laws::law_last_word(l3, "cap_us="@, d4);
    assert("pulse_rx port="@ + port =~= l1);
    assert(crate::rig::rx_line(port, mac, synced_ns, cap_us) == l4);
}

proof fn lemma_rig_literals()
    ensures
        "pulse_tx"@.len() > 0,
        "pulse_rx"@.len() > 0,
        crate::text_lemmas::no_white("pulse_tx"@),
        crate::text_lemmas::no_white("pulse_rx"@),
        crate::text_lemmas::no_white("NONE"@),
        crate::text_lemmas::no_white("mac="@),
        crate::text_lemmas::no_white("port="@),
        crate::text_lemmas::no_white("seq="@),
        crate::text_lemmas::no_white("synced_ns="@),
        crate::text_lemmas::no_white("target_ns="@),
        crate::text_lemmas::no_white("cap_us="@),
        "mac="@.len() > 0,
        "port="@.len() > 0,
        "seq="@.len() > 0,
        "synced_ns="@.len() > 0,
        "target_ns="@.len() > 0,
        "cap_us="@.len() > 0,
        "pulse_tx mac="@ == "pulse_tx"@ + seq![' '] + "mac="@,
        "pulse_rx port="@ == "pulse_rx"@ + seq![' '] + "port="@,
        " mac="@ == seq![' '] + "mac="@,
        " seq="@ == seq![' '] + "seq="@,
        " synced_ns="@ == seq![' '] + "synced_ns="@,
        " target_ns="@ == seq![' '] + "target_ns="@,
        " cap_us="@ == seq![' '] + "cap_us="@,
{
    reveal_strlit("pulse_tx");
    reveal_strlit("pulse_rx");
    reveal_strlit("NONE");
    reveal_strlit("mac=");
    reveal_strlit("port=");
    reveal_strlit("seq=");
    reveal_strlit("synced_ns=");
    reveal_strlit("target_ns=");
    reveal_strlit("cap_us=");
    reveal_strlit("pulse_tx mac=");
    reveal_strlit("pulse_rx port=");
    reveal_strlit(" mac=");
    reveal_strlit(" seq=");
    reveal_strlit(" synced_ns=");
    reveal_strlit(" target_ns=");
    reveal_strlit(" cap_us=");
    assert("pulse_tx mac="@ =~= "pulse_tx"@ + seq![' '] + "mac="@);
    assert("pulse_rx port="@ =~= "pulse_rx"@ + seq![' '] + "port="@);
    assert(" mac="@ =~= seq![' '] + "mac="@);
    assert(" seq="@ =~= seq![' '] + "seq="@);
    assert(" synced_ns="@ =~= seq![' '] + "synced_ns="@);
    assert(" target_ns="@ =~= seq![' '] + "target_ns="@);
    assert(" cap_us="@ =~= seq![' '] + "cap_us="@);
}

/// A number is written without white space.
pub proof fn lemma_number_is_plain(n: nat)
    ensures
        crate::text_lemmas::no_white(crate::text::dec(n)),
{
    let s = crate::text::dec(n);
    crate::text_lemmas::lemma_dec_is_digits(n);
    assert forall|i: int| 0 <= i < s.len() implies !crate::text::is_white(#[trigger] s[i]) by {
        assert(crate::text_lemmas::is_digit(s[i]));
    }
}

/// A short address is written without white space.
pub proof fn lemma_address_is_plain(mac: (u8, u8, u8))
    ensures
        crate::text_lemmas::no_white(crate::rig::mac_text(mac)),
{
    let a = crate::text::hex2(mac.0);
    let b = crate::text::hex2(mac.1);
    let c = crate::text::hex2(mac.2);
    crate::text_lemmas::lemma_hex2_is_plain(mac.0);
    crate::text_lemmas::lemma_hex2_is_plain(mac.1);
    crate::text_lemmas::lemma_hex2_is_plain(mac.2);
    assert(crate::rig::mac_text(mac) =~= seq![a[0], a[1], ':', b[0], b[1], ':', c[0], c[1]]);
}

/// Fields are read word by word: a word without `=` spoils them all, and the
/// last word of a key counts. An address is kept as it is, a number or server
/// time is read or lost; of a captured pulse the number does not matter, and a
/// time of `NONE` changes nothing. Other keys do not matter.
pub proof fn law_fields_are_read_word_by_word(
    words: Seq<Seq<char>>,
    k: Seq<char>,
    v: Seq<char>,
    captured: bool,
    bad: Seq<char>,
)
    requires
        forall|i: int| 0 <= i < k.len() ==> k[i] != '=',
        forall|i: int| 0 <= i < bad.len() ==> bad[i] != '=',
    ensures
        crate::pulse_log::fields_of(Seq::empty(), captured) == Some(
            Fields { mac: None, seq: None, synced_ns: None },
        ),
        crate::pulse_log::fields_of(words.push(bad), captured) is None,
        ({
            let longer = crate::pulse_log::fields_of(words.push(k + seq!['='] + v), captured);
            match crate::pulse_log::fields_of(words, captured) {
                None => longer is None,
                Some(f) => {
                    &&& k == "mac"@ ==> longer == Some(Fields { mac: Some(v), ..f })
                    &&& k == "seq"@ && !captured ==> longer == Some(
                        Fields { seq: crate::text::unsigned_value(v, 10, 0xffff_ffff), ..f },
                    )
                    &&& k == "synced_ns"@ && !(captured && v == "NONE"@) ==> longer == Some(
                        Fields {
                            synced_ns: crate::text::unsigned_value(v, 10, u128::MAX as nat),
                            ..f
                        },
                    )
                    &&& k == "synced_ns"@ && captured && v == "NONE"@ ==> longer == Some(f)
                    &&& k == "seq"@ && captured ==> longer == Some(f)
                    &&& k != "mac"@ && k != "seq"@ && k != "synced_ns"@ ==> longer == Some(f)
                },
            }
        }),
{
    reveal_strlit("mac");
    reveal_strlit("seq");
    reveal_strlit("synced_ns");
    assert("mac"@.len() == 3 && "seq"@.len() == 3 && "synced_ns"@.len() == 9);
    assert("mac"@[0] == 'm' && "seq"@[0] == 's');
    crate::text_laws::law_first_separator_splits(bad, '=', v);
    crate::text_laws::law_first_separator_splits(k, '=', v);
    let w = k + seq!['='] + v;
    assert(words.push(w).drop_last() =~= words);
    assert(words.push(w).last() == w);
    assert(words.push(bad).drop_last() =~= words);
    assert(words.push(bad).last() == bad);
}

/// A line reports an event exactly when it begins with `pulse_tx ` or
/// `pulse_rx ` and the words behind that hold the fields that the event needs;
/// the event carries them and the board that the line came from.
pub proof fn law_events_carry_their_fields(device: nat, rest: Seq<char>)
    ensures
        crate::pulse_log::event_of(device, "pulse_tx "@ + rest) == (
        match crate::pulse_log::fields_of(crate::text::words(rest), false) {
            Some(f) => if f.mac is Some && f.seq is Some && f.synced_ns is Some {
                Some(
                    EventView::Tx {
                        device,
                        mac: f.mac->0,
                        seq: f.seq->0,
                        synced_ns: f.synced_ns->0,
                    },
                )
            } else {
                None
            },
            None => None,
        }),
        crate::pulse_log::event_of(device, "pulse_rx "@ + rest) == (
        match crate::pulse_log::fields_of(crate::text::words(rest), true) {
            Some(f) => if f.mac is Some && f.synced_ns is Some {
                Some(EventView::Rx { device, mac: f.mac->0, synced_ns: f.synced_ns->0 })
            } else {
                None
            },
            None => None,
        }),
        !"pulse_tx "@.is_prefix_of(rest) && !"pulse_rx "@.is_prefix_of(rest)
            ==> crate::pulse_log::event_of(device, rest) is None,
{
    reveal_strlit("pulse_tx ");
    reveal_strlit("pulse_rx ");
    let tx = "pulse_tx "@ + rest;
    let rx = "pulse_rx "@ + rest;
    assert(tx.skip(9) =~= rest);
    assert(rx.skip(9) =~= rest);
    assert(rx[6] == 'r' && "pulse_tx "@[6] == 't');
    assert(!"pulse_tx "@.is_prefix_of(rx));
}

/// How long the rig sleeps: 200 ms while the estimator converges, 100 ms when a
/// time is not available, 2 ms when there was nothing to report. A pulse lasts
/// a millisecond.
pub proof fn law_rig_times()
    ensures
        crate::rig::CONVERGE_PAUSE_MS == 200,
        crate::rig::RETRY_PAUSE_MS == 100,
        crate::rig::REPORT_PAUSE_MS == 2,
        crate::rig::PULSE_WIDTH_US == 1_000,
{
}

} // verus!
