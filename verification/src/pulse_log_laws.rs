//! The host reads what the boards print.

use vstd::prelude::*;

use crate::pulse_log::{EventView, Fields};

verus! {

/// A field as it is printed.
spec fn field(key: Seq<char>, value: Seq<char>) -> Seq<char> {
    key + seq!['='] + value
}

proof fn lemma_field(key: Seq<char>, value: Seq<char>)
    requires
        crate::text_lemmas::no_white(key),
        crate::text_lemmas::no_white(value),
        forall|i: int| 0 <= i < key.len() ==> key[i] != '=',
    ensures
        field(key, value).len() > 0,
        crate::text_lemmas::no_white(field(key, value)),
        crate::text::split_once(field(key, value), '=') == Some((key, value)),
{
    let w = field(key, value);
    crate::text_lemmas::lemma_key_value(key, '=', value);
    assert forall|i: int| 0 <= i < w.len() implies !crate::text::is_white(#[trigger] w[i]) by {
        if i < key.len() {
            assert(w[i] == key[i]);
        } else if i > key.len() {
            assert(w[i] == value[i - key.len() - 1]);
        }
    }
}

proof fn lemma_number(n: nat)
    ensures
        crate::text_lemmas::no_white(crate::text::dec(n)),
        crate::text::dec(n) != "NONE"@,
{
    reveal_strlit("NONE");
    let s = crate::text::dec(n);
    crate::text_lemmas::lemma_dec_is_digits(n);
    assert forall|i: int| 0 <= i < s.len() implies !crate::text::is_white(#[trigger] s[i]) by {
        assert(crate::text_lemmas::is_digit(s[i]));
    }
    assert(crate::text_lemmas::is_digit(s[0]));
    assert("NONE"@[0] == 'N');
}

proof fn lemma_mac_text(mac: (u8, u8, u8))
    ensures
        crate::text_lemmas::no_white(crate::rig::mac_text(mac)),
{
    crate::text_lemmas::lemma_hex2_is_plain(mac.0);
    crate::text_lemmas::lemma_hex2_is_plain(mac.1);
    crate::text_lemmas::lemma_hex2_is_plain(mac.2);
    let a = crate::text::hex2(mac.0);
    let b = crate::text::hex2(mac.1);
    let c = crate::text::hex2(mac.2);
    let s = crate::rig::mac_text(mac);
    assert(s =~= seq![a[0], a[1], ':', b[0], b[1], ':', c[0], c[1]]);
}

proof fn lemma_keys()
    ensures
        "mac"@ == seq!['m', 'a', 'c'],
        "seq"@ == seq!['s', 'e', 'q'],
        "synced_ns"@ == seq!['s', 'y', 'n', 'c', 'e', 'd', '_', 'n', 's'],
        "target_ns"@ == seq!['t', 'a', 'r', 'g', 'e', 't', '_', 'n', 's'],
        "cap_us"@ == seq!['c', 'a', 'p', '_', 'u', 's'],
        "port"@ == seq!['p', 'o', 'r', 't'],
{
    reveal_strlit("mac");
    reveal_strlit("seq");
    reveal_strlit("synced_ns");
    reveal_strlit("target_ns");
    reveal_strlit("cap_us");
    reveal_strlit("port");
    assert("mac"@ =~= seq!['m', 'a', 'c']);
    assert("seq"@ =~= seq!['s', 'e', 'q']);
    assert("synced_ns"@ =~= seq!['s', 'y', 'n', 'c', 'e', 'd', '_', 'n', 's']);
    assert("target_ns"@ =~= seq!['t', 'a', 'r', 'g', 'e', 't', '_', 'n', 's']);
    assert("cap_us"@ =~= seq!['c', 'a', 'p', '_', 'u', 's']);
    assert("port"@ =~= seq!['p', 'o', 'r', 't']);
}

/// A separator with a key in it, then a value: a space and a field.
proof fn lemma_append_field(front: Seq<char>, literal: Seq<char>, key: Seq<char>, value: Seq<char>)
    requires
        literal == seq![' '] + key + seq!['='],
    ensures
        front + literal + value == front + seq![' '] + field(key, value),
{
    assert(front + literal + value =~= front + seq![' '] + field(key, value));
}

/// A field moved from the front to the rest of a line.
proof fn lemma_regroup(front: Seq<char>, word: Seq<char>, rest: Seq<char>)
    ensures
        front + word + seq![' '] + rest == front + (word + seq![' '] + rest),
{
    assert(front + word + seq![' '] + rest =~= front + (word + seq![' '] + rest));
}

/// What a line that announces a sent pulse is made of.
proof fn lemma_tx_line_words(
    mac: (u8, u8, u8),
    seq: u32,
    synced_ns: u128,
    target_ns: u128,
    cap_us: u64,
)
    ensures
        "pulse_tx "@.is_prefix_of(crate::rig::tx_line(mac, seq, synced_ns, target_ns, cap_us)),
        crate::rig::tx_line(mac, seq, synced_ns, target_ns, cap_us).skip("pulse_tx "@.len() as int)
            == field("mac"@, crate::rig::mac_text(mac)) + seq![' '] + (field(
            "seq"@,
            crate::text::dec(seq as nat),
        ) + seq![' '] + (field("synced_ns"@, crate::text::dec(synced_ns as nat)) + seq![' '] + (field(
            "target_ns"@,
            crate::text::dec(target_ns as nat),
        ) + seq![' '] + field("cap_us"@, crate::text::dec(cap_us as nat))))),
{
    let head = "pulse_tx "@;
    let sp = seq![' '];
    let w1 = field("mac"@, crate::rig::mac_text(mac));
    let w2 = field("seq"@, crate::text::dec(seq as nat));
    let w3 = field("synced_ns"@, crate::text::dec(synced_ns as nat));
    let w4 = field("target_ns"@, crate::text::dec(target_ns as nat));
    let w5 = field("cap_us"@, crate::text::dec(cap_us as nat));
    let l1 = "pulse_tx mac="@ + crate::rig::mac_text(mac);
    let l2 = l1 + " seq="@ + crate::text::dec(seq as nat);
    let l3 = l2 + " synced_ns="@ + crate::text::dec(synced_ns as nat);
    let l4 = l3 + " target_ns="@ + crate::text::dec(target_ns as nat);
    let line = l4 + " cap_us="@ + crate::text::dec(cap_us as nat);
    assert(line == crate::rig::tx_line(mac, seq, synced_ns, target_ns, cap_us));
    lemma_separators();
    assert(l1 =~= head + w1);
    lemma_append_field(l1, " seq="@, "seq"@, crate::text::dec(seq as nat));
    lemma_append_field(l2, " synced_ns="@, "synced_ns"@, crate::text::dec(synced_ns as nat));
    lemma_append_field(l3, " target_ns="@, "target_ns"@, crate::text::dec(target_ns as nat));
    lemma_append_field(l4, " cap_us="@, "cap_us"@, crate::text::dec(cap_us as nat));
    let r4 = w4 + sp + w5;
    let r3 = w3 + sp + r4;
    let r2 = w2 + sp + r3;
    let rest = w1 + sp + r2;
    lemma_regroup(l3 + sp, w4, w5);
    lemma_regroup(l2 + sp, w3, r4);
    lemma_regroup(l1 + sp, w2, r3);
    lemma_regroup(head, w1, r2);
    assert(line == head + rest);
    assert((head + rest).skip(head.len() as int) =~= rest);
    assert(head.is_prefix_of(head + rest));
}

proof fn lemma_separators()
    ensures
        "pulse_tx mac="@ == "pulse_tx "@ + "mac"@ + seq!['='],
        "pulse_rx port="@ == "pulse_rx "@ + "port"@ + seq!['='],
        " mac="@ == seq![' '] + "mac"@ + seq!['='],
        " seq="@ == seq![' '] + "seq"@ + seq!['='],
        " synced_ns="@ == seq![' '] + "synced_ns"@ + seq!['='],
        " target_ns="@ == seq![' '] + "target_ns"@ + seq!['='],
        " cap_us="@ == seq![' '] + "cap_us"@ + seq!['='],
{
    lemma_keys();
    reveal_strlit("pulse_tx ");
    reveal_strlit("pulse_rx ");
    reveal_strlit("pulse_tx mac=");
    reveal_strlit("pulse_rx port=");
    reveal_strlit(" mac=");
    reveal_strlit(" seq=");
    reveal_strlit(" synced_ns=");
    reveal_strlit(" target_ns=");
    reveal_strlit(" cap_us=");
    assert("pulse_tx mac="@ =~= "pulse_tx "@ + "mac"@ + seq!['=']);
    assert("pulse_rx port="@ =~= "pulse_rx "@ + "port"@ + seq!['=']);
    assert(" mac="@ =~= seq![' '] + "mac"@ + seq!['=']);
    assert(" seq="@ =~= seq![' '] + "seq"@ + seq!['=']);
    assert(" synced_ns="@ =~= seq![' '] + "synced_ns"@ + seq!['=']);
    assert(" target_ns="@ =~= seq![' '] + "target_ns"@ + seq!['=']);
    assert(" cap_us="@ =~= seq![' '] + "cap_us"@ + seq!['=']);
}

/// What a line that announces a captured pulse is made of.
proof fn lemma_rx_line_words(
    port: Seq<char>,
    mac: (u8, u8, u8),
    synced_ns: Option<u128>,
    cap_us: u64,
)
    ensures
        !"pulse_tx "@.is_prefix_of(crate::rig::rx_line(port, mac, synced_ns, cap_us)),
        "pulse_rx "@.is_prefix_of(crate::rig::rx_line(port, mac, synced_ns, cap_us)),
        crate::rig::rx_line(port, mac, synced_ns, cap_us).skip("pulse_rx "@.len() as int) == field(
            "port"@,
            port,
        ) + seq![' '] + (field("mac"@, crate::rig::mac_text(mac)) + seq![' '] + (field(
            "synced_ns"@,
            crate::rig::synced_text(synced_ns),
        ) + seq![' '] + field("cap_us"@, crate::text::dec(cap_us as nat)))),
{
    let head = "pulse_rx "@;
    let sp = seq![' '];
    let w1 = field("port"@, port);
    let w2 = field("mac"@, crate::rig::mac_text(mac));
    let w3 = field("synced_ns"@, crate::rig::synced_text(synced_ns));
    let w4 = field("cap_us"@, crate::text::dec(cap_us as nat));
    let l1 = "pulse_rx port="@ + port;
    let l2 = l1 + " mac="@ + crate::rig::mac_text(mac);
    let l3 = l2 + " synced_ns="@ + crate::rig::synced_text(synced_ns);
    let line = l3 + " cap_us="@ + crate::text::dec(cap_us as nat);
    let r3 = w3 + sp + w4;
    let r2 = w2 + sp + r3;
    let rest = w1 + sp + r2;
    assert(line == crate::rig::rx_line(port, mac, synced_ns, cap_us));
    lemma_separators();
    assert(l1 =~= head + w1);
    lemma_append_field(l1, " mac="@, "mac"@, crate::rig::mac_text(mac));
    lemma_append_field(l2, " synced_ns="@, "synced_ns"@, crate::rig::synced_text(synced_ns));
    lemma_append_field(l3, " cap_us="@, "cap_us"@, crate::text::dec(cap_us as nat));
    lemma_regroup(l2 + sp, w3, w4);
    lemma_regroup(l1 + sp, w2, r3);
    lemma_regroup(head, w1, r2);
    assert(line == head + rest);
    assert((head + rest).skip(head.len() as int) =~= rest);
    assert(head.is_prefix_of(head + rest));
    assert(!"pulse_tx "@.is_prefix_of(line)) by {
        reveal_strlit("pulse_tx ");
        reveal_strlit("pulse_rx ");
        assert(line[6] == head[6]);
        assert("pulse_tx "@[6] == 't');
    }
}

/// One more field at the end of a line.
proof fn lemma_push_field(
    words: Seq<Seq<char>>,
    key: Seq<char>,
    value: Seq<char>,
    captured: bool,
    before: Fields,
)
    requires
        crate::pulse_log::fields_of(words, captured) == Some(before),
        crate::text::split_once(field(key, value), '=') == Some((key, value)),
    ensures
        crate::pulse_log::fields_of(words.push(field(key, value)), captured) == Some(
            crate::pulse_log::with_field(before, key, value, captured),
        ),
{
    assert(words.push(field(key, value)).drop_last() =~= words);
}

/// The line that a board prints about a sent pulse is read back as that pulse.
pub proof fn law_sent_pulse_is_read_back(
    device: nat,
    mac: (u8, u8, u8),
    seq: u32,
    synced_ns: u128,
    target_ns: u128,
    cap_us: u64,
)
    ensures
        crate::pulse_log::event_of(
            device,
            crate::rig::tx_line(mac, seq, synced_ns, target_ns, cap_us),
        ) == Some(
            EventView::Tx {
                device,
                mac: crate::rig::mac_text(mac),
                seq: seq as nat,
                synced_ns: synced_ns as nat,
            },
        ),
{
    let vs = crate::text::dec(seq as nat);
    let vn = crate::text::dec(synced_ns as nat);
    let vt = crate::text::dec(target_ns as nat);
    let vc = crate::text::dec(cap_us as nat);
    let vm = crate::rig::mac_text(mac);
    lemma_keys();
    lemma_mac_text(mac);
    lemma_number(seq as nat);
    lemma_number(synced_ns as nat);
    lemma_number(target_ns as nat);
    lemma_number(cap_us as nat);
    lemma_field("mac"@, vm);
    lemma_field("seq"@, vs);
    lemma_field("synced_ns"@, vn);
    lemma_field("target_ns"@, vt);
    lemma_field("cap_us"@, vc);
    let w1 = field("mac"@, vm);
    let w2 = field("seq"@, vs);
    let w3 = field("synced_ns"@, vn);
    let w4 = field("target_ns"@, vt);
    let w5 = field("cap_us"@, vc);
    let r4 = w4 + seq![' '] + w5;
    let r3 = w3 + seq![' '] + r4;
    let r2 = w2 + seq![' '] + r3;
    let r1 = w1 + seq![' '] + r2;
    crate::text_lemmas::lemma_one_word(w5);
    crate::text_lemmas::lemma_word_then_rest(w4, w5);
    crate::text_lemmas::lemma_word_then_rest(w3, r4);
    crate::text_lemmas::lemma_word_then_rest(w2, r3);
    crate::text_lemmas::lemma_word_then_rest(w1, r2);
    let none = Seq::<Seq<char>>::empty();
    assert(crate::text::words(r1) =~= none.push(w1).push(w2).push(w3).push(w4).push(w5));
    crate::text_lemmas::lemma_dec_reads_back(seq as nat, u32::MAX as nat);
    crate::text_lemmas::lemma_dec_reads_back(synced_ns as nat, u128::MAX as nat);
    let f0 = Fields { mac: None, seq: None, synced_ns: None };
    let f1 = Fields { mac: Some(vm), ..f0 };
    let f2 = Fields { seq: Some(seq as nat), ..f1 };
    let f3 = Fields { synced_ns: Some(synced_ns as nat), ..f2 };
    assert("seq"@.len() == 3 && "seq"@[0] != "mac"@[0]);
    lemma_push_field(none, "mac"@, vm, false, f0);
    lemma_push_field(none.push(w1), "seq"@, vs, false, f1);
    lemma_push_field(none.push(w1).push(w2), "synced_ns"@, vn, false, f2);
    lemma_push_field(none.push(w1).push(w2).push(w3), "target_ns"@, vt, false, f3);
    assert("target_ns"@[0] == 't' && "synced_ns"@[0] == 's');
    lemma_push_field(none.push(w1).push(w2).push(w3).push(w4), "cap_us"@, vc, false, f3);
    lemma_tx_line_words(mac, seq, synced_ns, target_ns, cap_us);
}

/// The line that a board prints about a captured pulse is read back as that
/// pulse if the board knew the server time, and passed over if it did not.
pub proof fn law_captured_pulse_is_read_back(
    device: nat,
    port: Seq<char>,
    mac: (u8, u8, u8),
    synced_ns: Option<u128>,
    cap_us: u64,
)
    requires
        crate::text_lemmas::no_white(port),
    ensures
        crate::pulse_log::event_of(device, crate::rig::rx_line(port, mac, synced_ns, cap_us)) == (
        match synced_ns {
            Some(ns) => Some(
                EventView::Rx { device, mac: crate::rig::mac_text(mac), synced_ns: ns as nat },
            ),
            None => None,
        }),
{
    let vn = crate::rig::synced_text(synced_ns);
    let vc = crate::text::dec(cap_us as nat);
    let vm = crate::rig::mac_text(mac);
    lemma_keys();
    lemma_mac_text(mac);
    lemma_number(cap_us as nat);
    if let Some(ns) = synced_ns {
        lemma_number(ns as nat);
        crate::text_lemmas::lemma_dec_reads_back(ns as nat, u128::MAX as nat);
    } else {
        reveal_strlit("NONE");
    }
    lemma_field("port"@, port);
    lemma_field("mac"@, vm);
    lemma_field("synced_ns"@, vn);
    lemma_field("cap_us"@, vc);
    let w1 = field("port"@, port);
    let w2 = field("mac"@, vm);
    let w3 = field("synced_ns"@, vn);
    let w4 = field("cap_us"@, vc);
    let r3 = w3 + seq![' '] + w4;
    let r2 = w2 + seq![' '] + r3;
    let r1 = w1 + seq![' '] + r2;
    crate::text_lemmas::lemma_one_word(w4);
    crate::text_lemmas::lemma_word_then_rest(w3, w4);
    crate::text_lemmas::lemma_word_then_rest(w2, r3);
    crate::text_lemmas::lemma_word_then_rest(w1, r2);
    let none = Seq::<Seq<char>>::empty();
    assert(crate::text::words(r1) =~= none.push(w1).push(w2).push(w3).push(w4));
    let f0 = Fields { mac: None, seq: None, synced_ns: None };
    let f2 = Fields { mac: Some(vm), ..f0 };
    let f3 = Fields {
        synced_ns: match synced_ns {
            Some(ns) => Some(ns as nat),
            None => None,
        },
        ..f2
    };
    assert("port"@[0] == 'p' && "synced_ns"@[0] == 's' && "cap_us"@.len() == 6);
    lemma_push_field(none, "port"@, port, true, f0);
    lemma_push_field(none.push(w1), "mac"@, vm, true, f0);
    lemma_push_field(none.push(w1).push(w2), "synced_ns"@, vn, true, f2);
    lemma_push_field(none.push(w1).push(w2).push(w3), "cap_us"@, vc, true, f3);
    lemma_rx_line_words(port, mac, synced_ns, cap_us);
}

} // verus!
