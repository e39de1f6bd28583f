//! What the firmware's reports say.

use vstd::prelude::*;

use crate::estimator::Quality;
use crate::firmware::Counters;

verus! {

proof fn lemma_report_literals()
    ensures
        crate::text::words("hb"@) == seq!["hb"@],
        crate::text_lemmas::no_white("mac="@),
        crate::text_lemmas::no_white("synced_ns="@),
        crate::text_lemmas::no_white("samples="@),
        crate::text_lemmas::no_white("drift_ppb="@),
        crate::text_lemmas::no_white("p95_us="@),
        crate::text_lemmas::no_white("dropped="@),
        crate::text_lemmas::no_white("seen="@),
        crate::text_lemmas::no_white("matched="@),
        crate::text_lemmas::no_white("synced=NONE"@),
        "mac="@.len() > 0,
        "synced_ns="@.len() > 0,
        "samples="@.len() > 0,
        "drift_ppb="@.len() > 0,
        "p95_us="@.len() > 0,
        "dropped="@.len() > 0,
        "seen="@.len() > 0,
        "matched="@.len() > 0,
        "synced=NONE"@.len() > 0,
        "hb mac="@ == "hb"@ + seq![' '] + "mac="@,
        " synced_ns="@ == seq![' '] + "synced_ns="@,
        " samples="@ == seq![' '] + "samples="@,
        " drift_ppb="@ == seq![' '] + "drift_ppb="@,
        " p95_us="@ == seq![' '] + "p95_us="@,
        " dropped="@ == seq![' '] + "dropped="@,
        " seen="@ == seq![' '] + "seen="@,
        " matched="@ == seq![' '] + "matched="@,
        " synced=NONE samples="@ == seq![' '] + "synced=NONE"@ + seq![' '] + "samples="@,
        "\n"@ == seq!['\n'],
{
    reveal_strlit("hb");
    reveal_strlit("mac=");
    reveal_strlit("synced_ns=");
    reveal_strlit("samples=");
    reveal_strlit("drift_ppb=");
    reveal_strlit("p95_us=");
    reveal_strlit("dropped=");
    reveal_strlit("seen=");
    reveal_strlit("matched=");
    reveal_strlit("synced=NONE");
    reveal_strlit("hb mac=");
    reveal_strlit(" synced_ns=");
    reveal_strlit(" samples=");
    reveal_strlit(" drift_ppb=");
    reveal_strlit(" p95_us=");
    reveal_strlit(" dropped=");
    reveal_strlit(" seen=");
    reveal_strlit(" matched=");
    reveal_strlit(" synced=NONE samples=");
    reveal_strlit("\n");
    crate::text_lemmas::lemma_one_word("hb"@);
    assert("hb mac="@ =~= "hb"@ + seq![' '] + "mac="@);
    assert(" synced_ns="@ =~= seq![' '] + "synced_ns="@);
    assert(" samples="@ =~= seq![' '] + "samples="@);
    assert(" drift_ppb="@ =~= seq![' '] + "drift_ppb="@);
    assert(" p95_us="@ =~= seq![' '] + "p95_us="@);
    assert(" dropped="@ =~= seq![' '] + "dropped="@);
    assert(" seen="@ =~= seq![' '] + "seen="@);
    assert(" matched="@ =~= seq![' '] + "matched="@);
    assert(" synced=NONE samples="@ =~= seq![' '] + "synced=NONE"@ + seq![' '] + "samples="@);
    assert("\n"@ =~= seq!['\n']);
}

/// One more key and value at the end of a report.
proof fn lemma_add_word(front: Seq<char>, literal: Seq<char>, key: Seq<char>, value: Seq<char>)
    requires
        literal == seq![' '] + key,
        key.len() > 0,
        crate::text_lemmas::no_white(key),
        crate::text_lemmas::no_white(value),
    ensures
        crate::text::words(front + literal + value) == crate::text::words(front).push(key + value),
{
    assert(front + literal + value =~= front + seq![' '] + (key + value));
    crate::text_laws::law_last_word(front, key, value);
}

proof fn lemma_signed_is_plain(v: int)
    ensures
        crate::text_lemmas::no_white(crate::text::dec_signed(v)),
{
    let s = crate::text::dec_signed(v);
    if v < 0 {
        let d = crate::text::dec((-v) as nat);
        crate::rig_laws::lemma_number_is_plain((-v) as nat);
        assert(s =~= seq!['-'] + d);
        assert forall|i: int| 0 <= i < s.len() implies !crate::text::is_white(#[trigger] s[i]) by {
            if i > 0 {
                assert(s[i] == d[i - 1]);
            }
        }
    } else {
        crate::rig_laws::lemma_number_is_plain(v as nat);
    }
}

/// The words of a heartbeat with a server time: who sends it, the time, and how
/// well it is known. The line ends with a newline.
pub proof fn law_words_of_a_heartbeat(mac: (u8, u8, u8), ns: u128, q: Quality, c: Counters)
    ensures
        crate::text::words(crate::firmware::heartbeat_text(mac, Some(ns), q, c)) == seq![
            "hb"@,
            "mac="@ + crate::rig::mac_text(mac),
            "synced_ns="@ + crate::text::dec(ns as nat),
            "samples="@ + crate::text::dec(q.n_samples as nat),
            "drift_ppb="@ + crate::text::dec_signed(q.drift_ppb as int),
            "p95_us="@ + crate::text::dec(q.residual_us_p95 as nat),
            "dropped="@ + crate::text::dec(c.dropped as nat),
        ],
        crate::firmware::heartbeat_text(mac, Some(ns), q, c).last() == '\n',
{
    let dm = crate::rig::mac_text(mac);
    let dn = crate::text::dec(ns as nat);
    let ds = crate::text::dec(q.n_samples as nat);
    let dd = crate::text::dec_signed(q.drift_ppb as int);
    let dp = crate::text::dec(q.residual_us_p95 as nat);
    let dr = crate::text::dec(c.dropped as nat);
    let l1 = "hb mac="@ + dm;
    let l2 = l1 + " synced_ns="@ + dn;
    let l3 = l2 + " samples="@ + ds;
    let l4 = l3 + " drift_ppb="@ + dd;
    let l5 = l4 + " p95_us="@ + dp;
    let l6 = l5 + " dropped="@ + dr;
    lemma_report_literals();
    crate::rig_laws::lemma_address_is_plain(mac);
    crate::rig_laws::lemma_number_is_plain(ns as nat);
    crate::rig_laws::lemma_number_is_plain(q.n_samples as nat);
    crate::rig_laws::lemma_number_is_plain(q.residual_us_p95 as nat);
    crate::rig_laws::lemma_number_is_plain(c.dropped as nat);
    lemma_signed_is_plain(q.drift_ppb as int);
    assert(l1 =~= "hb"@ + seq![' '] + ("mac="@ + dm));
    crate::text_laws::law_last_word("hb"@, "mac="@, dm);
    lemma_add_word(l1, " synced_ns="@, "synced_ns="@, dn);
    lemma_add_word(l2, " samples="@, "samples="@, ds);
    lemma_add_word(l3, " drift_ppb="@, "drift_ppb="@, dd);
    lemma_add_word(l4, " p95_us="@, "p95_us="@, dp);
    lemma_add_word(l5, " dropped="@, "dropped="@, dr);
    crate::text_laws::law_words_on_both_sides(l6, '\n', Seq::empty());
    assert(crate::firmware::heartbeat_text(mac, Some(ns), q, c) == l6 + seq!['\n']);
}

/// The words of a heartbeat without a server time: who sends it, that there is
/// no time, and what was heard. The line ends with a newline.
pub proof fn law_words_of_an_early_heartbeat(mac: (u8, u8, u8), q: Quality, c: Counters)
    ensures
        crate::text::words(crate::firmware::heartbeat_text(mac, None, q, c)) == seq![
            "hb"@,
            "mac="@ + crate::rig::mac_text(mac),
            "synced=NONE"@,
            "samples="@ + crate::text::dec(q.n_samples as nat),
            "seen="@ + crate::text::dec(c.seen as nat),
            "matched="@ + crate::text::dec(c.matched as nat),
        ],
        crate::firmware::heartbeat_text(mac, None, q, c).last() == '\n',
{
    let dm = crate::rig::mac_text(mac);
    let ds = crate::text::dec(q.n_samples as nat);
    let de = crate::text::dec(c.seen as nat);
    let da = crate::text::dec(c.matched as nat);
    let l1 = "hb mac="@ + dm;
    let l2 = l1 + seq![' '] + "synced=NONE"@;
    let l3 = l1 + " synced=NONE samples="@ + ds;
    let l4 = l3 + " seen="@ + de;
    let l5 = l4 + " matched="@ + da;
    lemma_report_literals();
    crate::rig_laws::lemma_address_is_plain(mac);
    crate::rig_laws::lemma_number_is_plain(q.n_samples as nat);
    crate::rig_laws::lemma_number_is_plain(c.seen as nat);
    crate::rig_laws::lemma_number_is_plain(c.matched as nat);
    assert(l1 =~= "hb"@ + seq![' '] + ("mac="@ + dm));
    crate::text_laws::law_last_word("hb"@, "mac="@, dm);
    assert("synced=NONE"@ + Seq::<char>::empty() =~= "synced=NONE"@);
    crate::text_laws::law_last_word(l1, "synced=NONE"@, Seq::empty());
    assert(l3 =~= l2 + seq![' '] + ("samples="@ + ds));
    crate::text_laws::law_last_word(l2, "samples="@, ds);
    lemma_add_word(l3, " seen="@, "seen="@, de);
    lemma_add_word(l4, " matched="@, "matched="@, da);
    crate::text_laws::law_words_on_both_sides(l5, '\n', Seq::empty());
    assert(crate::firmware::heartbeat_text(mac, None, q, c) == l5 + seq!['\n']);
}

/// The words of a report behind any prefix: how well the time is known, and what
/// was heard.
pub proof fn law_words_of_a_report(prefix: Seq<char>, q: Quality, c: Counters)
    ensures
        crate::text::words(crate::firmware::health_text(prefix, q, c)) == crate::text::words(prefix)
            + seq![
            "samples="@ + crate::text::dec(q.n_samples as nat),
            "drift_ppb="@ + crate::text::dec_signed(q.drift_ppb as int),
            "p95_us="@ + crate::text::dec(q.residual_us_p95 as nat),
            "seen="@ + crate::text::dec(c.seen as nat),
            "matched="@ + crate::text::dec(c.matched as nat),
        ],
{
    let ds = crate::text::dec(q.n_samples as nat);
    let dd = crate::text::dec_signed(q.drift_ppb as int);
    let dp = crate::text::dec(q.residual_us_p95 as nat);
    let de = crate::text::dec(c.seen as nat);
    let da = crate::text::dec(c.matched as nat);
    let l1 = prefix + " samples="@ + ds;
    let l2 = l1 + " drift_ppb="@ + dd;
    let l3 = l2 + " p95_us="@ + dp;
    let l4 = l3 + " seen="@ + de;
    lemma_report_literals();
    crate::rig_laws::lemma_number_is_plain(q.n_samples as nat);
    crate::rig_laws::lemma_number_is_plain(q.residual_us_p95 as nat);
    crate::rig_laws::lemma_number_is_plain(c.seen as nat);
    crate::rig_laws::lemma_number_is_plain(c.matched as nat);
    lemma_signed_is_plain(q.drift_ppb as int);
    lemma_add_word(prefix, " samples="@, "samples="@, ds);
    lemma_add_word(l1, " drift_ppb="@, "drift_ppb="@, dd);
    lemma_add_word(l2, " p95_us="@, "p95_us="@, dp);
    lemma_add_word(l3, " seen="@, "seen="@, de);
    lemma_add_word(l4, " matched="@, "matched="@, da);
    assert(crate::text::words(crate::firmware::health_text(prefix, q, c)) =~= crate::text::words(
        prefix,
    ) + seq![
        "samples="@ + ds,
        "drift_ppb="@ + dd,
        "p95_us="@ + dp,
        "seen="@ + de,
        "matched="@ + da,
    ]);
}

/// The link rests for two seconds after a loss and for three after a failed
/// attempt.
pub proof fn law_link_pauses()
    ensures
        crate::firmware::RELINK_PAUSE_MS == 2_000,
        crate::firmware::CONNECT_RETRY_MS == 3_000,
{
}

} // verus!
