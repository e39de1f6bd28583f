//! What pairing and reporting mean, stated over the times of the pulses.

use vstd::prelude::*;

use crate::pulse_log::EventView;
use crate::skew::MeterState;
use crate::stats::StatsState;

verus! {

/// How far two server times are apart.
pub open spec fn apart(a: u128, b: u128) -> int {
    let d = crate::fit_laws::signed_ns(a) - crate::fit_laws::signed_ns(b);
    if d < 0 {
        -d
    } else {
        d
    }
}

proof fn lemma_delta(rx: u128, tx: u128)
    ensures
        crate::skew::pair_delta(rx as nat, tx) == crate::fit_laws::signed_ns(rx)
            - crate::fit_laws::signed_ns(tx),
        crate::arith::abs_int(crate::skew::pair_delta(rx as nat, tx)) == apart(rx, tx),
{
}

/// A captured pulse is paired with the sent one that is nearest in time, the
/// earlier recorded of equally near ones, if that is no further off than the
/// window; what is recorded is the captured time less the sent one.
pub proof fn law_pair_is_the_nearest_in_the_window(
    sent: Seq<u128>,
    rx: u128,
    window_ns: nat,
    i: int,
)
    requires
        window_ns <= i128::MAX,
        0 <= i < sent.len(),
        apart(rx, sent[i]) <= window_ns,
        forall|j: int| 0 <= j < sent.len() ==> apart(rx, sent[i]) <= apart(rx, #[trigger] sent[j]),
        forall|j: int| 0 <= j < i ==> apart(rx, sent[i]) < apart(rx, #[trigger] sent[j]),
    ensures
        crate::skew::nearest_delta(sent, rx as nat, window_ns) == Some(
            (crate::fit_laws::signed_ns(rx) - crate::fit_laws::signed_ns(sent[i])) as i128,
        ),
{
    assert forall|j: int| 0 <= j < sent.len() implies crate::arith::abs_int(
        crate::skew::pair_delta(rx as nat, #[trigger] sent[j]),
    ) == apart(rx, sent[j]) by {
        lemma_delta(rx, sent[j]);
    }
    lemma_delta(rx, sent[i]);
    assert(crate::skew::is_nearest(sent, rx as nat, window_ns, i));
    let k = choose|k: int| crate::skew::is_nearest(sent, rx as nat, window_ns, k);
    assert(crate::skew::is_nearest(sent, rx as nat, window_ns, k));
    lemma_delta(rx, sent[k]);
    assert(crate::skew::in_window(rx as nat, sent[i], window_ns));
    assert(crate::skew::in_window(rx as nat, sent[k], window_ns));
    assert(k == i);
}

/// A captured pulse with no sent one within the window is not paired.
pub proof fn law_no_pair_outside_the_window(sent: Seq<u128>, rx: u128, window_ns: nat)
    requires
        forall|j: int| 0 <= j < sent.len() ==> apart(rx, #[trigger] sent[j]) > window_ns,
    ensures
        crate::skew::nearest_delta(sent, rx as nat, window_ns) is None,
{
    assert forall|k: int| !crate::skew::is_nearest(sent, rx as nat, window_ns, k) by {
        if 0 <= k < sent.len() {
            lemma_delta(rx, sent[k]);
            assert(apart(rx, sent[k]) > window_ns);
        }
    }
}

proof fn lemma_stale(sent: Seq<u128>, cutoff: int, k: int)
    requires
        0 <= k <= sent.len(),
        forall|j: int| 0 <= j < k ==> (#[trigger] sent[j]) < cutoff,
        k < sent.len() ==> sent[k] >= cutoff,
    ensures
        crate::skew::without_stale(sent, cutoff) == sent.skip(k),
    decreases k,
{
    if k > 0 {
        assert(sent[0] < cutoff);
        let rest = sent.skip(1);
        assert forall|j: int| 0 <= j < k - 1 implies (#[trigger] rest[j]) < cutoff by {
            assert(rest[j] == sent[j + 1]);
        }
        lemma_stale(rest, cutoff, k - 1);
        assert(rest.skip(k - 1) =~= sent.skip(k));
    } else {
        assert(sent.skip(0) =~= sent);
    }
}

/// A sent pulse joins the end of its board's history, from whose front the `k`
/// pulses are forgotten that are more than four windows older. The other
/// board's history and all statistics stay.
pub proof fn law_sent_pulse_joins_the_history(
    m: MeterState,
    device: nat,
    mac: Seq<char>,
    seq: nat,
    t: u128,
    k: int,
)
    requires
        m.valid(),
        device < 2,
        0 <= k <= m.sent[device as int].len(),
        forall|j: int|
            0 <= j < k ==> (#[trigger] m.sent[device as int][j]) < t - 4 * m.window_ns,
        k < m.sent[device as int].len() ==> m.sent[device as int][k] >= t - 4 * m.window_ns,
    ensures
        ({
            let event = EventView::Tx { device, mac, seq, synced_ns: t as nat };
            let after = m.after(event);
            &&& after.sent[device as int] == m.sent[device as int].skip(k) + seq![t]
            &&& after.sent[1 - device] == m.sent[1 - device]
            &&& after.sent.len() == 2
            &&& after.stats == m.stats
            &&& after.window_ns == m.window_ns
            &&& !m.prints_after(event)
            &&& m.accepts(event)
        }),
{
    let old_sent = m.sent[device as int];
    let longer = old_sent.push(t);
    assert forall|j: int| 0 <= j < k implies (#[trigger] longer[j]) < t - 4 * m.window_ns by {
        assert(longer[j] == old_sent[j]);
    }
    lemma_stale(longer, t - 4 * m.window_ns, k);
    assert(longer.skip(k) =~= old_sent.skip(k) + seq![t]);
}

/// A captured pulse is held against the pulses that the other board sent: a
/// pair is recorded for the direction from that board, and nothing else
/// changes. The statistics are looked at if that board has sent any.
pub proof fn law_captured_pulse_is_held_against_the_other_board(
    m: MeterState,
    device: nat,
    mac: Seq<char>,
    t: u128,
)
    requires
        m.valid(),
        device < 2,
    ensures
        ({
            let event = EventView::Rx { device, mac, synced_ns: t as nat };
            let after = m.after(event);
            let other = 1 - device;
            &&& after.sent == m.sent
            &&& after.window_ns == m.window_ns
            &&& after.stats.len() == 2
            &&& after.stats[device as int] == m.stats[device as int]
            &&& match crate::skew::nearest_delta(m.sent[other], t as nat, m.window_ns) {
                Some(d) => after.stats[other] == m.stats[other].record(d),
                None => after.stats[other] == m.stats[other],
            }
            &&& m.prints_after(event) <==> m.sent[other].len() > 0
        }),
{
}

/// A captured pulse of one of the two boards is taken in exactly when its
/// differences to all that the other board sent are within 128 signed bits and
/// the statistics can record the pair, if there is one. Times below 2^127 never
/// differ by more.
pub proof fn law_differences_within_their_type_are_taken(
    m: MeterState,
    device: nat,
    mac: Seq<char>,
    t: u128,
)
    requires
        m.valid(),
    ensures
        ({
            let other = 1 - device;
            m.accepts(EventView::Rx { device, mac, synced_ns: t as nat }) <==> {
                &&& device < 2
                &&& forall|i: int|
                    0 <= i < m.sent[other].len() ==> i128::MIN <= crate::fit_laws::signed_ns(t)
                        - crate::fit_laws::signed_ns(#[trigger] m.sent[other][i]) <= i128::MAX
                &&& crate::skew::nearest_delta(m.sent[other], t as nat, m.window_ns) matches Some(d)
                    ==> m.stats[other].accepts(d)
            }
        }),
{
    let other = 1 - device;
    assert forall|i: int| 0 <= i < m.sent[other].len() implies crate::arith::fits_i128(
        crate::skew::pair_delta(t as nat, #[trigger] m.sent[other][i]),
    ) == (i128::MIN <= crate::fit_laws::signed_ns(t) - crate::fit_laws::signed_ns(
        m.sent[other][i],
    ) <= i128::MAX) by {
        lemma_delta(t, m.sent[other][i]);
    }
}

/// A meter begins without pulses and without pairs.
pub proof fn law_fresh_meter_is_empty(window_ns: nat)
    ensures
        ({
            let m = MeterState::fresh(window_ns);
            &&& m.window_ns == window_ns
            &&& m.sent == seq![Seq::<u128>::empty(), Seq::<u128>::empty()]
            &&& m.stats.len() == 2
            &&& forall|d: int| 0 <= d < 2 ==> (#[trigger] m.stats[d]).n == 0
            &&& forall|d: int| 0 <= d < 2 ==> (#[trigger] m.stats[d]).max_abs_us == 0
        }),
{
}

/// The limit is overshot when the largest difference of either direction is
/// beyond it.
pub proof fn law_either_direction_overshoots(m: MeterState, limit_us: u64)
    requires
        m.valid(),
    ensures
        m.overshoots(limit_us) <==> m.stats[0].max_abs_us > limit_us || m.stats[1].max_abs_us
            > limit_us,
{
}

/// A direction without pairs prints nothing while running; one with pairs prints
/// one line, marked by whether its largest difference is within the limit.
pub proof fn law_running_line_is_marked(st: StatsState, limit_us: u64, stddev_us: u64)
    ensures
        st.n == 0 ==> crate::skew::running_lines(st, 0, limit_us, stddev_us).len() == 0
            && crate::skew::running_lines(st, 1, limit_us, stddev_us).len() == 0,
        st.n != 0 && st.max_abs_us <= limit_us ==> crate::skew::running_lines(
            st,
            0,
            limit_us,
            stddev_us,
        ) == seq![crate::stats::stats_line("OK  "@ + "0→1"@, st, stddev_us)]
            && crate::skew::running_lines(st, 1, limit_us, stddev_us) == seq![
            crate::stats::stats_line("OK  "@ + "1→0"@, st, stddev_us),
        ],
        st.n != 0 && st.max_abs_us > limit_us ==> crate::skew::running_lines(
            st,
            0,
            limit_us,
            stddev_us,
        ) == seq![crate::stats::stats_line("!!  "@ + "0→1"@, st, stddev_us)]
            && crate::skew::running_lines(st, 1, limit_us, stddev_us) == seq![
            crate::stats::stats_line("!!  "@ + "1→0"@, st, stddev_us),
        ],
        st.n == 0 ==> crate::skew::final_line(st, 0, stddev_us) == "device 0 → device 1"@
            + ": no matched events"@ && crate::skew::final_line(st, 1, stddev_us)
            == "device 1 → device 0"@ + ": no matched events"@,
        st.n != 0 ==> crate::skew::final_line(st, 0, stddev_us) == crate::stats::stats_line(
            "device 0 → device 1"@,
            st,
            stddev_us,
        ) && crate::skew::final_line(st, 1, stddev_us) == crate::stats::stats_line(
            "device 1 → device 0"@,
            st,
            stddev_us,
        ),
{
}

/// A list of lines is read line by line.
pub proof fn law_lines_are_read_in_order(v: Seq<String>, i: int)
    requires
        0 <= i < v.len(),
    ensures
        crate::skew::texts(v).len() == v.len(),
        crate::skew::texts(v)[i] == v[i]@,
{
}

/// The statistics are printed once a second, and no wait is longer than half a
/// second.
pub proof fn law_meter_times()
    ensures
        crate::skew::PRINT_EVERY_NS == 1_000_000_000,
        crate::skew::MAX_WAIT_NS == 500_000_000,
{
}

} // verus!
