//! What holds of the estimator as a whole.

use vstd::prelude::*;

use crate::estimator::{EstimatorState, Sample, MIN_SAMPLES, WINDOW};

verus! {

/// After any run of observations the window holds exactly the latest of
/// them, up to its capacity, in the order in which they were made.
pub proof fn law_window_holds_latest(observed: Seq<Sample>)
    ensures
        crate::estimator::state_after(observed).valid(),
        crate::estimator::state_after(observed).history() == (if observed.len() <= WINDOW {
            observed
        } else {
            observed.skip(observed.len() - WINDOW)
        }),
        observed.len() > 0 ==> crate::estimator::state_after(observed).last_update_us
            == observed.last().local_us,
    decreases observed.len(),
{
    if observed.len() > 0 {
        let before = observed.drop_last();
        law_window_holds_latest(before);
        law_observation_slides_window(crate::estimator::state_after(before), observed.last());
        if observed.len() <= WINDOW {
            assert(before.push(observed.last()) =~= observed);
        } else if before.len() == WINDOW {
            assert(before.drop_first().push(observed.last()) =~= observed.skip(
                observed.len() - WINDOW,
            ));
        } else {
            assert(before.skip(before.len() - WINDOW).drop_first().push(observed.last())
                =~= observed.skip(observed.len() - WINDOW));
        }
    }
}

/// One observation appends to the window's history and, once the window is
/// full, drops its oldest entry.
pub proof fn law_observation_slides_window(st: EstimatorState, s: Sample)
    requires
        st.valid(),
    ensures
        st.push(s).valid(),
        st.push(s).history() == (if st.slots.len() < WINDOW {
            st.history().push(s)
        } else {
            st.history().drop_first().push(s)
        }),
{
    let after = st.push(s);
    if st.slots.len() < WINDOW - 1 {
        assert(after.history() =~= st.history().push(s));
    } else if st.slots.len() == WINDOW - 1 {
        assert(after.head == 0);
        assert(after.history() =~= st.history().push(s));
    } else if st.head == WINDOW - 1 {
        assert(after.head == 0);
        assert(after.history() =~= st.history().drop_first().push(s));
    } else {
        assert(after.head == st.head + 1);
        assert(after.history() =~= st.history().drop_first().push(s));
    }
}

proof fn lemma_constant_offsets(w: Seq<Sample>, c: int)
    requires
        forall|i: int| 0 <= i < w.len() ==> #[trigger] crate::estimator::offset_of(w[i]) == c,
    ensures
        crate::estimator::sum_offsets(w) == c * w.len(),
        crate::estimator::sum_squares(w, c) == 0,
    decreases w.len(),
{
    if w.len() > 0 {
        assert forall|i: int| 0 <= i < w.len() - 1 implies #[trigger] crate::estimator::offset_of(
            w.drop_last()[i],
        ) == c by {
            assert(w.drop_last()[i] == w[i]);
        }
        lemma_constant_offsets(w.drop_last(), c);
        assert(w.last() == w[w.len() - 1]);
        assert(c * w.len() == c * (w.len() - 1) + c) by (nonlinear_arith);
    } else {
        assert(c * w.len() == 0) by (nonlinear_arith)
            requires
                w.len() == 0,
        ;
    }
}

/// When the server clock runs at exactly one thousand nanoseconds per local
/// microsecond, the offset is recovered exactly, with no drift and no
/// residual.
pub proof fn law_perfect_clock_is_recovered(w: Seq<Sample>, c: i128, local_us: u64)
    requires
        w.len() >= MIN_SAMPLES,
        forall|i: int| 0 <= i < w.len() ==> #[trigger] crate::estimator::offset_of(w[i]) == c,
    ensures
        crate::estimator::mean_offset(w) == c,
        crate::estimator::drift_between(
            crate::estimator::oldest(w),
            crate::estimator::newest(w),
        ) == 0,
        crate::estimator::spread_us(w) == 0,
        0 <= c + 1_000 * local_us <= i128::MAX ==> crate::estimator::server_time_at(w, local_us)
            == Some((c + 1_000 * local_us) as u128),
{
    let n = w.len() as int;
    lemma_constant_offsets(w, c as int);
    assert(crate::estimator::mean_offset(w) == c) by {
        if c >= 0 {
            assert(c * n >= 0) by (nonlinear_arith)
                requires
                    c >= 0,
                    n >= 0,
            ;
            vstd::arithmetic::div_mod::lemma_div_by_multiple(c as int, n);
        } else {
            assert(c * n < 0) by (nonlinear_arith)
                requires
                    c < 0,
                    n > 0,
            ;
            vstd::arithmetic::div_mod::lemma_div_by_multiple(-c, n);
            assert(-(c * n) == (-c) * n) by (nonlinear_arith);
        }
    }
    assert(crate::estimator::variance_us(w) == 0) by {
        assert(0int / n == 0) by (nonlinear_arith)
            requires
                n > 0,
        ;
    }
    crate::arith::lemma_isqrt_unique(0, 0);
    let o = crate::estimator::lemma_oldest_exists(w);
    let l = crate::estimator::lemma_newest_exists(w);
    crate::estimator::lemma_oldest(w, o);
    crate::estimator::lemma_newest(w, l);
    assert(crate::estimator::offset_of(w[o]) == c && crate::estimator::offset_of(w[l]) == c);
    if w[l].local_us > w[o].local_us + 1_000_000 {
        let dx = w[l].local_us - w[o].local_us;
        vstd::arithmetic::div_mod::lemma_div_by_multiple(1_000_000_000, dx);
        assert(crate::estimator::server_span(w[o], w[l]) * 1_000_000 == 1_000_000_000 * dx);
    }
}

/// When the two end samples lie on a line whose rate is `p` parts per billion
/// off, the reported drift is `p`.
pub proof fn law_linear_drift_is_recovered(o: Sample, n: Sample, p: int)
    requires
        n.local_us > o.local_us + 1_000_000,
        -1_000_000 <= p <= 1_000_000,
        1_000_000 * crate::estimator::server_span(o, n) == (n.local_us - o.local_us) * (
        1_000_000_000 + p),
    ensures
        crate::estimator::drift_between(o, n) == p,
{
    let dx = n.local_us - o.local_us;
    let rate = 1_000_000_000 + p;
    assert(0 <= dx * rate <= 0x1_0000_0000_0000_0000 * 1_001_000_000) by (nonlinear_arith)
        requires
            0 <= dx <= 0x1_0000_0000_0000_0000,
            0 <= rate <= 1_001_000_000,
    ;
    vstd::arithmetic::div_mod::lemma_div_multiples_vanish(rate, dx);
}

/// When all samples of a window lie within a nanosecond of a line whose rate is
/// `p` parts per billion off, the reported drift is `p` to within two parts per
/// billion. `c` is the server time of the line at local zero, in millionths of
/// a nanosecond.
pub proof fn law_drift_of_a_line_is_recovered(w: Seq<Sample>, c: int, p: int)
    requires
        w.len() > 0,
        -1_000_000 <= p <= 1_000_000,
        forall|i: int|
            0 <= i < w.len() ==> -1_000_000 <= 1_000_000 * crate::arith::as_i128(
                (#[trigger] w[i]).server_ns as int,
            ) - (c + w[i].local_us * (1_000_000_000 + p)) <= 1_000_000,
        crate::estimator::newest(w).local_us > crate::estimator::oldest(w).local_us + 1_000_000,
    ensures
        -2 <= crate::estimator::drift_between(
            crate::estimator::oldest(w),
            crate::estimator::newest(w),
        ) - p <= 2,
{
    let i = crate::estimator::lemma_oldest_exists(w);
    let j = crate::estimator::lemma_newest_exists(w);
    crate::estimator::lemma_oldest(w, i);
    crate::estimator::lemma_newest(w, j);
    let o = w[i];
    let n = w[j];
    let dx = n.local_us - o.local_us;
    let rate = 1_000_000_000 + p;
    let scaled = 1_000_000 * crate::estimator::server_span(o, n);
    assert(n.local_us * rate - o.local_us * rate == dx * rate) by (nonlinear_arith)
        requires
            dx == n.local_us - o.local_us,
    ;
    assert(-2_000_000 <= scaled - dx * rate <= 2_000_000);
    assert(0 <= dx * rate <= 0x1_0000_0000_0000_0000 * 1_001_000_000) by (nonlinear_arith)
        requires
            0 <= dx <= 0x1_0000_0000_0000_0000,
            0 <= rate <= 1_001_000_000,
    ;
    assert(dx * (rate - 2) == dx * rate - 2 * dx && dx * (rate + 2) == dx * rate + 2 * dx)
        by (nonlinear_arith);
    assert(dx * (rate - 2) >= 0) by (nonlinear_arith)
        requires
            dx >= 0,
            rate >= 2,
    ;
    let q = scaled / dx;
    vstd::arithmetic::div_mod::lemma_fundamental_div_mod(scaled, dx);
    vstd::arithmetic::div_mod::lemma_mod_pos_bound(scaled, dx);
    assert(rate - 2 <= q <= rate + 2) by (nonlinear_arith)
        requires
            dx > 0,
            scaled == dx * q + scaled % dx,
            0 <= scaled % dx < dx,
            dx * (rate - 2) <= scaled <= dx * (rate + 2),
    ;
}

/// Converting a local reading to server time and back gives the reading,
/// unless the server time saturated.
pub proof fn law_local_round_trip(w: Seq<Sample>, local_us: u64)
    requires
        crate::estimator::server_time_at(w, local_us) is Some,
        crate::estimator::mean_offset(w) + 1_000 * local_us <= i128::MAX,
    ensures
        crate::estimator::local_time_at(
            w,
            crate::estimator::server_time_at(w, local_us)->0,
        ) == Some(local_us),
{
}

/// Converting a server time to a local reading and back loses less than one
/// microsecond, and never gains. Left out are server times of 2^127 and more,
/// differences that saturate, readings beyond 64 bits, and server times whose
/// lost part would take the result below zero.
pub proof fn law_server_round_trip(w: Seq<Sample>, server_ns: u128)
    requires
        w.len() >= MIN_SAMPLES,
        server_ns <= i128::MAX,
        0 <= server_ns - crate::estimator::mean_offset(w) <= i128::MAX,
        (server_ns - crate::estimator::mean_offset(w)) / 1_000 <= u64::MAX,
        (server_ns - crate::estimator::mean_offset(w)) % 1_000 <= server_ns,
    ensures
        ({
            let local = crate::estimator::local_time_at(w, server_ns);
            let back = crate::estimator::server_time_at(w, local->0);
            &&& local is Some
            &&& back is Some
            &&& back->0 <= server_ns < back->0 + 1_000
        }),
{
}

/// Later local readings never map to earlier server times; as long as nothing
/// saturates, server time advances by a thousand nanoseconds per microsecond.
pub proof fn law_server_time_is_monotone(w: Seq<Sample>, t1: u64, t2: u64)
    requires
        t1 <= t2,
        crate::estimator::server_time_at(w, t1) is Some,
    ensures
        crate::estimator::server_time_at(w, t2) is Some,
        crate::estimator::server_time_at(w, t1)->0 <= crate::estimator::server_time_at(w, t2)->0,
        crate::estimator::mean_offset(w) + 1_000 * t2 <= i128::MAX
            ==> crate::estimator::server_time_at(w, t2)->0 - crate::estimator::server_time_at(
            w,
            t1,
        )->0 == 1_000 * (t2 - t1),
{
}

proof fn lemma_shifted_sum(a: Seq<Sample>, b: Seq<Sample>, shift: int)
    requires
        a.len() == b.len(),
        forall|i: int|
            0 <= i < a.len() ==> (#[trigger] b[i]).server_ns == a[i].server_ns && b[i].local_us
                == a[i].local_us + shift,
    ensures
        crate::estimator::sum_offsets(b) == crate::estimator::sum_offsets(a) - 1_000 * shift
            * a.len(),
    decreases a.len(),
{
    if a.len() > 0 {
        assert forall|i: int| 0 <= i < a.len() - 1 implies (
        #[trigger] b.drop_last()[i]).server_ns == a.drop_last()[i].server_ns
            && b.drop_last()[i].local_us == a.drop_last()[i].local_us + shift by {
            assert(b.drop_last()[i] == b[i]);
            assert(a.drop_last()[i] == a[i]);
        }
        lemma_shifted_sum(a.drop_last(), b.drop_last(), shift);
        assert(b.last() == b[b.len() - 1]);
        assert(a.last() == a[a.len() - 1]);
        assert(crate::estimator::offset_of(b.last()) == crate::estimator::offset_of(a.last())
            - 1_000 * shift);
        assert(1_000 * shift * a.len() == 1_000 * shift * (a.len() - 1) + 1_000 * shift)
            by (nonlinear_arith);
    } else {
        assert(1_000 * shift * a.len() == 0) by (nonlinear_arith)
            requires
                a.len() == 0,
        ;
    }
}

proof fn lemma_trunc_div_error(a: int, n: int)
    requires
        n > 0,
    ensures
        -n < n * crate::arith::trunc_div(a, n) - a < n,
{
    let p = crate::arith::abs_int(a);
    vstd::arithmetic::div_mod::lemma_fundamental_div_mod(p, n);
    vstd::arithmetic::div_mod::lemma_mod_pos_bound(p, n);
    if a < 0 {
        assert(n * (-(p / n)) == -(n * (p / n))) by (nonlinear_arith);
    }
}

/// Two clients that saw the same broadcasts, with local clocks a constant
/// `shift` apart, agree on the server time of one moment to the nanosecond
/// that rounding the mean can cost.
pub proof fn law_clients_agree(
    a: Seq<Sample>,
    b: Seq<Sample>,
    shift: int,
    local_a: u64,
    local_b: u64,
)
    requires
        a.len() == b.len(),
        a.len() >= MIN_SAMPLES,
        forall|i: int|
            0 <= i < a.len() ==> (#[trigger] b[i]).server_ns == a[i].server_ns && b[i].local_us
                == a[i].local_us + shift,
        local_b == local_a + shift,
    ensures
        -1 <= crate::estimator::predicted_ns(a, local_a) - crate::estimator::predicted_ns(
            b,
            local_b,
        ) <= 1,
{
    let n = a.len() as int;
    let ma = crate::estimator::mean_offset(a);
    let mb = crate::estimator::mean_offset(b);
    let sa = crate::estimator::sum_offsets(a);
    lemma_shifted_sum(a, b, shift);
    lemma_trunc_div_error(sa, n);
    lemma_trunc_div_error(sa - 1_000 * shift * n, n);
    assert(-1 <= mb + 1_000 * shift - ma <= 1) by (nonlinear_arith)
        requires
            n > 0,
            -n < n * ma - sa < n,
            -n < n * mb - (sa - 1_000 * shift * n) < n,
    ;
}

/// Sum of a quantity over a window.
spec fn total(w: Seq<Sample>, f: spec_fn(Sample) -> int) -> int
    decreases w.len(),
{
    if w.len() == 0 {
        0
    } else {
        total(w.drop_last(), f) + f(w.last())
    }
}

proof fn lemma_total_is_sum(w: Seq<Sample>, mean: int)
    ensures
        crate::estimator::sum_offsets(w) == total(w, |s: Sample| crate::estimator::offset_of(s)),
        crate::estimator::sum_squares(w, mean) == total(
            w,
            |s: Sample|
                crate::estimator::residual_us(s, mean) * crate::estimator::residual_us(s, mean),
        ),
    decreases w.len(),
{
    if w.len() > 0 {
        lemma_total_is_sum(w.drop_last(), mean);
    }
}

proof fn lemma_total_without(w: Seq<Sample>, i: int, f: spec_fn(Sample) -> int)
    requires
        0 <= i < w.len(),
    ensures
        total(w, f) == total(w.remove(i), f) + f(w[i]),
    decreases w.len(),
{
    if i < w.len() - 1 {
        lemma_total_without(w.drop_last(), i, f);
        assert(w.remove(i).drop_last() =~= w.drop_last().remove(i));
        assert(w.remove(i).last() == w.last());
    } else {
        assert(w.remove(i) =~= w.drop_last());
    }
}

proof fn lemma_total_of_same_samples(a: Seq<Sample>, b: Seq<Sample>, f: spec_fn(Sample) -> int)
    requires
        a.to_multiset() == b.to_multiset(),
    ensures
        total(a, f) == total(b, f),
    decreases a.len(),
{
    broadcast use vstd::seq_lib::group_to_multiset_ensures;

    a.to_multiset_ensures();
    b.to_multiset_ensures();
    assert(a.len() == b.len());
    if a.len() > 0 {
        let x = a.last();
        assert(a.contains(x));
        assert(b.to_multiset().contains(x));
        let i = b.index_of(x);
        assert(a.drop_last() =~= a.remove(a.len() - 1));
        assert(a.drop_last().to_multiset() =~= a.to_multiset().remove(x));
        assert(b.remove(i).to_multiset() =~= b.to_multiset().remove(x));
        lemma_total_of_same_samples(a.drop_last(), b.remove(i), f);
        lemma_total_without(b, i, f);
    }
}

/// Whether no two different samples of a window share a local reading.
pub open spec fn readings_tell_apart(w: Seq<Sample>) -> bool {
    forall|i: int, j: int|
        0 <= i < w.len() && 0 <= j < w.len() && (#[trigger] w[i]).local_us == (
        #[trigger] w[j]).local_us ==> w[i] == w[j]
}

/// The order of the samples in a window does not matter: windows with the same
/// samples give the same conversions and the same spread, and the same drift
/// unless different samples share a local reading. There the drift goes by the
/// first of them.
pub proof fn law_order_of_samples_does_not_matter(
    a: Seq<Sample>,
    b: Seq<Sample>,
    local_us: u64,
    server_ns: u128,
)
    requires
        a.to_multiset() == b.to_multiset(),
    ensures
        crate::estimator::mean_offset(a) == crate::estimator::mean_offset(b),
        crate::estimator::server_time_at(a, local_us) == crate::estimator::server_time_at(
            b,
            local_us,
        ),
        crate::estimator::local_time_at(a, server_ns) == crate::estimator::local_time_at(
            b,
            server_ns,
        ),
        crate::estimator::spread_us(a) == crate::estimator::spread_us(b),
        a.len() > 0 && readings_tell_apart(a) ==> crate::estimator::drift_between(
            crate::estimator::oldest(a),
            crate::estimator::newest(a),
        ) == crate::estimator::drift_between(
            crate::estimator::oldest(b),
            crate::estimator::newest(b),
        ),
{
    broadcast use vstd::seq_lib::group_to_multiset_ensures;

    a.to_multiset_ensures();
    b.to_multiset_ensures();
    assert(a.len() == b.len());
    lemma_total_is_sum(a, 0);
    lemma_total_is_sum(b, 0);
    lemma_total_of_same_samples(a, b, |s: Sample| crate::estimator::offset_of(s));
    let mean = crate::estimator::mean_offset(a);
    lemma_total_is_sum(a, mean);
    lemma_total_is_sum(b, mean);
    lemma_total_of_same_samples(
        a,
        b,
        |s: Sample|
            crate::estimator::residual_us(s, mean) * crate::estimator::residual_us(s, mean),
    );
    if a.len() > 0 && readings_tell_apart(a) {
        lemma_same_ends(a, b);
    }
}

proof fn lemma_same_ends(a: Seq<Sample>, b: Seq<Sample>)
    requires
        a.to_multiset() == b.to_multiset(),
        a.len() > 0,
        readings_tell_apart(a),
    ensures
        crate::estimator::oldest(a) == crate::estimator::oldest(b),
        crate::estimator::newest(a) == crate::estimator::newest(b),
{
    broadcast use vstd::seq_lib::group_to_multiset_ensures;

    a.to_multiset_ensures();
    b.to_multiset_ensures();
    assert(a.len() == b.len());
    let oa = crate::estimator::lemma_oldest_exists(a);
    let ob = crate::estimator::lemma_oldest_exists(b);
    let na = crate::estimator::lemma_newest_exists(a);
    let nb = crate::estimator::lemma_newest_exists(b);
    crate::estimator::lemma_oldest(a, oa);
    crate::estimator::lemma_oldest(b, ob);
    crate::estimator::lemma_newest(a, na);
    crate::estimator::lemma_newest(b, nb);
    assert(a.contains(a[oa]) && a.contains(a[na]) && b.contains(b[ob]) && b.contains(b[nb]));
    assert(b.to_multiset().contains(a[oa]) && b.to_multiset().contains(a[na]));
    assert(a.to_multiset().contains(b[ob]) && a.to_multiset().contains(b[nb]));
    let oa_in_b = b.index_of(a[oa]);
    let na_in_b = b.index_of(a[na]);
    let ob_in_a = a.index_of(b[ob]);
    let nb_in_a = a.index_of(b[nb]);
    assert(b[ob].local_us <= b[oa_in_b].local_us);
    assert(a[oa].local_us <= a[ob_in_a].local_us);
    assert(b[na_in_b].local_us <= b[nb].local_us);
    assert(a[nb_in_a].local_us <= a[na].local_us);
    assert(a[oa] == a[ob_in_a]);
    assert(a[na] == a[nb_in_a]);
}

/// The ring's slots hold the samples of the window's history.
proof fn lemma_history_is_the_slots(st: EstimatorState)
    requires
        st.valid(),
    ensures
        st.history().to_multiset() == st.slots.to_multiset(),
        st.history().len() == st.slots.len(),
{
    if st.slots.len() >= WINDOW {
        let front = st.slots.take(st.head);
        let back = st.slots.skip(st.head);
        assert(st.slots =~= front + back);
        vstd::seq_lib::lemma_multiset_commutative(front, back);
        vstd::seq_lib::lemma_multiset_commutative(back, front);
        assert(front.to_multiset().add(back.to_multiset()) =~= back.to_multiset().add(
            front.to_multiset(),
        ));
    }
}

/// Samples older than the window leave no trace: after two runs that end with
/// the same full window, every conversion, the spread, the count and the time of
/// the last update are the same, and so is the drift unless different samples of
/// the window share a local reading.
pub proof fn law_old_samples_leave_no_trace(
    a: Seq<Sample>,
    b: Seq<Sample>,
    local_us: u64,
    server_ns: u128,
)
    requires
        a.len() >= WINDOW,
        b.len() >= WINDOW,
        a.skip(a.len() - WINDOW) == b.skip(b.len() - WINDOW),
    ensures
        ({
            let sa = crate::estimator::state_after(a);
            let sb = crate::estimator::state_after(b);
            &&& crate::estimator::server_time_at(sa.slots, local_us)
                == crate::estimator::server_time_at(sb.slots, local_us)
            &&& crate::estimator::local_time_at(sa.slots, server_ns)
                == crate::estimator::local_time_at(sb.slots, server_ns)
            &&& crate::estimator::spread_us(sa.slots) == crate::estimator::spread_us(sb.slots)
            &&& sa.slots.len() == sb.slots.len()
            &&& sa.last_update_us == sb.last_update_us
            &&& readings_tell_apart(a.skip(a.len() - WINDOW)) ==> crate::estimator::drift_between(
                crate::estimator::oldest(sa.slots),
                crate::estimator::newest(sa.slots),
            ) == crate::estimator::drift_between(
                crate::estimator::oldest(sb.slots),
                crate::estimator::newest(sb.slots),
            )
        }),
{
    let sa = crate::estimator::state_after(a);
    let sb = crate::estimator::state_after(b);
    let w = a.skip(a.len() - WINDOW);
    law_window_holds_latest(a);
    law_window_holds_latest(b);
    if a.len() == WINDOW {
        assert(w =~= a);
    }
    if b.len() == WINDOW {
        assert(b.skip(b.len() - WINDOW) =~= b);
    }
    assert(sa.history() == w && sb.history() == w);
    lemma_history_is_the_slots(sa);
    lemma_history_is_the_slots(sb);
    law_order_of_samples_does_not_matter(w, sa.slots, local_us, server_ns);
    law_order_of_samples_does_not_matter(w, sb.slots, local_us, server_ns);
    assert(a.last() == w.last() && b.last() == b.skip(b.len() - WINDOW).last());
}

} // verus!
