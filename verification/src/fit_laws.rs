//! What the fit of a window means, stated by what its results satisfy.

use vstd::prelude::*;

use crate::estimator::{EstimatorState, Quality, Sample};

verus! {

/// A 128-bit pattern read as signed.
pub open spec fn signed_ns(x: u128) -> int {
    if x < 0x8000_0000_0000_0000_0000_0000_0000_0000 {
        x as int
    } else {
        x - 0x1_0000_0000_0000_0000_0000_0000_0000_0000int
    }
}

/// How far a sample's server time is ahead of its local reading, in
/// nanoseconds.
pub open spec fn lead_of(s: Sample) -> int {
    signed_ns(s.server_ns) - 1_000 * s.local_us
}

/// The leads of all samples together.
pub open spec fn all_leads(w: Seq<Sample>) -> int {
    w.fold_left(0int, |sum: int, s: Sample| sum + lead_of(s))
}

/// Whether `m` is the `n`-th part of `sum`, without the fraction.
pub open spec fn is_share(sum: int, n: int, m: int) -> bool {
    if sum >= 0 {
        0 <= sum - n * m < n
    } else {
        -n < sum - n * m <= 0
    }
}

/// The whole microseconds between a sample's lead and `m`.
pub open spec fn stray_us(s: Sample, m: int) -> int {
    (if lead_of(s) >= m {
        lead_of(s) - m
    } else {
        m - lead_of(s)
    }) / 1_000
}

/// The squared strays of all samples together.
pub open spec fn all_strays(w: Seq<Sample>, m: int) -> int {
    w.fold_left(0int, |sum: int, s: Sample| sum + stray_us(s, m) * stray_us(s, m))
}

proof fn lemma_leads(w: Seq<Sample>)
    ensures
        crate::estimator::sum_offsets(w) == all_leads(w),
    decreases w.len(),
{
    if w.len() > 0 {
        lemma_leads(w.drop_last());
    }
}

proof fn lemma_strays(w: Seq<Sample>, m: int)
    ensures
        crate::estimator::sum_squares(w, m) == all_strays(w, m),
    decreases w.len(),
{
    if w.len() > 0 {
        lemma_strays(w.drop_last(), m);
        assert(crate::estimator::residual_us(w.last(), m) == stray_us(w.last(), m));
    }
}

/// The offset of a window is the arithmetic mean of its samples' leads, without
/// the fraction of a nanosecond. All samples count alike, none is left out.
pub proof fn law_offset_is_the_mean(w: Seq<Sample>)
    requires
        w.len() > 0,
    ensures
        is_share(all_leads(w), w.len() as int, crate::estimator::mean_offset(w)),
        -w.len() < w.len() * crate::estimator::mean_offset(w) - all_leads(w) < w.len(),
{
    lemma_leads(w);
    crate::arith_laws::law_quotient_leaves_a_small_remainder(all_leads(w), w.len() as int);
}

/// Conversions go by the mean: a local reading is at a thousand nanoseconds per
/// microsecond plus the mean lead, and a server time less the mean lead is at
/// so many whole microseconds. There is no answer below eight samples or below
/// zero; sums end at the ends of 128 signed bits, and readings keep 64 bits.
pub proof fn law_conversions_go_by_the_mean(w: Seq<Sample>, m: int, local_us: u64, server_ns: u128)
    requires
        w.len() > 0,
        is_share(all_leads(w), w.len() as int, m),
    ensures
        ({
            let at = m + 1_000 * local_us;
            crate::estimator::server_time_at(w, local_us) == (if w.len() < 8 || at < 0 {
                None
            } else if at > i128::MAX {
                Some(i128::MAX as u128)
            } else {
                Some(at as u128)
            })
        }),
        ({
            let since = signed_ns(server_ns) - m;
            let limited = if since > i128::MAX {
                i128::MAX as int
            } else {
                since
            };
            crate::estimator::local_time_at(w, server_ns) == (if w.len() < 8 || since < 0 {
                None
            } else {
                Some(((limited / 1_000) % 0x1_0000_0000_0000_0000) as u64)
            })
        }),
{
    lemma_leads(w);
    crate::arith_laws::lemma_quotient_is_unique(all_leads(w), w.len() as int, m);
}

proof fn lemma_leads_after_update(w: Seq<Sample>, i: int, x: Sample)
    requires
        0 <= i < w.len(),
    ensures
        all_leads(w.update(i, x)) == all_leads(w) - lead_of(w[i]) + lead_of(x),
    decreases w.len(),
{
    let u = w.update(i, x);
    if i == w.len() - 1 {
        assert(u.drop_last() =~= w.drop_last());
    } else {
        lemma_leads_after_update(w.drop_last(), i, x);
        assert(u.drop_last() =~= w.drop_last().update(i, x));
    }
}

/// Raising one sample's server time by `d` for every sample of the window raises
/// every predicted server time by `d`: exactly where the leads sum to zero or
/// more, and to within the nanosecond that rounding costs elsewhere.
pub proof fn law_every_sample_pulls_alike(w: Seq<Sample>, i: int, d: nat, local_us: u64)
    requires
        8 <= w.len(),
        0 <= i < w.len(),
        w[i].server_ns + w.len() * d <= i128::MAX,
        crate::estimator::server_time_at(w, local_us) is Some,
        crate::estimator::mean_offset(w) + d + 1 + 1_000 * local_us <= i128::MAX,
    ensures
        ({
            let raised = w.update(
                i,
                Sample { server_ns: (w[i].server_ns + w.len() * d) as u128, ..w[i] },
            );
            let before = crate::estimator::server_time_at(w, local_us);
            let after = crate::estimator::server_time_at(raised, local_us);
            &&& d > 0 ==> after is Some
            &&& after is Some ==> -1 <= after->0 - before->0 - d <= 1
            &&& all_leads(w) >= 0 ==> after is Some && after->0 == before->0 + d
        }),
{
    let n = w.len() as int;
    let raised = w.update(i, Sample { server_ns: (w[i].server_ns + w.len() * d) as u128, ..w[i] });
    assert(n * d >= 0) by (nonlinear_arith)
        requires
            n >= 0,
            d >= 0,
    ;
    lemma_leads_after_update(w, i, raised[i]);
    let s = all_leads(w);
    let m = crate::estimator::mean_offset(w);
    let r = crate::estimator::mean_offset(raised);
    law_offset_is_the_mean(w);
    law_offset_is_the_mean(raised);
    law_conversions_go_by_the_mean(w, m, local_us, 0);
    law_conversions_go_by_the_mean(raised, r, local_us, 0);
    assert(all_leads(raised) == s + n * d);
    assert(-1 <= r - m - d <= 1) by (nonlinear_arith)
        requires
            n > 0,
            -n < n * m - s < n,
            -n < n * r - (s + n * d) < n,
    ;
    if s >= 0 {
        assert(r == m + d) by (nonlinear_arith)
            requires
                n > 0,
                0 <= s - n * m < n,
                0 <= s + n * d - n * r < n,
        ;
    }
}

/// The spread is twice the square root of the mean squared stray from the mean,
/// in whole microseconds at each step; the sum ends at 128 bits and the result
/// at 32.
pub proof fn law_spread_is_twice_the_root_mean_square(w: Seq<Sample>, m: int, v: int, s: int)
    requires
        w.len() > 0,
        is_share(all_leads(w), w.len() as int, m),
        is_share(
            if all_strays(w, m) > u128::MAX {
                u128::MAX as int
            } else {
                all_strays(w, m)
            },
            w.len() as int,
            v,
        ),
        0 <= s,
        s * s <= v,
        v < (s + 1) * (s + 1),
    ensures
        crate::estimator::spread_us(w) == (if 2 * s > u32::MAX {
            u32::MAX as int
        } else {
            2 * s
        }),
{
    let n = w.len() as int;
    lemma_leads(w);
    lemma_strays(w, m);
    lemma_strays_nonneg(w, m);
    crate::arith_laws::lemma_quotient_is_unique(all_leads(w), n, m);
    let sum = if all_strays(w, m) > u128::MAX {
        u128::MAX as int
    } else {
        all_strays(w, m)
    };
    crate::arith_laws::lemma_quotient_is_unique(sum, n, v);
    assert(crate::estimator::variance_us(w) == v);
    crate::arith_laws::law_square_root_brackets(v, s);
}

proof fn lemma_strays_nonneg(w: Seq<Sample>, m: int)
    ensures
        all_strays(w, m) >= 0,
    decreases w.len(),
{
    if w.len() > 0 {
        lemma_strays_nonneg(w.drop_last(), m);
        let r = stray_us(w.last(), m);
        assert(r * r >= 0) by (nonlinear_arith);
    }
}

/// A million times the server time from one sample to another, within 128
/// signed bits.
pub open spec fn scaled_span(from: Sample, to: Sample) -> int {
    let x = 1_000_000 * (signed_ns(to.server_ns) - signed_ns(from.server_ns));
    if x > i128::MAX {
        i128::MAX as int
    } else if x < i128::MIN {
        i128::MIN as int
    } else {
        x
    }
}

/// The drift goes by the first sample with the smallest local reading and the
/// first with the largest: none if they are a second apart or less, else the
/// server nanoseconds per million local microseconds, without the fraction,
/// less a thousand million, within a million either way.
pub proof fn law_drift_goes_by_the_ends(w: Seq<Sample>, i: int, j: int, slope: int)
    requires
        0 <= i < w.len(),
        0 <= j < w.len(),
        forall|k: int| 0 <= k < w.len() ==> w[i].local_us <= (#[trigger] w[k]).local_us,
        forall|k: int| 0 <= k < i ==> w[i].local_us < (#[trigger] w[k]).local_us,
        forall|k: int| 0 <= k < w.len() ==> (#[trigger] w[k]).local_us <= w[j].local_us,
        forall|k: int| 0 <= k < j ==> (#[trigger] w[k]).local_us < w[j].local_us,
        w[j].local_us > w[i].local_us + 1_000_000 ==> is_share(
            scaled_span(w[i], w[j]),
            w[j].local_us - w[i].local_us,
            slope,
        ),
    ensures
        ({
            let drift = crate::estimator::drift_between(
                crate::estimator::oldest(w),
                crate::estimator::newest(w),
            );
            if w[j].local_us <= w[i].local_us + 1_000_000 {
                drift == 0
            } else {
                let off = slope - 1_000_000_000;
                drift == (if off > 1_000_000 {
                    1_000_000
                } else if off < -1_000_000 {
                    -1_000_000
                } else {
                    off
                })
            }
        }),
{
    assert(crate::estimator::is_oldest(w, i));
    assert(crate::estimator::is_newest(w, j));
    crate::estimator::lemma_oldest(w, i);
    crate::estimator::lemma_newest(w, j);
    if w[j].local_us > w[i].local_us + 1_000_000 {
        crate::arith_laws::lemma_quotient_is_unique(
            scaled_span(w[i], w[j]),
            w[j].local_us - w[i].local_us,
            slope,
        );
    }
}

/// A snapshot counts the samples of the window and gives the last update; below
/// eight samples it has no drift and no spread, from there on those of the
/// window.
pub proof fn law_snapshot_is_of_the_window(st: EstimatorState, q: Quality)
    requires
        crate::estimator::quality_of(st, q),
    ensures
        q.n_samples == st.slots.len(),
        q.last_update_us == st.last_update_us,
        st.slots.len() < 8 ==> q.drift_ppb == 0 && q.residual_us_p95 == 0xffff_ffff,
        st.slots.len() >= 8 ==> q.drift_ppb == crate::estimator::drift_between(
            crate::estimator::oldest(st.slots),
            crate::estimator::newest(st.slots),
        ) && q.residual_us_p95 == crate::estimator::spread_us(st.slots),
{
}

/// Every sample that clocks can give is taken in, whatever such samples are in
/// the window: local readings below 2^63 µs, and server times within as many
/// thousands of nanoseconds.
pub proof fn law_clock_readings_are_accepted(st: EstimatorState, s: Sample)
    requires
        st.valid(),
        s.local_us < 0x8000_0000_0000_0000,
        s.server_ns <= 1_000 * 0x7fff_ffff_ffff_ffff,
        forall|i: int|
            0 <= i < st.slots.len() ==> (#[trigger] st.slots[i]).local_us < 0x8000_0000_0000_0000
                && st.slots[i].server_ns <= 1_000 * 0x7fff_ffff_ffff_ffff,
    ensures
        st.accepts(s),
{
    let after = st.push(s).slots;
    assert forall|i: int| 0 <= i < after.len() implies crate::estimator::plausible(
        #[trigger] after[i],
    ) by {
        if i < st.slots.len() {
            assert(after[i] == s || after[i] == st.slots[i]);
            assert(st.slots[i].local_us < 0x8000_0000_0000_0000);
        }
    }
    crate::estimator::lemma_plausible_fits(after);
}

/// A sample is taken in exactly when all that its window's fit goes through is
/// representable: each lead, each sum of leads from the front, and with eight
/// samples the reading a second after the oldest, the server time between the
/// ends if they are further apart, and each sample's distance from the mean and
/// its square.
pub proof fn law_samples_whose_fit_is_representable_are_accepted(
    st: EstimatorState,
    s: Sample,
    m: int,
)
    requires
        st.valid(),
        is_share(all_leads(st.push(s).slots), st.push(s).slots.len() as int, m),
    ensures
        ({
            let w = st.push(s).slots;
            let o = crate::estimator::oldest(w);
            let n = crate::estimator::newest(w);
            let span = signed_ns(n.server_ns) - signed_ns(o.server_ns);
            st.accepts(s) <==> {
                &&& forall|i: int|
                    0 <= i < w.len() ==> i128::MIN <= lead_of(#[trigger] w[i]) <= i128::MAX
                &&& forall|j: int|
                    0 <= j <= w.len() ==> i128::MIN <= all_leads(#[trigger] w.take(j)) <= i128::MAX
                &&& w.len() >= 8 ==> {
                    &&& o.local_us + 1_000_000 <= u64::MAX
                    &&& n.local_us > o.local_us + 1_000_000 ==> i128::MIN <= span <= i128::MAX
                    &&& forall|i: int|
                        0 <= i < w.len() ==> {
                            &&& i128::MIN <= lead_of(#[trigger] w[i]) - m <= i128::MAX
                            &&& stray_us(w[i], m) * stray_us(w[i], m) <= u128::MAX
                        }
                }
            }
        }),
{
    let w = st.push(s).slots;
    lemma_leads(w);
    crate::arith_laws::lemma_quotient_is_unique(all_leads(w), w.len() as int, m);
    if crate::estimator::plausible(s) && crate::estimator::all_plausible(st.slots) {
        assert forall|i: int| 0 <= i < w.len() implies crate::estimator::plausible(
            #[trigger] w[i],
        ) by {
            if i < st.slots.len() {
                assert(w[i] == s || w[i] == st.slots[i]);
                assert(crate::estimator::plausible(st.slots[i]));
            }
        }
        crate::estimator::lemma_plausible_fits(w);
    }
    assert(st.accepts(s) <==> crate::estimator::fit_fits(w));
    assert forall|i: int| 0 <= i < w.len() implies crate::estimator::offset_of(w[i]) == lead_of(
        #[trigger] w[i],
    ) && crate::estimator::residual_us(w[i], m) == stray_us(w[i], m) by {}
    assert forall|j: int| 0 <= j <= w.len() implies crate::estimator::sum_offsets(w.take(j))
        == all_leads(#[trigger] w.take(j)) by {
        lemma_leads(w.take(j));
    }
    if crate::estimator::fit_fits(w) {
        assert forall|i: int| 0 <= i < w.len() implies i128::MIN <= lead_of(#[trigger] w[i])
            <= i128::MAX by {
            assert(crate::arith::fits_i128(crate::estimator::offset_of(w[i])));
        }
        assert forall|j: int| 0 <= j <= w.len() implies i128::MIN <= all_leads(
            #[trigger] w.take(j),
        ) <= i128::MAX by {
            assert(crate::arith::fits_i128(crate::estimator::sum_offsets(w.take(j))));
        }
    }
}

/// After any run of observations the window holds the latest 256 of them, each
/// as often as it was made, and nothing else; the last update is the reading of
/// the last one.
pub proof fn law_window_is_of_the_latest(observed: Seq<Sample>)
    ensures
        ({
            let st = observed.fold_left(
                EstimatorState { slots: Seq::empty(), head: 0, last_update_us: 0 },
                |st: EstimatorState, s: Sample| st.push(s),
            );
            let latest = if observed.len() <= 256 {
                observed
            } else {
                observed.skip(observed.len() - 256)
            };
            &&& st.slots.to_multiset() == latest.to_multiset()
            &&& st.last_update_us == (if observed.len() > 0 {
                observed.last().local_us
            } else {
                0
            })
        }),
{
    let st = crate::estimator::state_after(observed);
    lemma_run(observed);
    crate::estimator_laws::law_window_holds_latest(observed);
    if st.slots.len() >= 256 {
        let front = st.slots.take(st.head);
        let back = st.slots.skip(st.head);
        vstd::seq_lib::lemma_multiset_commutative(front, back);
        vstd::seq_lib::lemma_multiset_commutative(back, front);
        assert(front + back =~= st.slots);
        assert(front.to_multiset().add(back.to_multiset()) =~= back.to_multiset().add(
            front.to_multiset(),
        ));
    }
}

proof fn lemma_run(observed: Seq<Sample>)
    ensures
        crate::estimator::state_after(observed) == observed.fold_left(
            EstimatorState { slots: Seq::empty(), head: 0, last_update_us: 0 },
            |st: EstimatorState, s: Sample| st.push(s),
        ),
    decreases observed.len(),
{
    if observed.len() > 0 {
        lemma_run(observed.drop_last());
    }
}

} // verus!
