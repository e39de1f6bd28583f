//! What the running statistics mean, stated over the run of differences.

use vstd::prelude::*;

use crate::stats::StatsState;

verus! {

/// The whole microseconds in a difference, towards zero.
pub open spec fn towards_zero(delta_ns: i128) -> int {
    if delta_ns >= 0 {
        delta_ns as int / 1_000
    } else {
        -((-delta_ns) / 1_000)
    }
}

/// The whole microseconds in a difference, as 64 signed bits hold them.
pub open spec fn whole_us(delta_ns: i128) -> int {
    let low = towards_zero(delta_ns) % 0x1_0000_0000_0000_0000;
    if low < 0x8000_0000_0000_0000 {
        low
    } else {
        low - 0x1_0000_0000_0000_0000
    }
}

/// The magnitude of a difference in whole microseconds.
pub open spec fn size_us(delta_ns: i128) -> int {
    if whole_us(delta_ns) < 0 {
        -whole_us(delta_ns)
    } else {
        whole_us(delta_ns)
    }
}

/// The microseconds of a run together.
pub open spec fn all_us(deltas: Seq<i128>) -> int {
    deltas.fold_left(0int, |sum: int, d: i128| sum + whole_us(d))
}

/// The squared microseconds of a run together.
pub open spec fn all_squares(deltas: Seq<i128>) -> int {
    deltas.fold_left(0int, |sum: int, d: i128| sum + whole_us(d) * whole_us(d))
}

/// A difference counts by its whole microseconds, rounded towards zero, which
/// are those of 64 signed bits if they fit.
pub proof fn law_differences_count_in_whole_microseconds(delta_ns: i128)
    ensures
        crate::stats::delta_us(delta_ns) == whole_us(delta_ns),
        crate::stats::magnitude_us(delta_ns) == size_us(delta_ns),
        i64::MIN <= towards_zero(delta_ns) <= i64::MAX ==> {
            &&& delta_ns >= 0 ==> 0 <= delta_ns - 1_000 * crate::stats::delta_us(delta_ns) < 1_000
            &&& delta_ns <= 0 ==> -1_000 < delta_ns - 1_000 * crate::stats::delta_us(delta_ns) <= 0
        },
{
}

proof fn lemma_sums(deltas: Seq<i128>)
    ensures
        crate::stats::sum_of(deltas) == all_us(deltas),
        crate::stats::sum_sq_of(deltas) == all_squares(deltas),
        all_squares(deltas) >= 0,
    decreases deltas.len(),
{
    if deltas.len() > 0 {
        lemma_sums(deltas.drop_last());
        law_differences_count_in_whole_microseconds(deltas.last());
        let d = whole_us(deltas.last());
        assert(d * d >= 0) by (nonlinear_arith);
    }
}

/// After a run the statistics hold how many differences there were, their sum
/// and that of their squares, and the mean without its fraction.
pub proof fn law_count_and_mean_are_of_the_run(deltas: Seq<i128>)
    ensures
        crate::stats::stats_after(deltas).n == deltas.len(),
        crate::stats::stats_after(deltas).sum_us == all_us(deltas),
        crate::stats::stats_after(deltas).sum_sq_us == all_squares(deltas),
        deltas.len() > 0 ==> crate::fit_laws::is_share(
            all_us(deltas),
            deltas.len() as int,
            crate::stats::stats_after(deltas).mean_us,
        ),
        deltas.len() == 0 ==> {
            let st = crate::stats::stats_after(deltas);
            st.mean_us == 0 && st.variance_us == 0 && st.max_abs_us == 0 && st.p99_abs_us == 0
        },
{
    lemma_sums(deltas);
    crate::stats::law_statistics_cover_the_run(deltas);
    if deltas.len() > 0 {
        crate::arith_laws::law_quotient_leaves_a_small_remainder(
            all_us(deltas),
            deltas.len() as int,
        );
    }
}

/// After a run of any length the variance is the mean of the squares, `v`,
/// less the square of the mean, and not below zero.
pub proof fn law_variance_is_of_the_run(deltas: Seq<i128>, v: int)
    requires
        deltas.len() > 0,
        crate::fit_laws::is_share(all_squares(deltas), deltas.len() as int, v),
    ensures
        ({
            let st = crate::stats::stats_after(deltas);
            let spread = v - st.mean_us * st.mean_us;
            st.variance_us == (if spread > 0 {
                spread
            } else {
                0
            })
        }),
{
    law_count_and_mean_are_of_the_run(deltas);
    crate::arith_laws::lemma_quotient_is_unique(all_squares(deltas), deltas.len() as int, v);
}

proof fn lemma_equal_sums(deltas: Seq<i128>, d: i128)
    requires
        forall|i: int| 0 <= i < deltas.len() ==> #[trigger] deltas[i] == d,
    ensures
        all_us(deltas) == deltas.len() * whole_us(d),
        all_squares(deltas) == deltas.len() * (whole_us(d) * whole_us(d)),
    decreases deltas.len(),
{
    let n = deltas.len() as int;
    let u = whole_us(d);
    if n > 0 {
        let front = deltas.drop_last();
        assert forall|i: int| 0 <= i < front.len() implies #[trigger] front[i] == d by {
            assert(front[i] == deltas[i]);
        }
        lemma_equal_sums(front, d);
        assert(deltas.last() == deltas[n - 1]);
        assert(n * u == (n - 1) * u + u) by (nonlinear_arith);
        assert(n * (u * u) == (n - 1) * (u * u) + u * u) by (nonlinear_arith);
    } else {
        assert(n * u == 0 && n * (u * u) == 0) by (nonlinear_arith)
            requires
                n == 0,
        ;
    }
}

/// Equal differences have themselves as their mean, and no variance, however
/// many there are.
pub proof fn law_equal_differences_do_not_vary(deltas: Seq<i128>, d: i128)
    requires
        deltas.len() > 0,
        forall|i: int| 0 <= i < deltas.len() ==> #[trigger] deltas[i] == d,
    ensures
        crate::stats::stats_after(deltas).mean_us == whole_us(d),
        crate::stats::stats_after(deltas).variance_us == 0,
        crate::stats::stats_after(deltas).max_abs_us == size_us(d),
{
    let n = deltas.len() as int;
    let u = whole_us(d);
    lemma_equal_sums(deltas, d);
    assert(u * u >= 0) by (nonlinear_arith);
    assert(n * (u * u) >= 0) by (nonlinear_arith)
        requires
            n > 0,
            u * u >= 0,
    ;
    law_variance_is_of_the_run(deltas, u * u);
    law_count_and_mean_are_of_the_run(deltas);
    assert(u >= 0 ==> n * u >= 0) by (nonlinear_arith)
        requires
            n > 0,
    ;
    assert(u < 0 ==> n * u < 0) by (nonlinear_arith)
        requires
            n > 0,
    ;
    crate::arith_laws::lemma_quotient_is_unique(n * u, n, u);
    law_maximum_is_of_the_run(deltas);
    let i = choose|i: int|
        0 <= i < deltas.len() && crate::stats::stats_after(deltas).max_abs_us == size_us(
            #[trigger] deltas[i],
        );
    assert(deltas[i] == d);
}

/// The maximum is the size of some difference of the run, and none is larger.
pub proof fn law_maximum_is_of_the_run(deltas: Seq<i128>)
    ensures
        forall|i: int|
            0 <= i < deltas.len() ==> size_us(#[trigger] deltas[i]) <= crate::stats::stats_after(
                deltas,
            ).max_abs_us,
        deltas.len() == 0 ==> crate::stats::stats_after(deltas).max_abs_us == 0,
        deltas.len() > 0 ==> exists|i: int|
            0 <= i < deltas.len() && crate::stats::stats_after(deltas).max_abs_us == size_us(
                #[trigger] deltas[i],
            ),
    decreases deltas.len(),
{
    if deltas.len() > 0 {
        let front = deltas.drop_last();
        let last = deltas.len() - 1;
        law_maximum_is_of_the_run(front);
        law_differences_count_in_whole_microseconds(deltas.last());
        let before = crate::stats::stats_after(front).max_abs_us;
        let now = crate::stats::stats_after(deltas).max_abs_us;
        assert(deltas.last() == deltas[last]);
        assert forall|i: int| 0 <= i < deltas.len() implies size_us(#[trigger] deltas[i]) <= now by {
            if i < last {
                assert(front[i] == deltas[i]);
            }
        }
        if now == size_us(deltas[last]) {
        } else {
            let i = choose|i: int| 0 <= i < front.len() && before == size_us(#[trigger] front[i]);
            assert(front[i] == deltas[i]);
        }
    }
}

/// The percentile goes by the sizes of the latest 1024 differences, oldest
/// first: it is one of them, at most 99 in a hundred lie below it, and more
/// than 99 in a hundred do not lie above it.
pub proof fn law_percentile_is_of_the_latest(deltas: Seq<i128>)
    requires
        deltas.len() > 0,
    ensures
        ({
            let st = crate::stats::stats_after(deltas);
            let len = if deltas.len() < 1024 {
                deltas.len() as int
            } else {
                1024
            };
            &&& st.recent.len() == len
            &&& forall|i: int|
                0 <= i < len ==> (#[trigger] st.recent[i]) == size_us(deltas[deltas.len() - len + i])
            &&& exists|i: int| 0 <= i < len && st.p99_abs_us == #[trigger] st.recent[i]
            &&& st.recent.to_multiset().filter(|x: u64| x < st.p99_abs_us).len() <= len * 99 / 100
            &&& st.recent.to_multiset().filter(|x: u64| x <= st.p99_abs_us).len() > len * 99 / 100
        }),
{
    let st = crate::stats::stats_after(deltas);
    crate::stats::law_statistics_cover_the_run(deltas);
    crate::stats::law_percentile_has_its_rank(st.recent);
    let len = st.recent.len() as int;
    assert forall|i: int| 0 <= i < len implies (#[trigger] st.recent[i]) == size_us(
        deltas[deltas.len() - len + i],
    ) by {
        law_differences_count_in_whole_microseconds(deltas[deltas.len() - len + i]);
    }
    assert(st.p99_abs_us == crate::stats::percentile_99(st.recent));
}

/// A difference is recorded exactly when the count stays below 2^63, the sum
/// within 64 signed bits, and that of the squares within 128.
pub proof fn law_sums_within_their_types_are_recorded(st: StatsState, delta_ns: i128)
    ensures
        st.accepts(delta_ns) <==> {
            let d = whole_us(delta_ns);
            &&& st.n < 0x7fff_ffff_ffff_ffff
            &&& i64::MIN <= st.sum_us + d <= i64::MAX
            &&& i128::MIN <= st.sum_sq_us + d * d <= i128::MAX
        },
{
    law_differences_count_in_whole_microseconds(delta_ns);
}

/// The line about a direction shows the count, the mean with its sign, the given
/// deviation, the percentile and the maximum, each right-aligned behind its
/// name.
pub proof fn law_line_shows_the_statistics(label: Seq<char>, st: StatsState, stddev_us: u64)
    ensures
        crate::stats::stats_line(label, st, stddev_us) == label + "  n="@ + crate::text::pad_left(
            crate::text::dec(st.n as nat),
            5,
        ) + "  mean="@ + crate::text::pad_left(crate::text::dec_with_sign(st.mean_us), 6)
            + "µs  stddev="@ + crate::text::pad_left(crate::text::dec(stddev_us as nat), 5)
            + "µs  p99="@ + crate::text::pad_left(crate::text::dec(st.p99_abs_us as nat), 5)
            + "µs  max|Δ|="@ + crate::text::pad_left(crate::text::dec(st.max_abs_us as nat), 5)
            + "µs"@,
{
}

/// The statistics of a run come from recording its differences one after the
/// other, beginning with nothing.
pub proof fn law_runs_are_recorded_one_by_one(deltas: Seq<i128>)
    ensures
        crate::stats::stats_after(deltas) == deltas.fold_left(
            StatsState {
                n: 0,
                sum_us: 0,
                sum_sq_us: 0,
                max_abs_us: 0,
                recent: Seq::empty(),
                p99_abs_us: 0,
                mean_us: 0,
                variance_us: 0,
            },
            |st: StatsState, d: i128| st.record(d),
        ),
    decreases deltas.len(),
{
    if deltas.len() > 0 {
        law_runs_are_recorded_one_by_one(deltas.drop_last());
    }
}

} // verus!
