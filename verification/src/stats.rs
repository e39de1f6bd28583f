//! Running statistics of the skew in one direction.

use std::collections::VecDeque;

use vstd::prelude::*;

use crate::arith::{div_i128, div_i64, i64_from_i128};
use crate::text::{push_dec_padded, push_signed_padded};

verus! {

/// How many of the latest magnitudes the percentile goes by.
pub const RECENT: usize = 1024;

/// A difference in whole microseconds, rounded towards zero, low 64 bits.
pub open spec fn delta_us(delta_ns: i128) -> int {
    crate::arith::as_i64(crate::arith::trunc_div(delta_ns as int, 1_000))
}

/// `a` with one more magnitude at the end, without the oldest once there are
/// more than [`RECENT`].
pub open spec fn slide(a: Seq<u64>, magnitude: int) -> Seq<u64> {
    let longer = a.push(magnitude as u64);
    if longer.len() > RECENT {
        longer.skip(1)
    } else {
        longer
    }
}

/// Numbers in ascending order.
pub open spec fn ascending(a: Seq<u64>) -> Seq<u64> {
    a.sort_by(|x: u64, y: u64| x <= y)
}

/// The value below which 99 of 100 of the numbers lie.
pub open spec fn percentile_99(a: Seq<u64>) -> int {
    ascending(a)[a.len() as int * 99 / 100] as int
}

/// What the statistics of a direction hold.
#[verifier::ext_equal]
pub struct StatsState {
    /// How many differences were recorded.
    pub n: int,
    pub sum_us: int,
    pub sum_sq_us: int,
    pub max_abs_us: int,
    /// The latest magnitudes, oldest first.
    pub recent: Seq<u64>,
    pub p99_abs_us: int,
    pub mean_us: int,
    pub variance_us: int,
}

impl StatsState {
    /// Nothing recorded yet.
    pub open spec fn empty() -> StatsState {
        StatsState {
            n: 0,
            sum_us: 0,
            sum_sq_us: 0,
            max_abs_us: 0,
            recent: Seq::empty(),
            p99_abs_us: 0,
            mean_us: 0,
            variance_us: 0,
        }
    }

    /// The counts are within their types, and the magnitudes are as many as
    /// were recorded, up to [`RECENT`].
    pub open spec fn valid(self) -> bool {
        &&& 0 <= self.n <= i64::MAX
        &&& 0 <= self.sum_sq_us
        &&& self.recent.len() == (if self.n < RECENT {
            self.n
        } else {
            RECENT as int
        })
    }

    /// The state after one more difference.
    pub open spec fn record(self, delta_ns: i128) -> StatsState {
        let d = delta_us(delta_ns);
        let magnitude = crate::arith::abs_int(d);
        let n = self.n + 1;
        let sum_us = self.sum_us + d;
        let sum_sq_us = self.sum_sq_us + d * d;
        let recent = slide(self.recent, magnitude);
        let mean_us = crate::arith::trunc_div(sum_us, n);
        let spread = crate::arith::trunc_div(sum_sq_us, n) - mean_us * mean_us;
        StatsState {
            n,
            sum_us,
            sum_sq_us,
            max_abs_us: if magnitude > self.max_abs_us {
                magnitude
            } else {
                self.max_abs_us
            },
            recent,
            p99_abs_us: percentile_99(recent),
            mean_us,
            variance_us: if spread > 0 {
                spread
            } else {
                0
            },
        }
    }

    /// Whether one more difference keeps the sums representable.
    pub open spec fn accepts(self, delta_ns: i128) -> bool {
        let d = delta_us(delta_ns);
        &&& self.n < i64::MAX
        &&& crate::arith::fits_i64(self.sum_us + d)
        &&& crate::arith::fits_i128(self.sum_sq_us + d * d)
    }
}

/// The line about a direction, given the standard deviation.
pub open spec fn stats_line(label: Seq<char>, st: StatsState, stddev_us: u64) -> Seq<char> {
    label + "  n="@ + crate::text::pad_left(crate::text::dec(st.n as nat), 5) + "  mean="@
        + crate::text::pad_left(crate::text::dec_with_sign(st.mean_us), 6) + "µs  stddev="@
        + crate::text::pad_left(crate::text::dec(stddev_us as nat), 5) + "µs  p99="@
        + crate::text::pad_left(crate::text::dec(st.p99_abs_us as nat), 5) + "µs  max|Δ|="@
        + crate::text::pad_left(crate::text::dec(st.max_abs_us as nat), 5) + "µs"@
}

/// Running statistics of the skew in one direction.
#[derive(Clone, Debug)]
pub struct DirStats {
    n: u64,
    sum_us: i64,
    sum_sq_us: i128,
    max_abs_us: u64,
    recent_abs_us: VecDeque<u64>,
    p99_abs_us: u64,
    mean_us: i64,
    variance_us: u128,
}

impl View for DirStats {
    type V = StatsState;

    closed spec fn view(&self) -> StatsState {
        StatsState {
            n: self.n as int,
            sum_us: self.sum_us as int,
            sum_sq_us: self.sum_sq_us as int,
            max_abs_us: self.max_abs_us as int,
            recent: self.recent_abs_us@,
            p99_abs_us: self.p99_abs_us as int,
            mean_us: self.mean_us as int,
            variance_us: self.variance_us as int,
        }
    }
}

impl Default for DirStats {
    fn default() -> (s: Self)
        ensures
            s@ == StatsState::empty(),
    {
        DirStats {
            n: 0,
            sum_us: 0,
            sum_sq_us: 0,
            max_abs_us: 0,
            recent_abs_us: VecDeque::new(),
            p99_abs_us: 0,
            mean_us: 0,
            variance_us: 0,
        }
    }
}

/// The numbers of a queue in ascending order.
fn sorted_copy(q: &VecDeque<u64>) -> (v: Vec<u64>)
    ensures
        v@ == ascending(q@),
        v@.len() == q@.len(),
{
    let ghost leq = |x: u64, y: u64| x <= y;
    let mut v: Vec<u64> = Vec::new();
    let mut i: usize = 0;
    assert(v@ =~= q@.take(0));
    while i < q.len()
        invariant
            i <= q@.len(),
            v@.len() == i,
            v@.to_multiset() == q@.take(i as int).to_multiset(),
            forall|a: int, b: int| 0 <= a < b < v@.len() ==> v@[a] <= v@[b],
        decreases q@.len() - i,
    {
        let x: u64 = q[i];
        let mut at: usize = v.len();
        while at > 0 && v[at - 1] > x
            invariant
                at <= v@.len(),
                forall|a: int| at <= a < v@.len() ==> x < v@[a],
            decreases at,
        {
            at = at - 1;
        }
        proof {
            broadcast use vstd::seq_lib::group_to_multiset_ensures;

            assert(q@.take(i + 1) =~= q@.take(i as int).push(x));
        }
        v.insert(at, x);
        i = i + 1;
    }
    proof {
        assert(q@.take(i as int) =~= q@);
        q@.lemma_sort_by_ensures(leq);
        vstd::seq_lib::lemma_sorted_unique(v@, ascending(q@), leq);
    }
    v
}

impl DirStats {
    /// The invariant of the statistics.
    pub open spec fn wf(&self) -> bool {
        self@.valid()
    }

    /// Whether one more difference can be recorded.
    pub fn can_record(&self, delta_ns: i128) -> (b: bool)
        requires
            self.wf(),
        ensures
            b == self@.accepts(delta_ns),
    {
        let d: i64 = i64_from_i128(div_i128(delta_ns, 1_000));
        let square: i128 = square_of(d);
        self.n < i64::MAX as u64 && self.sum_us.checked_add(d).is_some()
            && self.sum_sq_us.checked_add(square).is_some()
    }

    /// Records a difference. The limit does not enter the statistics.
    pub fn record(&mut self, delta_ns: i128, _limit_ns: i128)
        requires
            old(self).wf(),
            old(self)@.accepts(delta_ns),
        ensures
            final(self).wf(),
            final(self)@ == old(self)@.record(delta_ns),
    {
        let delta_us: i64 = i64_from_i128(div_i128(delta_ns, 1_000));
        self.n = self.n + 1;
        self.sum_us = self.sum_us + delta_us;
        self.sum_sq_us = self.sum_sq_us + square_of(delta_us);
        let magnitude: u64 = if delta_us < 0 {
            (-(delta_us as i128)) as u64
        } else {
            delta_us as u64
        };
        if magnitude > self.max_abs_us {
            self.max_abs_us = magnitude;
        }
        self.recent_abs_us.push_back(magnitude);
        if self.recent_abs_us.len() > RECENT {
            let _oldest = self.recent_abs_us.pop_front();
        }
        assert(self.recent_abs_us@ =~= slide(old(self)@.recent, magnitude as int));
        let sorted: Vec<u64> = sorted_copy(&self.recent_abs_us);
        let idx: usize = sorted.len() * 99 / 100;
        self.p99_abs_us = sorted[idx];
        self.mean_us = div_i64(self.sum_us, self.n as i64);
        let mean_square: i128 = div_i128(self.sum_sq_us, self.n as i128);
        assert(0 <= mean_square) by {
            vstd::arithmetic::div_mod::lemma_div_pos_is_pos(self.sum_sq_us as int, self.n as int);
        }
        let spread: i128 = mean_square - square_of(self.mean_us);
        self.variance_us =
        if spread > 0 {
            spread as u128
        } else {
            0
        };
    }

    /// How many differences were recorded.
    pub fn count(&self) -> (n: u64)
        ensures
            n == self@.n,
    {
        self.n
    }

    /// The largest magnitude, in microseconds.
    pub fn max_abs_us(&self) -> (v: u64)
        ensures
            v == self@.max_abs_us,
    {
        self.max_abs_us
    }

    /// The 99th percentile of the latest magnitudes, in microseconds.
    pub fn p99_abs_us(&self) -> (v: u64)
        ensures
            v == self@.p99_abs_us,
    {
        self.p99_abs_us
    }

    /// The mean, in microseconds.
    pub fn mean_us(&self) -> (v: i64)
        ensures
            v == self@.mean_us,
    {
        self.mean_us
    }

    /// The variance, in square microseconds.
    pub fn variance_us(&self) -> (v: u128)
        ensures
            v == self@.variance_us,
    {
        self.variance_us
    }

    /// The line about this direction, given the standard deviation.
    pub fn format(&self, label: &str, stddev_us: u64) -> (out: String)
        ensures
            out@ == stats_line(label@, self@, stddev_us),
    {
        let mut out: String = String::new();
        out.append(label);
        assert(out@ =~= label@);
        out.append("  n=");
        push_dec_padded(&mut out, self.n as u128, 5);
        out.append("  mean=");
        push_signed_padded(&mut out, self.mean_us, 6);
        out.append("µs  stddev=");
        push_dec_padded(&mut out, stddev_us as u128, 5);
        out.append("µs  p99=");
        push_dec_padded(&mut out, self.p99_abs_us as u128, 5);
        out.append("µs  max|Δ|=");
        push_dec_padded(&mut out, self.max_abs_us as u128, 5);
        out.append("µs");
        out
    }
}

/// The square of a number.
fn square_of(x: i64) -> (r: i128)
    ensures
        r == x * x,
        0 <= r <= 0x4000_0000_0000_0000_0000_0000_0000_0000,
{
    assert(0 <= x * x <= 0x4000_0000_0000_0000_0000_0000_0000_0000) by (nonlinear_arith)
        requires
            -0x8000_0000_0000_0000 <= x <= 0x8000_0000_0000_0000,
    ;
    (x as i128) * (x as i128)
}

/// The statistics after a run of differences.
pub open spec fn stats_after(deltas: Seq<i128>) -> StatsState
    decreases deltas.len(),
{
    if deltas.len() == 0 {
        StatsState::empty()
    } else {
        stats_after(deltas.drop_last()).record(deltas.last())
    }
}

/// Sum of a run of differences, in microseconds.
pub open spec fn sum_of(deltas: Seq<i128>) -> int
    decreases deltas.len(),
{
    if deltas.len() == 0 {
        0
    } else {
        sum_of(deltas.drop_last()) + delta_us(deltas.last())
    }
}

/// Sum of the squares of a run of differences, in square microseconds.
pub open spec fn sum_sq_of(deltas: Seq<i128>) -> int
    decreases deltas.len(),
{
    if deltas.len() == 0 {
        0
    } else {
        sum_sq_of(deltas.drop_last()) + delta_us(deltas.last()) * delta_us(deltas.last())
    }
}

/// Magnitude of a difference, in microseconds.
pub open spec fn magnitude_us(delta_ns: i128) -> int {
    crate::arith::abs_int(delta_us(delta_ns))
}

/// The statistics count every difference, sum them and their squares, and keep
/// the magnitudes of the latest ones in order.
pub proof fn law_statistics_cover_the_run(deltas: Seq<i128>)
    ensures
        stats_after(deltas).n == deltas.len(),
        stats_after(deltas).sum_us == sum_of(deltas),
        stats_after(deltas).sum_sq_us == sum_sq_of(deltas),
        stats_after(deltas).recent.len() == (if deltas.len() < RECENT {
            deltas.len() as int
        } else {
            RECENT as int
        }),
        forall|i: int|
            0 <= i < stats_after(deltas).recent.len() ==> (#[trigger] stats_after(deltas).recent[i])
                == magnitude_us(deltas[deltas.len() - stats_after(deltas).recent.len() + i]),
        deltas.len() > 0 ==> stats_after(deltas).mean_us == crate::arith::trunc_div(
            sum_of(deltas),
            deltas.len() as int,
        ),
    decreases deltas.len(),
{
    if deltas.len() > 0 {
        let before = deltas.drop_last();
        law_statistics_cover_the_run(before);
        let old_recent = stats_after(before).recent;
        let recent = stats_after(deltas).recent;
        assert forall|i: int| 0 <= i < recent.len() implies (#[trigger] recent[i]) == magnitude_us(
            deltas[deltas.len() - recent.len() + i],
        ) by {
            if i < recent.len() - 1 {
                let k = if old_recent.len() < RECENT {
                    i
                } else {
                    i + 1
                };
                assert(recent[i] == old_recent[k]);
                assert(before[before.len() - old_recent.len() + k] == deltas[deltas.len()
                    - recent.len() + i]);
            }
        }
    }
}

/// The maximum is reached and never passed: it exceeds a limit exactly when
/// some difference did.
pub proof fn law_maximum_shows_every_overshoot(deltas: Seq<i128>, limit_us: u64)
    ensures
        stats_after(deltas).max_abs_us > limit_us <==> exists|i: int|
            0 <= i < deltas.len() && magnitude_us(#[trigger] deltas[i]) > limit_us,
    decreases deltas.len(),
{
    if deltas.len() > 0 {
        let before = deltas.drop_last();
        law_maximum_shows_every_overshoot(before, limit_us);
        if stats_after(before).max_abs_us > limit_us {
            let i = choose|i: int|
                0 <= i < before.len() && magnitude_us(#[trigger] before[i]) > limit_us;
            assert(magnitude_us(deltas[i]) > limit_us);
        } else if stats_after(deltas).max_abs_us > limit_us {
            assert(magnitude_us(deltas[deltas.len() - 1]) > limit_us);
        }
        assert forall|i: int|
            0 <= i < deltas.len() && magnitude_us(#[trigger] deltas[i])
                > limit_us implies stats_after(deltas).max_abs_us > limit_us by {
            if i < before.len() {
                assert(before[i] == deltas[i]);
            }
        }
    }
}

/// A part of a sequence selected by a predicate is no longer than the sequence.
proof fn lemma_selected_len(a: Seq<u64>, select: spec_fn(u64) -> bool)
    ensures
        a.to_multiset().filter(select).len() <= a.len(),
        (forall|i: int| 0 <= i < a.len() ==> select(#[trigger] a[i])) ==> a.to_multiset().filter(
            select,
        ) == a.to_multiset(),
        (forall|i: int| 0 <= i < a.len() ==> !select(#[trigger] a[i])) ==> a.to_multiset().filter(
            select,
        ).len() == 0,
{
    broadcast use vstd::seq_lib::group_to_multiset_ensures;
    broadcast use vstd::multiset::group_multiset_axioms;
    broadcast use vstd::multiset::group_multiset_properties;

    let m = a.to_multiset();
    let kept = m.filter(select);
    let rest = m.sub(kept);
    assert(m =~= kept.add(rest));
    if forall|i: int| 0 <= i < a.len() ==> select(#[trigger] a[i]) {
        assert forall|x: u64| m.contains(x) implies select(x) by {
            assert(a.contains(x));
        }
        assert(kept =~= m);
    }
    if forall|i: int| 0 <= i < a.len() ==> !select(#[trigger] a[i]) {
        assert forall|x: u64| kept.count(x) == 0 by {
            if m.contains(x) {
                assert(a.contains(x));
            }
        }
        assert(kept =~= vstd::multiset::Multiset::empty());
    }
}

/// The percentile is one of the magnitudes; at most 99 in a hundred of them
/// lie below it, and more than 99 in a hundred do not lie above it.
pub proof fn law_percentile_has_its_rank(recent: Seq<u64>)
    requires
        recent.len() > 0,
    ensures
        exists|i: int| 0 <= i < recent.len() && percentile_99(recent) == #[trigger] recent[i],
        recent.to_multiset().filter(|x: u64| x < percentile_99(recent)).len() <= recent.len() * 99
            / 100,
        recent.to_multiset().filter(|x: u64| x <= percentile_99(recent)).len() > recent.len() * 99
            / 100,
{
    broadcast use vstd::multiset::group_multiset_axioms;
    broadcast use vstd::multiset::group_multiset_properties;

    let leq = |x: u64, y: u64| x <= y;
    let sorted = ascending(recent);
    let k = recent.len() as int * 99 / 100;
    recent.lemma_sort_by_ensures(leq);
    recent.to_multiset_ensures();
    sorted.to_multiset_ensures();
    let v = sorted[k];
    assert(sorted.contains(v));
    assert(recent.contains(v));
    let p = percentile_99(recent);
    let below = |x: u64| x < p;
    let up_to = |x: u64| x <= p;
    let front = sorted.take(k);
    let back = sorted.skip(k);
    assert(sorted =~= front + back);
    vstd::seq_lib::lemma_multiset_commutative(front, back);
    assert forall|i: int| 0 <= i < back.len() implies !below(#[trigger] back[i]) by {
        if i > 0 {
            assert(leq(sorted[k], sorted[k + i]));
        }
    }
    lemma_selected_len(front, below);
    lemma_selected_len(back, below);
    assert(sorted.to_multiset().filter(below) =~= front.to_multiset().filter(below).add(
        back.to_multiset().filter(below),
    ));
    let head = sorted.take(k + 1);
    let tail = sorted.skip(k + 1);
    assert(sorted =~= head + tail);
    vstd::seq_lib::lemma_multiset_commutative(head, tail);
    assert forall|i: int| 0 <= i < head.len() implies up_to(#[trigger] head[i]) by {
        if i < k {
            assert(leq(sorted[i], sorted[k]));
        }
    }
    lemma_selected_len(head, up_to);
    head.to_multiset_ensures();
    assert(sorted.to_multiset().filter(up_to) =~= head.to_multiset().filter(up_to).add(
        tail.to_multiset().filter(up_to),
    ));
}

} // verus!
