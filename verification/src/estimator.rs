//! The estimator: a sliding window of observations and the fit that maps a
//! local microsecond reading onto server nanoseconds.

use vstd::prelude::*;

use crate::arith::{div_i128, i128_from_u128, isqrt_u128, saturating_add_i128, saturating_sub_i128,
    u64_from_i128};

verus! {

/// Maximum number of samples kept in the window.
pub const WINDOW: usize = 256;

/// Number of samples needed before the estimator answers.
pub const MIN_SAMPLES: usize = 8;

/// One observation: server time `server_ns` was current when the local
/// microsecond clock read `local_us`.
#[derive(Clone, Copy, Debug, PartialEq, Eq, Structural)]
pub struct Sample {
    pub server_ns: u128,
    pub local_us: u64,
}

/// The parameters fitted to one window.
#[derive(Clone, Copy, Debug, PartialEq, Eq, Structural)]
pub struct Fit {
    /// Server nanoseconds at local microsecond zero.
    pub offset_ns: i128,
    /// Two-point frequency offset, in parts per billion.
    pub drift_ppb: i64,
    /// Twice the standard deviation of the per-sample offsets, in µs.
    pub residual_us_p95: u32,
}

/// Server time minus nominal local time of one sample, in nanoseconds.
pub open spec fn offset_of(s: Sample) -> int {
    crate::arith::as_i128(s.server_ns as int) - 1_000 * s.local_us
}

/// Sum of the offsets of a window.
pub open spec fn sum_offsets(w: Seq<Sample>) -> int
    decreases w.len(),
{
    if w.len() == 0 {
        0
    } else {
        sum_offsets(w.drop_last()) + offset_of(w.last())
    }
}

/// Mean offset of a window, rounded towards zero.
pub open spec fn mean_offset(w: Seq<Sample>) -> int {
    crate::arith::trunc_div(sum_offsets(w), w.len() as int)
}

/// Whether `i` is the first position with the smallest local reading.
pub open spec fn is_oldest(w: Seq<Sample>, i: int) -> bool {
    &&& 0 <= i < w.len()
    &&& forall|j: int| 0 <= j < w.len() ==> w[i].local_us <= #[trigger] w[j].local_us
    &&& forall|j: int| 0 <= j < i ==> w[i].local_us < #[trigger] w[j].local_us
}

/// Whether `i` is the first position with the largest local reading.
pub open spec fn is_newest(w: Seq<Sample>, i: int) -> bool {
    &&& 0 <= i < w.len()
    &&& forall|j: int| 0 <= j < w.len() ==> #[trigger] w[j].local_us <= w[i].local_us
    &&& forall|j: int| 0 <= j < i ==> #[trigger] w[j].local_us < w[i].local_us
}

/// The first sample with the smallest local reading.
pub open spec fn oldest(w: Seq<Sample>) -> Sample {
    w[choose|i: int| is_oldest(w, i)]
}

/// The first sample with the largest local reading.
pub open spec fn newest(w: Seq<Sample>) -> Sample {
    w[choose|i: int| is_newest(w, i)]
}

/// Server time elapsed from `o` to `n`, in nanoseconds.
pub open spec fn server_span(o: Sample, n: Sample) -> int {
    crate::arith::as_i128(n.server_ns as int) - crate::arith::as_i128(o.server_ns as int)
}

/// Frequency offset between two samples in parts per billion, limited to
/// one part per thousand; zero for samples a second apart or less.
pub open spec fn drift_between(o: Sample, n: Sample) -> int {
    if n.local_us > o.local_us + 1_000_000 {
        let scaled = crate::arith::clamp_int(
            server_span(o, n) * 1_000_000,
            i128::MIN as int,
            i128::MAX as int,
        );
        let slope = crate::arith::trunc_div(scaled, n.local_us - o.local_us);
        crate::arith::clamp_int(slope - 1_000_000_000, -1_000_000, 1_000_000)
    } else {
        0
    }
}

/// Distance of one sample's offset from `mean`, in whole microseconds.
pub open spec fn residual_us(s: Sample, mean: int) -> int {
    crate::arith::abs_int(offset_of(s) - mean) / 1_000
}

/// Sum of the squared residuals of a window.
pub open spec fn sum_squares(w: Seq<Sample>, mean: int) -> int
    decreases w.len(),
{
    if w.len() == 0 {
        0
    } else {
        sum_squares(w.drop_last(), mean) + residual_us(w.last(), mean) * residual_us(
            w.last(),
            mean,
        )
    }
}

/// Mean squared residual of a window, with the sum saturating at 128 bits.
pub open spec fn variance_us(w: Seq<Sample>) -> int {
    let sum = sum_squares(w, mean_offset(w));
    (if sum > u128::MAX {
        u128::MAX as int
    } else {
        sum
    }) / w.len() as int
}

/// Twice the standard deviation of the offsets of a window, in µs, capped
/// at 32 bits.
pub open spec fn spread_us(w: Seq<Sample>) -> int {
    let twice = 2 * crate::arith::isqrt(variance_us(w));
    if twice > u32::MAX {
        u32::MAX as int
    } else {
        twice
    }
}

/// The fit of a window. Below [`MIN_SAMPLES`] there is nothing to fit yet.
pub open spec fn fit_of(w: Seq<Sample>) -> Fit {
    if w.len() < MIN_SAMPLES {
        Fit { offset_ns: 0, drift_ppb: 0, residual_us_p95: u32::MAX }
    } else {
        Fit {
            offset_ns: mean_offset(w) as i128,
            drift_ppb: drift_between(oldest(w), newest(w)) as i64,
            residual_us_p95: spread_us(w) as u32,
        }
    }
}

/// Whether one sample can be compared with `mean` in machine arithmetic.
pub open spec fn residual_fits(s: Sample, mean: int) -> bool {
    &&& crate::arith::fits_i128(offset_of(s) - mean)
    &&& residual_us(s, mean) * residual_us(s, mean) <= u128::MAX
}

/// Whether the drift between two samples is computable in machine arithmetic.
pub open spec fn drift_fits(o: Sample, n: Sample) -> bool {
    &&& o.local_us + 1_000_000 <= u64::MAX
    &&& n.local_us > o.local_us + 1_000_000 ==> crate::arith::fits_i128(server_span(o, n))
}

/// Whether every intermediate value of the fit is representable.
pub open spec fn fit_fits(w: Seq<Sample>) -> bool {
    &&& forall|i: int|
        0 <= i < w.len() ==> crate::arith::fits_i128(#[trigger] offset_of(w[i]))
    &&& forall|j: int|
        0 <= j <= w.len() ==> crate::arith::fits_i128(#[trigger] sum_offsets(w.take(j)))
    &&& w.len() >= MIN_SAMPLES ==> {
        &&& drift_fits(oldest(w), newest(w))
        &&& forall|i: int|
            0 <= i < w.len() ==> residual_fits(#[trigger] w[i], mean_offset(w))
    }
}

/// Whether the first `n` slots of the ring, and no others, are filled.
spec fn ring_filled(samples: [Option<Sample>; 256], n: int) -> bool {
    &&& 0 <= n <= 256
    &&& forall|i: int| 0 <= i < n ==> (#[trigger] samples@[i]) is Some
    &&& forall|i: int| n <= i < 256 ==> (#[trigger] samples@[i]) is None
}

/// The samples held in the first `n` slots of the ring.
spec fn ring_slots(samples: [Option<Sample>; 256], n: int) -> Seq<Sample> {
    Seq::new(n as nat, |i: int| samples@[i]->0)
}

/// There is only one oldest sample.
pub proof fn lemma_oldest(w: Seq<Sample>, i: int)
    requires
        is_oldest(w, i),
    ensures
        oldest(w) == w[i],
{
    let k = choose|k: int| is_oldest(w, k);
    assert(is_oldest(w, k));
    if k < i {
        assert(w[i].local_us < w[k].local_us);
    } else if i < k {
        assert(w[k].local_us < w[i].local_us);
    }
}

/// There is only one newest sample.
pub proof fn lemma_newest(w: Seq<Sample>, i: int)
    requires
        is_newest(w, i),
    ensures
        newest(w) == w[i],
{
    let k = choose|k: int| is_newest(w, k);
    assert(is_newest(w, k));
    if k < i {
        assert(w[k].local_us < w[i].local_us);
    } else if i < k {
        assert(w[i].local_us < w[k].local_us);
    }
}

proof fn lemma_sum_squares_nonneg(w: Seq<Sample>, mean: int)
    ensures
        sum_squares(w, mean) >= 0,
    decreases w.len(),
{
    if w.len() > 0 {
        lemma_sum_squares_nonneg(w.drop_last(), mean);
        let r = residual_us(w.last(), mean);
        assert(r * r >= 0) by (nonlinear_arith);
    }
}

/// The sum of the offsets, or nothing where it does not fit.
fn sum_window(samples: &[Option<Sample>; 256], n: usize) -> (r: Option<i128>)
    requires
        ring_filled(*samples, n as int),
    ensures
        ({
            let w = ring_slots(*samples, n as int);
            let fits = {
                &&& forall|i: int|
                    0 <= i < w.len() ==> crate::arith::fits_i128(#[trigger] offset_of(w[i]))
                &&& forall|j: int|
                    0 <= j <= w.len() ==> crate::arith::fits_i128(#[trigger] sum_offsets(w.take(j)))
            };
            &&& r is Some <==> fits
            &&& r is Some ==> r->0 == sum_offsets(w)
        }),
{
    let ghost w = ring_slots(*samples, n as int);
    let mut sum: i128 = 0;
    let mut i: usize = 0;
    while i < n
        invariant
            ring_filled(*samples, n as int),
            w == ring_slots(*samples, n as int),
            0 <= i <= n,
            sum == sum_offsets(w.take(i as int)),
            forall|k: int| 0 <= k < i ==> crate::arith::fits_i128(#[trigger] offset_of(w[k])),
            forall|j: int|
                0 <= j <= i ==> crate::arith::fits_i128(#[trigger] sum_offsets(w.take(j))),
        decreases n - i,
    {
        let s: Sample = samples[i].unwrap();
        assert(s == w[i as int]);
        assert(w.take(i + 1).drop_last() =~= w.take(i as int));
        assert(w.take(i + 1).last() == w[i as int]);
        assert(sum_offsets(w.take(i + 1)) == sum + offset_of(w[i as int]));
        let nominal: i128 = (s.local_us as i128) * 1_000;
        let offset: i128 = match i128_from_u128(s.server_ns).checked_sub(nominal) {
            Some(o) => o,
            None => {
                assert(!crate::arith::fits_i128(offset_of(w[i as int])));
                return None;
            },
        };
        sum = match sum.checked_add(offset) {
            Some(t) => t,
            None => {
                assert(!crate::arith::fits_i128(sum_offsets(w.take(i + 1))));
                return None;
            },
        };
        i = i + 1;
    }
    assert(w.take(n as int) =~= w);
    Some(sum)
}

/// The first samples with the smallest and the largest local reading.
fn window_ends(samples: &[Option<Sample>; 256], n: usize) -> (r: (Sample, Sample))
    requires
        ring_filled(*samples, n as int),
        n > 0,
    ensures
        r.0 == oldest(ring_slots(*samples, n as int)),
        r.1 == newest(ring_slots(*samples, n as int)),
{
    let ghost w = ring_slots(*samples, n as int);
    let mut first: Sample = samples[0].unwrap();
    let mut last: Sample = first;
    let ghost mut first_at: int = 0;
    let ghost mut last_at: int = 0;
    let mut i: usize = 1;
    while i < n
        invariant
            ring_filled(*samples, n as int),
            w == ring_slots(*samples, n as int),
            1 <= i <= n,
            first == w[first_at],
            last == w[last_at],
            is_oldest(w.take(i as int), first_at),
            is_newest(w.take(i as int), last_at),
        decreases n - i,
    {
        let s: Sample = samples[i].unwrap();
        assert(s == w[i as int]);
        let ghost cut = w.take(i as int);
        let ghost next = w.take(i + 1);
        assert(forall|j: int| 0 <= j < i ==> #[trigger] next[j] == cut[j]);
        assert(next[i as int] == s);
        if s.local_us < first.local_us {
            first = s;
            proof {
                first_at = i as int;
            }
        }
        if s.local_us > last.local_us {
            last = s;
            proof {
                last_at = i as int;
            }
        }
        i = i + 1;
    }
    proof {
        assert(w.take(n as int) =~= w);
        lemma_oldest(w, first_at);
        lemma_newest(w, last_at);
    }
    (first, last)
}

/// The drift between two samples, or nothing where it does not fit.
fn drift_of_ends(o: Sample, n: Sample) -> (r: Option<i64>)
    ensures
        r is Some <==> drift_fits(o, n),
        r is Some ==> r->0 == drift_between(o, n),
{
    let limit: u64 = match o.local_us.checked_add(1_000_000) {
        Some(l) => l,
        None => return None,
    };
    if n.local_us <= limit {
        return Some(0);
    }
    let dx_us: i128 = (n.local_us - o.local_us) as i128;
    let dy_ns: i128 = match i128_from_u128(n.server_ns).checked_sub(i128_from_u128(o.server_ns)) {
        Some(d) => d,
        None => return None,
    };
    let scaled: i128 = match dy_ns.checked_mul(1_000_000) {
        Some(p) => p,
        None => if dy_ns < 0 {
            i128::MIN
        } else {
            i128::MAX
        },
    };
    let slope: i128 = div_i128(scaled, dx_us);
    proof {
        lemma_trunc_div_shrinks(scaled as int, dx_us as int, 1_000_000);
    }
    let drift: i128 = slope - 1_000_000_000;
    let limited: i64 = if drift < -1_000_000 {
        -1_000_000
    } else if drift > 1_000_000 {
        1_000_000
    } else {
        drift as i64
    };
    Some(limited)
}

/// A quotient by at least `m` is at most an `m`-th of the dividend.
proof fn lemma_trunc_div_shrinks(a: int, b: int, m: int)
    requires
        b >= m > 0,
    ensures
        crate::arith::abs_int(crate::arith::trunc_div(a, b)) <= crate::arith::abs_int(a) / m,
{
    let p = crate::arith::abs_int(a);
    vstd::arithmetic::div_mod::lemma_div_is_ordered_by_denominator(p, m, b);
    vstd::arithmetic::div_mod::lemma_div_pos_is_pos(p, b);
}

/// The sum of the squared residuals, saturating, or nothing where a residual
/// does not fit.
fn square_window(samples: &[Option<Sample>; 256], n: usize, mean: i128) -> (r: Option<u128>)
    requires
        ring_filled(*samples, n as int),
        forall|i: int|
            0 <= i < n ==> crate::arith::fits_i128(
                #[trigger] offset_of(ring_slots(*samples, n as int)[i]),
            ),
    ensures
        ({
            let w = ring_slots(*samples, n as int);
            let sum = sum_squares(w, mean as int);
            &&& r is Some <==> forall|i: int|
                0 <= i < w.len() ==> residual_fits(#[trigger] w[i], mean as int)
            &&& r is Some ==> r->0 == (if sum > u128::MAX {
                u128::MAX as int
            } else {
                sum
            })
        }),
{
    let ghost w = ring_slots(*samples, n as int);
    let mut sum: u128 = 0;
    let mut i: usize = 0;
    while i < n
        invariant
            ring_filled(*samples, n as int),
            w == ring_slots(*samples, n as int),
            0 <= i <= n,
            forall|k: int| 0 <= k < n ==> crate::arith::fits_i128(#[trigger] offset_of(w[k])),
            forall|k: int| 0 <= k < i ==> residual_fits(#[trigger] w[k], mean as int),
            sum == (if sum_squares(w.take(i as int), mean as int) > u128::MAX {
                u128::MAX as int
            } else {
                sum_squares(w.take(i as int), mean as int)
            }),
        decreases n - i,
    {
        let s: Sample = samples[i].unwrap();
        assert(s == w[i as int]);
        proof {
            assert(w.take(i + 1).drop_last() =~= w.take(i as int));
            assert(w.take(i + 1).last() == w[i as int]);
            lemma_sum_squares_nonneg(w.take(i as int), mean as int);
            let ru = residual_us(s, mean as int);
            assert(ru * ru >= 0) by (nonlinear_arith);
            assert(crate::arith::fits_i128(offset_of(w[i as int])));
        }
        let offset: i128 = i128_from_u128(s.server_ns) - (s.local_us as i128) * 1_000;
        let resid: i128 = match offset.checked_sub(mean) {
            Some(d) => d,
            None => {
                assert(!residual_fits(w[i as int], mean as int));
                return None;
            },
        };
        let resid_ns: u128 = if resid == i128::MIN {
            0x8000_0000_0000_0000_0000_0000_0000_0000u128
        } else if resid < 0 {
            (-resid) as u128
        } else {
            resid as u128
        };
        let resid_us: u128 = resid_ns / 1_000;
        assert(resid_us == residual_us(s, mean as int));
        let square: u128 = match resid_us.checked_mul(resid_us) {
            Some(p) => p,
            None => {
                assert(!residual_fits(w[i as int], mean as int));
                return None;
            },
        };
        sum = sum.saturating_add(square);
        i = i + 1;
    }
    assert(w.take(n as int) =~= w);
    Some(sum)
}

/// The fit of a window, or nothing where a value on the way does not fit.
fn fit_window(samples: &[Option<Sample>; 256], n: usize) -> (r: Option<Fit>)
    requires
        ring_filled(*samples, n as int),
    ensures
        r is Some <==> fit_fits(ring_slots(*samples, n as int)),
        r is Some ==> r->0 == fit_of(ring_slots(*samples, n as int)),
        r is Some && n >= MIN_SAMPLES ==> {
            &&& (r->0).offset_ns == mean_offset(ring_slots(*samples, n as int))
            &&& (r->0).drift_ppb == drift_between(
                oldest(ring_slots(*samples, n as int)),
                newest(ring_slots(*samples, n as int)),
            )
            &&& (r->0).residual_us_p95 == spread_us(ring_slots(*samples, n as int))
        },
{
    let ghost w = ring_slots(*samples, n as int);
    let sum_offset_ns: i128 = match sum_window(samples, n) {
        Some(s) => s,
        None => return None,
    };
    if n < MIN_SAMPLES {
        return Some(Fit { offset_ns: 0, drift_ppb: 0, residual_us_p95: u32::MAX });
    }
    let mean_offset_ns: i128 = div_i128(sum_offset_ns, n as i128);
    let (o, l) = window_ends(samples, n);
    let drift_ppb: i64 = match drift_of_ends(o, l) {
        Some(d) => d,
        None => return None,
    };
    let sum_sq_us: u128 = match square_window(samples, n, mean_offset_ns) {
        Some(s) => s,
        None => return None,
    };
    let var_us: u128 = sum_sq_us / (n as u128);
    assert(var_us <= u128::MAX / 8) by (nonlinear_arith)
        requires
            var_us == sum_sq_us / (n as u128),
            n >= 8,
    ;
    let std_us: u128 = isqrt_u128(var_us);
    assert(std_us < 0x1_0000_0000_0000_0000u128) by (nonlinear_arith)
        requires
            std_us * std_us <= var_us,
            var_us <= u128::MAX,
    ;
    let residual_us_p95: u32 = if std_us > 0x7fff_ffff {
        u32::MAX
    } else {
        (2 * std_us) as u32
    };
    Some(Fit { offset_ns: mean_offset_ns, drift_ppb, residual_us_p95 })
}

/// Diagnostic output of [`Estimator::quality`].
#[derive(Clone, Copy, Debug, Default, PartialEq, Eq, Structural)]
pub struct Quality {
    /// Number of samples currently in the window.
    pub n_samples: u16,
    /// Twice the standard deviation of the residuals, in microseconds.
    pub residual_us_p95: u32,
    /// Estimated frequency offset in parts per billion; positive when the
    /// server's clock gains on the local one.
    pub drift_ppb: i32,
    /// Local reading of the most recent observation; zero before the first.
    pub last_update_us: u64,
}

/// What an estimator holds.
pub struct EstimatorState {
    /// The samples, in the order of the ring's slots.
    pub slots: Seq<Sample>,
    /// The slot that the next sample goes to.
    pub head: int,
    /// Local reading of the most recent observation.
    pub last_update_us: u64,
}

impl EstimatorState {
    /// The state before any observation.
    pub open spec fn empty() -> EstimatorState {
        EstimatorState { slots: Seq::empty(), head: 0, last_update_us: 0 }
    }

    /// The ring fills from slot zero, and wraps once it is full.
    pub open spec fn valid(self) -> bool {
        &&& self.slots.len() <= WINDOW
        &&& 0 <= self.head < WINDOW
        &&& self.slots.len() < WINDOW ==> self.head == self.slots.len()
    }

    /// The state after one more observation.
    pub open spec fn push(self, s: Sample) -> EstimatorState {
        EstimatorState {
            slots: if self.slots.len() < WINDOW {
                self.slots.push(s)
            } else {
                self.slots.update(self.head, s)
            },
            head: (self.head + 1) % (WINDOW as int),
            last_update_us: s.local_us,
        }
    }

    /// Whether a sample can be taken in: all values of the new fit are
    /// representable. Among plausible samples that is always so.
    pub open spec fn accepts(self, s: Sample) -> bool {
        ||| plausible(s) && all_plausible(self.slots)
        ||| fit_fits(self.push(s).slots)
    }

    /// The samples in the order in which they were observed.
    pub open spec fn history(self) -> Seq<Sample> {
        if self.slots.len() < WINDOW {
            self.slots
        } else {
            self.slots.skip(self.head) + self.slots.take(self.head)
        }
    }
}

/// The state after a run of observations from the empty state.
pub open spec fn state_after(observed: Seq<Sample>) -> EstimatorState
    decreases observed.len(),
{
    if observed.len() == 0 {
        EstimatorState::empty()
    } else {
        state_after(observed.drop_last()).push(observed.last())
    }
}

/// A sample within the range that clocks reach: a local reading below 2^63 µs
/// and a server time within the same span in nanoseconds.
pub open spec fn plausible(s: Sample) -> bool {
    s.local_us <= i64::MAX && s.server_ns <= 1_000 * i64::MAX
}

/// Whether a whole window is plausible.
pub open spec fn all_plausible(w: Seq<Sample>) -> bool {
    forall|i: int| 0 <= i < w.len() ==> plausible(#[trigger] w[i])
}

/// The server time that a window predicts, before the sign is looked at.
pub open spec fn predicted_ns(w: Seq<Sample>, local_us: u64) -> int {
    crate::arith::clamp_int(
        mean_offset(w) + 1_000 * local_us,
        i128::MIN as int,
        i128::MAX as int,
    )
}

/// The server time at a local reading, once there are enough samples and
/// unless it is before zero.
pub open spec fn server_time_at(w: Seq<Sample>, local_us: u64) -> Option<u128> {
    if w.len() < MIN_SAMPLES || predicted_ns(w, local_us) < 0 {
        None
    } else {
        Some(predicted_ns(w, local_us) as u128)
    }
}

/// Server time since local zero, before the sign is looked at.
pub open spec fn elapsed_ns(w: Seq<Sample>, server_ns: u128) -> int {
    crate::arith::clamp_int(
        crate::arith::as_i128(server_ns as int) - mean_offset(w),
        i128::MIN as int,
        i128::MAX as int,
    )
}

/// The local reading at a server time, once there are enough samples and
/// unless it is before zero; the quotient keeps its low 64 bits.
pub open spec fn local_time_at(w: Seq<Sample>, server_ns: u128) -> Option<u64> {
    if w.len() < MIN_SAMPLES || elapsed_ns(w, server_ns) < 0 {
        None
    } else {
        Some(crate::arith::as_u64(elapsed_ns(w, server_ns) / 1_000) as u64)
    }
}

/// Whether `q` is the snapshot of a state.
pub open spec fn quality_of(st: EstimatorState, q: Quality) -> bool {
    &&& q.n_samples == st.slots.len()
    &&& q.last_update_us == st.last_update_us
    &&& st.slots.len() < MIN_SAMPLES ==> q.drift_ppb == 0 && q.residual_us_p95 == u32::MAX
    &&& st.slots.len() >= MIN_SAMPLES ==> {
        &&& q.drift_ppb == drift_between(oldest(st.slots), newest(st.slots))
        &&& q.residual_us_p95 == spread_us(st.slots)
    }
}

/// A sliding window of observations and its fit.
#[derive(Debug)]
pub struct Estimator {
    samples: [Option<Sample>; 256],
    head: usize,
    n: usize,
    fit: Fit,
    last_update_us: u64,
}

impl View for Estimator {
    type V = EstimatorState;

    closed spec fn view(&self) -> EstimatorState {
        EstimatorState {
            slots: ring_slots(self.samples, self.n as int),
            head: self.head as int,
            last_update_us: self.last_update_us,
        }
    }
}

impl Default for Estimator {
    fn default() -> (e: Self)
        ensures
            e.wf(),
            e@ == EstimatorState::empty(),
    {
        Estimator::new()
    }
}

impl Estimator {
    /// The ring is filled from the front, and the stored parameters are those
    /// of the samples in it.
    pub open spec fn wf(&self) -> bool {
        &&& self@.valid()
        &&& self.ring_wf()
    }

    /// The part of the invariant that speaks of the private fields.
    pub closed spec fn ring_wf(&self) -> bool {
        &&& ring_filled(self.samples, self.n as int)
        &&& self.fit == fit_of(self@.slots)
        &&& self.n >= MIN_SAMPLES ==> {
            &&& self.fit.offset_ns == mean_offset(self@.slots)
            &&& self.fit.drift_ppb == drift_between(oldest(self@.slots), newest(self@.slots))
            &&& self.fit.residual_us_p95 == spread_us(self@.slots)
        }
    }

    /// An estimator without observations.
    pub fn new() -> (e: Self)
        ensures
            e.wf(),
            e@ == EstimatorState::empty(),
    {
        let e = Estimator {
            samples: [None; 256],
            head: 0,
            n: 0,
            fit: Fit { offset_ns: 0, drift_ppb: 0, residual_us_p95: u32::MAX },
            last_update_us: 0,
        };
        assert(e@.slots =~= Seq::<Sample>::empty());
        e
    }

    /// Whether `sample` can be taken in.
    pub fn can_observe(&self, sample: Sample) -> (b: bool)
        requires
            self.wf(),
        ensures
            b == self@.accepts(sample),
            b == fit_fits(self@.push(sample).slots),
    {
        let mut samples: [Option<Sample>; 256] = self.samples;
        samples[self.head] = Some(sample);
        let n: usize = if self.n < WINDOW {
            self.n + 1
        } else {
            self.n
        };
        proof {
            assert(ring_slots(samples, n as int) =~= self@.push(sample).slots);
            if plausible(sample) && all_plausible(self@.slots) {
                lemma_plausible_fits(self@.push(sample).slots);
            }
        }
        fit_window(&samples, n).is_some()
    }

    /// Adds an observation and renews the fit. No sample is rejected: what
    /// looks like an outlier is reception jitter that is to be averaged in.
    pub fn observe(&mut self, sample: Sample)
        requires
            old(self).wf(),
            old(self)@.accepts(sample),
        ensures
            final(self).wf(),
            final(self)@ == old(self)@.push(sample),
    {
        self.samples[self.head] = Some(sample);
        self.head = (self.head + 1) % WINDOW;
        if self.n < WINDOW {
            self.n = self.n + 1;
        }
        self.last_update_us = sample.local_us;
        proof {
            assert(ring_slots(self.samples, self.n as int) =~= old(self)@.push(sample).slots);
            if plausible(sample) && all_plausible(old(self)@.slots) {
                lemma_plausible_fits(self@.slots);
            }
        }
        self.refit();
    }

    /// Renews the fit from the samples in the window.
    fn refit(&mut self)
        requires
            ring_filled(old(self).samples, old(self).n as int),
            old(self)@.valid(),
            fit_fits(old(self)@.slots),
        ensures
            final(self).wf(),
            final(self)@ == old(self)@,
    {
        if let Some(fit) = fit_window(&self.samples, self.n) {
            self.fit = fit;
        }
    }

    /// The server time at a local microsecond reading, or `None` while there
    /// are too few samples.
    pub fn synced_ns_at(&self, local_us: u64) -> (r: Option<u128>)
        requires
            self.wf(),
        ensures
            r == server_time_at(self@.slots, local_us),
    {
        if self.n < MIN_SAMPLES {
            return None;
        }
        let predicted: i128 = saturating_add_i128(self.fit.offset_ns, (local_us as i128) * 1_000);
        if predicted < 0 {
            return None;
        }
        Some(predicted as u128)
    }

    /// The local microsecond reading at which a server time occurs.
    pub fn local_us_at(&self, server_ns: u128) -> (r: Option<u64>)
        requires
            self.wf(),
        ensures
            r == local_time_at(self@.slots, server_ns),
    {
        if self.n < MIN_SAMPLES {
            return None;
        }
        let num: i128 = saturating_sub_i128(i128_from_u128(server_ns), self.fit.offset_ns);
        if num < 0 {
            return None;
        }
        Some(u64_from_i128(num / 1_000))
    }

    /// A diagnostic snapshot.
    pub fn quality(&self) -> (q: Quality)
        requires
            self.wf(),
        ensures
            quality_of(self@, q),
    {
        Quality {
            n_samples: self.n as u16,
            residual_us_p95: self.fit.residual_us_p95,
            drift_ppb: self.fit.drift_ppb as i32,
            last_update_us: self.last_update_us,
        }
    }
}

/// A window has an oldest sample.
pub proof fn lemma_oldest_exists(w: Seq<Sample>) -> (i: int)
    requires
        w.len() > 0,
    ensures
        is_oldest(w, i),
    decreases w.len(),
{
    if w.len() == 1 {
        0
    } else {
        let i = lemma_oldest_exists(w.drop_last());
        assert forall|j: int| 0 <= j < w.len() - 1 implies #[trigger] w[j] == w.drop_last()[j] by {}
        if w.last().local_us < w[i].local_us {
            w.len() - 1
        } else {
            i
        }
    }
}

/// A window has a newest sample.
pub proof fn lemma_newest_exists(w: Seq<Sample>) -> (i: int)
    requires
        w.len() > 0,
    ensures
        is_newest(w, i),
    decreases w.len(),
{
    if w.len() == 1 {
        0
    } else {
        let i = lemma_newest_exists(w.drop_last());
        assert forall|j: int| 0 <= j < w.len() - 1 implies #[trigger] w[j] == w.drop_last()[j] by {}
        if w.last().local_us > w[i].local_us {
            w.len() - 1
        } else {
            i
        }
    }
}

/// The sum of offsets that lie within `±m` lies within `±m` per sample.
proof fn lemma_sum_bound(w: Seq<Sample>, m: int)
    requires
        forall|i: int| 0 <= i < w.len() ==> -m <= #[trigger] offset_of(w[i]) <= m,
    ensures
        -(m * w.len()) <= sum_offsets(w) <= m * w.len(),
    decreases w.len(),
{
    if w.len() > 0 {
        assert forall|i: int| 0 <= i < w.len() - 1 implies -m <= #[trigger] offset_of(
            w.drop_last()[i],
        ) <= m by {
            assert(w.drop_last()[i] == w[i]);
        }
        lemma_sum_bound(w.drop_last(), m);
        assert(w.last() == w[w.len() - 1]);
        assert(m * w.len() == m * (w.len() - 1) + m) by (nonlinear_arith);
    } else {
        assert(m * w.len() == 0) by (nonlinear_arith)
            requires
                w.len() == 0,
        ;
    }
}

/// A window of plausible samples can be fitted in machine arithmetic.
pub proof fn lemma_plausible_fits(w: Seq<Sample>)
    requires
        w.len() <= WINDOW,
        all_plausible(w),
    ensures
        fit_fits(w),
{
    let m = 1_000 * i64::MAX;
    assert forall|i: int| 0 <= i < w.len() implies -m <= #[trigger] offset_of(w[i]) <= m by {
        assert(plausible(w[i]));
    }
    assert forall|j: int| 0 <= j <= w.len() implies crate::arith::fits_i128(
        #[trigger] sum_offsets(w.take(j)),
    ) by {
        let c = w.take(j);
        assert forall|i: int| 0 <= i < c.len() implies -m <= #[trigger] offset_of(c[i]) <= m by {
            assert(c[i] == w[i]);
        }
        lemma_sum_bound(c, m);
        assert(m * c.len() <= m * 256) by (nonlinear_arith)
            requires
                c.len() <= 256,
                m >= 0,
        ;
    }
    if w.len() >= MIN_SAMPLES {
        let o = lemma_oldest_exists(w);
        let n = lemma_newest_exists(w);
        lemma_oldest(w, o);
        lemma_newest(w, n);
        assert(plausible(w[o]) && plausible(w[n]));
        let mean = mean_offset(w);
        assert(-m <= mean <= m) by {
            lemma_sum_bound(w, m);
            lemma_trunc_div_bound(sum_offsets(w), w.len() as int, m);
        }
        assert forall|i: int| 0 <= i < w.len() implies residual_fits(#[trigger] w[i], mean) by {
            assert(-m <= offset_of(w[i]) <= m);
            let r = residual_us(w[i], mean);
            assert(0 <= r <= 2 * i64::MAX);
            assert(r * r <= u128::MAX) by (nonlinear_arith)
                requires
                    0 <= r <= 2 * i64::MAX,
            ;
        }
    }
}

/// A mean of values within `±m` lies within `±m`.
proof fn lemma_trunc_div_bound(sum: int, n: int, m: int)
    requires
        n > 0,
        m >= 0,
        -(m * n) <= sum <= m * n,
    ensures
        -m <= crate::arith::trunc_div(sum, n) <= m,
{
    let p = crate::arith::abs_int(sum);
    vstd::arithmetic::div_mod::lemma_div_is_ordered(p, m * n, n);
    vstd::arithmetic::div_mod::lemma_div_by_multiple(m, n);
    vstd::arithmetic::div_mod::lemma_div_pos_is_pos(p, n);
}

} // verus!
