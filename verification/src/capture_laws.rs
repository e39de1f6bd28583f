//! What the edge timestamps mean, stated by what they satisfy.

use vstd::prelude::*;

use crate::mcpwm_cap::{CaptureUnit, ClockReading};

verus! {

/// The prediction follows the calibrated clock over the whole run: the ticks
/// from the anchor to the prediction are, to within one, those that the elapsed
/// microseconds hold at the tick length, however long ago the anchor was.
pub proof fn law_prediction_follows_the_clock(unit: CaptureUnit, now_us: u64)
    requires
        unit.us_per_tick_instant_q32 > 0,
    ensures
        ({
            let ticks = unit.predicted_ticks(now_us) - unit.cap_anchor_ticks;
            let elapsed = (now_us - unit.instant_anchor_us) * 0x1_0000_0000;
            let q = unit.us_per_tick_instant_q32;
            &&& elapsed >= 0 ==> 0 <= elapsed - ticks * q < q
            &&& elapsed <= 0 ==> -q < elapsed - ticks * q <= 0
        }),
{
    let elapsed = (now_us - unit.instant_anchor_us) * 0x1_0000_0000;
    let q = unit.us_per_tick_instant_q32 as int;
    crate::arith_laws::law_quotient_leaves_a_small_remainder(elapsed, q);
    let t = crate::arith::trunc_div(elapsed, q);
    assert(t * q == q * t) by (nonlinear_arith);
}

/// There is a prediction exactly from calibration on, with a tick length other
/// than zero, and not before tick zero.
pub proof fn law_prediction_needs_calibration(unit: CaptureUnit, now_us: u64)
    ensures
        unit.predicts(now_us) <==> unit.instant_anchor_us != i64::MIN
            && unit.us_per_tick_instant_q32 != 0 && unit.predicted_ticks(now_us) >= 0,
        !unit.predicts(now_us) ==> forall|raw: u32| #[trigger] unit.unwrapped(raw, now_us) == raw,
{
}

/// Of all 64-bit counts with the low half that was read, the unwrapped one is
/// nearest to the prediction, of two as near the lower. A prediction beyond 64
/// bits counts by its low 64 bits, `p`.
pub proof fn law_unwrapping_gives_the_nearest_count(
    unit: CaptureUnit,
    raw: u32,
    now_us: u64,
    p: u64,
    other: u64,
)
    requires
        unit.predicts(now_us),
        (unit.predicted_ticks(now_us) - p) % 0x1_0000_0000_0000_0000 == 0,
        other % 0x1_0000_0000 == raw,
    ensures
        ({
            let count = unit.unwrapped(raw, now_us);
            let here = if count >= p {
                count - p
            } else {
                p - count
            };
            let there = if other >= p {
                other - p
            } else {
                p - other
            };
            &&& count % 0x1_0000_0000 == raw
            &&& 0 <= count <= u64::MAX
            &&& here <= there
            &&& here == there ==> count <= other
        }),
{
    lemma_low_bits(unit.predicted_ticks(now_us), p);
    lemma_nearest(p as int, raw, other as int);
}

proof fn lemma_low_bits(x: int, p: u64)
    requires
        (x - p) % 0x1_0000_0000_0000_0000 == 0,
    ensures
        crate::arith::as_u64(x) == p,
        crate::arith::as_u64(p as int) == p,
{
}

#[verifier::rlimit(60)]
proof fn lemma_nearest(p: int, raw: u32, other: int)
    requires
        0 <= p <= u64::MAX,
        0 <= other <= u64::MAX,
        other % 0x1_0000_0000 == raw,
    ensures
        ({
            let count = crate::mcpwm_cap::nearest_candidate(p, raw);
            &&& count % 0x1_0000_0000 == raw
            &&& 0 <= count <= u64::MAX
            &&& crate::mcpwm_cap::distance(p, count) <= crate::mcpwm_cap::distance(p, other)
            &&& crate::mcpwm_cap::distance(p, count) == crate::mcpwm_cap::distance(p, other)
                ==> count <= other
        }),
{
    let h = p / 0x1_0000_0000;
    let k = other / 0x1_0000_0000;
    assert(crate::arith::as_u64(p) == p);
    assert(other == k * 0x1_0000_0000 + raw);
    assert(0 <= h < 0x1_0000_0000 && 0 <= k < 0x1_0000_0000);
    let same = crate::mcpwm_cap::candidate(p, raw, 0);
    let below = crate::mcpwm_cap::candidate(p, raw, -1);
    let above = crate::mcpwm_cap::candidate(p, raw, 1);
    assert(same == h * 0x1_0000_0000 + raw);
    assert(h > 0 ==> below == (h - 1) * 0x1_0000_0000 + raw);
    assert(h == 0 ==> below == 0xffff_ffff * 0x1_0000_0000 + raw);
    assert(h < 0xffff_ffff ==> above == (h + 1) * 0x1_0000_0000 + raw);
    assert(h == 0xffff_ffff ==> above == raw);
}

/// An edge that the timer counted as the clock says is recovered from its low
/// half, however many wraps lie between it and the anchor. The clock may be a
/// microsecond off. Left out are ticks shorter than 2^-30 µs, and counts within
/// half a wrap of the ends of 64 bits.
pub proof fn law_edges_follow_the_clock(unit: CaptureUnit, now_us: u64, count: u64)
    requires
        unit.instant_anchor_us != i64::MIN,
        unit.us_per_tick_instant_q32 >= 4,
        0x8000_0000 <= count <= u64::MAX - 0x8000_0000,
        -0x1_0000_0000 <= (count - unit.cap_anchor_ticks) * unit.us_per_tick_instant_q32 - (now_us
            - unit.instant_anchor_us) * 0x1_0000_0000 <= 0x1_0000_0000,
    ensures
        unit.unwrapped((count as int % 0x1_0000_0000) as u32, now_us) == count,
{
    let q = unit.us_per_tick_instant_q32 as int;
    let t = count - unit.cap_anchor_ticks;
    let ticks = unit.predicted_ticks(now_us) - unit.cap_anchor_ticks;
    let elapsed = (now_us - unit.instant_anchor_us) * 0x1_0000_0000;
    law_prediction_follows_the_clock(unit, now_us);
    assert(-0x4000_0001 <= t - ticks <= 0x4000_0001) by (nonlinear_arith)
        requires
            q >= 4,
            -0x1_0000_0000 <= t * q - elapsed <= 0x1_0000_0000,
            -q < elapsed - ticks * q < q,
    ;
    assert(unit.predicts(now_us));
    crate::mcpwm_cap::law_edge_count_is_recovered(unit, now_us, count);
}

/// A tick count converts to the clock's anchor plus the elapsed ticks at that
/// clock's tick length, rounded down to a microsecond: for the instant at the
/// measured length, for the TSF at the fixed one. There is no reading before
/// calibration or outside 64 bits.
pub proof fn law_conversion_adds_the_elapsed_time(unit: CaptureUnit, ticks: u64, us: int)
    ensures
        ({
            let elapsed = (ticks - unit.cap_anchor_ticks) * unit.us_per_tick_instant_q32;
            let v = unit.instant_anchor_us + us;
            us * 0x1_0000_0000 <= elapsed < (us + 1) * 0x1_0000_0000 ==> unit.instant_at(ticks) == (
            if unit.instant_anchor_us != i64::MIN && 0 <= v <= u64::MAX {
                Some(v as u64)
            } else {
                None
            })
        }),
        ({
            let elapsed = (ticks - unit.cap_anchor_ticks) * unit.us_per_tick_tsf_q32;
            let v = unit.tsf_anchor_us + us;
            us * 0x1_0000_0000 <= elapsed < (us + 1) * 0x1_0000_0000 ==> unit.tsf_at(ticks) == (
            if unit.tsf_anchor_us != i64::MIN && 0 <= v <= u64::MAX {
                Some(v as u64)
            } else {
                None
            })
        }),
{
}

/// An instant can be computed for every tick count that is at most 2^63 ticks
/// from the anchor, and for every other at which the product fits 128 bits.
pub proof fn law_conversions_near_the_anchor_fit(unit: CaptureUnit, ticks: u64)
    ensures
        -0x8000_0000_0000_0000 <= ticks - unit.cap_anchor_ticks <= 0x7fff_ffff_ffff_ffff
            ==> unit.instant_fits(ticks),
        -0x8000_0000_0000_0000_0000_0000_0000_0000int <= (ticks - unit.cap_anchor_ticks)
            * unit.us_per_tick_instant_q32 < 0x8000_0000_0000_0000_0000_0000_0000_0000int
            ==> unit.instant_fits(ticks),
{
    let d = ticks - unit.cap_anchor_ticks;
    let q = unit.us_per_tick_instant_q32 as int;
    if -0x8000_0000_0000_0000 <= d <= 0x7fff_ffff_ffff_ffff {
        assert(-0x8000_0000_0000_0000_0000_0000_0000_0000int <= d * q
            < 0x8000_0000_0000_0000_0000_0000_0000_0000int) by (nonlinear_arith)
            requires
                -0x8000_0000_0000_0000 <= d <= 0x7fff_ffff_ffff_ffff,
                0 <= q <= 0xffff_ffff_ffff_ffff,
        ;
    }
}

/// Calibration anchors the unit at the first reading and measures the tick as
/// the microseconds `d_us` of the window over its ticks `d_ticks`, in 32.32
/// fixed point without the rest, or as one microsecond if there were no ticks;
/// the TSF is anchored only if it was read, at 80 ticks per microsecond.
/// Nothing else changes. The clocks wrap at 64 bits, and so do the results.
pub proof fn law_calibration_measures_the_tick(
    unit: CaptureUnit,
    first: ClockReading,
    second: ClockReading,
    d_us: u64,
    d_ticks: u64,
    q: int,
)
    requires
        (second.instant_us - first.instant_us - d_us) % 0x1_0000_0000_0000_0000 == 0,
        (second.cap_ticks - first.cap_ticks - d_ticks) % 0x1_0000_0000_0000_0000 == 0,
        d_ticks > 0 ==> d_ticks * q <= d_us * 0x1_0000_0000 < d_ticks * (q + 1),
        d_ticks == 0 ==> q == 0x1_0000_0000,
    ensures
        ({
            let after = unit.calibrated(first, second);
            &&& after.cap_anchor_ticks == first.cap_ticks
            &&& (after.instant_anchor_us - first.instant_us) % 0x1_0000_0000_0000_0000 == 0
            &&& (after.us_per_tick_instant_q32 - q) % 0x1_0000_0000_0000_0000 == 0
            &&& after.ch0 == unit.ch0
            &&& after.ch1 == unit.ch1
            &&& after.last_sw_cap_packed == unit.last_sw_cap_packed
            &&& first.tsf_us matches Some(t) ==> (after.tsf_anchor_us - t)
                % 0x1_0000_0000_0000_0000 == 0 && 80 * after.us_per_tick_tsf_q32 <= 0x1_0000_0000
                < 80 * (after.us_per_tick_tsf_q32 + 1)
            &&& first.tsf_us is None ==> after.tsf_anchor_us == unit.tsf_anchor_us
                && after.us_per_tick_tsf_q32 == unit.us_per_tick_tsf_q32
        }),
{
    let window = d_us * 0x1_0000_0000;
    let ticks = d_ticks as int;
    lemma_low_bits(second.instant_us - first.instant_us, d_us);
    lemma_low_bits(second.cap_ticks - first.cap_ticks, d_ticks);
    if d_ticks > 0 {
        assert(ticks * (q + 1) == ticks * q + ticks && ticks * q == q * ticks)
            by (nonlinear_arith);
        vstd::arithmetic::div_mod::lemma_fundamental_div_mod_converse(
            window,
            ticks,
            q,
            window - ticks * q,
        );
        assert(crate::mcpwm_cap::measured_q32(d_us as int, ticks) == crate::arith::as_u64(q));
    }
}

/// Before calibration and before any capture there is no clock, no count and no
/// edge.
pub proof fn law_fresh_unit_knows_nothing(raw: u32, now_us: u64, ticks: u64)
    ensures
        ({
            let unit = CaptureUnit::fresh();
            &&& unit.unwrapped(raw, now_us) == raw
            &&& unit.instant_at(ticks) is None
            &&& unit.tsf_at(ticks) is None
            &&& unit.ch0.hits == 0 && unit.ch0.last_raw == 0
            &&& unit.ch1.hits == 0 && unit.ch1.last_raw == 0
            &&& crate::mcpwm_cap::next_count(unit.last_sw_cap_packed, raw) == raw
        }),
{
}

/// A capture by software keeps the low half that was read and counts on from the
/// last one by less than one wrap of the timer, round the end of 64 bits too.
pub proof fn law_captures_count_on_by_less_than_a_wrap(last: u64, raw: u32)
    ensures
        ({
            let count = crate::mcpwm_cap::next_count(last, raw);
            &&& 0 <= count <= u64::MAX
            &&& count % 0x1_0000_0000 == raw
            &&& 0 <= (count - last) % 0x1_0000_0000_0000_0000 < 0x1_0000_0000
        }),
{
}

/// The set-up writes, address by address and value by value, in their order.
pub proof fn law_set_up_writes(a: u32, b: u32)
    ensures
        crate::mcpwm_cap::planned_writes(None, None) == seq![
            (0x3FF5_E0E8usize, 1u32),
            (0x3FF5_E0F8usize, 3u32),
        ],
        crate::mcpwm_cap::planned_writes(Some(a), None) == seq![
            (0x3FF5_E0E8usize, 1u32),
            (0x3FF5_E0F0usize, 5u32),
            (0x3FF4_42E4usize, (a % 64 + 128) as u32),
            (0x3FF5_E0F8usize, 3u32),
        ],
        crate::mcpwm_cap::planned_writes(None, Some(b)) == seq![
            (0x3FF5_E0E8usize, 1u32),
            (0x3FF5_E0F4usize, 5u32),
            (0x3FF4_42E8usize, (b % 64 + 128) as u32),
            (0x3FF5_E0F8usize, 3u32),
        ],
        crate::mcpwm_cap::planned_writes(Some(a), Some(b)) == seq![
            (0x3FF5_E0E8usize, 1u32),
            (0x3FF5_E0F0usize, 5u32),
            (0x3FF5_E0F4usize, 5u32),
            (0x3FF4_42E4usize, (a % 64 + 128) as u32),
            (0x3FF4_42E8usize, (b % 64 + 128) as u32),
            (0x3FF5_E0F8usize, 3u32),
        ],
{
    assert(crate::mcpwm_cap::planned_writes(None, None) =~= seq![
        (0x3FF5_E0E8usize, 1u32),
        (0x3FF5_E0F8usize, 3u32),
    ]);
    assert(crate::mcpwm_cap::planned_writes(Some(a), None) =~= seq![
        (0x3FF5_E0E8usize, 1u32),
        (0x3FF5_E0F0usize, 5u32),
        (0x3FF4_42E4usize, (a % 64 + 128) as u32),
        (0x3FF5_E0F8usize, 3u32),
    ]);
    assert(crate::mcpwm_cap::planned_writes(None, Some(b)) =~= seq![
        (0x3FF5_E0E8usize, 1u32),
        (0x3FF5_E0F4usize, 5u32),
        (0x3FF4_42E8usize, (b % 64 + 128) as u32),
        (0x3FF5_E0F8usize, 3u32),
    ]);
    assert(crate::mcpwm_cap::planned_writes(Some(a), Some(b)) =~= seq![
        (0x3FF5_E0E8usize, 1u32),
        (0x3FF5_E0F0usize, 5u32),
        (0x3FF5_E0F4usize, 5u32),
        (0x3FF4_42E4usize, (a % 64 + 128) as u32),
        (0x3FF4_42E8usize, (b % 64 + 128) as u32),
        (0x3FF5_E0F8usize, 3u32),
    ]);
}

/// The calibration window lasts four seconds.
pub proof fn law_calibration_window()
    ensures
        crate::mcpwm_cap::CALIBRATION_US == 4_000_000,
{
}

} // verus!
