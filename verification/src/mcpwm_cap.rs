//! Hardware edge timestamps: unwrapping the 32-bit capture timer and
//! converting its ticks to the other clocks.
//!
//! The functions take register readings and clock readings as arguments; who
//! calls them talks to the hardware.

use vstd::prelude::*;

use crate::arith::{div_i128, floor_div_i128, i64_from_u64, u32_from_u64, u64_from_i128,
    u64_from_u128};

verus! {

/// Base address of the MCPWM0 peripheral.
pub const MCPWM0_BASE: usize = 0x3FF5_E000;

/// Offset of the clock configuration register.
pub const REG_CLK_CFG: usize = 0x000;

/// Offset of the capture timer's configuration register.
pub const REG_CAP_TIMER_CFG: usize = 0x0E8;

/// Offset of channel 0's configuration register.
pub const REG_CAP_CH0_CFG: usize = 0x0F0;

/// Offset of channel 1's configuration register.
pub const REG_CAP_CH1_CFG: usize = 0x0F4;

/// Offset of channel 2's configuration register.
pub const REG_CAP_CH2_CFG: usize = 0x0F8;

/// Offset of the register with channel 0's last capture.
pub const REG_CAP_CH0: usize = 0x0FC;

/// Offset of the register with channel 1's last capture.
pub const REG_CAP_CH1: usize = 0x100;

/// Offset of the register with channel 2's last capture.
pub const REG_CAP_CH2: usize = 0x104;

/// Offset of the capture status register.
pub const REG_CAP_STATUS: usize = 0x108;

/// Timer configuration: enabled, without synchronisation.
pub const CAP_TIMER_ON: u32 = 1;

/// Base address of the GPIO matrix's input selectors.
pub const GPIO_FUNC_IN_SEL_CFG_BASE: usize = 0x3FF4_4130;

/// Peripheral input signal of capture channel 0.
pub const PWM0_CAP0: u32 = 109;

/// Peripheral input signal of capture channel 1.
pub const PWM0_CAP1: u32 = 110;

/// Channel configuration: enabled, capturing on the rising edge.
pub const CAP_EDGE_CFG: u32 = 0b0_0101;

/// Channel configuration: enabled, for captures triggered by software.
pub const CAP_SW_CFG: u32 = 0b0_0011;

/// Channel configuration that triggers a capture by software.
pub const CAP_SW_TRIGGER: u32 = 0b1_0000_0000_0011;

/// Length of the calibration window, in microseconds.
pub const CALIBRATION_US: u64 = 4_000_000;

/// Anchor value before calibration.
pub const ANCHOR_UNSET: i64 = i64::MIN;

/// Microseconds per tick at 80 ticks per microsecond, in 32.32 fixed point.
pub const TSF_US_PER_TICK_Q32: u64 = 53_687_091;

/// One capture channel: the last raw reading, and how many were new.
#[derive(Clone, Copy, Debug, PartialEq, Eq, Structural)]
pub struct EdgeChannel {
    pub last_raw: u32,
    pub hits: u64,
}

/// The state of the capture unit.
#[derive(Clone, Copy, Debug, PartialEq, Eq, Structural)]
pub struct CaptureUnit {
    pub cap_anchor_ticks: u64,
    pub instant_anchor_us: i64,
    pub tsf_anchor_us: i64,
    pub us_per_tick_instant_q32: u64,
    pub us_per_tick_tsf_q32: u64,
    pub ch0: EdgeChannel,
    pub ch1: EdgeChannel,
    /// The last capture by software: high half counted, low half as read.
    pub last_sw_cap_packed: u64,
}

/// A capture by software and the clocks read right after it.
#[derive(Clone, Copy, Debug, PartialEq, Eq, Structural)]
pub struct ClockReading {
    pub cap_ticks: u64,
    pub instant_us: u64,
    pub tsf_us: Option<u64>,
}

/// The 64-bit count after a raw reading: the high half advances when the low
/// half went back.
pub open spec fn next_count(count: u64, raw: u32) -> int {
    let high = count as int / 0x1_0000_0000;
    let low = count as int % 0x1_0000_0000;
    (if raw < low {
        crate::arith::as_u32(high + 1)
    } else {
        high
    }) * 0x1_0000_0000 + raw
}

/// Distance of two counts.
pub open spec fn distance(a: int, b: int) -> int {
    crate::arith::abs_int(a - b)
}

/// The count with low half `raw` and the high half of `predicted` plus `k`.
pub open spec fn candidate(predicted: int, raw: u32, k: int) -> int {
    crate::arith::as_u32(predicted / 0x1_0000_0000 + k) * 0x1_0000_0000 + raw
}

/// Of the three candidates round a prediction, the nearest; on a tie the one
/// with the lower high half.
pub open spec fn nearest_candidate(predicted: int, raw: u32) -> int {
    let below = candidate(predicted, raw, -1);
    let same = candidate(predicted, raw, 0);
    let above = candidate(predicted, raw, 1);
    let best = if distance(predicted, same) < distance(predicted, below) {
        same
    } else {
        below
    };
    if distance(predicted, above) < distance(predicted, best) {
        above
    } else {
        best
    }
}

/// Ticks since the anchor, in whole microseconds of a clock, on top of that
/// clock's anchor; nothing before calibration or outside 64 bits. A capture
/// before the anchor gives a reading before the clock's anchor.
pub open spec fn clock_at_ticks(
    anchor_us: i64,
    cap_anchor: u64,
    q32: u64,
    ticks: u64,
) -> Option<u64> {
    let v = anchor_us + elapsed_product(cap_anchor, q32, ticks) / 0x1_0000_0000;
    if anchor_us == ANCHOR_UNSET || v < 0 || v > u64::MAX {
        None
    } else {
        Some(v as u64)
    }
}

/// Ticks since the anchor, negative before it, times the tick length in fixed
/// point.
pub open spec fn elapsed_product(cap_anchor: u64, q32: u64, ticks: u64) -> int {
    (ticks - cap_anchor) * q32
}

/// Tick length measured over a window, in 32.32 fixed point, low 64 bits.
pub open spec fn measured_q32(d_instant: int, d_cap: int) -> int {
    if d_cap == 0 {
        0x1_0000_0000
    } else {
        crate::arith::as_u64(d_instant * 0x1_0000_0000 / d_cap)
    }
}

impl CaptureUnit {
    /// The fixed tick length is the only one that the TSF path uses.
    pub open spec fn wf(self) -> bool {
        self.us_per_tick_tsf_q32 == 0 || self.us_per_tick_tsf_q32 == TSF_US_PER_TICK_Q32
    }

    /// The unit before calibration and before any capture.
    pub open spec fn fresh() -> CaptureUnit {
        CaptureUnit {
            cap_anchor_ticks: 0,
            instant_anchor_us: ANCHOR_UNSET,
            tsf_anchor_us: ANCHOR_UNSET,
            us_per_tick_instant_q32: 0,
            us_per_tick_tsf_q32: 0,
            ch0: EdgeChannel { last_raw: 0, hits: 0 },
            ch1: EdgeChannel { last_raw: 0, hits: 0 },
            last_sw_cap_packed: 0,
        }
    }

    /// The tick count expected at an instant.
    pub open spec fn predicted_ticks(self, now_us: u64) -> int {
        self.cap_anchor_ticks + crate::arith::trunc_div(
            (now_us - self.instant_anchor_us) * 0x1_0000_0000,
            self.us_per_tick_instant_q32 as int,
        )
    }

    /// Whether a prediction can be made at an instant.
    pub open spec fn predicts(self, now_us: u64) -> bool {
        &&& self.instant_anchor_us != ANCHOR_UNSET
        &&& self.us_per_tick_instant_q32 != 0
        &&& self.predicted_ticks(now_us) >= 0
    }

    /// The 64-bit count of an edge whose low half was read at an instant.
    pub open spec fn unwrapped(self, raw: u32, now_us: u64) -> int {
        if self.predicts(now_us) {
            nearest_candidate(crate::arith::as_u64(self.predicted_ticks(now_us)), raw)
        } else {
            raw as int
        }
    }

    /// The instant at a tick count.
    pub open spec fn instant_at(self, ticks: u64) -> Option<u64> {
        clock_at_ticks(
            self.instant_anchor_us,
            self.cap_anchor_ticks,
            self.us_per_tick_instant_q32,
            ticks,
        )
    }

    /// The radio's TSF at a tick count.
    pub open spec fn tsf_at(self, ticks: u64) -> Option<u64> {
        clock_at_ticks(self.tsf_anchor_us, self.cap_anchor_ticks, self.us_per_tick_tsf_q32, ticks)
    }

    /// Whether the instant at a tick count is computable in machine
    /// arithmetic.
    pub open spec fn instant_fits(self, ticks: u64) -> bool {
        self.instant_anchor_us == ANCHOR_UNSET || crate::arith::fits_i128(
            elapsed_product(self.cap_anchor_ticks, self.us_per_tick_instant_q32, ticks),
        )
    }

    /// The unit after calibration from two readings.
    pub open spec fn calibrated(self, first: ClockReading, second: ClockReading) -> CaptureUnit {
        CaptureUnit {
            cap_anchor_ticks: first.cap_ticks,
            instant_anchor_us: crate::arith::as_i64(first.instant_us as int) as i64,
            us_per_tick_instant_q32: measured_q32(
                crate::arith::as_u64(second.instant_us - first.instant_us),
                crate::arith::as_u64(second.cap_ticks - first.cap_ticks),
            ) as u64,
            tsf_anchor_us: match first.tsf_us {
                Some(t) => crate::arith::as_i64(t as int) as i64,
                None => self.tsf_anchor_us,
            },
            us_per_tick_tsf_q32: match first.tsf_us {
                Some(_) => TSF_US_PER_TICK_Q32,
                None => self.us_per_tick_tsf_q32,
            },
            ..self
        }
    }

    /// The unit before calibration and before any capture.
    pub fn new() -> (unit: Self)
        ensures
            unit.wf(),
            unit == CaptureUnit::fresh(),
    {
        CaptureUnit {
            cap_anchor_ticks: 0,
            instant_anchor_us: ANCHOR_UNSET,
            tsf_anchor_us: ANCHOR_UNSET,
            us_per_tick_instant_q32: 0,
            us_per_tick_tsf_q32: 0,
            ch0: EdgeChannel { last_raw: 0, hits: 0 },
            ch1: EdgeChannel { last_raw: 0, hits: 0 },
            last_sw_cap_packed: 0,
        }
    }
}

/// Address of the selector that routes a GPIO to a peripheral input signal.
pub fn input_select_addr(signal: u32) -> (addr: usize)
    requires
        GPIO_FUNC_IN_SEL_CFG_BASE + 4 * signal <= usize::MAX,
    ensures
        addr == GPIO_FUNC_IN_SEL_CFG_BASE + 4 * signal,
{
    GPIO_FUNC_IN_SEL_CFG_BASE + (signal as usize) * 4
}

/// Selector value that routes a GPIO through the matrix: the source in the low
/// six bits, the routing flag in bit seven.
pub fn input_select_value(gpio_num: u32) -> (v: u32)
    ensures
        v == gpio_num % 64 + 128,
{
    assert((gpio_num & 0x3Fu32) | (1u32 << 7) == gpio_num % 64 + 128) by (bit_vector);
    (gpio_num & 0x3F) | (1 << 7)
}

/// The write that configures the channel with the register at `offset` to
/// capture edges, if it has an input.
pub open spec fn channel_write(gpio: Option<u32>, offset: usize) -> Seq<(usize, u32)> {
    match gpio {
        Some(_) => seq![((MCPWM0_BASE + offset) as usize, CAP_EDGE_CFG)],
        None => Seq::empty(),
    }
}

/// The write that routes a GPIO to an input signal, if there is one to route.
pub open spec fn routing_write(gpio: Option<u32>, signal: u32) -> Seq<(usize, u32)> {
    match gpio {
        Some(g) => seq![
            ((GPIO_FUNC_IN_SEL_CFG_BASE + 4 * signal) as usize, (g % 64 + 128) as u32),
        ],
        None => Seq::empty(),
    }
}

/// The register writes that set up the unit, in order: the timer, the channels
/// that have an input, the routing of those inputs, and the channel for
/// captures by software.
pub open spec fn planned_writes(gpio_d5: Option<u32>, gpio_d34: Option<u32>) -> Seq<(usize, u32)> {
    seq![((MCPWM0_BASE + REG_CAP_TIMER_CFG) as usize, CAP_TIMER_ON)] + channel_write(
        gpio_d5,
        REG_CAP_CH0_CFG,
    ) + channel_write(gpio_d34, REG_CAP_CH1_CFG) + routing_write(gpio_d5, PWM0_CAP0)
        + routing_write(gpio_d34, PWM0_CAP1) + seq![
        ((MCPWM0_BASE + REG_CAP_CH2_CFG) as usize, CAP_SW_CFG),
    ]
}

/// The register writes that set up the unit, as pairs of address and value in
/// the order in which they are made. `gpio_d5` is the cross-board input of
/// channel 0, `gpio_d34` the self-loop input of channel 1; `None` skips one.
pub fn init_writes(gpio_d5: Option<u32>, gpio_d34: Option<u32>) -> (w: Vec<(usize, u32)>)
    ensures
        w@ == planned_writes(gpio_d5, gpio_d34),
{
    let mut w: Vec<(usize, u32)> = Vec::new();
    w.push((MCPWM0_BASE + REG_CAP_TIMER_CFG, CAP_TIMER_ON));
    if gpio_d5.is_some() {
        w.push((MCPWM0_BASE + REG_CAP_CH0_CFG, CAP_EDGE_CFG));
    }
    if gpio_d34.is_some() {
        w.push((MCPWM0_BASE + REG_CAP_CH1_CFG, CAP_EDGE_CFG));
    }
    if let Some(g) = gpio_d5 {
        w.push((input_select_addr(PWM0_CAP0), input_select_value(g)));
    }
    if let Some(g) = gpio_d34 {
        w.push((input_select_addr(PWM0_CAP1), input_select_value(g)));
    }
    w.push((MCPWM0_BASE + REG_CAP_CH2_CFG, CAP_SW_CFG));
    assert(w@ =~= planned_writes(gpio_d5, gpio_d34));
    w
}

/// When the calibration window that began at `instant0` ends.
pub fn calibration_end(instant0: u64) -> (t: u64)
    requires
        instant0 + CALIBRATION_US <= u64::MAX,
    ensures
        t == instant0 + CALIBRATION_US,
{
    instant0 + CALIBRATION_US
}

/// Calibrates the unit from a reading at each end of the calibration window.
/// The registers are set up before that, by [`init_writes`].
pub fn init(unit: &mut CaptureUnit, first: ClockReading, second: ClockReading)
    requires
        old(unit).wf(),
    ensures
        final(unit).wf(),
        *final(unit) == old(unit).calibrated(first, second),
{
    let d_instant: u64 = second.instant_us.wrapping_sub(first.instant_us);
    let d_cap: u64 = second.cap_ticks.wrapping_sub(first.cap_ticks);
    let q32: u64 = if d_cap == 0 {
        0x1_0000_0000
    } else {
        u64_from_u128((d_instant as u128) * 0x1_0000_0000 / (d_cap as u128))
    };
    unit.cap_anchor_ticks = first.cap_ticks;
    unit.instant_anchor_us = i64_from_u64(first.instant_us);
    unit.us_per_tick_instant_q32 = q32;
    if let Some(t0) = first.tsf_us {
        unit.tsf_anchor_us = i64_from_u64(t0);
        unit.us_per_tick_tsf_q32 = TSF_US_PER_TICK_Q32;
    }
}

/// The count with high half `high` and low half `low`.
fn join_halves(high: u32, low: u32) -> (v: u64)
    ensures
        v == high * 0x1_0000_0000 + low,
{
    assert(((high as u64) << 32) | (low as u64) == high * 0x1_0000_0000 + low) by (bit_vector);
    ((high as u64) << 32) | (low as u64)
}

/// The high half of a count.
fn high_half(v: u64) -> (h: u32)
    ensures
        h == v as int / 0x1_0000_0000,
{
    assert((v >> 32) as u32 == v / 0x1_0000_0000) by (bit_vector);
    (v >> 32) as u32
}

/// The 64-bit count of an edge whose low half `raw` is read at `now_us`. The
/// high half is the one that brings the count nearest to what the clock
/// predicts; before calibration it is zero.
#[verifier::rlimit(40)]
pub fn unwrap_cap_raw(unit: &CaptureUnit, raw: u32, now_us: u64) -> (ticks: u64)
    ensures
        ticks == unit.unwrapped(raw, now_us),
{
    if unit.instant_anchor_us == ANCHOR_UNSET || unit.us_per_tick_instant_q32 == 0 {
        return raw as u64;
    }
    let d_us: i128 = (now_us as i128) - (unit.instant_anchor_us as i128);
    let q32: i128 = unit.us_per_tick_instant_q32 as i128;
    let scaled: i128 = d_us * 0x1_0000_0000;
    let d_ticks: i128 = div_i128(scaled, q32);
    proof {
        let p = crate::arith::abs_int(scaled as int);
        vstd::arithmetic::div_mod::lemma_div_nonincreasing(p, q32 as int);
        vstd::arithmetic::div_mod::lemma_div_pos_is_pos(p, q32 as int);
    }
    let predicted_wide: i128 = (unit.cap_anchor_ticks as i128) + d_ticks;
    if predicted_wide < 0 {
        return raw as u64;
    }
    let predicted: u64 = u64_from_i128(predicted_wide);
    let high: u32 = high_half(predicted);
    let below: u64 = join_halves(high.wrapping_sub(1), raw);
    let same: u64 = join_halves(high, raw);
    let above: u64 = join_halves(high.wrapping_add(1), raw);
    let mut best: u64 = below;
    let mut best_dist: u64 = gap(predicted, below);
    let same_dist: u64 = gap(predicted, same);
    if same_dist < best_dist {
        best = same;
        best_dist = same_dist;
    }
    if gap(predicted, above) < best_dist {
        best = above;
    }
    best
}

/// Distance of two counts.
fn gap(a: u64, b: u64) -> (d: u64)
    ensures
        d == distance(a as int, b as int),
{
    if a < b {
        b - a
    } else {
        a - b
    }
}

/// Takes in a capture by software that read `raw`; gives its 64-bit count.
pub fn sw_capture_ch2_unwrapped(unit: &mut CaptureUnit, raw: u32) -> (ticks: u64)
    requires
        old(unit).wf(),
    ensures
        final(unit).wf(),
        ticks == next_count(old(unit).last_sw_cap_packed, raw),
        *final(unit) == (CaptureUnit { last_sw_cap_packed: ticks, ..*old(unit) }),
{
    let packed: u64 = unit.last_sw_cap_packed;
    let prev_raw: u32 = u32_from_u64(packed);
    let prev_high: u32 = high_half(packed);
    let new_high: u32 = if raw < prev_raw {
        prev_high.wrapping_add(1)
    } else {
        prev_high
    };
    let new_packed: u64 = join_halves(new_high, raw);
    unit.last_sw_cap_packed = new_packed;
    new_packed
}

/// A capture by software together with the clocks read right after it.
pub fn sw_capture_ch2_with_clocks(
    unit: &mut CaptureUnit,
    raw: u32,
    instant_us: u64,
    tsf_us: Option<u64>,
) -> (r: ClockReading)
    requires
        old(unit).wf(),
    ensures
        final(unit).wf(),
        r == (ClockReading { cap_ticks: final(unit).last_sw_cap_packed, instant_us, tsf_us }),
        final(unit).last_sw_cap_packed == next_count(old(unit).last_sw_cap_packed, raw),
        *final(unit) == (CaptureUnit {
            last_sw_cap_packed: final(unit).last_sw_cap_packed,
            ..*old(unit)
        }),
{
    let cap_ticks: u64 = sw_capture_ch2_unwrapped(unit, raw);
    ClockReading { cap_ticks, instant_us, tsf_us }
}

/// A capture by software, where only the count matters.
pub fn sw_capture_ch2(unit: &mut CaptureUnit, raw: u32) -> (ticks: u64)
    requires
        old(unit).wf(),
    ensures
        final(unit).wf(),
        ticks == next_count(old(unit).last_sw_cap_packed, raw),
        *final(unit) == (CaptureUnit { last_sw_cap_packed: ticks, ..*old(unit) }),
{
    sw_capture_ch2_unwrapped(unit, raw)
}

/// A capture by software for users of the unit.
pub fn sw_capture_ch2_pub(unit: &mut CaptureUnit, raw: u32) -> (ticks: u64)
    requires
        old(unit).wf(),
    ensures
        final(unit).wf(),
        ticks == next_count(old(unit).last_sw_cap_packed, raw),
        *final(unit) == (CaptureUnit { last_sw_cap_packed: ticks, ..*old(unit) }),
{
    sw_capture_ch2(unit, raw)
}

/// Extends a raw reading by a running high part: `prev_high` advances by 2^32
/// when the reading went back, and the reading is set into it.
pub fn maybe_unwrap(prev_raw: u32, new_raw: u32, prev_high: u64) -> (v: u64)
    ensures
        v == ((if new_raw < prev_raw {
            crate::arith::as_u64(prev_high + 0x1_0000_0000) as u64
        } else {
            prev_high
        }) | (new_raw as u64)),
        prev_high % 0x1_0000_0000 == 0 ==> v == (if new_raw < prev_raw {
            crate::arith::as_u64(prev_high + 0x1_0000_0000)
        } else {
            prev_high as int
        }) + new_raw,
{
    let high: u64 = if new_raw < prev_raw {
        prev_high.wrapping_add(0x1_0000_0000)
    } else {
        prev_high
    };
    let low: u64 = new_raw as u64;
    assert(high % 0x1_0000_0000u64 == 0 && low <= 0xFFFF_FFFFu64 ==> high | low == high + low)
        by (bit_vector);
    high | low
}

/// Takes in a reading of one channel.
fn poll_channel(unit: &CaptureUnit, channel: &mut EdgeChannel, raw: u32, now_us: u64) -> (r: Option<u64>)
    ensures
        raw == old(channel).last_raw ==> r is None && *final(channel) == *old(channel),
        raw != old(channel).last_raw ==> {
            &&& r == Some(unit.unwrapped(raw, now_us) as u64)
            &&& *final(channel) == (EdgeChannel {
                last_raw: raw,
                hits: crate::arith::as_u64(old(channel).hits + 1) as u64,
            })
        },
{
    if raw == channel.last_raw {
        return None;
    }
    let unwrapped: u64 = unwrap_cap_raw(unit, raw, now_us);
    channel.last_raw = raw;
    channel.hits = channel.hits.wrapping_add(1);
    Some(unwrapped)
}

/// Takes in a reading of channel 0 at `now_us`: the 64-bit count of a new
/// edge, or `None` if the register has not changed.
pub fn poll_ch0(unit: &mut CaptureUnit, raw: u32, now_us: u64) -> (r: Option<u64>)
    requires
        old(unit).wf(),
    ensures
        final(unit).wf(),
        raw == old(unit).ch0.last_raw ==> r is None && *final(unit) == *old(unit),
        raw != old(unit).ch0.last_raw ==> {
            &&& r == Some(old(unit).unwrapped(raw, now_us) as u64)
            &&& *final(unit) == (CaptureUnit {
                ch0: EdgeChannel {
                    last_raw: raw,
                    hits: crate::arith::as_u64(old(unit).ch0.hits + 1) as u64,
                },
                ..*old(unit)
            })
        },
{
    let mut channel: EdgeChannel = unit.ch0;
    let r: Option<u64> = poll_channel(unit, &mut channel, raw, now_us);
    unit.ch0 = channel;
    r
}

/// Takes in a reading of channel 1 at `now_us`: the 64-bit count of a new
/// edge, or `None` if the register has not changed.
pub fn poll_ch1(unit: &mut CaptureUnit, raw: u32, now_us: u64) -> (r: Option<u64>)
    requires
        old(unit).wf(),
    ensures
        final(unit).wf(),
        raw == old(unit).ch1.last_raw ==> r is None && *final(unit) == *old(unit),
        raw != old(unit).ch1.last_raw ==> {
            &&& r == Some(old(unit).unwrapped(raw, now_us) as u64)
            &&& *final(unit) == (CaptureUnit {
                ch1: EdgeChannel {
                    last_raw: raw,
                    hits: crate::arith::as_u64(old(unit).ch1.hits + 1) as u64,
                },
                ..*old(unit)
            })
        },
{
    let mut channel: EdgeChannel = unit.ch1;
    let r: Option<u64> = poll_channel(unit, &mut channel, raw, now_us);
    unit.ch1 = channel;
    r
}

/// Ticks since the anchor on top of a clock's anchor.
fn convert_ticks(anchor_us: i64, cap_anchor: u64, q32: u64, ticks: u64) -> (r: Option<u64>)
    requires
        anchor_us == ANCHOR_UNSET || crate::arith::fits_i128(
            elapsed_product(cap_anchor, q32, ticks),
        ),
    ensures
        r == clock_at_ticks(anchor_us, cap_anchor, q32, ticks),
{
    if anchor_us == ANCHOR_UNSET {
        return None;
    }
    let d_ticks: i128 = (ticks as i128) - (cap_anchor as i128);
    let product: i128 = d_ticks * (q32 as i128);
    let d_us: i128 = floor_div_i128(product, 0x1_0000_0000);
    let v: i128 = (anchor_us as i128) + d_us;
    if v < 0 || v > u64::MAX as i128 {
        None
    } else {
        Some(v as u64)
    }
}

/// Whether the instant at a tick count is computable.
pub fn can_convert_to_instant(unit: &CaptureUnit, cap_ticks: u64) -> (b: bool)
    ensures
        b == unit.instant_fits(cap_ticks),
{
    if unit.instant_anchor_us == ANCHOR_UNSET {
        return true;
    }
    let d_ticks: i128 = (cap_ticks as i128) - (unit.cap_anchor_ticks as i128);
    d_ticks.checked_mul(unit.us_per_tick_instant_q32 as i128).is_some()
}

/// The instant at a tick count, or `None` before calibration.
pub fn cap_ticks_to_instant_us(unit: &CaptureUnit, cap_ticks: u64) -> (r: Option<u64>)
    requires
        unit.instant_fits(cap_ticks),
    ensures
        r == unit.instant_at(cap_ticks),
{
    convert_ticks(
        unit.instant_anchor_us,
        unit.cap_anchor_ticks,
        unit.us_per_tick_instant_q32,
        cap_ticks,
    )
}

/// The radio's TSF at a tick count, or `None` if it was not calibrated. To be
/// preferred for timestamps that are compared between boards.
pub fn cap_ticks_to_mac_tsf_us(unit: &CaptureUnit, cap_ticks: u64) -> (r: Option<u64>)
    requires
        unit.wf(),
    ensures
        r == unit.tsf_at(cap_ticks),
{
    let ghost d = cap_ticks - unit.cap_anchor_ticks;
    assert(i128::MIN <= d * unit.us_per_tick_tsf_q32 <= i128::MAX) by (nonlinear_arith)
        requires
            -u64::MAX <= d <= u64::MAX,
            0 <= unit.us_per_tick_tsf_q32 <= 53_687_091,
    ;
    convert_ticks(
        unit.tsf_anchor_us,
        unit.cap_anchor_ticks,
        unit.us_per_tick_tsf_q32,
        cap_ticks,
    )
}

/// New edges on channel 0 so far.
pub fn ch0_hits(unit: &CaptureUnit) -> (n: u64)
    ensures
        n == unit.ch0.hits,
{
    unit.ch0.hits
}

/// New edges on channel 1 so far.
pub fn ch1_hits(unit: &CaptureUnit) -> (n: u64)
    ensures
        n == unit.ch1.hits,
{
    unit.ch1.hits
}

/// Captures less than one wrap of the timer apart count on without error: if
/// the timer's true count was the last one and is now `count`, the capture
/// gives `count`.
pub proof fn law_software_captures_count_on(last: u64, count: u64)
    requires
        last <= count < last + 0x1_0000_0000,
    ensures
        next_count(last, (count as int % 0x1_0000_0000) as u32) == count,
{
}

/// An edge less than half a wrap away from where the clock puts it is
/// recovered exactly from its low half.
#[verifier::rlimit(40)]
pub proof fn law_edge_count_is_recovered(unit: CaptureUnit, now_us: u64, count: u64)
    requires
        unit.predicts(now_us),
        distance(crate::arith::as_u64(unit.predicted_ticks(now_us)), count as int) < 0x8000_0000,
    ensures
        unit.unwrapped((count as int % 0x1_0000_0000) as u32, now_us) == count,
{
}

/// An unwrapped count always keeps the low half that was read.
#[verifier::rlimit(40)]
pub proof fn law_low_half_is_kept(unit: CaptureUnit, raw: u32, now_us: u64)
    ensures
        unit.unwrapped(raw, now_us) % 0x1_0000_0000 == raw,
        0 <= unit.unwrapped(raw, now_us) <= u64::MAX,
{
}

/// After calibration the first reading converts to its own instant, and the
/// second to its own or the microsecond before. Left out are instants from
/// 2^63 on, windows longer than one wrap of the timer, and tick lengths that
/// do not fit the fixed-point format.
pub proof fn law_calibration_meets_both_ends(
    unit: CaptureUnit,
    first: ClockReading,
    second: ClockReading,
)
    requires
        first.instant_us <= second.instant_us <= i64::MAX,
        first.cap_ticks < second.cap_ticks <= first.cap_ticks + 0x1_0000_0000,
        (second.instant_us - first.instant_us) * 0x1_0000_0000 / (second.cap_ticks
            - first.cap_ticks) <= u64::MAX,
    ensures
        unit.calibrated(first, second).instant_at(first.cap_ticks) == Some(first.instant_us),
        unit.calibrated(first, second).instant_at(second.cap_ticks) is Some,
        second.instant_us - 1 <= unit.calibrated(first, second).instant_at(second.cap_ticks)->0
            <= second.instant_us,
{
    let d_us = second.instant_us - first.instant_us;
    let d_cap = second.cap_ticks - first.cap_ticks;
    let scaled = d_us * 0x1_0000_0000;
    let q = scaled / d_cap;
    vstd::arithmetic::div_mod::lemma_fundamental_div_mod(scaled, d_cap);
    vstd::arithmetic::div_mod::lemma_mod_pos_bound(scaled, d_cap);
    vstd::arithmetic::div_mod::lemma_div_pos_is_pos(scaled, d_cap);
    let c = unit.calibrated(first, second);
    assert(c.us_per_tick_instant_q32 == q);
    assert(elapsed_product(c.cap_anchor_ticks, c.us_per_tick_instant_q32, first.cap_ticks) == 0)
        by (nonlinear_arith)
        requires
            elapsed_product(c.cap_anchor_ticks, c.us_per_tick_instant_q32, first.cap_ticks) == 0
                * q,
    ;
    assert(elapsed_product(c.cap_anchor_ticks, c.us_per_tick_instant_q32, second.cap_ticks)
        == d_cap * q);
    assert(scaled - 0x1_0000_0000 <= d_cap * q <= scaled);
}

/// The register writes touch a channel's configuration and its input's selector
/// exactly when the channel has an input, and with these values; the timer and
/// the channel for captures by software are set up in every case.
pub proof fn law_skipped_inputs_are_left_alone(
    gpio_d5: Option<u32>,
    gpio_d34: Option<u32>,
    value: u32,
)
    ensures
        ({
            let w = planned_writes(gpio_d5, gpio_d34);
            let ch0 = (MCPWM0_BASE + REG_CAP_CH0_CFG) as usize;
            let ch1 = (MCPWM0_BASE + REG_CAP_CH1_CFG) as usize;
            let sel0 = (GPIO_FUNC_IN_SEL_CFG_BASE + 4 * PWM0_CAP0) as usize;
            let sel1 = (GPIO_FUNC_IN_SEL_CFG_BASE + 4 * PWM0_CAP1) as usize;
            &&& w.contains((ch0, value)) <==> gpio_d5 is Some && value == CAP_EDGE_CFG
            &&& w.contains((ch1, value)) <==> gpio_d34 is Some && value == CAP_EDGE_CFG
            &&& w.contains((sel0, value)) <==> gpio_d5 is Some && value == gpio_d5->0 % 64 + 128
            &&& w.contains((sel1, value)) <==> gpio_d34 is Some && value == gpio_d34->0 % 64 + 128
            &&& w.contains(((MCPWM0_BASE + REG_CAP_TIMER_CFG) as usize, value)) <==> value
                == CAP_TIMER_ON
            &&& w.contains(((MCPWM0_BASE + REG_CAP_CH2_CFG) as usize, value)) <==> value
                == CAP_SW_CFG
        }),
{
    let w = planned_writes(gpio_d5, gpio_d34);
    let n5: int = if gpio_d5 is Some {
        1
    } else {
        0
    };
    let n34: int = if gpio_d34 is Some {
        1
    } else {
        0
    };
    assert(w.len() == 2 + 2 * n5 + 2 * n34);
    assert(w[0] == ((MCPWM0_BASE + REG_CAP_TIMER_CFG) as usize, CAP_TIMER_ON));
    assert(w[w.len() - 1] == ((MCPWM0_BASE + REG_CAP_CH2_CFG) as usize, CAP_SW_CFG));
    if gpio_d5 is Some {
        assert(w[1] == ((MCPWM0_BASE + REG_CAP_CH0_CFG) as usize, CAP_EDGE_CFG));
        assert(w[2 + n34] == (
            (GPIO_FUNC_IN_SEL_CFG_BASE + 4 * PWM0_CAP0) as usize,
            (gpio_d5->0 % 64 + 128) as u32,
        ));
    }
    if gpio_d34 is Some {
        assert(w[1 + n5] == ((MCPWM0_BASE + REG_CAP_CH1_CFG) as usize, CAP_EDGE_CFG));
        assert(w[2 + 2 * n5] == (
            (GPIO_FUNC_IN_SEL_CFG_BASE + 4 * PWM0_CAP1) as usize,
            (gpio_d34->0 % 64 + 128) as u32,
        ));
    }
}

/// A converted reading is the clock's anchor plus the elapsed ticks at the tick
/// length, rounded down to a microsecond, before the anchor as after it.
pub proof fn law_conversion_rounds_the_elapsed_time_down(
    anchor_us: i64,
    cap_anchor: u64,
    q32: u64,
    ticks: u64,
)
    requires
        clock_at_ticks(anchor_us, cap_anchor, q32, ticks) is Some,
    ensures
        ({
            let us = clock_at_ticks(anchor_us, cap_anchor, q32, ticks)->0 - anchor_us;
            us * 0x1_0000_0000 <= (ticks - cap_anchor) * q32 < (us + 1) * 0x1_0000_0000
        }),
{
}

/// Later captures never convert to earlier readings, whichever side of the
/// anchor they are on.
pub proof fn law_conversion_keeps_the_order(
    anchor_us: i64,
    cap_anchor: u64,
    q32: u64,
    earlier: u64,
    later: u64,
)
    requires
        earlier <= later,
        clock_at_ticks(anchor_us, cap_anchor, q32, earlier) is Some,
        clock_at_ticks(anchor_us, cap_anchor, q32, later) is Some,
    ensures
        clock_at_ticks(anchor_us, cap_anchor, q32, earlier)->0 <= clock_at_ticks(
            anchor_us,
            cap_anchor,
            q32,
            later,
        )->0,
{
    assert((earlier - cap_anchor) * q32 <= (later - cap_anchor) * q32) by (nonlinear_arith)
        requires
            earlier <= later,
            q32 >= 0,
    ;
}

} // verus!
