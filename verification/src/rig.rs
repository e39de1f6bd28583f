//! The pulse rig: when a board drives its pulses, and the lines it prints
//! about them.

use vstd::prelude::*;

use crate::text::{chars_of, parse_unsigned, push_dec, push_hex2, split_ranges};

verus! {

/// Pulse cadence in server time.
pub const PULSE_PERIOD_NS: u128 = 100_000_000;

/// Least time between planning a pulse and its tick.
pub const PULSE_SLACK_NS: u128 = 5_000_000;

/// Width of a pulse.
pub const PULSE_WIDTH_US: u64 = 1_000;

/// The last stretch before an edge, which is spun and not slept.
pub const SPIN_US: u64 = 80;

/// Pause while waiting for the estimator to converge.
pub const CONVERGE_PAUSE_MS: u64 = 200;

/// Pause when server time or the local target is not available.
pub const RETRY_PAUSE_MS: u64 = 100;

/// Pause when no edge was captured.
pub const REPORT_PAUSE_MS: u64 = 2;

/// The first multiple of the pulse period after `now_ns` that leaves at least
/// the slack.
pub open spec fn next_tick(now_ns: int) -> int {
    let tick = (now_ns / PULSE_PERIOD_NS as int + 1) * PULSE_PERIOD_NS;
    if tick - now_ns < PULSE_SLACK_NS {
        tick + PULSE_PERIOD_NS
    } else {
        tick
    }
}

/// What the pulser does next about time.
#[derive(Clone, Copy, Debug, PartialEq, Eq, Structural)]
pub enum TickPlan {
    /// Sleep, then ask for the time again.
    Sleep { ms: u64 },
    /// The estimator has converged: say so, then ask for the time again.
    Converged,
    /// Ask for the local time at this server time.
    Target { tick_ns: u128 },
}

/// What the pulser does next about an edge.
#[derive(Clone, Copy, Debug, PartialEq, Eq, Structural)]
pub enum EdgePlan {
    /// Sleep, then ask for the time again.
    Sleep { ms: u64 },
    /// Sleep this long, spin until the target, then raise the edge.
    Fire { coarse_wait_us: u64, target_local_us: u64 },
}

/// The pulser's state.
#[derive(Clone, Copy, Debug, PartialEq, Eq, Structural)]
pub struct Pulser {
    /// Whether server time has been available once.
    pub converged: bool,
    /// Number of the next pulse, wrapping.
    pub seq: u32,
}

/// How long is slept before an edge; the rest is spun.
pub open spec fn coarse_wait(target_us: int, now_us: int) -> int {
    if target_us - now_us > SPIN_US {
        target_us - now_us - SPIN_US
    } else {
        0
    }
}

/// A board's short address as text.
pub open spec fn mac_text(mac: (u8, u8, u8)) -> Seq<char> {
    crate::text::hex2(mac.0) + seq![':'] + crate::text::hex2(mac.1) + seq![':']
        + crate::text::hex2(mac.2)
}

/// The line printed after a pulse was sent.
pub open spec fn tx_line(
    mac: (u8, u8, u8),
    seq: u32,
    synced_ns: u128,
    target_ns: u128,
    cap_us: u64,
) -> Seq<char> {
    "pulse_tx mac="@ + mac_text(mac) + " seq="@ + crate::text::dec(seq as nat) + " synced_ns="@
        + crate::text::dec(synced_ns as nat) + " target_ns="@ + crate::text::dec(target_ns as nat)
        + " cap_us="@ + crate::text::dec(cap_us as nat)
}

/// A server time as text, or `NONE`.
pub open spec fn synced_text(synced_ns: Option<u128>) -> Seq<char> {
    match synced_ns {
        Some(ns) => crate::text::dec(ns as nat),
        None => "NONE"@,
    }
}

/// The line printed after an edge was captured.
pub open spec fn rx_line(
    port: Seq<char>,
    mac: (u8, u8, u8),
    synced_ns: Option<u128>,
    cap_us: u64,
) -> Seq<char> {
    "pulse_rx port="@ + port + " mac="@ + mac_text(mac) + " synced_ns="@ + synced_text(synced_ns)
        + " cap_us="@ + crate::text::dec(cap_us as nat)
}

/// The six numbers of an address, if it has six hexadecimal pieces of at most
/// a byte each.
pub open spec fn bssid_value(s: Seq<char>) -> Option<Seq<u8>> {
    let pieces = crate::text::split_on(s, ':');
    if pieces.len() == 6 && forall|i: int|
        0 <= i < 6 ==> crate::text::unsigned_value(#[trigger] pieces[i], 16, 255) is Some {
        Some(Seq::new(6, |i: int| (crate::text::unsigned_value(pieces[i], 16, 255)->0) as u8))
    } else {
        None
    }
}

/// Parses an address such as `34:20:E3:63:66:B3`.
pub fn parse_bssid(s: &str) -> (r: Option<[u8; 6]>)
    ensures
        match r {
            Some(b) => bssid_value(s@) == Some(b@),
            None => bssid_value(s@) is None,
        },
{
    let chars: Vec<char> = chars_of(s);
    let text: &[char] = chars.as_slice();
    let ranges: Vec<(usize, usize)> = split_ranges(text, ':');
    if ranges.len() != 6 {
        return None;
    }
    let ghost pieces = crate::text::split_on(s@, ':');
    let mut out: [u8; 6] = [0u8; 6];
    let mut i: usize = 0;
    while i < 6
        invariant
            i <= 6,
            text@ == s@,
            pieces == crate::text::split_on(s@, ':'),
            ranges@.len() == 6,
            pieces.len() == 6,
            forall|k: int|
                0 <= k < 6 ==> {
                    &&& (#[trigger] ranges@[k]).0 <= ranges@[k].1 <= text@.len()
                    &&& text@.subrange(ranges@[k].0 as int, ranges@[k].1 as int) == pieces[k]
                },
            forall|k: int|
                0 <= k < i ==> crate::text::unsigned_value(#[trigger] pieces[k], 16, 255) == Some(
                    out@[k] as nat,
                ),
        decreases 6 - i,
    {
        let range: (usize, usize) = ranges[i];
        let piece: &[char] = vstd::slice::slice_subrange(text, range.0, range.1);
        assert(piece@ == pieces[i as int]);
        match parse_unsigned(piece, 16, 255) {
            Some(v) => {
                out[i] = v as u8;
            },
            None => return None,
        }
        i = i + 1;
    }
    assert(bssid_value(s@)->0 =~= out@);
    Some(out)
}

/// The tick of the next pulse.
pub fn next_pulse_tick(now_ns: u128) -> (tick_ns: u128)
    requires
        next_tick(now_ns as int) <= u128::MAX,
    ensures
        tick_ns == next_tick(now_ns as int),
{
    let tick: u128 = ((now_ns / PULSE_PERIOD_NS) + 1) * PULSE_PERIOD_NS;
    if tick - now_ns < PULSE_SLACK_NS {
        tick + PULSE_PERIOD_NS
    } else {
        tick
    }
}

/// Whether the next pulse after `now_ns` has a tick that is representable.
pub fn can_plan(now_ns: u128) -> (b: bool)
    ensures
        b == (next_tick(now_ns as int) <= u128::MAX),
{
    let periods: u128 = now_ns / PULSE_PERIOD_NS + 1;
    match periods.checked_mul(PULSE_PERIOD_NS) {
        None => false,
        Some(tick) => !(tick - now_ns < PULSE_SLACK_NS) || tick.checked_add(
            PULSE_PERIOD_NS,
        ).is_some(),
    }
}

/// When a pulse that was raised at `now_us` is released.
pub fn release_at(now_us: u64) -> (t: u64)
    requires
        now_us + PULSE_WIDTH_US <= u64::MAX,
    ensures
        t == now_us + PULSE_WIDTH_US,
{
    now_us + PULSE_WIDTH_US
}

/// How long the reporter pauses after a round, if it does: only when the round
/// printed nothing.
pub fn reporter_pause(emitted: bool) -> (ms: Option<u64>)
    ensures
        ms == (if emitted {
            None
        } else {
            Some(REPORT_PAUSE_MS)
        }),
{
    if emitted {
        None
    } else {
        Some(REPORT_PAUSE_MS)
    }
}

/// Appends a board's short address.
pub fn push_mac(out: &mut String, mac: (u8, u8, u8))
    ensures
        final(out)@ == old(out)@ + mac_text(mac),
{
    push_hex2(out, mac.0);
    out.push(':');
    push_hex2(out, mac.1);
    out.push(':');
    push_hex2(out, mac.2);
    assert(out@ =~= old(out)@ + mac_text(mac));
}

/// The line printed after a pulse was sent.
pub fn pulse_tx_line(mac: (u8, u8, u8), seq: u32, synced_ns: u128, target_ns: u128, cap_us: u64) -> (
out: String)
    ensures
        out@ == tx_line(mac, seq, synced_ns, target_ns, cap_us),
{
    let mut out: String = String::new();
    out.append("pulse_tx mac=");
    assert(out@ =~= "pulse_tx mac="@);
    push_mac(&mut out, mac);
    out.append(" seq=");
    push_dec(&mut out, seq as u128);
    out.append(" synced_ns=");
    push_dec(&mut out, synced_ns);
    out.append(" target_ns=");
    push_dec(&mut out, target_ns);
    out.append(" cap_us=");
    push_dec(&mut out, cap_us as u128);
    out
}

/// The line printed after an edge was captured on `port`.
pub fn log_event(port: &str, mac: (u8, u8, u8), synced_ns: Option<u128>, cap_us: u64) -> (out: String)
    ensures
        out@ == rx_line(port@, mac, synced_ns, cap_us),
{
    let mut out: String = String::new();
    out.append("pulse_rx port=");
    assert(out@ =~= "pulse_rx port="@);
    out.append(port);
    out.append(" mac=");
    push_mac(&mut out, mac);
    out.append(" synced_ns=");
    match synced_ns {
        Some(ns) => push_dec(&mut out, ns),
        None => out.append("NONE"),
    }
    out.append(" cap_us=");
    push_dec(&mut out, cap_us as u128);
    out
}

impl Pulser {
    /// A pulser that has not seen server time yet.
    pub fn new() -> (p: Self)
        ensures
            p == (Pulser { converged: false, seq: 0 }),
    {
        Pulser { converged: false, seq: 0 }
    }

    /// Takes in the present server time, or that there is none.
    pub fn on_time(&mut self, now_ns: Option<u128>) -> (plan: TickPlan)
        requires
            old(self).converged && now_ns is Some ==> next_tick((now_ns->0) as int) <= u128::MAX,
        ensures
            *final(self) == (Pulser { converged: old(self).converged || now_ns is Some, ..*old(self) }),
            plan == (match now_ns {
                None => TickPlan::Sleep {
                    ms: if old(self).converged {
                        RETRY_PAUSE_MS
                    } else {
                        CONVERGE_PAUSE_MS
                    },
                },
                Some(ns) => if old(self).converged {
                    TickPlan::Target { tick_ns: next_tick(ns as int) as u128 }
                } else {
                    TickPlan::Converged
                },
            }),
    {
        match now_ns {
            None => TickPlan::Sleep {
                ms: if self.converged {
                    RETRY_PAUSE_MS
                } else {
                    CONVERGE_PAUSE_MS
                },
            },
            Some(ns) => {
                if self.converged {
                    TickPlan::Target { tick_ns: next_pulse_tick(ns) }
                } else {
                    self.converged = true;
                    TickPlan::Converged
                }
            },
        }
    }

    /// Takes in the local time of the planned tick, or that there is none, and
    /// the present local time.
    pub fn on_target(&self, target_local_us: Option<u64>, now_local_us: u64) -> (plan: EdgePlan)
        ensures
            plan == (match target_local_us {
                None => EdgePlan::Sleep { ms: RETRY_PAUSE_MS },
                Some(t) => EdgePlan::Fire {
                    coarse_wait_us: coarse_wait(t as int, now_local_us as int) as u64,
                    target_local_us: t,
                },
            }),
    {
        match target_local_us {
            None => EdgePlan::Sleep { ms: RETRY_PAUSE_MS },
            Some(t) => {
                let coarse_wait_us: u64 = if t > now_local_us {
                    (t - now_local_us).saturating_sub(SPIN_US)
                } else {
                    0
                };
                EdgePlan::Fire { coarse_wait_us, target_local_us: t }
            },
        }
    }

    /// Takes in that the edge was raised at `synced_ns`, if that is known, and
    /// gives the line to print.
    pub fn on_edge(
        &mut self,
        mac: (u8, u8, u8),
        synced_ns: Option<u128>,
        tick_ns: u128,
        edge_cap: u64,
    ) -> (line: String)
        ensures
            line@ == tx_line(
                mac,
                old(self).seq,
                match synced_ns {
                    Some(ns) => ns,
                    None => tick_ns,
                },
                tick_ns,
                edge_cap,
            ),
            *final(self) == (Pulser {
                seq: crate::arith::as_u32(old(self).seq + 1) as u32,
                ..*old(self)
            }),
    {
        let actual: u128 = match synced_ns {
            Some(ns) => ns,
            None => tick_ns,
        };
        let line: String = pulse_tx_line(mac, self.seq, actual, tick_ns, edge_cap);
        self.seq = self.seq.wrapping_add(1);
        line
    }
}

/// Pulses fall on multiples of the period, at least the slack and less than
/// the slack and a period ahead.
pub proof fn law_ticks_are_aligned_and_ahead(now_ns: u128)
    ensures
        next_tick(now_ns as int) % (PULSE_PERIOD_NS as int) == 0,
        now_ns + PULSE_SLACK_NS <= next_tick(now_ns as int) < now_ns + PULSE_SLACK_NS
            + PULSE_PERIOD_NS,
{
}

/// Boards whose server time differs plan the same tick, as long as no tick
/// less the slack lies between them.
pub proof fn law_boards_plan_the_same_tick(a: u128, b: u128)
    requires
        a <= b,
        b + PULSE_SLACK_NS <= next_tick(a as int),
    ensures
        next_tick(a as int) == next_tick(b as int),
{
}

/// The coarse sleep never passes the target, and leaves at most the stretch
/// that is spun.
pub proof fn law_coarse_wait_stops_short(target_us: u64, now_us: u64)
    requires
        now_us <= target_us,
    ensures
        now_us + coarse_wait(target_us as int, now_us as int) <= target_us,
        target_us - (now_us + coarse_wait(target_us as int, now_us as int)) <= SPIN_US,
{
}

} // verus!
