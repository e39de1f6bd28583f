//! The time server: which packets it sends.
//!
//! The timestamps are deterministic: they follow from the start time and the
//! interval, not from when a packet really leaves. Sending jitter does not
//! enter the payload, so all clients see the same table of times.

use vstd::prelude::*;

use crate::packet::{SyncPacket, MAGIC};

verus! {

/// Nanoseconds in a millisecond.
pub const NS_PER_MS: u128 = 1_000_000;

/// The server time in packet `seq`.
pub open spec fn scheduled_ns(t0_ns: int, interval_ns: int, seq: int) -> int {
    t0_ns + seq * interval_ns
}

/// The packets that a server sends, one after the other.
#[derive(Clone, Copy, Debug, PartialEq, Eq, Structural)]
pub struct Schedule {
    /// Server time of packet zero.
    pub t0_ns: u128,
    pub interval_ns: u128,
    /// Number of the next packet, wrapping.
    pub seq: u32,
}

impl Schedule {
    /// The server time in the next packet.
    pub open spec fn next_ns(self) -> int {
        scheduled_ns(self.t0_ns as int, self.interval_ns as int, self.seq as int)
    }

    /// A schedule that starts at `t0_ns`.
    pub fn new(t0_ns: u128, interval_ms: u64) -> (s: Self)
        ensures
            s == (Schedule { t0_ns, interval_ns: (interval_ms * NS_PER_MS) as u128, seq: 0 }),
    {
        Schedule { t0_ns, interval_ns: (interval_ms as u128) * NS_PER_MS, seq: 0 }
    }

    /// Whether the server time in the next packet is representable.
    pub fn can_send(&self) -> (b: bool)
        ensures
            b == (self.next_ns() <= u128::MAX),
    {
        assert(self.seq * self.interval_ns >= 0) by (nonlinear_arith)
            requires
                self.seq >= 0,
                self.interval_ns >= 0,
        ;
        match (self.seq as u128).checked_mul(self.interval_ns) {
            None => false,
            Some(p) => self.t0_ns.checked_add(p).is_some(),
        }
    }

    /// The next packet; the schedule moves on by one.
    pub fn next_packet(&mut self) -> (p: SyncPacket)
        requires
            old(self).next_ns() <= u128::MAX,
        ensures
            p == (SyncPacket {
                magic: MAGIC,
                seq: old(self).seq,
                send_unix_ns: old(self).next_ns() as u128,
            }),
            *final(self) == (Schedule {
                seq: crate::arith::as_u32(old(self).seq + 1) as u32,
                ..*old(self)
            }),
    {
        assert(self.seq * self.interval_ns >= 0) by (nonlinear_arith)
            requires
                self.seq >= 0,
                self.interval_ns >= 0,
        ;
        let send_unix_ns: u128 = self.t0_ns + (self.seq as u128) * self.interval_ns;
        let p = SyncPacket { magic: MAGIC, seq: self.seq, send_unix_ns };
        self.seq = self.seq.wrapping_add(1);
        p
    }
}

/// When packets are due, on a clock that starts with the server.
#[derive(Clone, Copy, Debug, PartialEq, Eq, Structural)]
pub struct Pacer {
    /// When the next packet is due.
    pub due_ns: u128,
    pub interval_ns: u128,
}

impl Pacer {
    /// A pacer whose first packet is due at once.
    pub fn new(interval_ms: u64) -> (p: Self)
        ensures
            p == (Pacer { due_ns: 0, interval_ns: (interval_ms * NS_PER_MS) as u128 }),
    {
        Pacer { due_ns: 0, interval_ns: (interval_ms as u128) * NS_PER_MS }
    }

    /// Whether the packet after the next one is due at a time that is
    /// representable.
    pub fn can_pace(&self) -> (b: bool)
        ensures
            b == (self.due_ns + self.interval_ns <= u128::MAX),
    {
        self.due_ns.checked_add(self.interval_ns).is_some()
    }

    /// How long to sleep at `now_ns` before the next packet is sent; the one
    /// after it is due an interval later, however late this one is.
    pub fn pace(&mut self, now_ns: u128) -> (wait_ns: u128)
        requires
            old(self).due_ns + old(self).interval_ns <= u128::MAX,
        ensures
            wait_ns == (if old(self).due_ns > now_ns {
                old(self).due_ns - now_ns
            } else {
                0
            }),
            *final(self) == old(self).paced(),
    {
        let wait_ns: u128 = if self.due_ns > now_ns {
            self.due_ns - now_ns
        } else {
            0
        };
        self.due_ns = self.due_ns + self.interval_ns;
        wait_ns
    }

    /// The pacer after one more packet.
    pub open spec fn paced(self) -> Pacer {
        Pacer { due_ns: (self.due_ns + self.interval_ns) as u128, ..self }
    }

    /// The pacer after `k` more packets.
    pub open spec fn paced_times(self, k: nat) -> Pacer
        decreases k,
    {
        if k == 0 {
            self
        } else {
            self.paced_times((k - 1) as nat).paced()
        }
    }
}

/// Packet zero carries exactly the start time, whatever that is, and every later
/// one of a schedule as many intervals more as its number says. A millisecond of
/// an interval is a million nanoseconds.
pub proof fn law_packet_zero_carries_the_start(s: Schedule, k: u32)
    ensures
        s.seq == 0 ==> s.next_ns() == s.t0_ns,
        s.next_ns() - s.t0_ns == s.seq * s.interval_ns,
        (Schedule { seq: k, ..s }).next_ns() - s.next_ns() == (k - s.seq) * s.interval_ns,
        NS_PER_MS == 1_000_000,
{
    assert(s.seq == 0 ==> s.seq * s.interval_ns == 0) by (nonlinear_arith);
    assert((k - s.seq) * s.interval_ns == k * s.interval_ns - s.seq * s.interval_ns)
        by (nonlinear_arith);
}

/// Lateness does not add up: whenever the packets before it were sent, packet
/// `k` from here is due `k` intervals after the next one.
pub proof fn law_pacing_does_not_drift(p: Pacer, k: nat)
    requires
        p.due_ns + k * p.interval_ns <= u128::MAX,
    ensures
        p.paced_times(k).due_ns == p.due_ns + k * p.interval_ns,
        p.paced_times(k).interval_ns == p.interval_ns,
    decreases k,
{
    if k > 0 {
        assert(k * p.interval_ns == (k - 1) * p.interval_ns + p.interval_ns) by (nonlinear_arith);
        law_pacing_does_not_drift(p, (k - 1) as nat);
    } else {
        assert(k * p.interval_ns == 0) by (nonlinear_arith)
            requires
                k == 0,
        ;
    }
}

/// Consecutive packets are exactly one interval apart. Left out is the step at
/// which the sequence number wraps, where the time falls back to the start.
pub proof fn law_packets_are_one_interval_apart(s: Schedule)
    requires
        s.seq < u32::MAX,
    ensures
        (Schedule { seq: (s.seq + 1) as u32, ..s }).next_ns() == s.next_ns() + s.interval_ns,
{
    assert((s.seq + 1) * s.interval_ns == s.seq * s.interval_ns + s.interval_ns)
        by (nonlinear_arith);
}

/// A client recovers from a packet exactly the server time that was scheduled
/// for its number.
pub proof fn law_clients_see_the_schedule(s: Schedule, headers: Seq<u8>, trailer: Seq<u8>)
    requires
        s.next_ns() <= u128::MAX,
        ({
            let p = SyncPacket { magic: MAGIC, seq: s.seq, send_unix_ns: s.next_ns() as u128 };
            forall|j: int|
                0 <= j < headers.len() ==> !#[trigger] crate::packet::magic_at(
                    headers + crate::packet::wire(p) + trailer,
                    j,
                )
        }),
    ensures
        ({
            let p = SyncPacket { magic: MAGIC, seq: s.seq, send_unix_ns: s.next_ns() as u128 };
            let found = crate::packet::find(headers + crate::packet::wire(p) + trailer);
            &&& found is Some
            &&& (found->0).send_unix_ns == scheduled_ns(
                s.t0_ns as int,
                s.interval_ns as int,
                (found->0).seq as int,
            )
        }),
{
    let p = SyncPacket { magic: MAGIC, seq: s.seq, send_unix_ns: s.next_ns() as u128 };
    assert(s.seq * s.interval_ns >= 0) by (nonlinear_arith)
        requires
            s.seq >= 0,
            s.interval_ns >= 0,
    ;
    crate::packet::law_found_behind_headers(headers, p, trailer);
}

} // verus!
