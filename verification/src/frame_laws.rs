//! What the client does with frames and events, stated over their bytes and
//! readings.

use vstd::prelude::*;

use crate::client::{BeaconAnchor, ClientState, RxAction, SnifferEvent};
use crate::estimator::Sample;

verus! {

/// Whether a frame begins as a beacon does and is long enough for one.
pub open spec fn begins_as_beacon(data: Seq<u8>) -> bool {
    data.len() >= 36 && data[0] == 0x80
}

/// Whether six bytes at 16 are this address.
pub open spec fn sent_by(data: Seq<u8>, bssid: Seq<u8>) -> bool {
    bssid.len() == 6 && forall|k: int| 0 <= k < 6 ==> data[16 + k] == #[trigger] bssid[k]
}

/// Whether `own` is the reading with low half `low` at or last before `now`. If
/// there was none yet, it is that of the wrap before zero.
pub open spec fn is_stamp(now: u64, low: u32, own: u64) -> bool {
    ||| own % 0x1_0000_0000 == low && own <= now < own + 0x1_0000_0000
    ||| now < low && own == 0xffff_ffff_0000_0000 + low
}

/// Whether `d` is the difference of two readings, as 64 signed bits hold it.
pub open spec fn is_difference(a: u64, b: u64, d: i64) -> bool {
    ||| d == a - b
    ||| d == a - b - 0x1_0000_0000_0000_0000
    ||| d == a - b + 0x1_0000_0000_0000_0000
}

/// The count after `n`, in 64 bits.
pub open spec fn count_after(n: int) -> int {
    if n == 0xffff_ffff_ffff_ffff {
        0
    } else {
        n + 1
    }
}

/// Whether the counters hold 64-bit numbers.
pub open spec fn counters_fit(st: ClientState) -> bool {
    &&& 0 <= st.frames_seen <= 0xffff_ffff_ffff_ffff
    &&& 0 <= st.frames_matched <= 0xffff_ffff_ffff_ffff
    &&& 0 <= st.beacons_seen <= 0xffff_ffff_ffff_ffff
    &&& 0 <= st.beacons_used <= 0xffff_ffff_ffff_ffff
    &&& 0 <= st.samples_dropped <= 0xffff_ffff_ffff_ffff
}

/// The queue with one more event, if it holds less than 32.
pub open spec fn with_room(queue: Seq<SnifferEvent>, event: SnifferEvent) -> Seq<SnifferEvent> {
    if queue.len() < 32 {
        queue + seq![event]
    } else {
        queue
    }
}

proof fn lemma_difference(a: u64, b: u64, d: i64)
    requires
        is_difference(a, b, d),
    ensures
        crate::arith::as_i64(a - b) == d,
{
    crate::arith_laws::law_readings_keep_their_range(d as int, 0);
    crate::arith_laws::law_readings_keep_their_range(d as int, 1);
    crate::arith_laws::law_readings_keep_their_range(d as int, -1);
}

proof fn lemma_stamp(now: u64, low: u32, own: u64)
    requires
        is_stamp(now, low, own),
    ensures
        crate::client::full_timestamp(now, low) == own,
{
}

proof fn lemma_beacon_tsf(data: Seq<u8>)
    requires
        begins_as_beacon(data),
    ensures
        crate::client::beacon_tsf(data) == crate::packet_laws::eight_at(data, 24),
{
    crate::arith_laws::law_eight_bytes_make_their_number(data.subrange(24, 32));
}

proof fn lemma_bssid(data: Seq<u8>, bssid: Seq<u8>)
    requires
        begins_as_beacon(data),
        bssid.len() == 6,
    ensures
        sent_by(data, bssid) <==> crate::client::beacon_bssid(data) == bssid,
{
    let b = crate::client::beacon_bssid(data);
    if sent_by(data, bssid) {
        assert forall|k: int| 0 <= k < 6 implies b[k] == bssid[k] by {
            assert(data[16 + k] == bssid[k]);
        }
        assert(b =~= bssid);
    }
    if b == bssid {
        assert forall|k: int| 0 <= k < 6 implies data[16 + k] == #[trigger] bssid[k] by {
            assert(b[k] == data[16 + k]);
        }
    }
}

/// A fresh client has heard, counted, queued and locked on to nothing.
pub proof fn law_fresh_client_knows_nothing()
    ensures
        ({
            let st = ClientState::fresh();
            &&& st.queue.len() == 0
            &&& st.beacons.slots.len() == 0
            &&& st.wall.slots.len() == 0
            &&& st.latest_beacon is None
            &&& st.locked_bssid is None
            &&& st.instant_minus_tsf == i64::MIN
            &&& st.frames_seen == 0
            &&& st.frames_matched == 0
            &&& st.beacons_seen == 0
            &&& st.beacons_used == 0
            &&& st.samples_dropped == 0
        }),
{
}

/// Every frame is counted, whatever it holds, and moves the smoothed difference
/// of our two clocks: to the difference of their readings if there was none,
/// else by a 64th of the way, without the fraction. No frame touches the
/// windows or the address that we are locked to.
pub proof fn law_every_frame_is_counted(
    st: ClientState,
    data: Seq<u8>,
    low: u32,
    instant_us: u64,
    own_tsf: u64,
    d: i64,
)
    requires
        counters_fit(st),
        is_difference(instant_us, own_tsf, d),
    ensures
        ({
            let after = st.after_frame(data, low, instant_us, own_tsf);
            &&& after.frames_seen == count_after(st.frames_seen)
            &&& st.instant_minus_tsf == i64::MIN ==> after.instant_minus_tsf == d
            &&& st.instant_minus_tsf != i64::MIN ==> crate::fit_laws::is_share(
                d - st.instant_minus_tsf,
                64,
                after.instant_minus_tsf - st.instant_minus_tsf,
            )
            &&& after.beacons == st.beacons
            &&& after.wall == st.wall
            &&& after.locked_bssid == st.locked_bssid
        }),
        st.delta_fits(instant_us, own_tsf) <==> (st.instant_minus_tsf == i64::MIN || i64::MIN <= d
            - st.instant_minus_tsf <= i64::MAX),
{
    lemma_difference(instant_us, own_tsf, d);
    crate::arith_laws::law_quotient_leaves_a_small_remainder(d - st.instant_minus_tsf, 64);
}

/// A beacon of the access point that we are locked to anchors our TSF to the
/// one in its bytes 24 to 31, all eight of them: the anchor, the queued event
/// and the action carry that number, our receive stamp, and the callback's
/// instant. A full queue drops the event and counts it.
pub proof fn law_our_beacon_is_anchored(
    st: ClientState,
    data: Seq<u8>,
    low: u32,
    instant_us: u64,
    own_tsf: u64,
    bssid: Seq<u8>,
    t: u64,
    own: u64,
    offset: i64,
)
    requires
        counters_fit(st),
        begins_as_beacon(data),
        st.locked_bssid == Some(bssid),
        sent_by(data, bssid),
        t == crate::packet_laws::eight_at(data, 24),
        is_stamp(own_tsf, low, own),
        is_difference(t, instant_us, offset),
    ensures
        ({
            let after = st.after_frame(data, low, instant_us, own_tsf);
            let anchor = BeaconAnchor { instant_us, own_tsf_us: own, ap_tsf_us: t };
            &&& after.latest_beacon == Some(anchor)
            &&& after.queue == with_room(st.queue, SnifferEvent::Beacon(anchor))
            &&& after.samples_dropped == (if st.queue.len() < 32 {
                st.samples_dropped
            } else {
                count_after(st.samples_dropped)
            })
            &&& after.beacons_seen == count_after(st.beacons_seen)
            &&& after.beacons_used == count_after(st.beacons_used)
            &&& after.frames_matched == st.frames_matched
            &&& st.frame_action(data, low, instant_us, own_tsf) == (RxAction::Beacon {
                anchor,
                observed_offset: offset,
                announce: st.beacons_used < 5,
            })
        }),
{
    lemma_beacon_tsf(data);
    lemma_bssid(data, bssid);
    lemma_stamp(own_tsf, low, own);
    lemma_difference(t, instant_us, offset);
    let anchor = BeaconAnchor { instant_us, own_tsf_us: own, ap_tsf_us: t };
    assert(crate::client::anchor_of(data, low, instant_us, own_tsf) == anchor);
    assert(st.queue.push(SnifferEvent::Beacon(anchor)) =~= st.queue + seq![
        SnifferEvent::Beacon(anchor),
    ]);
}

/// The eight bytes of a TSF at 24 give that TSF: whatever number an access
/// point sends, the anchor holds it.
pub proof fn law_beacon_carries_any_tsf(
    st: ClientState,
    data: Seq<u8>,
    low: u32,
    instant_us: u64,
    own_tsf: u64,
    bssid: Seq<u8>,
    t: u64,
)
    requires
        begins_as_beacon(data),
        st.locked_bssid == Some(bssid),
        sent_by(data, bssid),
        forall|i: nat|
            i < 8 ==> data[24 + i as int] == (t as int / #[trigger] vstd::arithmetic::power::pow(
                256,
                i,
            )) % 256,
    ensures
        st.after_frame(data, low, instant_us, own_tsf).latest_beacon is Some,
        (st.after_frame(data, low, instant_us, own_tsf).latest_beacon->0).ap_tsf_us == t,
        (st.after_frame(data, low, instant_us, own_tsf).latest_beacon->0).instant_us == instant_us,
{
    lemma_bssid(data, bssid);
    let b = data.subrange(24, 32);
    let bytes = crate::bytes::le_bytes(t as nat, 8);
    crate::bytes::lemma_le_bytes_len(t as nat, 8);
    assert forall|i: int| 0 <= i < 8 implies b[i] == bytes[i] by {
        crate::arith_laws::law_bytes_are_digits_of_256(t as nat, 8, i as nat);
        let p = vstd::arithmetic::power::pow(256, i as nat);
        assert(data[24 + i] == (t as int / p) % 256);
    }
    assert(b =~= bytes);
    crate::bytes::lemma_pow256_widths();
    crate::bytes::lemma_le_value_of_bytes(t as nat, 8);
}

/// A beacon of anyone else is counted as seen and changes nothing more than any
/// frame does; neither does one while we are locked to nobody.
pub proof fn law_other_beacons_are_only_seen(
    st: ClientState,
    data: Seq<u8>,
    low: u32,
    instant_us: u64,
    own_tsf: u64,
)
    requires
        counters_fit(st),
        begins_as_beacon(data),
        st.locked_bssid matches Some(bssid) ==> bssid.len() == 6 && !sent_by(data, bssid),
    ensures
        ({
            let after = st.after_frame(data, low, instant_us, own_tsf);
            &&& after.beacons_seen == count_after(st.beacons_seen)
            &&& after.beacons_used == st.beacons_used
            &&& after.latest_beacon == st.latest_beacon
            &&& after.queue == st.queue
            &&& after.samples_dropped == st.samples_dropped
            &&& after.frames_matched == st.frames_matched
            &&& st.frame_action(data, low, instant_us, own_tsf) == RxAction::Ignore
        }),
{
    if let Some(bssid) = st.locked_bssid {
        lemma_bssid(data, bssid);
    }
}

/// Any other frame with a packet in it is a broadcast: it is counted, and the
/// packet's time is queued with our receive stamp, or dropped and counted if the
/// queue is full. Without a packet nothing more happens than for any frame.
pub proof fn law_broadcasts_are_queued(
    st: ClientState,
    data: Seq<u8>,
    low: u32,
    instant_us: u64,
    own_tsf: u64,
    own: u64,
)
    requires
        counters_fit(st),
        !begins_as_beacon(data),
        is_stamp(own_tsf, low, own),
    ensures
        ({
            let after = st.after_frame(data, low, instant_us, own_tsf);
            let action = st.frame_action(data, low, instant_us, own_tsf);
            &&& after.beacons_seen == st.beacons_seen
            &&& after.beacons_used == st.beacons_used
            &&& after.latest_beacon == st.latest_beacon
            &&& match crate::packet::find(data) {
                Some(p) => {
                    &&& after.frames_matched == count_after(st.frames_matched)
                    &&& after.queue == with_room(
                        st.queue,
                        SnifferEvent::Udp { server_ns: p.send_unix_ns, own_tsf_us: own },
                    )
                    &&& after.samples_dropped == (if st.queue.len() < 32 {
                        st.samples_dropped
                    } else {
                        count_after(st.samples_dropped)
                    })
                    &&& action == (RxAction::Udp { server_ns: p.send_unix_ns, own_tsf_us: own })
                },
                None => {
                    &&& after.frames_matched == st.frames_matched
                    &&& after.queue == st.queue
                    &&& after.samples_dropped == st.samples_dropped
                    &&& action == RxAction::Ignore
                },
            }
        }),
{
    lemma_stamp(own_tsf, low, own);
    if let Some(p) = crate::packet::find(data) {
        let e = SnifferEvent::Udp { server_ns: p.send_unix_ns, own_tsf_us: own };
        assert(st.queue.push(e) =~= st.queue + seq![e]);
    }
}

/// A beacon's event puts the access point's TSF in nanoseconds against our
/// stamp into the beacon window, and nothing else changes.
pub proof fn law_beacon_events_feed_the_beacon_window(st: ClientState, a: BeaconAnchor, ns: u128)
    requires
        ns == 1_000 * a.ap_tsf_us,
    ensures
        st.after_event(SnifferEvent::Beacon(a)) == (ClientState {
            beacons: st.beacons.push(Sample { server_ns: ns, local_us: a.own_tsf_us }),
            ..st
        }),
        st.accepts(SnifferEvent::Beacon(a)) <==> st.beacons.accepts(
            Sample { server_ns: ns, local_us: a.own_tsf_us },
        ),
{
}

/// A broadcast's event puts its server time against the access point's TSF at
/// our stamp into the wall-clock window, and nothing else changes. Before the
/// first beacon, or with a TSF below zero, it changes nothing. `ap` is that TSF
/// as 64 signed bits hold it.
pub proof fn law_broadcast_events_feed_the_wall_window(
    st: ClientState,
    server_ns: u128,
    own_tsf_us: u64,
    ap: i64,
)
    requires
        st.latest_beacon matches Some(a) ==> (a.ap_tsf_us + own_tsf_us - a.own_tsf_us - ap)
            % 0x1_0000_0000_0000_0000 == 0,
    ensures
        ({
            let event = SnifferEvent::Udp { server_ns, own_tsf_us };
            &&& st.latest_beacon is None || ap < 0 ==> st.after_event(event) == st && st.accepts(
                event,
            )
            &&& st.latest_beacon is Some && ap >= 0 ==> {
                let s = Sample { server_ns, local_us: ap as u64 };
                &&& st.after_event(event) == (ClientState { wall: st.wall.push(s), ..st })
                &&& st.accepts(event) <==> st.wall.accepts(s)
            }
        }),
{
    if let Some(a) = st.latest_beacon {
        law_readings_carry_over(a, own_tsf_us, ap);
    }
}

/// Readings carry over between our TSF and the access point's by the time since
/// the beacon: a reading so long after the beacon here is as long after it
/// there. `v` is that reading as 64 signed bits hold it; there is none below
/// zero, nor without a beacon.
pub proof fn law_readings_carry_over(a: BeaconAnchor, reading: u64, v: i64)
    ensures
        (a.ap_tsf_us + reading - a.own_tsf_us - v) % 0x1_0000_0000_0000_0000 == 0
            ==> crate::client::ap_tsf_at_own(Some(a), reading) == (if v >= 0 {
            Some(v as u64)
        } else {
            None
        }),
        (a.own_tsf_us + reading - a.ap_tsf_us - v) % 0x1_0000_0000_0000_0000 == 0
            ==> crate::client::own_tsf_at_ap(Some(a), reading) == (if v >= 0 {
            Some(v as u64)
        } else {
            None
        }),
        crate::client::ap_tsf_at_own(None, reading) is None,
        crate::client::own_tsf_at_ap(None, reading) is None,
{
    lemma_signed_reading(a.ap_tsf_us + reading - a.own_tsf_us, v);
    lemma_signed_reading(a.own_tsf_us + reading - a.ap_tsf_us, v);
}

proof fn lemma_signed_reading(x: int, v: i64)
    ensures
        (x - v) % 0x1_0000_0000_0000_0000 == 0 ==> crate::arith::as_i64(x) == v,
{
}

/// The server time of a TSF reading of the access point is that of the
/// wall-clock window, and there is none without a reading.
pub proof fn law_wall_clock_answers_for_the_tsf(wall: Seq<Sample>, t: u64)
    ensures
        crate::client::wall_at_ap(wall, Some(t)) == crate::estimator::server_time_at(wall, t),
        crate::client::wall_at_ap(wall, None) is None,
{
}

/// An instant and the filter's offset add up to the access point's TSF, if the
/// sum is a 64-bit number.
pub proof fn law_offset_leads_to_the_tsf(instant_us: u64, o: i64)
    ensures
        0 <= instant_us + o <= 0xffff_ffff_ffff_ffff ==> crate::client::ap_tsf_at_instant(
            instant_us,
            Some(o),
        ) == Some((instant_us + o) as u64),
        !(0 <= instant_us + o <= 0xffff_ffff_ffff_ffff) ==> crate::client::ap_tsf_at_instant(
            instant_us,
            Some(o),
        ) is None,
        crate::client::ap_tsf_at_instant(instant_us, None) is None,
{
}

/// The inverse asks a filter twice: at the TSF itself, and at the instant that
/// the first answer leads to; the second answer gives the result, if that is not
/// below zero. `g` is what the filter answers; `start`, `guess` and `instant`
/// are the TSF and the two instants as 64 signed bits hold them.
pub proof fn law_inverse_asks_twice<F: Fn(i64) -> Option<i64>>(
    predict: F,
    g: spec_fn(i64) -> Option<i64>,
    ap_tsf_us: u64,
    r: Option<u64>,
    start: i64,
    guess: i64,
    instant: i64,
)
    requires
        forall|t: i64, answer: Option<i64>|
            #[trigger] call_ensures(predict, (t,), answer) ==> answer == g(t),
        crate::client::found_in_two_steps(predict, ap_tsf_us, r),
        (ap_tsf_us - start) % 0x1_0000_0000_0000_0000 == 0,
        g(start) matches Some(o) ==> (ap_tsf_us - o - guess) % 0x1_0000_0000_0000_0000 == 0,
        g(guess) matches Some(o) ==> (ap_tsf_us - o - instant) % 0x1_0000_0000_0000_0000 == 0,
    ensures
        r == (if g(start) is None || g(guess) is None || instant < 0 {
            None
        } else {
            Some(instant as u64)
        }),
{
    lemma_signed_reading(ap_tsf_us as int, start);
    if let Some(o) = g(start) {
        lemma_signed_reading(ap_tsf_us - o, guess);
    }
    if let Some(o) = g(guess) {
        lemma_signed_reading(ap_tsf_us - o, instant);
    }
}

/// The association is looked at every ten seconds, and twice a second while
/// there is none.
pub proof fn law_association_pauses()
    ensures
        crate::client::BSSID_REFRESH_MS == 10_000,
        crate::client::BSSID_RETRY_MS == 500,
{
}

} // verus!
