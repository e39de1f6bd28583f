//! What holds of the client as a whole.

use vstd::prelude::*;

use crate::client::{BeaconAnchor, ClientState, InstallError, InstallStep, RxAction, DELTA_UNSET};
use crate::estimator::{Sample, MIN_SAMPLES};
use crate::queue::CHANNEL_DEPTH;

verus! {

/// The reconstructed receive timestamp has the captured low half and is the
/// latest such reading that is not after the callback. Left out are callbacks
/// within the first 2^32 µs whose low half is behind the captured one: there
/// is no such reading, and the result wraps.
pub proof fn law_receive_timestamp_is_recent(now: u64, low: u32)
    ensures
        crate::client::full_timestamp(now, low) % 0x1_0000_0000 == low,
        now >= 0x1_0000_0000 || low <= now ==> crate::client::full_timestamp(now, low) <= now
            < crate::client::full_timestamp(now, low) + 0x1_0000_0000,
{
}

/// Smoothing never leaves the range between the old value and the new one.
pub proof fn law_smoothing_stays_between(prev: int, new: int)
    requires
        prev != DELTA_UNSET,
    ensures
        prev <= new ==> prev <= crate::client::smoothed(prev, new) <= new,
        new <= prev ==> new <= crate::client::smoothed(prev, new) <= prev,
{
}

/// Until the address of our access point is known, no beacon is used.
pub proof fn law_unlocked_client_uses_no_beacon(
    st: ClientState,
    data: Seq<u8>,
    low: u32,
    instant_us: u64,
    own_tsf: u64,
)
    requires
        st.locked_bssid is None,
    ensures
        st.after_frame(data, low, instant_us, own_tsf).latest_beacon == st.latest_beacon,
        st.after_frame(data, low, instant_us, own_tsf).beacons_used == st.beacons_used,
        !(st.frame_action(data, low, instant_us, own_tsf) is Beacon),
{
}

/// A beacon of another access point changes nothing but the counters of what
/// was heard and the smoothed difference of our own two clocks.
pub proof fn law_foreign_beacon_changes_no_anchor(
    st: ClientState,
    data: Seq<u8>,
    low: u32,
    instant_us: u64,
    own_tsf: u64,
)
    requires
        crate::client::is_beacon(data),
        !st.ours(data),
    ensures
        st.frame_action(data, low, instant_us, own_tsf) == RxAction::Ignore,
        st.after_frame(data, low, instant_us, own_tsf) == (ClientState {
            frames_seen: crate::arith::as_u64(st.frames_seen + 1),
            beacons_seen: crate::arith::as_u64(st.beacons_seen + 1),
            instant_minus_tsf: crate::client::smoothed(
                st.instant_minus_tsf,
                crate::arith::as_i64(instant_us - own_tsf),
            ),
            ..st
        }),
{
}

/// The queue never holds more than its depth, and a frame neither removes nor
/// reorders what waits in it.
pub proof fn law_queue_is_bounded_and_kept(
    st: ClientState,
    data: Seq<u8>,
    low: u32,
    instant_us: u64,
    own_tsf: u64,
)
    requires
        st.queue.len() <= CHANNEL_DEPTH,
    ensures
        st.after_frame(data, low, instant_us, own_tsf).queue.len() <= CHANNEL_DEPTH,
        st.queue.is_prefix_of(st.after_frame(data, low, instant_us, own_tsf).queue),
        st.after_frame(data, low, instant_us, own_tsf).queue.len() <= st.queue.len() + 1,
{
}

/// Every sample is either queued or counted as dropped, beacon or broadcast
/// alike; a frame that gives no sample does neither. Left out is the wrap of
/// the counter.
pub proof fn law_every_sample_is_queued_or_counted(
    st: ClientState,
    data: Seq<u8>,
    low: u32,
    instant_us: u64,
    own_tsf: u64,
)
    requires
        0 <= st.samples_dropped < u64::MAX,
    ensures
        ({
            let after = st.after_frame(data, low, instant_us, own_tsf);
            let gives_sample = !(st.frame_action(data, low, instant_us, own_tsf) is Ignore);
            &&& after.queue.len() + after.samples_dropped == st.queue.len() + st.samples_dropped
                + (if gives_sample {
                1int
            } else {
                0
            })
            &&& after.samples_dropped > st.samples_dropped ==> st.queue.len() >= CHANNEL_DEPTH
        }),
{
}

/// Hearing frames never touches the estimators; they change only when an
/// event is consumed.
pub proof fn law_frames_leave_estimators(
    st: ClientState,
    data: Seq<u8>,
    low: u32,
    instant_us: u64,
    own_tsf: u64,
)
    ensures
        st.after_frame(data, low, instant_us, own_tsf).beacons == st.beacons,
        st.after_frame(data, low, instant_us, own_tsf).wall == st.wall,
{
}

/// Carrying our TSF over to the access point's and back gives the reading.
/// Left out are readings from 2^63 on, which count as negative.
pub proof fn law_own_tsf_round_trip(anchor: BeaconAnchor, own_tsf_us: u64)
    requires
        own_tsf_us <= i64::MAX,
        crate::client::ap_tsf_at_own(Some(anchor), own_tsf_us) is Some,
    ensures
        crate::client::own_tsf_at_ap(
            Some(anchor),
            crate::client::ap_tsf_at_own(Some(anchor), own_tsf_us)->0,
        ) == Some(own_tsf_us),
{
}

/// Carrying the access point's TSF over to ours and back gives the reading.
/// Left out are readings from 2^63 on, which count as negative.
pub proof fn law_ap_tsf_round_trip(anchor: BeaconAnchor, ap_tsf_us: u64)
    requires
        ap_tsf_us <= i64::MAX,
        crate::client::own_tsf_at_ap(Some(anchor), ap_tsf_us) is Some,
    ensures
        crate::client::ap_tsf_at_own(
            Some(anchor),
            crate::client::own_tsf_at_ap(Some(anchor), ap_tsf_us)->0,
        ) == Some(ap_tsf_us),
{
}

/// The TSF reading found for a server time maps back to that server time, less
/// than one microsecond early. The excluded inputs are those of the two round
/// trips that it is made of.
pub proof fn law_server_time_round_trip(anchor: BeaconAnchor, wall: Seq<Sample>, server_ns: u128)
    requires
        wall.len() >= MIN_SAMPLES,
        server_ns <= i128::MAX,
        0 <= server_ns - crate::estimator::mean_offset(wall) <= i128::MAX,
        (server_ns - crate::estimator::mean_offset(wall)) / 1_000 <= i64::MAX,
        (server_ns - crate::estimator::mean_offset(wall)) % 1_000 <= server_ns,
        crate::client::own_tsf_at_ap(
            Some(anchor),
            crate::estimator::local_time_at(wall, server_ns)->0,
        ) is Some,
    ensures
        ({
            let ap = crate::estimator::local_time_at(wall, server_ns)->0;
            let own = crate::client::own_tsf_at_ap(Some(anchor), ap)->0;
            let back = crate::client::wall_at_ap(
                wall,
                crate::client::ap_tsf_at_own(Some(anchor), own),
            );
            &&& back is Some
            &&& back->0 <= server_ns < back->0 + 1_000
        }),
{
    let ap = crate::estimator::local_time_at(wall, server_ns)->0;
    crate::estimator_laws::law_server_round_trip(wall, server_ns);
    law_ap_tsf_round_trip(anchor, ap);
}

/// Two boards that anchor to the same beacon and hold the same wall-clock
/// window give the same server time for events that happen equally long after
/// the beacon, whatever their own TSF counters read.
pub proof fn law_boards_agree(
    a: BeaconAnchor,
    b: BeaconAnchor,
    wall: Seq<Sample>,
    own_a: u64,
    own_b: u64,
)
    requires
        a.ap_tsf_us == b.ap_tsf_us,
        own_a - a.own_tsf_us == own_b - b.own_tsf_us,
    ensures
        crate::client::wall_at_ap(wall, crate::client::ap_tsf_at_own(Some(a), own_a))
            == crate::client::wall_at_ap(wall, crate::client::ap_tsf_at_own(Some(b), own_b)),
{
}

/// While the offset filter predicts a constant, going from an instant to the
/// access point's TSF and back gives the instant. Left out are instants from
/// 2^63 on, which count as negative.
pub proof fn law_instant_round_trip(instant_us: u64, offset: i64)
    requires
        instant_us <= i64::MAX,
        crate::client::ap_tsf_at_instant(instant_us, Some(offset)) is Some,
    ensures
        crate::client::instant_at_ap(
            crate::client::ap_tsf_at_instant(instant_us, Some(offset))->0,
            Some(offset),
        ) == Some(instant_us),
{
}

/// While the offset filter answers with a constant, the two questions put to it
/// give what that constant gives.
pub proof fn law_constant_filter_needs_one_answer<F: Fn(i64) -> Option<i64>>(
    predict: F,
    ap_tsf_us: u64,
    offset: i64,
    r: Option<u64>,
)
    requires
        forall|t: i64, answer: Option<i64>|
            #[trigger] call_ensures(predict, (t,), answer) ==> answer == Some(offset),
        crate::client::found_in_two_steps(predict, ap_tsf_us, r),
    ensures
        r == crate::client::instant_at_ap(ap_tsf_us, Some(offset)),
{
}

/// The instant found for a server time maps back to that server time, less than
/// one microsecond early, while the offset filter predicts a constant. Left out
/// are instants that do not fit 63 bits, and what
/// [`crate::estimator_laws::law_server_round_trip`] leaves out.
pub proof fn law_server_time_round_trip_by_instant(
    wall: Seq<Sample>,
    server_ns: u128,
    offset: i64,
)
    requires
        wall.len() >= MIN_SAMPLES,
        server_ns <= i128::MAX,
        0 <= server_ns - crate::estimator::mean_offset(wall) <= i128::MAX,
        (server_ns - crate::estimator::mean_offset(wall)) / 1_000 <= u64::MAX,
        (server_ns - crate::estimator::mean_offset(wall)) % 1_000 <= server_ns,
        0 <= crate::estimator::local_time_at(wall, server_ns)->0 - offset <= i64::MAX,
    ensures
        ({
            let ap = crate::estimator::local_time_at(wall, server_ns)->0;
            let instant = crate::client::instant_at_ap(ap, Some(offset));
            let back = crate::client::wall_at_ap(
                wall,
                crate::client::ap_tsf_at_instant(instant->0, Some(offset)),
            );
            &&& instant is Some
            &&& back is Some
            &&& back->0 <= server_ns < back->0 + 1_000
        }),
{
    crate::estimator_laws::law_server_round_trip(wall, server_ns);
}

/// Installing goes step by step: the callback is registered only in promiscuous
/// mode, the consumer is spawned only after that, and the association task only
/// if the consumer was.
pub proof fn law_install_steps_come_in_order(step: InstallStep, ok: bool)
    ensures
        ({
            let next = crate::client::next_install_step(step, ok);
            &&& next != InstallStep::EnterPromiscuous
            &&& next == InstallStep::RegisterCallback ==> step == InstallStep::EnterPromiscuous
                && ok
            &&& next == InstallStep::SpawnConsumer ==> step == InstallStep::RegisterCallback
            &&& next == InstallStep::SpawnPoller ==> step == InstallStep::SpawnConsumer && ok
            &&& next == InstallStep::Installed ==> (step == InstallStep::SpawnPoller && ok) || step
                == InstallStep::Installed
        }),
{
}

/// The steps of an installation that goes well, one after the other, and how it
/// ends where one of them fails; once it has ended it stays so.
pub proof fn law_install_steps(ok: bool, e: InstallError)
    ensures
        crate::client::next_install_step(InstallStep::EnterPromiscuous, true)
            == InstallStep::RegisterCallback,
        crate::client::next_install_step(InstallStep::EnterPromiscuous, false)
            == InstallStep::Failed(InstallError::Promiscuous),
        crate::client::next_install_step(InstallStep::RegisterCallback, ok)
            == InstallStep::SpawnConsumer,
        crate::client::next_install_step(InstallStep::SpawnConsumer, true)
            == InstallStep::SpawnPoller,
        crate::client::next_install_step(InstallStep::SpawnConsumer, false) == InstallStep::Failed(
            InstallError::Spawn,
        ),
        crate::client::next_install_step(InstallStep::SpawnPoller, true) == InstallStep::Installed,
        crate::client::next_install_step(InstallStep::SpawnPoller, false) == InstallStep::Failed(
            InstallError::Spawn,
        ),
        crate::client::next_install_step(InstallStep::Installed, ok) == InstallStep::Installed,
        crate::client::next_install_step(InstallStep::Failed(e), ok) == InstallStep::Failed(e),
{
}

/// The step after a run of outcomes.
pub open spec fn install_after(outcomes: Seq<bool>) -> InstallStep
    decreases outcomes.len(),
{
    if outcomes.len() == 0 {
        InstallStep::EnterPromiscuous
    } else {
        crate::client::next_install_step(install_after(outcomes.drop_last()), outcomes.last())
    }
}

/// After promiscuous mode was refused, nothing is registered or spawned,
/// whatever follows.
pub proof fn law_refused_promiscuous_mode_ends_the_install(outcomes: Seq<bool>)
    requires
        outcomes.len() > 0,
        !outcomes[0],
    ensures
        install_after(outcomes) == InstallStep::Failed(InstallError::Promiscuous),
    decreases outcomes.len(),
{
    if outcomes.len() > 1 {
        law_refused_promiscuous_mode_ends_the_install(outcomes.drop_last());
    } else {
        assert(install_after(outcomes.drop_last()) == InstallStep::EnterPromiscuous);
    }
}

} // verus!
