//! The client: what a board does with the frames that its radio hears, and
//! the conversions between its clocks and server time.
//!
//! Four clocks are involved. The application's `Instant` and the radio's own
//! TSF tick on the board; the access point's TSF arrives in beacons and is the
//! time base that all boards share; server time arrives in broadcast packets.

use vstd::prelude::*;

use crate::arith::{carry_over, counter_diff, div_i64, i64_from_u64};
use crate::bytes::read_u64_le;
use crate::estimator::{Estimator, EstimatorState, Quality, Sample};
use crate::mcpwm_cap::{cap_ticks_to_mac_tsf_us, CaptureUnit};
use crate::packet::SyncPacket;
use crate::queue::{new_queue, try_receive, try_send, SampleQueue, CHANNEL_DEPTH};

verus! {

/// Value of the smoothed `Instant` minus TSF difference before it is measured.
pub const DELTA_UNSET: i64 = i64::MIN;

/// First byte of an 802.11 beacon frame.
pub const BEACON_FRAME: u8 = 0x80;

/// Length below which a frame cannot be a beacon.
pub const BEACON_MIN_LEN: usize = 36;

/// How many beacons are announced in the log.
pub const ANNOUNCED_BEACONS: u64 = 5;

/// Pause between looks at the association, once associated.
pub const BSSID_REFRESH_MS: u64 = 10_000;

/// Pause between looks at the association, while not associated.
pub const BSSID_RETRY_MS: u64 = 500;

/// The three clocks at one beacon.
#[derive(Clone, Copy, Debug, PartialEq, Eq, Structural)]
pub struct BeaconAnchor {
    pub instant_us: u64,
    pub own_tsf_us: u64,
    pub ap_tsf_us: u64,
}

/// One observation on its way from the receive callback to the consumer.
#[derive(Clone, Copy, Debug, PartialEq, Eq, Structural)]
pub enum SnifferEvent {
    /// A beacon of our access point.
    Beacon(BeaconAnchor),
    /// A broadcast: server time and our receive timestamp.
    Udp { server_ns: u128, own_tsf_us: u64 },
}

/// What a frame was, and what the receive callback is still to do about it.
#[derive(Clone, Copy, Debug, PartialEq, Eq, Structural)]
pub enum RxAction {
    /// Nothing of interest.
    Ignore,
    /// A beacon of our access point: feed `observed_offset` at the anchor's
    /// instant to the offset filter, and announce the beacon if told to.
    Beacon { anchor: BeaconAnchor, observed_offset: i64, announce: bool },
    /// A broadcast.
    Udp { server_ns: u128, own_tsf_us: u64 },
}

/// Why the client could not be installed.
#[derive(Clone, Copy, Debug, PartialEq, Eq, Structural)]
pub enum InstallError {
    /// The radio refused promiscuous mode.
    Promiscuous,
    /// A task could not be spawned.
    Spawn,
}

/// A step of installing the client.
#[derive(Clone, Copy, Debug, PartialEq, Eq, Structural)]
pub enum InstallStep {
    /// Put the radio into promiscuous mode.
    EnterPromiscuous,
    /// Register the receive callback.
    RegisterCallback,
    /// Spawn the task that consumes samples.
    SpawnConsumer,
    /// Spawn the task that follows the association.
    SpawnPoller,
    /// Nothing more to do: the client is installed.
    Installed,
    /// Nothing more to do: the client could not be installed.
    Failed(InstallError),
}

/// What to do after a look at the association.
#[derive(Clone, Copy, Debug, PartialEq, Eq, Structural)]
pub struct BssidPoll {
    /// Whether the access point is a new one.
    pub changed: bool,
    /// Pause before the next look, in milliseconds.
    pub wait_ms: u64,
}

/// What a client holds.
#[verifier::ext_equal]
pub struct ClientState {
    /// Events that wait to be consumed, the next one first.
    pub queue: Seq<SnifferEvent>,
    /// Estimator from our TSF to the access point's TSF in nanoseconds.
    pub beacons: EstimatorState,
    /// Estimator from the access point's TSF to server time.
    pub wall: EstimatorState,
    pub latest_beacon: Option<BeaconAnchor>,
    pub locked_bssid: Option<Seq<u8>>,
    pub instant_minus_tsf: int,
    pub frames_seen: int,
    pub frames_matched: int,
    pub beacons_seen: int,
    pub beacons_used: int,
    pub samples_dropped: int,
}

/// The full receive timestamp: the latest 64-bit reading up to `now` whose low
/// half is `low`, wrapping below zero.
pub open spec fn full_timestamp(now: u64, low: u32) -> int {
    let base = now - now % 0x1_0000_0000u64;
    if now % 0x1_0000_0000u64 >= low {
        base + low
    } else {
        crate::arith::as_u64(base - 0x1_0000_0000 + low)
    }
}

/// Exponential smoothing with weight 1/64, starting at the first value.
pub open spec fn smoothed(prev: int, new: int) -> int {
    if prev == DELTA_UNSET {
        new
    } else {
        prev + crate::arith::trunc_div(new - prev, 64)
    }
}

/// Whether a frame is a beacon.
pub open spec fn is_beacon(data: Seq<u8>) -> bool {
    data.len() >= BEACON_MIN_LEN && data[0] == BEACON_FRAME
}

/// The sender of a beacon.
pub open spec fn beacon_bssid(data: Seq<u8>) -> Seq<u8> {
    data.subrange(16, 22)
}

/// The access point's TSF in a beacon.
pub open spec fn beacon_tsf(data: Seq<u8>) -> int {
    crate::bytes::le_value(data.subrange(24, 32)) as int
}

/// The anchor that a beacon gives.
pub open spec fn anchor_of(data: Seq<u8>, low: u32, instant_us: u64, own_tsf: u64) -> BeaconAnchor {
    BeaconAnchor {
        instant_us,
        own_tsf_us: full_timestamp(own_tsf, low) as u64,
        ap_tsf_us: beacon_tsf(data) as u64,
    }
}

/// A reading of one counter carried over to another at the same rate, given a
/// moment at which the two read `from` and `base`; nothing below zero.
pub open spec fn carried(base: u64, from: u64, to: u64) -> Option<u64> {
    let v = crate::arith::as_i64(base + to - from);
    if v < 0 {
        None
    } else {
        Some(v as u64)
    }
}

/// The access point's TSF at one of our TSF readings.
pub open spec fn ap_tsf_at_own(anchor: Option<BeaconAnchor>, own_tsf_us: u64) -> Option<u64> {
    match anchor {
        None => None,
        Some(a) => carried(a.ap_tsf_us, a.own_tsf_us, own_tsf_us),
    }
}

/// Our TSF at one of the access point's TSF readings.
pub open spec fn own_tsf_at_ap(anchor: Option<BeaconAnchor>, ap_tsf_us: u64) -> Option<u64> {
    match anchor {
        None => None,
        Some(a) => carried(a.own_tsf_us, a.ap_tsf_us, ap_tsf_us),
    }
}

/// The access point's TSF at an instant, given the offset between the two.
pub open spec fn ap_tsf_at_instant(instant_us: u64, offset: Option<i64>) -> Option<u64> {
    match offset {
        None => None,
        Some(o) => if 0 <= instant_us + o <= u64::MAX {
            Some((instant_us + o) as u64)
        } else {
            None
        },
    }
}

/// The instant at one of the access point's TSF readings, given the offset;
/// still signed.
pub open spec fn instant_guess(ap_tsf_us: u64, offset: i64) -> int {
    crate::arith::as_i64(ap_tsf_us - offset)
}

/// The instant at one of the access point's TSF readings; nothing below zero.
pub open spec fn instant_at_ap(ap_tsf_us: u64, offset: Option<i64>) -> Option<u64> {
    match offset {
        None => None,
        Some(o) => if instant_guess(ap_tsf_us, o) < 0 {
            None
        } else {
            Some(instant_guess(ap_tsf_us, o) as u64)
        },
    }
}

/// Whether `r` is what two questions to the offset filter give: the first at
/// the reading itself, the second at the instant that the first answer gives.
pub open spec fn found_in_two_steps<F: Fn(i64) -> Option<i64>>(
    predict: F,
    ap_tsf_us: u64,
    r: Option<u64>,
) -> bool {
    exists|first: Option<i64>|
        {
            &&& #[trigger] call_ensures(
                predict,
                (crate::arith::as_i64(ap_tsf_us as int) as i64,),
                first,
            )
            &&& match first {
                None => r is None,
                Some(o) => exists|second: Option<i64>|
                    {
                        &&& #[trigger] call_ensures(
                            predict,
                            (instant_guess(ap_tsf_us, o) as i64,),
                            second,
                        )
                        &&& r == instant_at_ap(ap_tsf_us, second)
                    },
            }
        }
}

/// The queue after an event was offered to it: a full queue refuses it.
pub open spec fn offered(queue: Seq<SnifferEvent>, event: SnifferEvent) -> Seq<SnifferEvent> {
    if queue.len() < CHANNEL_DEPTH {
        queue.push(event)
    } else {
        queue
    }
}

/// The server time at one of the access point's TSF readings.
pub open spec fn wall_at_ap(wall: Seq<Sample>, ap_tsf_us: Option<u64>) -> Option<u128> {
    match ap_tsf_us {
        None => None,
        Some(t) => crate::estimator::server_time_at(wall, t),
    }
}

impl ClientState {
    /// A client that has heard nothing yet.
    pub open spec fn fresh() -> ClientState {
        ClientState {
            queue: Seq::empty(),
            beacons: EstimatorState::empty(),
            wall: EstimatorState::empty(),
            latest_beacon: None,
            locked_bssid: None,
            instant_minus_tsf: DELTA_UNSET as int,
            frames_seen: 0,
            frames_matched: 0,
            beacons_seen: 0,
            beacons_used: 0,
            samples_dropped: 0,
        }
    }

    /// Whether a beacon comes from the access point that we are locked to.
    pub open spec fn ours(self, data: Seq<u8>) -> bool {
        self.locked_bssid == Some(beacon_bssid(data))
    }

    /// The count of dropped samples after one more was offered to the queue: a
    /// full queue drops it.
    pub open spec fn dropped_after_offer(self) -> int {
        if self.queue.len() < CHANNEL_DEPTH {
            self.samples_dropped
        } else {
            crate::arith::as_u64(self.samples_dropped + 1)
        }
    }

    /// The state after a frame.
    pub open spec fn after_frame(
        self,
        data: Seq<u8>,
        low: u32,
        instant_us: u64,
        own_tsf: u64,
    ) -> ClientState {
        let counted = ClientState {
            frames_seen: crate::arith::as_u64(self.frames_seen + 1),
            instant_minus_tsf: smoothed(
                self.instant_minus_tsf,
                crate::arith::as_i64(instant_us - own_tsf),
            ),
            ..self
        };
        if is_beacon(data) {
            let seen = ClientState {
                beacons_seen: crate::arith::as_u64(self.beacons_seen + 1),
                ..counted
            };
            if self.ours(data) {
                ClientState {
                    beacons_used: crate::arith::as_u64(self.beacons_used + 1),
                    latest_beacon: Some(anchor_of(data, low, instant_us, own_tsf)),
                    queue: offered(
                        self.queue,
                        SnifferEvent::Beacon(anchor_of(data, low, instant_us, own_tsf)),
                    ),
                    samples_dropped: self.dropped_after_offer(),
                    ..seen
                }
            } else {
                seen
            }
        } else {
            match crate::packet::find(data) {
                Some(p) => ClientState {
                    frames_matched: crate::arith::as_u64(self.frames_matched + 1),
                    queue: offered(
                        self.queue,
                        SnifferEvent::Udp {
                            server_ns: p.send_unix_ns,
                            own_tsf_us: full_timestamp(own_tsf, low) as u64,
                        },
                    ),
                    samples_dropped: self.dropped_after_offer(),
                    ..counted
                },
                None => counted,
            }
        }
    }

    /// What a frame was.
    pub open spec fn frame_action(
        self,
        data: Seq<u8>,
        low: u32,
        instant_us: u64,
        own_tsf: u64,
    ) -> RxAction {
        if is_beacon(data) {
            if self.ours(data) {
                let anchor = anchor_of(data, low, instant_us, own_tsf);
                RxAction::Beacon {
                    anchor,
                    observed_offset: crate::arith::as_i64(anchor.ap_tsf_us - instant_us) as i64,
                    announce: self.beacons_used < ANNOUNCED_BEACONS,
                }
            } else {
                RxAction::Ignore
            }
        } else {
            match crate::packet::find(data) {
                Some(p) => RxAction::Udp {
                    server_ns: p.send_unix_ns,
                    own_tsf_us: full_timestamp(own_tsf, low) as u64,
                },
                None => RxAction::Ignore,
            }
        }
    }

    /// Whether the smoothed difference stays representable.
    pub open spec fn delta_fits(self, instant_us: u64, own_tsf: u64) -> bool {
        self.instant_minus_tsf == DELTA_UNSET || crate::arith::fits_i64(
            crate::arith::as_i64(instant_us - own_tsf) - self.instant_minus_tsf,
        )
    }

    /// The sample that an event gives, and whether it is one for the wall
    /// clock.
    pub open spec fn sample_of(self, event: SnifferEvent) -> Option<(Sample, bool)> {
        match event {
            SnifferEvent::Beacon(a) => Some(
                (Sample { server_ns: (a.ap_tsf_us * 1_000) as u128, local_us: a.own_tsf_us }, false),
            ),
            SnifferEvent::Udp { server_ns, own_tsf_us } => match ap_tsf_at_own(
                self.latest_beacon,
                own_tsf_us,
            ) {
                Some(t) => Some((Sample { server_ns, local_us: t }, true)),
                None => None,
            },
        }
    }

    /// Whether an event's sample can be taken in.
    pub open spec fn accepts(self, event: SnifferEvent) -> bool {
        match self.sample_of(event) {
            None => true,
            Some((s, true)) => self.wall.accepts(s),
            Some((s, false)) => self.beacons.accepts(s),
        }
    }

    /// The state after an event was consumed.
    pub open spec fn after_event(self, event: SnifferEvent) -> ClientState {
        match self.sample_of(event) {
            None => self,
            Some((s, true)) => ClientState { wall: self.wall.push(s), ..self },
            Some((s, false)) => ClientState { beacons: self.beacons.push(s), ..self },
        }
    }
}

/// The client's state.
pub struct ClockSyncClient {
    samples: SampleQueue,
    beacon_est: Estimator,
    udp_est: Estimator,
    latest_beacon: Option<BeaconAnchor>,
    locked_bssid: Option<[u8; 6]>,
    instant_minus_tsf: i64,
    frames_seen: u64,
    frames_matched: u64,
    beacons_seen: u64,
    beacons_used: u64,
    samples_dropped: u64,
}

impl View for ClockSyncClient {
    type V = ClientState;

    closed spec fn view(&self) -> ClientState {
        ClientState {
            queue: crate::queue::queued_events(self.samples),
            beacons: self.beacon_est@,
            wall: self.udp_est@,
            latest_beacon: self.latest_beacon,
            locked_bssid: match self.locked_bssid {
                Some(b) => Some(b@),
                None => None,
            },
            instant_minus_tsf: self.instant_minus_tsf as int,
            frames_seen: self.frames_seen as int,
            frames_matched: self.frames_matched as int,
            beacons_seen: self.beacons_seen as int,
            beacons_used: self.beacons_used as int,
            samples_dropped: self.samples_dropped as int,
        }
    }
}

/// Reconstructs the full receive timestamp from its low half and a reading
/// taken shortly after.
pub fn full_rx_timestamp(now: u64, low: u32) -> (t: u64)
    ensures
        t == full_timestamp(now, low),
{
    let high: u64 = now & 0xFFFF_FFFF_0000_0000;
    let wide: u64 = low as u64;
    assert(high == now - now % 0x1_0000_0000u64) by (bit_vector)
        requires
            high == now & 0xFFFF_FFFF_0000_0000u64,
    ;
    assert(high | wide == high + wide) by (bit_vector)
        requires
            high == now & 0xFFFF_FFFF_0000_0000u64,
            wide <= 0xFFFF_FFFFu64,
    ;
    if crate::arith::u32_from_u64(now) >= low {
        high | wide
    } else {
        let below: u64 = high.wrapping_sub(0x1_0000_0000);
        assert(below % 0x1_0000_0000u64 == 0);
        assert(below | wide == below + wide) by (bit_vector)
            requires
                below % 0x1_0000_0000u64 == 0,
                wide <= 0xFFFF_FFFFu64,
        ;
        below | wide
    }
}

fn same_bssid(a: &[u8; 6], b: &[u8; 6]) -> (r: bool)
    ensures
        r == (a@ == b@),
{
    let mut i: usize = 0;
    while i < 6
        invariant
            i <= 6,
            forall|k: int| 0 <= k < i ==> a@[k] == b@[k],
        decreases 6 - i,
    {
        if a[i] != b[i] {
            return false;
        }
        i = i + 1;
    }
    assert(a@ =~= b@);
    true
}

/// The access point's TSF at an instant, given what the offset filter predicts
/// there.
pub fn instant_to_ap_tsf(instant_us: u64, offset: Option<i64>) -> (r: Option<u64>)
    ensures
        r == ap_tsf_at_instant(instant_us, offset),
{
    match offset {
        None => None,
        Some(o) => {
            let ap: i128 = (instant_us as i128) + (o as i128);
            if ap < 0 || ap > u64::MAX as i128 {
                None
            } else {
                Some(ap as u64)
            }
        },
    }
}

/// The instant at one of the access point's TSF readings, given what the
/// offset filter predicts there.
pub fn instant_from_offset(ap_tsf_us: u64, offset: i64) -> (r: i64)
    ensures
        r == instant_guess(ap_tsf_us, offset),
{
    i64_from_u64(ap_tsf_us).wrapping_sub(offset)
}

/// Finds the instant at one of the access point's TSF readings in two steps:
/// the filter is asked at the reading itself, then at the instant that its
/// answer gives.
pub fn ap_tsf_to_instant<F: Fn(i64) -> Option<i64>>(ap_tsf_us: u64, predict: F) -> (r: Option<u64>)
    requires
        forall|t: i64| call_requires(predict, (t,)),
    ensures
        found_in_two_steps(predict, ap_tsf_us, r),
{
    let start: i64 = i64_from_u64(ap_tsf_us);
    let first: Option<i64> = predict(start);
    assert(start == crate::arith::as_i64(ap_tsf_us as int) as i64);
    assert(call_ensures(predict, (crate::arith::as_i64(ap_tsf_us as int) as i64,), first));
    match first {
        None => None,
        Some(o) => {
            let guess: i64 = instant_from_offset(ap_tsf_us, o);
            let second: Option<i64> = predict(guess);
            assert(guess == instant_guess(ap_tsf_us, o) as i64);
            assert(call_ensures(predict, (instant_guess(ap_tsf_us, o) as i64,), second));
            match second {
                None => None,
                Some(p) => {
                    let instant: i64 = instant_from_offset(ap_tsf_us, p);
                    if instant < 0 {
                        None
                    } else {
                        Some(instant as u64)
                    }
                },
            }
        },
    }
}

/// The step after `step`, given whether it succeeded. Registering the callback
/// cannot fail; the two last steps have no successor but themselves.
pub open spec fn next_install_step(step: InstallStep, ok: bool) -> InstallStep {
    match step {
        InstallStep::EnterPromiscuous => if ok {
            InstallStep::RegisterCallback
        } else {
            InstallStep::Failed(InstallError::Promiscuous)
        },
        InstallStep::RegisterCallback => InstallStep::SpawnConsumer,
        InstallStep::SpawnConsumer => if ok {
            InstallStep::SpawnPoller
        } else {
            InstallStep::Failed(InstallError::Spawn)
        },
        InstallStep::SpawnPoller => if ok {
            InstallStep::Installed
        } else {
            InstallStep::Failed(InstallError::Spawn)
        },
        InstallStep::Installed => InstallStep::Installed,
        InstallStep::Failed(e) => InstallStep::Failed(e),
    }
}

/// The step at which installing ends, given the outcomes of the steps that can
/// fail.
pub open spec fn install_end(promiscuous: bool, consumer: bool, poller: bool) -> InstallStep {
    let entered = next_install_step(InstallStep::EnterPromiscuous, promiscuous);
    let registered = next_install_step(entered, true);
    let consuming = next_install_step(registered, consumer);
    next_install_step(consuming, poller)
}

/// The step after `step`, given whether it succeeded.
pub fn install_step(step: InstallStep, ok: bool) -> (next: InstallStep)
    ensures
        next == next_install_step(step, ok),
{
    match step {
        InstallStep::EnterPromiscuous => if ok {
            InstallStep::RegisterCallback
        } else {
            InstallStep::Failed(InstallError::Promiscuous)
        },
        InstallStep::RegisterCallback => InstallStep::SpawnConsumer,
        InstallStep::SpawnConsumer => if ok {
            InstallStep::SpawnPoller
        } else {
            InstallStep::Failed(InstallError::Spawn)
        },
        InstallStep::SpawnPoller => if ok {
            InstallStep::Installed
        } else {
            InstallStep::Failed(InstallError::Spawn)
        },
        InstallStep::Installed => InstallStep::Installed,
        InstallStep::Failed(e) => InstallStep::Failed(e),
    }
}

/// Sets up a client, given whether the radio went into promiscuous mode and
/// whether the consumer and the association task could be spawned.
pub fn install(promiscuous: bool, consumer: bool, poller: bool) -> (r: Result<
    ClockSyncClient,
    InstallError,
>)
    ensures
        !promiscuous ==> r == Err::<ClockSyncClient, InstallError>(InstallError::Promiscuous),
        promiscuous && !(consumer && poller) ==> r == Err::<ClockSyncClient, InstallError>(
            InstallError::Spawn,
        ),
        promiscuous && consumer && poller ==> r is Ok && (r->Ok_0).wf() && (r->Ok_0)@
            == ClientState::fresh(),
        match r {
            Ok(_) => install_end(promiscuous, consumer, poller) == InstallStep::Installed,
            Err(e) => install_end(promiscuous, consumer, poller) == InstallStep::Failed(e),
        },
{
    if !promiscuous {
        Err(InstallError::Promiscuous)
    } else if !consumer || !poller {
        Err(InstallError::Spawn)
    } else {
        Ok(ClockSyncClient::new())
    }
}

impl ClockSyncClient {
    /// Both windows are valid, the queue is within its depth, and both
    /// estimators keep their invariants.
    pub open spec fn wf(&self) -> bool {
        &&& self@.beacons.valid()
        &&& self@.wall.valid()
        &&& self@.queue.len() <= CHANNEL_DEPTH
        &&& self.estimators_wf()
    }

    /// The part of the invariant that speaks of the private fields.
    pub closed spec fn estimators_wf(&self) -> bool {
        self.beacon_est.wf() && self.udp_est.wf()
    }

    /// A client that has heard nothing yet.
    pub fn new() -> (c: Self)
        ensures
            c.wf(),
            c@ == ClientState::fresh(),
    {
        ClockSyncClient {
            samples: new_queue(),
            beacon_est: Estimator::new(),
            udp_est: Estimator::new(),
            latest_beacon: None,
            locked_bssid: None,
            instant_minus_tsf: DELTA_UNSET,
            frames_seen: 0,
            frames_matched: 0,
            beacons_seen: 0,
            beacons_used: 0,
            samples_dropped: 0,
        }
    }

    /// Whether a frame can be taken in at these readings.
    pub fn can_receive(&self, instant_us: u64, own_tsf_at_cb: u64) -> (b: bool)
        ensures
            b == self@.delta_fits(instant_us, own_tsf_at_cb),
    {
        self.instant_minus_tsf == DELTA_UNSET || counter_diff(instant_us, own_tsf_at_cb).checked_sub(
            self.instant_minus_tsf,
        ).is_some()
    }

    /// Takes in a frame that the radio heard: `rx_timestamp` is the low half
    /// of its receive timestamp, `instant_us` and `own_tsf_at_cb` are the
    /// clocks read in the callback.
    pub fn rx_cb(&mut self, data: &[u8], rx_timestamp: u32, instant_us: u64, own_tsf_at_cb: u64) -> (
    action: RxAction)
        requires
            old(self).wf(),
            old(self)@.delta_fits(instant_us, own_tsf_at_cb),
        ensures
            final(self).wf(),
            final(self)@ == old(self)@.after_frame(data@, rx_timestamp, instant_us, own_tsf_at_cb),
            action == old(self)@.frame_action(data@, rx_timestamp, instant_us, own_tsf_at_cb),
    {
        self.frames_seen = self.frames_seen.wrapping_add(1);
        let own_tsf_us: u64 = full_rx_timestamp(own_tsf_at_cb, rx_timestamp);

        let new_delta: i64 = counter_diff(instant_us, own_tsf_at_cb);
        let prev: i64 = self.instant_minus_tsf;
        self.instant_minus_tsf =
        if prev == DELTA_UNSET {
            new_delta
        } else {
            prev + div_i64(new_delta - prev, 64)
        };

        if data.len() >= BEACON_MIN_LEN && data[0] == BEACON_FRAME {
            self.beacons_seen = self.beacons_seen.wrapping_add(1);
            let bssid: [u8; 6] = [data[16], data[17], data[18], data[19], data[20], data[21]];
            let ap_tsf_us: u64 = read_u64_le(data, 24);
            assert(bssid@ =~= beacon_bssid(data@));
            let pass: bool = match self.locked_bssid {
                Some(b) => same_bssid(&b, &bssid),
                None => false,
            };
            if !pass {
                return RxAction::Ignore;
            }
            let announce: bool = self.beacons_used < ANNOUNCED_BEACONS;
            self.beacons_used = self.beacons_used.wrapping_add(1);
            let anchor = BeaconAnchor { instant_us, own_tsf_us, ap_tsf_us };
            self.latest_beacon = Some(anchor);
            let observed_offset: i64 = counter_diff(ap_tsf_us, instant_us);
            if !try_send(&mut self.samples, SnifferEvent::Beacon(anchor)) {
                self.samples_dropped = self.samples_dropped.wrapping_add(1);
            }
            return RxAction::Beacon { anchor, observed_offset, announce };
        }
        match SyncPacket::find_in_frame(data) {
            None => RxAction::Ignore,
            Some(pkt) => {
                self.frames_matched = self.frames_matched.wrapping_add(1);
                let event = SnifferEvent::Udp { server_ns: pkt.send_unix_ns, own_tsf_us };
                if !try_send(&mut self.samples, event) {
                    self.samples_dropped = self.samples_dropped.wrapping_add(1);
                }
                RxAction::Udp { server_ns: pkt.send_unix_ns, own_tsf_us }
            },
        }
    }

    /// The next event that waits to be consumed, or `None` if there is none.
    pub fn receive(&mut self) -> (event: Option<SnifferEvent>)
        requires
            old(self).wf(),
        ensures
            final(self).wf(),
            old(self)@.queue.len() == 0 ==> event is None && final(self)@ == old(self)@,
            old(self)@.queue.len() > 0 ==> event == Some(old(self)@.queue[0]) && final(self)@ == (
            ClientState { queue: old(self)@.queue.skip(1), ..old(self)@ }),
    {
        try_receive(&mut self.samples)
    }

    /// The sample that an event gives, and whether it is one for the wall
    /// clock.
    fn event_sample(&self, event: SnifferEvent) -> (r: Option<(Sample, bool)>)
        ensures
            r == self@.sample_of(event),
    {
        match event {
            SnifferEvent::Beacon(anchor) => Some(
                (
                    Sample {
                        server_ns: (anchor.ap_tsf_us as u128) * 1_000,
                        local_us: anchor.own_tsf_us,
                    },
                    false,
                ),
            ),
            SnifferEvent::Udp { server_ns, own_tsf_us } => match self.own_tsf_to_ap_tsf(own_tsf_us) {
                Some(ap_tsf_us) => Some((Sample { server_ns, local_us: ap_tsf_us }, true)),
                None => None,
            },
        }
    }

    /// Whether an event can be consumed.
    pub fn can_consume(&self, event: SnifferEvent) -> (b: bool)
        requires
            self.wf(),
        ensures
            b == self@.accepts(event),
    {
        match self.event_sample(event) {
            None => true,
            Some((s, wall)) => if wall {
                self.udp_est.can_observe(s)
            } else {
                self.beacon_est.can_observe(s)
            },
        }
    }

    /// Consumes an event: beacons feed the diagnostic estimator, broadcasts
    /// the wall-clock estimator. A broadcast before the first beacon is
    /// passed over.
    pub fn consume_samples(&mut self, event: SnifferEvent)
        requires
            old(self).wf(),
            old(self)@.accepts(event),
        ensures
            final(self).wf(),
            final(self)@ == old(self)@.after_event(event),
    {
        if let Some((sample, wall)) = self.event_sample(event) {
            if wall {
                self.udp_est.observe(sample);
            } else {
                self.beacon_est.observe(sample);
            }
        }
    }

    /// Takes in a look at the association: the access point's address, or
    /// `None` while not associated.
    pub fn poll_ap_bssid(&mut self, info: Option<[u8; 6]>) -> (r: BssidPoll)
        requires
            old(self).wf(),
        ensures
            final(self).wf(),
            info is None ==> final(self)@ == old(self)@ && r == (BssidPoll {
                changed: false,
                wait_ms: BSSID_RETRY_MS,
            }),
            info is Some ==> {
                &&& final(self)@ == (ClientState { locked_bssid: Some((info->0)@), ..old(self)@ })
                &&& r == (BssidPoll {
                    changed: old(self)@.locked_bssid != Some((info->0)@),
                    wait_ms: BSSID_REFRESH_MS,
                })
            },
    {
        match info {
            None => BssidPoll { changed: false, wait_ms: BSSID_RETRY_MS },
            Some(bssid) => {
                let known: bool = match self.locked_bssid {
                    Some(b) => same_bssid(&b, &bssid),
                    None => false,
                };
                if !known {
                    self.locked_bssid = Some(bssid);
                }
                BssidPoll { changed: !known, wait_ms: BSSID_REFRESH_MS }
            },
        }
    }

    /// The access point's TSF at one of our TSF readings, by the latest
    /// beacon.
    pub fn own_tsf_to_ap_tsf(&self, own_tsf_us: u64) -> (r: Option<u64>)
        ensures
            r == ap_tsf_at_own(self@.latest_beacon, own_tsf_us),
    {
        match self.latest_beacon {
            None => None,
            Some(a) => {
                let ap: i64 = carry_over(a.ap_tsf_us, a.own_tsf_us, own_tsf_us);
                if ap < 0 {
                    None
                } else {
                    Some(ap as u64)
                }
            },
        }
    }

    /// Our TSF at an instant, by the smoothed difference of the two; the
    /// result keeps its low 64 bits.
    pub fn instant_us_to_tsf_us(&self, instant_us: u64) -> (r: Option<u64>)
        ensures
            r == (if self@.instant_minus_tsf == DELTA_UNSET || instant_us
                < self@.instant_minus_tsf {
                None
            } else {
                Some(crate::arith::as_u64(instant_us - self@.instant_minus_tsf) as u64)
            }),
    {
        if self.instant_minus_tsf == DELTA_UNSET {
            return None;
        }
        let tsf: i128 = (instant_us as i128) - (self.instant_minus_tsf as i128);
        if tsf < 0 {
            return None;
        }
        Some(crate::arith::u64_from_i128(tsf))
    }

    /// The server time at an instant, given what the offset filter predicts
    /// there.
    pub fn synced_ns_at(&self, instant_us: u64, offset: Option<i64>) -> (r: Option<u128>)
        requires
            self.wf(),
        ensures
            r == wall_at_ap(self@.wall.slots, ap_tsf_at_instant(instant_us, offset)),
    {
        match instant_to_ap_tsf(instant_us, offset) {
            None => None,
            Some(ap_tsf_us) => self.udp_est.synced_ns_at(ap_tsf_us),
        }
    }

    /// The server time at the present instant `now_us`, given what the offset
    /// filter predicts there.
    pub fn synced_ns_now(&self, now_us: u64, offset: Option<i64>) -> (r: Option<u128>)
        requires
            self.wf(),
        ensures
            r == wall_at_ap(self@.wall.slots, ap_tsf_at_instant(now_us, offset)),
    {
        self.synced_ns_at(now_us, offset)
    }

    /// The server time at one of our TSF readings. The most precise path: it
    /// goes by the latest beacon, without the offset filter.
    pub fn synced_ns_at_own_tsf(&self, own_tsf_us: u64) -> (r: Option<u128>)
        requires
            self.wf(),
        ensures
            r == wall_at_ap(self@.wall.slots, ap_tsf_at_own(self@.latest_beacon, own_tsf_us)),
    {
        match self.own_tsf_to_ap_tsf(own_tsf_us) {
            None => None,
            Some(ap_tsf_us) => self.udp_est.synced_ns_at(ap_tsf_us),
        }
    }

    /// The server time of an edge, given its tick count: by way of our TSF and
    /// the latest beacon. `None` also if the unit was not calibrated for our
    /// TSF.
    pub fn synced_ns_at_cap_ticks(&self, unit: &CaptureUnit, cap_ticks: u64) -> (r: Option<u128>)
        requires
            self.wf(),
            unit.wf(),
        ensures
            r == (match unit.tsf_at(cap_ticks) {
                None => None,
                Some(t) => wall_at_ap(
                    self@.wall.slots,
                    ap_tsf_at_own(self@.latest_beacon, t),
                ),
            }),
    {
        match cap_ticks_to_mac_tsf_us(unit, cap_ticks) {
            None => None,
            Some(own_tsf_us) => self.synced_ns_at_own_tsf(own_tsf_us),
        }
    }

    /// Our TSF reading at which a server time occurs.
    pub fn own_tsf_at(&self, server_ns: u128) -> (r: Option<u64>)
        requires
            self.wf(),
        ensures
            r == (match crate::estimator::local_time_at(self@.wall.slots, server_ns) {
                None => None,
                Some(t) => own_tsf_at_ap(self@.latest_beacon, t),
            }),
    {
        match self.udp_est.local_us_at(server_ns) {
            None => None,
            Some(ap_tsf_us) => match self.latest_beacon {
                None => None,
                Some(a) => {
                    let own: i64 = carry_over(a.own_tsf_us, a.ap_tsf_us, ap_tsf_us);
                    if own < 0 {
                        None
                    } else {
                        Some(own as u64)
                    }
                },
            },
        }
    }

    /// The instant at which a server time occurs; `predict` is the offset
    /// filter.
    pub fn local_us_at<F: Fn(i64) -> Option<i64>>(&self, server_ns: u128, predict: F) -> (r: Option<
        u64,
    >)
        requires
            self.wf(),
            forall|t: i64| call_requires(predict, (t,)),
        ensures
            match crate::estimator::local_time_at(self@.wall.slots, server_ns) {
                None => r is None,
                Some(t) => found_in_two_steps(predict, t, r),
            },
    {
        match self.udp_est.local_us_at(server_ns) {
            None => None,
            Some(ap_tsf_us) => ap_tsf_to_instant(ap_tsf_us, predict),
        }
    }

    /// A snapshot of the beacon estimator.
    pub fn quality(&self) -> (q: Quality)
        requires
            self.wf(),
        ensures
            crate::estimator::quality_of(self@.beacons, q),
    {
        self.beacon_est.quality()
    }

    /// A snapshot of the wall-clock estimator.
    pub fn wall_quality(&self) -> (q: Quality)
        requires
            self.wf(),
        ensures
            crate::estimator::quality_of(self@.wall, q),
    {
        self.udp_est.quality()
    }

    /// Beacons of our access point so far.
    pub fn beacons_used(&self) -> (n: u64)
        ensures
            n == self@.beacons_used,
    {
        self.beacons_used
    }

    /// Beacons of any access point so far.
    pub fn beacons_seen(&self) -> (n: u64)
        ensures
            n == self@.beacons_seen,
    {
        self.beacons_seen
    }

    /// Frames heard so far.
    pub fn frames_seen(&self) -> (n: u64)
        ensures
            n == self@.frames_seen,
    {
        self.frames_seen
    }

    /// Frames so far that held a broadcast packet.
    pub fn frames_matched(&self) -> (n: u64)
        ensures
            n == self@.frames_matched,
    {
        self.frames_matched
    }

    /// Samples so far that were dropped because the queue was full. Stays zero
    /// in normal operation.
    pub fn samples_dropped(&self) -> (n: u64)
        ensures
            n == self@.samples_dropped,
    {
        self.samples_dropped
    }
}

} // verus!
