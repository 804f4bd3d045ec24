//! The frame relay: the data path of the AI branch.
//!
//! A frame tapped off the pipeline is written into a slot, announced to the
//! worker, and read back once the worker acknowledges it. On any failure along
//! the way the slot is taken back and the original frame goes downstream
//! unchanged, so the output never goes dark.

use crate::double::ratio_nanos;
#[allow(unused_imports)]
use crate::double::{law_quotients_are_right_to_the_nanosecond, quotient_nanos};
#[allow(unused_imports)]
use crate::fsm::rate;
use crate::metrics::{Counter, Gauge, GaugeF, Registry};
#[allow(unused_imports)]
use crate::metrics::{observes, seconds_to_micros, wrapping_sum};
use crate::ports::{FrameMetadata, IpcError, IpcFailure, ShmWriter};
use crate::shm::{ShmHeader, ShmRingBuffer, SlotHeader, SLOT_FREE};
#[allow(unused_imports)]
use crate::shm::{
    all_busy, first_free, lemma_slot_bounds, payload_len, pixels, segment_size, slot_state, sound,
    too_large, with_state, written,
};
use crate::uds::{Ack, FrameProcessedPacket, Incoming, UdsControlBridge, WaitOutcome};
#[allow(unused_imports)]
use crate::uds::{one_more_failure, outcome_of, streak_after, streak_next};
use vstd::prelude::*;

verus! {

/// A counter, one higher.
pub open spec fn bumped(c: Counter) -> Counter {
    Counter { value: wrapping_sum(c.value, 1) as u64 }
}

/// How far a frame's roundtrip has come.
#[derive(Debug, Clone, Copy, PartialEq, Eq, Structural)]
pub enum RelayPhase {
    /// In its slot, not announced yet.
    Announcing,
    /// Announced; the acknowledgement is due.
    Waiting,
    Done,
}

/// What happens to a frame on its way.
#[derive(Debug)]
pub enum RelayEvent {
    /// The announcement went out, or did not.
    Announced(Result<(), IpcError>),
    /// An acknowledgement came, of this frame or another.
    Acked(Ack),
    /// The wait ended without an acknowledgement.
    Missed(IpcError),
}

/// What to do with a frame next.
#[derive(Debug)]
pub enum RelayAction {
    Announce(FrameMetadata),
    AwaitAck,
    /// Push the frame downstream: with the worker's pixels and its processing
    /// time in microseconds, or as it came.
    Finish(Result<u64, IpcError>),
}

/// How a roundtrip stands.
pub enum TripState {
    Announcing,
    Waiting,
    /// The worker's pixels have been read back.
    Delivered(u64),
    Failed(IpcFailure),
}

/// What can happen to a roundtrip.
pub enum TripEvent {
    Announced(Result<(), IpcFailure>),
    /// The number of the frame acknowledged, and what the worker says of it.
    Acked(u64, Result<FrameMetadata, IpcFailure>),
    Missed(IpcFailure),
}

pub open spec fn event_of(e: RelayEvent) -> TripEvent {
    match e {
        RelayEvent::Announced(Ok(_)) => TripEvent::Announced(Ok(())),
        RelayEvent::Announced(Err(error)) => TripEvent::Announced(Err(error@)),
        RelayEvent::Acked(ack) => TripEvent::Acked(ack.frame_id, outcome_of(ack.result)),
        RelayEvent::Missed(error) => TripEvent::Missed(error@),
    }
}

pub open spec fn state_of(phase: RelayPhase) -> TripState {
    match phase {
        RelayPhase::Announcing => TripState::Announcing,
        _ => TripState::Waiting,
    }
}

/// Whether an acknowledgement is for another frame, one that timed out before,
/// whether it reports success or failure.
pub open spec fn is_stale(frame_id: u64, event: TripEvent) -> bool {
    event matches TripEvent::Acked(acked, _) && acked != frame_id
}

/// How an event moves a roundtrip of frame `frame_id`. Stale acknowledgements
/// are discarded, and nothing moves a roundtrip that has ended.
pub open spec fn trip_next(frame_id: u64, state: TripState, event: TripEvent) -> TripState {
    match (state, event) {
        (TripState::Announcing, TripEvent::Announced(Ok(_))) => TripState::Waiting,
        (TripState::Announcing, TripEvent::Announced(Err(e))) => TripState::Failed(e),
        (TripState::Waiting, TripEvent::Acked(acked, result)) => if acked != frame_id {
            TripState::Waiting
        } else {
            match result {
                Ok(meta) => TripState::Delivered(meta.timestamp_us),
                Err(e) => TripState::Failed(e),
            }
        },
        (TripState::Waiting, TripEvent::Missed(e)) => TripState::Failed(e),
        _ => state,
    }
}

/// What a roundtrip in a given state asks for.
pub open spec fn action_matches(action: RelayAction, meta: FrameMetadata, state: TripState) -> bool {
    match state {
        TripState::Announcing => action == RelayAction::Announce(meta),
        TripState::Waiting => action == RelayAction::AwaitAck,
        TripState::Delivered(us) => action == RelayAction::Finish(Ok(us)),
        TripState::Failed(e) => action matches RelayAction::Finish(Err(error)) && error@ == e,
    }
}

/// The frame after a roundtrip reached `state`: the worker's pixels once they
/// are delivered, until then and on every failure the original.
pub open spec fn frame_after(
    h: ShmHeader,
    seg: Seq<u8>,
    slot: int,
    original: Seq<u8>,
    state: TripState,
) -> Seq<u8> {
    match state {
        TripState::Delivered(_) => pixels(h, seg, slot).take(original.len() as int),
        _ => original,
    }
}

/// The segment after a roundtrip reached `state`: a failure takes the slot
/// back.
pub open spec fn segment_after(h: ShmHeader, seg: Seq<u8>, slot: int, state: TripState) -> Seq<u8> {
    match state {
        TripState::Failed(_) => with_state(h, seg, slot, SLOT_FREE),
        _ => seg,
    }
}

/// The roundtrip of one frame.
#[derive(Debug, Clone, Copy, PartialEq, Eq, Structural)]
pub struct Roundtrip {
    pub meta: FrameMetadata,
    pub phase: RelayPhase,
}

/// What putting a frame into a slot comes to.
pub open spec fn starts(
    h: ShmHeader,
    seg: Seq<u8>,
    registry: Registry,
    frame_id: u64,
    data: Seq<u8>,
    timestamp_us: u64,
    r: Result<Roundtrip, IpcError>,
    seg_after: Seq<u8>,
    registry_after: Registry,
) -> bool {
    &&& seg_after.len() == seg.len()
    &&& data.len() > payload_len(h) ==> (r matches Err(e) && e@ == IpcFailure::ShmError(
        too_large(data.len(), payload_len(h) as nat),
    ))
    &&& data.len() <= payload_len(h) && all_busy(h, seg) ==> (r matches Err(e) && e@
        == IpcFailure::BufferFull)
    &&& data.len() <= payload_len(h) && !all_busy(h, seg) ==> r is Ok
    &&& match r {
        Err(e) => {
            &&& seg_after == seg
            &&& registry_after == if e@ is BufferFull {
                Registry { shm_full: bumped(registry.shm_full), ..registry }
            } else {
                registry
            }
        },
        Ok(trip) => {
            &&& trip.phase == RelayPhase::Announcing
            &&& trip.meta.frame_id == frame_id
            &&& trip.meta.timestamp_us == timestamp_us
            &&& first_free(h, seg, trip.meta.slot_index as int)
            &&& seg_after == written(
                h,
                seg,
                trip.meta.slot_index as int,
                frame_id,
                timestamp_us,
                data,
            )
            &&& registry_after == registry
        },
    }
}

/// A roundtrip with everything that its steps can touch.
pub struct Scene {
    pub trip: Roundtrip,
    pub segment: Seq<u8>,
    pub frame: Seq<u8>,
    pub registry: Registry,
}

/// What an event does to a roundtrip, and the action it is answered with.
pub open spec fn steps_to(
    h: ShmHeader,
    old_scene: Scene,
    event: TripEvent,
    action: RelayAction,
    new_scene: Scene,
) -> bool {
    let meta = old_scene.trip.meta;
    let slot = meta.slot_index as int;
    let before = state_of(old_scene.trip.phase);
    let after = trip_next(meta.frame_id, before, event);
    &&& new_scene.trip.meta == meta
    &&& new_scene.trip.phase == match after {
        TripState::Announcing => RelayPhase::Announcing,
        TripState::Waiting => RelayPhase::Waiting,
        _ => RelayPhase::Done,
    }
    &&& action_matches(action, meta, after)
    &&& new_scene.frame == frame_after(h, old_scene.segment, slot, old_scene.frame, after)
    &&& new_scene.segment == segment_after(h, old_scene.segment, slot, after)
    &&& new_scene.registry == if before is Waiting && is_stale(meta.frame_id, event) {
        Registry { stale_acks: bumped(old_scene.registry.stale_acks), ..old_scene.registry }
    } else {
        old_scene.registry
    }
}

impl Roundtrip {
    /// Puts a frame into a slot. A frame that does not get one is dropped from
    /// the AI branch; it is counted if no slot was free.
    pub fn start(
        ring: &ShmRingBuffer,
        segment: &mut [u8],
        frame_id: u64,
        data: &[u8],
        timestamp_us: u64,
        registry: &mut Registry,
    ) -> (r: Result<Roundtrip, IpcError>)
        requires
            ring.valid(),
            old(segment)@.len() == ring.segment_len(),
        ensures
            starts(
                ring@,
                old(segment)@,
                *old(registry),
                frame_id,
                data@,
                timestamp_us,
                r,
                final(segment)@,
                *final(registry),
            ),
    {
        match ring.write_frame(segment, frame_id, data, timestamp_us) {
            Ok(meta) => Ok(Roundtrip { meta, phase: RelayPhase::Announcing }),
            Err(e) => {
                match e {
                    IpcError::BufferFull => registry.shm_full.inc(),
                    _ => {},
                }
                Err(e)
            },
        }
    }

    /// The first thing to do with the frame.
    pub fn begin(&self) -> (r: RelayAction)
        ensures
            r == RelayAction::Announce(self.meta),
    {
        RelayAction::Announce(self.meta)
    }

    /// Takes an event and says what to do about it. `segment` is the shared
    /// memory as the worker left it; `data` holds the original frame until the
    /// worker's pixels replace it.
    pub fn step(
        &mut self,
        ring: &ShmRingBuffer,
        segment: &mut [u8],
        data: &mut Vec<u8>,
        registry: &mut Registry,
        event: RelayEvent,
    ) -> (r: RelayAction)
        requires
            old(self).phase != RelayPhase::Done,
            ring.valid(),
            old(segment)@.len() == ring.segment_len(),
            old(self).meta.slot_index < ring@.slot_count,
            old(data)@.len() <= payload_len(ring@),
        ensures
            steps_to(
                ring@,
                Scene {
                    trip: *old(self),
                    segment: old(segment)@,
                    frame: old(data)@,
                    registry: *old(registry),
                },
                event_of(event),
                r,
                Scene {
                    trip: *final(self),
                    segment: final(segment)@,
                    frame: final(data)@,
                    registry: *final(registry),
                },
            ),
            final(segment)@.len() == old(segment)@.len(),
            final(data)@.len() == old(data)@.len(),
    {
        proof {
            lemma_slot_bounds(ring@, self.meta.slot_index as int);
        }
        match (self.phase, event) {
            (RelayPhase::Announcing, RelayEvent::Announced(Ok(_))) => {
                self.phase = RelayPhase::Waiting;
                RelayAction::AwaitAck
            },
            (RelayPhase::Announcing, RelayEvent::Announced(Err(e))) => {
                self.phase = RelayPhase::Done;
                ring.release_slot(segment, self.meta.slot_index);
                RelayAction::Finish(Err(e))
            },
            (RelayPhase::Waiting, RelayEvent::Acked(ack)) => {
                if ack.frame_id != self.meta.frame_id {
                    registry.stale_acks.inc();
                    return RelayAction::AwaitAck;
                }
                self.phase = RelayPhase::Done;
                let meta = match ack.result {
                    Ok(meta) => meta,
                    Err(e) => {
                        ring.release_slot(segment, self.meta.slot_index);
                        return RelayAction::Finish(Err(e));
                    },
                };
                match ring.read_frame(segment, self.meta.slot_index, data.as_mut_slice()) {
                    Ok(()) => RelayAction::Finish(Ok(meta.timestamp_us)),
                    Err(e) => {
                        ring.release_slot(segment, self.meta.slot_index);
                        RelayAction::Finish(Err(e))
                    },
                }
            },
            (RelayPhase::Waiting, RelayEvent::Missed(e)) => {
                self.phase = RelayPhase::Done;
                ring.release_slot(segment, self.meta.slot_index);
                RelayAction::Finish(Err(e))
            },
            (RelayPhase::Announcing, _) => RelayAction::Announce(self.meta),
            _ => RelayAction::AwaitAck,
        }
    }
}

/// One and a half frame periods, in nanoseconds: the budget of a roundtrip.
pub open spec fn roundtrip_budget(fps: u32) -> nat {
    quotient_nanos(3, 2 * rate(fps))
}

/// A frame as it was tapped off the pipeline.
#[derive(Debug)]
pub struct RawFrame {
    pub data: Vec<u8>,
    pub pts: Option<u64>,
    pub duration: Option<u64>,
    /// Whether the frame came with a description of its format.
    pub has_caps: bool,
}

/// A frame on its way downstream.
#[derive(Debug)]
pub struct OutgoingFrame {
    pub data: Vec<u8>,
    pub pts: Option<u64>,
    pub duration: Option<u64>,
    /// Whether the frame's format has to be announced first.
    pub apply_caps: bool,
}

/// The relay's own state.
#[derive(Debug, Clone, Copy, PartialEq, Eq, Structural)]
pub struct Relay {
    /// The number of the latest frame.
    pub frame_id: u64,
    /// Whether the format has been announced downstream.
    pub caps_applied: bool,
    /// The budget of a roundtrip.
    pub deadline_ns: u64,
}

/// The number after a frame's number.
pub open spec fn next_number(frame_id: u64) -> u64 {
    wrapping_sum(frame_id, 1) as u64
}

impl Relay {
    pub fn new(fps: u32) -> (r: Relay)
        ensures
            r.frame_id == 0,
            !r.caps_applied,
            r.deadline_ns == roundtrip_budget(fps),
    {
        let d: u64 = if fps == 0 {
            1
        } else {
            fps as u64
        };
        Relay { frame_id: 0, caps_applied: false, deadline_ns: ratio_nanos(3, 2 * d) }
    }

    /// Numbers the next frame.
    pub fn next_frame(&mut self) -> (r: u64)
        ensures
            r == next_number(old(self).frame_id),
            *final(self) == (Relay { frame_id: r, ..*old(self) }),
    {
        self.frame_id = self.frame_id.wrapping_add(1);
        self.frame_id
    }

    /// Hands a frame downstream, timestamps and all.
    pub fn outgoing(&mut self, frame: RawFrame) -> (r: OutgoingFrame)
        ensures
            sends_out(*old(self), frame, *final(self), r),
    {
        let apply_caps: bool = !self.caps_applied && frame.has_caps;
        if apply_caps {
            self.caps_applied = true;
        }
        OutgoingFrame { data: frame.data, pts: frame.pts, duration: frame.duration, apply_caps }
    }
}

/// What the outcome of a roundtrip does to the bridge and the metrics. Seconds
/// are given as bit patterns.
pub open spec fn settles(
    bridge: UdsControlBridge,
    registry: Registry,
    bridge_after: UdsControlBridge,
    registry_after: Registry,
    delivered: bool,
    roundtrip_seconds: u64,
    processing_seconds: u64,
    now_seconds: u64,
) -> bool {
    &&& bridge_after == (UdsControlBridge {
        failure_streak: streak_next(bridge.failure_streak, delivered),
        ..bridge
    })
    &&& delivered ==> {
        &&& observes(
            registry.roundtrip_seconds,
            registry_after.roundtrip_seconds,
            roundtrip_seconds,
        )
        &&& observes(
            registry.worker_processing_seconds,
            registry_after.worker_processing_seconds,
            processing_seconds,
        )
        &&& registry_after == (Registry {
            failure_streak: Gauge { value: 0 },
            frames_ai: bumped(registry.frames_ai),
            roundtrip_seconds: registry_after.roundtrip_seconds,
            worker_processing_seconds: registry_after.worker_processing_seconds,
            last_ai_frame_timestamp: GaugeF { bits: now_seconds },
            ..registry
        })
    }
    &&& !delivered ==> registry_after == (Registry {
        failure_streak: Gauge { value: one_more_failure(bridge.failure_streak) as i64 },
        frames_passthrough: bumped(registry.frames_passthrough),
        ..registry
    })
}

/// Books the outcome of a roundtrip: the failure streak, the frame counters,
/// and for a delivered frame its latencies and the time. Seconds are given as
/// bit patterns.
pub fn settle(
    bridge: &mut UdsControlBridge,
    registry: &mut Registry,
    delivered: bool,
    roundtrip_seconds: u64,
    processing_seconds: u64,
    now_seconds: u64,
)
    ensures
        settles(
            *old(bridge),
            *old(registry),
            *final(bridge),
            *final(registry),
            delivered,
            roundtrip_seconds,
            processing_seconds,
            now_seconds,
        ),
{
    if delivered {
        bridge.record_success(registry);
        registry.frames_ai.inc();
        registry.roundtrip_seconds.observe_seconds(roundtrip_seconds);
        registry.worker_processing_seconds.observe_seconds(processing_seconds);
        registry.last_ai_frame_timestamp.set(now_seconds);
    } else {
        bridge.record_failure(registry);
        registry.frames_passthrough.inc();
    }
}

/// One frame's passage through the relay: its number, its outcome, and the
/// state before and after.
pub struct Passage {
    pub relay: Relay,
    pub bridge: UdsControlBridge,
    pub registry: Registry,
    pub number: u64,
    pub delivered: bool,
    pub roundtrip_seconds: u64,
    pub processing_seconds: u64,
    pub now_seconds: u64,
    pub relay_after: Relay,
    pub bridge_after: UdsControlBridge,
    pub registry_after: Registry,
}

/// Whether a passage is what the relay makes of a frame: it is numbered, and
/// its outcome is booked.
pub open spec fn passes(p: Passage) -> bool {
    &&& p.number == next_number(p.relay.frame_id)
    &&& p.relay_after.frame_id == p.number
    &&& settles(
        p.bridge,
        p.registry,
        p.bridge_after,
        p.registry_after,
        p.delivered,
        p.roundtrip_seconds,
        p.processing_seconds,
        p.now_seconds,
    )
}

/// Whether one passage follows another. Between the two, others may book what
/// they like, but not frames and their outcomes.
pub open spec fn follows(p: Passage, next: Passage) -> bool {
    &&& next.relay.frame_id == p.relay_after.frame_id
    &&& next.bridge.failure_streak == p.bridge_after.failure_streak
    &&& next.registry.frames_ai == p.registry_after.frames_ai
    &&& next.registry.frames_passthrough == p.registry_after.frames_passthrough
}

/// Whether a series of passages is the relay's history from its start.
pub open spec fn is_history(h: Seq<Passage>) -> bool {
    &&& forall|i: int| 0 <= i < h.len() ==> passes(#[trigger] h[i])
    &&& forall|i: int, j: int|
        0 <= i && j == i + 1 && j < h.len() ==> follows(#[trigger] h[i], #[trigger] h[j])
    &&& h.len() > 0 ==> h[0].relay.frame_id == 0
}

/// The outcomes of a series of passages.
pub open spec fn outcomes(h: Seq<Passage>) -> Seq<bool> {
    h.map_values(|p: Passage| p.delivered)
}

/// How many of the outcomes are `delivered`.
pub open spec fn outcome_count(outcomes: Seq<bool>, delivered: bool) -> nat
    decreases outcomes.len(),
{
    if outcomes.len() == 0 {
        0
    } else {
        outcome_count(outcomes.drop_last(), delivered) + if outcomes.last() == delivered {
            1nat
        } else {
            0nat
        }
    }
}

/// Over any series of outcomes frames are numbered from 1 in order, and each
/// is counted once: the AI counter grows by the deliveries, the passthrough
/// counter by the failures, and both together by the number of frames. The
/// failure streak is what the outcomes make of it.
pub proof fn law_every_frame_is_numbered_and_counted(h: Seq<Passage>)
    requires
        is_history(h),
        0 < h.len() <= u64::MAX,
    ensures
        forall|i: int| 0 <= i < h.len() ==> (#[trigger] h[i]).number == i + 1,
        h.last().registry_after.frames_ai.value == wrapping_sum(
            h[0].registry.frames_ai.value,
            outcome_count(outcomes(h), true),
        ),
        h.last().registry_after.frames_passthrough.value == wrapping_sum(
            h[0].registry.frames_passthrough.value,
            outcome_count(outcomes(h), false),
        ),
        outcome_count(outcomes(h), true) + outcome_count(outcomes(h), false) == h.len(),
        h[0].registry.frames_ai.value + h[0].registry.frames_passthrough.value + h.len()
            <= u64::MAX ==> h.last().registry_after.frames_ai.value
            + h.last().registry_after.frames_passthrough.value == h[0].registry.frames_ai.value
            + h[0].registry.frames_passthrough.value + h.len(),
        h.last().bridge_after.failure_streak == streak_after(
            h[0].bridge.failure_streak,
            outcomes(h),
        ),
{
    assert forall|i: int| 0 <= i < h.len() implies is_counted(#[trigger] h[i]) by {
        assert(passes(h[i]));
    }
    lemma_numbers(h);
    lemma_counts(h);
    lemma_outcomes_add_up(outcomes(h));
}

/// What a passage does to the counters and the streak.
spec fn is_counted(p: Passage) -> bool {
    &&& p.number == next_number(p.relay.frame_id)
    &&& p.relay_after.frame_id == p.number
    &&& p.bridge_after.failure_streak == streak_next(p.bridge.failure_streak, p.delivered)
    &&& p.registry_after.frames_ai == if p.delivered {
        bumped(p.registry.frames_ai)
    } else {
        p.registry.frames_ai
    }
    &&& p.registry_after.frames_passthrough == if p.delivered {
        p.registry.frames_passthrough
    } else {
        bumped(p.registry.frames_passthrough)
    }
}

/// Whether each passage is counted and follows the one before.
spec fn is_counted_series(h: Seq<Passage>) -> bool {
    &&& forall|i: int| 0 <= i < h.len() ==> is_counted(#[trigger] h[i])
    &&& forall|i: int, j: int|
        0 <= i && j == i + 1 && j < h.len() ==> follows(#[trigger] h[i], #[trigger] h[j])
}

proof fn lemma_numbers(h: Seq<Passage>)
    requires
        is_counted_series(h),
        h.len() > 0 ==> h[0].relay.frame_id == 0,
        h.len() <= u64::MAX,
    ensures
        forall|i: int| 0 <= i < h.len() ==> (#[trigger] h[i]).number == i + 1,
    decreases h.len(),
{
    if h.len() > 0 {
        let n = h.len() - 1;
        let front = h.drop_last();
        lemma_numbers(front);
        assert(is_counted(h[n]));
        if n > 0 {
            assert(front[n - 1].number == n);
            assert(follows(h[n - 1], h[n]));
            assert(is_counted(h[n - 1]));
        }
        assert forall|i: int| 0 <= i < h.len() implies (#[trigger] h[i]).number == i + 1 by {
            if i < n {
                assert(front[i].number == i + 1);
            }
        }
    }
}

proof fn lemma_counts(h: Seq<Passage>)
    requires
        is_counted_series(h),
        h.len() > 0,
    ensures
        h.last().registry_after.frames_ai.value == wrapping_sum(
            h[0].registry.frames_ai.value,
            outcome_count(outcomes(h), true),
        ),
        h.last().registry_after.frames_passthrough.value == wrapping_sum(
            h[0].registry.frames_passthrough.value,
            outcome_count(outcomes(h), false),
        ),
        h.last().bridge_after.failure_streak == streak_after(
            h[0].bridge.failure_streak,
            outcomes(h),
        ),
    decreases h.len(),
{
    let n = h.len() - 1;
    let front = h.drop_last();
    assert(is_counted(h[n]));
    assert(outcomes(h).drop_last() =~= outcomes(front));
    assert(outcomes(h).last() == h[n].delivered);
    let ai = h[0].registry.frames_ai.value;
    let passthrough = h[0].registry.frames_passthrough.value;
    lemma_one_more(ai, outcome_count(outcomes(front), true));
    lemma_one_more(passthrough, outcome_count(outcomes(front), false));
    if n > 0 {
        lemma_counts(front);
        assert(front.last() == h[n - 1]);
        assert(front[0] == h[0]);
        assert(follows(h[n - 1], h[n]));
    } else {
        assert(outcomes(front).len() == 0);
        assert(outcome_count(outcomes(front), true) == 0);
        assert(outcome_count(outcomes(front), false) == 0);
        assert(streak_after(h[0].bridge.failure_streak, outcomes(front))
            == h[0].bridge.failure_streak);
    }
}

/// Bumping a counter adds one to what it has grown by.
proof fn lemma_one_more(start: u64, n: nat)
    ensures
        wrapping_sum(start, 0) == start,
        bumped(Counter { value: wrapping_sum(start, n) as u64 }).value == wrapping_sum(
            start,
            n + 1,
        ),
{
}

proof fn lemma_outcomes_add_up(outcomes: Seq<bool>)
    ensures
        outcome_count(outcomes, true) + outcome_count(outcomes, false) == outcomes.len(),
    decreases outcomes.len(),
{
    if outcomes.len() > 0 {
        lemma_outcomes_add_up(outcomes.drop_last());
    }
}

/// What a frame that was tapped off the pipeline does to the metrics.
pub open spec fn after_tap(r: Registry, taken: bool) -> Registry {
    if taken {
        r
    } else {
        Registry { relay_channel_drops: bumped(r.relay_channel_drops), ..r }
    }
}

/// Books a frame that was tapped off the pipeline. One that finds the relay
/// still busy is dropped from the AI branch and counted.
pub fn record_tapped(registry: &mut Registry, taken: bool)
    ensures
        *final(registry) == after_tap(*old(registry), taken),
{
    if !taken {
        registry.relay_channel_drops.inc();
    }
}

/// One event of a roundtrip, with the shared memory as it was found.
pub struct TripStep {
    pub event: TripEvent,
    pub segment: Seq<u8>,
}

/// Whether a roundtrip has ended.
pub open spec fn has_ended(state: TripState) -> bool {
    state is Delivered || state is Failed
}

/// How a roundtrip and its frame stand after a series of events.
pub open spec fn trip_run(
    h: ShmHeader,
    meta: FrameMetadata,
    state: TripState,
    data: Seq<u8>,
    steps: Seq<TripStep>,
) -> (TripState, Seq<u8>)
    decreases steps.len(),
{
    if steps.len() == 0 || has_ended(state) {
        (state, data)
    } else {
        let next = trip_next(meta.frame_id, state, steps[0].event);
        let frame = frame_after(h, steps[0].segment, meta.slot_index as int, data, next);
        trip_run(h, meta, next, frame, steps.skip(1))
    }
}

/// The acknowledgement that delivered a frame, among a series of events.
pub open spec fn delivered_by(
    h: ShmHeader,
    meta: FrameMetadata,
    original: Seq<u8>,
    steps: Seq<TripStep>,
    frame: Seq<u8>,
    k: int,
) -> bool {
    &&& 0 <= k < steps.len()
    &&& steps[k].event matches TripEvent::Acked(acked, Ok(_)) && acked == meta.frame_id
    &&& frame == pixels(h, steps[k].segment, meta.slot_index as int).take(original.len() as int)
}

/// Whatever the worker does, and however often, the frame that goes downstream
/// is the original one, or the pixels found in its slot when the worker
/// acknowledged that very frame.
pub proof fn law_frame_is_never_lost(
    h: ShmHeader,
    meta: FrameMetadata,
    original: Seq<u8>,
    steps: Seq<TripStep>,
)
    ensures
        ({
            let (state, frame) = trip_run(h, meta, TripState::Announcing, original, steps);
            &&& !(state is Delivered) ==> frame == original
            &&& state is Delivered ==> exists|k: int|
                delivered_by(h, meta, original, steps, frame, k)
        }),
{
    lemma_run_keeps_frame(h, meta, TripState::Announcing, original, steps);
}

proof fn lemma_run_keeps_frame(
    h: ShmHeader,
    meta: FrameMetadata,
    state: TripState,
    original: Seq<u8>,
    steps: Seq<TripStep>,
)
    requires
        !has_ended(state),
    ensures
        ({
            let (after, frame) = trip_run(h, meta, state, original, steps);
            &&& !(after is Delivered) ==> frame == original
            &&& after is Delivered ==> exists|k: int|
                delivered_by(h, meta, original, steps, frame, k)
        }),
    decreases steps.len(),
{
    if steps.len() > 0 {
        let next = trip_next(meta.frame_id, state, steps[0].event);
        let rest = steps.skip(1);
        let (after, frame) = trip_run(h, meta, state, original, steps);
        reveal_with_fuel(trip_run, 2);
        if has_ended(next) {
            if next is Delivered {
                assert(delivered_by(h, meta, original, steps, frame, 0));
            }
        } else {
            lemma_run_keeps_frame(h, meta, next, original, rest);
            if after is Delivered {
                let k = choose|k: int| delivered_by(h, meta, original, rest, frame, k);
                assert(steps[k + 1] == rest[k]);
                assert(delivered_by(h, meta, original, steps, frame, k + 1));
            }
        }
    }
}

/// Stale acknowledgements, of successes and failures alike and however many,
/// neither end a wait nor touch the frame.
pub proof fn law_stale_acks_are_discarded(
    h: ShmHeader,
    meta: FrameMetadata,
    original: Seq<u8>,
    steps: Seq<TripStep>,
)
    requires
        forall|i: int| 0 <= i < steps.len() ==> is_stale(meta.frame_id, #[trigger] steps[i].event),
    ensures
        trip_run(h, meta, TripState::Waiting, original, steps) == (TripState::Waiting, original),
    decreases steps.len(),
{
    if steps.len() > 0 {
        assert(is_stale(meta.frame_id, steps[0].event));
        let rest = steps.skip(1);
        assert forall|i: int| 0 <= i < rest.len() implies is_stale(
            meta.frame_id,
            #[trigger] rest[i].event,
        ) by {
            assert(rest[i] == steps[i + 1]);
        }
        law_stale_acks_are_discarded(h, meta, original, rest);
    }
}

/// A frame whose roundtrip fails gives its slot back: the ring holds as many
/// frames as before, so a dead or slow worker cannot exhaust it.
pub proof fn law_failed_roundtrip_returns_its_slot(
    h: ShmHeader,
    seg: Seq<u8>,
    slot: int,
    frame_id: u64,
    timestamp_us: u64,
    data: Seq<u8>,
    failure: IpcFailure,
)
    requires
        sound(h),
        seg.len() == segment_size(h),
        first_free(h, seg, slot),
        data.len() <= payload_len(h),
    ensures
        ({
            let taken = written(h, seg, slot, frame_id, timestamp_us, data);
            let after = segment_after(h, taken, slot, TripState::Failed(failure));
            &&& slot_state(h, after, slot) == SLOT_FREE
            &&& crate::shm::busy_count(h, after, h.slot_count as nat) == crate::shm::busy_count(
                h,
                seg,
                h.slot_count as nat,
            )
            &&& !all_busy(h, after)
        }),
{
    let taken = written(h, seg, slot, frame_id, timestamp_us, data);
    let after = segment_after(h, taken, slot, TripState::Failed(failure));
    crate::shm::law_write_then_read(h, seg, slot, frame_id, timestamp_us, data);
    crate::shm::law_write_occupies_one_slot(h, seg, slot, frame_id, timestamp_us, data);
    lemma_slot_bounds(h, slot);
    assert(crate::shm::slot_header(h, taken, slot).state == slot_state(h, taken, slot));
    crate::shm::law_release_returns_one_slot(h, taken, slot);
    crate::shm::law_release_frees_one_slot(h, taken, slot);
}

/// Whether a scene is one of a roundtrip over this ring.
pub open spec fn is_scene(h: ShmHeader, scene: Scene) -> bool {
    &&& sound(h)
    &&& scene.segment.len() == segment_size(h)
    &&& scene.trip.meta.slot_index < h.slot_count
    &&& scene.frame.len() <= payload_len(h)
}

/// A success that the worker acknowledges of the very frame that is waited for
/// is delivered, however long the worker took and whatever slot it names: the
/// roundtrip ends with the worker's time, the frame holds byte for byte what
/// the worker left in the frame's slot, and nothing else changes.
pub proof fn law_success_is_delivered(
    h: ShmHeader,
    scene: Scene,
    ack: FrameMetadata,
    action: RelayAction,
    after: Scene,
)
    requires
        is_scene(h, scene),
        scene.trip.phase == RelayPhase::Waiting,
        steps_to(h, scene, TripEvent::Acked(scene.trip.meta.frame_id, Ok(ack)), action, after),
    ensures
        action == RelayAction::Finish(Ok(ack.timestamp_us)),
        after.trip.phase == RelayPhase::Done,
        after.frame.len() == scene.frame.len(),
        forall|k: int|
            0 <= k < scene.frame.len() ==> #[trigger] after.frame[k] == scene.segment[32
                + scene.trip.meta.slot_index * (h.width * h.height * h.channels + 24) + 24 + k],
        after.segment == scene.segment,
        after.registry == scene.registry,
{
    let slot = scene.trip.meta.slot_index as int;
    lemma_slot_bounds(h, slot);
    assert forall|k: int| 0 <= k < scene.frame.len() implies #[trigger] after.frame[k]
        == scene.segment[32 + scene.trip.meta.slot_index * (h.width * h.height * h.channels + 24)
        + 24 + k] by {
        assert(slot * h.slot_size == scene.trip.meta.slot_index * (h.width * h.height * h.channels
            + 24));
        assert(pixels(h, scene.segment, slot)[k] == after.frame[k]);
    }
}

/// A roundtrip ends without the worker's pixels for three reasons only: the
/// announcement did not go out, the worker reported that this frame failed, or
/// the wait ended. Then it ends with that very failure, the frame is the
/// original one, and the frame's slot, and no other byte, has been freed.
pub proof fn law_only_these_failures_fail(
    h: ShmHeader,
    scene: Scene,
    event: TripEvent,
    action: RelayAction,
    after: Scene,
)
    requires
        is_scene(h, scene),
        scene.trip.phase != RelayPhase::Done,
        steps_to(h, scene, event, action, after),
    ensures
        action matches RelayAction::Finish(Err(error)) ==> {
            ||| scene.trip.phase == RelayPhase::Announcing && event == TripEvent::Announced(
                Err(error@),
            )
            ||| scene.trip.phase == RelayPhase::Waiting && event == TripEvent::Acked(
                scene.trip.meta.frame_id,
                Err(error@),
            )
            ||| scene.trip.phase == RelayPhase::Waiting && event == TripEvent::Missed(error@)
        },
        ({
            ||| scene.trip.phase == RelayPhase::Announcing && event is Announced
                && event->Announced_0 is Err
            ||| scene.trip.phase == RelayPhase::Waiting && event is Acked && event->Acked_0
                == scene.trip.meta.frame_id && event->Acked_1 is Err
            ||| scene.trip.phase == RelayPhase::Waiting && event is Missed
        }) ==> {
            &&& action matches RelayAction::Finish(Err(_))
            &&& after.trip.phase == RelayPhase::Done
            &&& after.frame == scene.frame
            &&& after.segment.len() == scene.segment.len()
            &&& after.segment[32 + scene.trip.meta.slot_index * (h.width * h.height * h.channels
                + 24)] == 0
            &&& forall|k: int|
                0 <= k < scene.segment.len() && k != 32 + scene.trip.meta.slot_index * (h.width
                    * h.height * h.channels + 24) ==> #[trigger] after.segment[k]
                    == scene.segment[k]
            &&& after.registry == scene.registry
        },
{
    let slot = scene.trip.meta.slot_index as int;
    lemma_slot_bounds(h, slot);
    assert(slot * h.slot_size == scene.trip.meta.slot_index * (h.width * h.height * h.channels
        + 24));
}

/// Until it ends, a roundtrip goes on: once announced it waits, acknowledgements
/// of other frames are counted and waited through, and whatever else comes
/// changes nothing at all.
pub proof fn law_roundtrip_goes_on(
    h: ShmHeader,
    scene: Scene,
    event: TripEvent,
    action: RelayAction,
    after: Scene,
)
    requires
        scene.trip.phase != RelayPhase::Done,
        steps_to(h, scene, event, action, after),
        !(action is Finish),
    ensures
        after.trip.meta == scene.trip.meta,
        after.frame == scene.frame,
        after.segment == scene.segment,
        scene.trip.phase == RelayPhase::Announcing ==> after.registry == scene.registry && if event
            is Announced {
            action == RelayAction::AwaitAck && after.trip.phase == RelayPhase::Waiting
        } else {
            action == RelayAction::Announce(scene.trip.meta) && after.trip.phase
                == RelayPhase::Announcing
        },
        scene.trip.phase == RelayPhase::Waiting ==> {
            &&& action == RelayAction::AwaitAck
            &&& after.trip.phase == RelayPhase::Waiting
            &&& after.registry == Registry {
                stale_acks: after.registry.stale_acks,
                ..scene.registry
            }
            &&& after.registry.stale_acks.value == wrapping_sum(
                scene.registry.stale_acks.value,
                if event is Acked {
                    1
                } else {
                    0
                },
            )
        },
{
}

/// However many acknowledgements of other frames come first, the worker's
/// success for this frame delivers it.
pub proof fn law_acknowledged_frame_is_delivered(
    h: ShmHeader,
    meta: FrameMetadata,
    original: Seq<u8>,
    announced: Seq<u8>,
    stale: Seq<TripStep>,
    ack: FrameMetadata,
    segment: Seq<u8>,
)
    requires
        forall|i: int| 0 <= i < stale.len() ==> is_stale(meta.frame_id, #[trigger] stale[i].event),
    ensures
        ({
            let first = TripStep { event: TripEvent::Announced(Ok(())), segment: announced };
            let last = TripStep { event: TripEvent::Acked(meta.frame_id, Ok(ack)), segment };
            trip_run(h, meta, TripState::Announcing, original, seq![first] + stale + seq![last])
                == (
                TripState::Delivered(ack.timestamp_us),
                pixels(h, segment, meta.slot_index as int).take(original.len() as int),
            )
        }),
{
    let first = TripStep { event: TripEvent::Announced(Ok(())), segment: announced };
    let last = TripStep { event: TripEvent::Acked(meta.frame_id, Ok(ack)), segment };
    let steps = seq![first] + stale + seq![last];
    assert(steps[0] == first);
    assert(steps.skip(1) =~= stale + seq![last]);
    lemma_delivered_behind_stale(h, meta, original, stale, last);
}

proof fn lemma_delivered_behind_stale(
    h: ShmHeader,
    meta: FrameMetadata,
    original: Seq<u8>,
    stale: Seq<TripStep>,
    last: TripStep,
)
    requires
        forall|i: int| 0 <= i < stale.len() ==> is_stale(meta.frame_id, #[trigger] stale[i].event),
        last.event matches TripEvent::Acked(id, Ok(_)) && id == meta.frame_id,
    ensures
        trip_run(h, meta, TripState::Waiting, original, stale + seq![last]) == (
            TripState::Delivered(last.event->Acked_1->Ok_0.timestamp_us),
            pixels(h, last.segment, meta.slot_index as int).take(original.len() as int),
        ),
    decreases stale.len(),
{
    let steps = stale + seq![last];
    if stale.len() == 0 {
        assert(steps[0] == last);
        reveal_with_fuel(trip_run, 2);
    } else {
        let rest = stale.skip(1);
        assert(steps[0] == stale[0]);
        assert(is_stale(meta.frame_id, stale[0].event));
        assert(steps.skip(1) =~= rest + seq![last]);
        assert forall|i: int| 0 <= i < rest.len() implies is_stale(
            meta.frame_id,
            #[trigger] rest[i].event,
        ) by {
            assert(rest[i] == stale[i + 1]);
        }
        lemma_delivered_behind_stale(h, meta, original, rest, last);
    }
}

/// What a worker reports of a frame decides the roundtrip, over whichever
/// transport the report came: a success delivers the frame with the reported
/// time, a failure fails it, and a report of another frame does neither.
pub proof fn law_reports_decide_the_roundtrip(packet: FrameProcessedPacket, frame_id: u64)
    ensures
        crate::uds::wait_outcome(Incoming::RemoteAck(packet)) == WaitOutcome::Acked(
            packet.frame_id,
            crate::uds::ack_outcome(packet),
        ),
        crate::uds::wait_outcome(Incoming::Datagram { control: None, ack: Ok(packet) })
            == WaitOutcome::Acked(packet.frame_id, crate::uds::ack_outcome(packet)),
        ({
            let after = trip_next(
                frame_id,
                TripState::Waiting,
                TripEvent::Acked(packet.frame_id, crate::uds::ack_outcome(packet)),
            );
            if packet.frame_id != frame_id {
                after is Waiting
            } else if packet.success {
                after == TripState::Delivered(packet.processing_time_us)
            } else {
                after is Failed
            }
        }),
{
}

/// Whether a frame goes downstream from a relay.
pub open spec fn sends_out(before: Relay, frame: RawFrame, after: Relay, out: OutgoingFrame) -> bool {
    &&& out.data@ == frame.data@
    &&& out.pts == frame.pts
    &&& out.duration == frame.duration
    &&& out.apply_caps == (!before.caps_applied && frame.has_caps)
    &&& after == (Relay { caps_applied: before.caps_applied || frame.has_caps, ..before })
}

/// Over any series of frames the format is announced once, with the first
/// frame that says what it is, and every frame keeps its bytes, its timestamp
/// and its duration.
pub proof fn law_format_is_announced_once(
    relays: Seq<Relay>,
    frames: Seq<RawFrame>,
    out: Seq<OutgoingFrame>,
    i: int,
)
    requires
        relays.len() == frames.len() + 1,
        out.len() == frames.len(),
        !relays[0].caps_applied,
        forall|k: int|
            #![trigger frames[k]]
            0 <= k < frames.len() ==> sends_out(relays[k], frames[k], relays[k + 1], out[k]),
        0 <= i < frames.len(),
    ensures
        out[i].apply_caps <==> frames[i].has_caps && forall|j: int|
            0 <= j < i ==> !(#[trigger] frames[j]).has_caps,
        out[i].data@ == frames[i].data@,
        out[i].pts == frames[i].pts,
        out[i].duration == frames[i].duration,
{
    assert(sends_out(relays[i], frames[i], relays[i + 1], out[i]));
    lemma_caps_applied(relays, frames, out, i);
}

proof fn lemma_caps_applied(
    relays: Seq<Relay>,
    frames: Seq<RawFrame>,
    out: Seq<OutgoingFrame>,
    i: int,
)
    requires
        relays.len() == frames.len() + 1,
        out.len() == frames.len(),
        !relays[0].caps_applied,
        forall|k: int|
            #![trigger frames[k]]
            0 <= k < frames.len() ==> sends_out(relays[k], frames[k], relays[k + 1], out[k]),
        0 <= i <= frames.len(),
    ensures
        !relays[i].caps_applied <==> forall|j: int| 0 <= j < i ==> !(#[trigger] frames[j]).has_caps,
    decreases i,
{
    if i > 0 {
        lemma_caps_applied(relays, frames, out, i - 1);
        assert(sends_out(relays[i - 1], frames[i - 1], relays[i], out[i - 1]));
    }
}

/// A delivered frame is booked with its own latencies and the time it came; a
/// frame that failed is not. The streak on display is the bridge's.
pub proof fn law_latencies_are_those_of_the_delivered(p: Passage)
    requires
        passes(p),
    ensures
        p.registry_after.failure_streak.value == p.bridge_after.failure_streak,
        p.delivered ==> {
            let (before, after) = (p.registry, p.registry_after);
            &&& after.roundtrip_seconds.count == wrapping_sum(before.roundtrip_seconds.count, 1)
            &&& after.roundtrip_seconds.sum_us == wrapping_sum(
                before.roundtrip_seconds.sum_us,
                seconds_to_micros(p.roundtrip_seconds),
            )
            &&& after.worker_processing_seconds.count == wrapping_sum(
                before.worker_processing_seconds.count,
                1,
            )
            &&& after.worker_processing_seconds.sum_us == wrapping_sum(
                before.worker_processing_seconds.sum_us,
                seconds_to_micros(p.processing_seconds),
            )
            &&& after.last_ai_frame_timestamp.bits == p.now_seconds
        },
        !p.delivered ==> {
            &&& p.registry_after.roundtrip_seconds == p.registry.roundtrip_seconds
            &&& p.registry_after.worker_processing_seconds == p.registry.worker_processing_seconds
            &&& p.registry_after.last_ai_frame_timestamp == p.registry.last_ai_frame_timestamp
        },
{
}

/// A frame that fits gets a slot exactly if one is free, and then it is there
/// for the worker: the slot was free and is marked ready, and holds the frame's
/// number, its timestamp and its bytes, as the roundtrip says they are. A frame
/// without a slot leaves the memory alone, and counts as a full ring only if it
/// would have fit.
pub proof fn law_started_frame_is_ready(
    h: ShmHeader,
    seg: Seq<u8>,
    registry: Registry,
    frame_id: u64,
    data: Seq<u8>,
    timestamp_us: u64,
    r: Result<Roundtrip, IpcError>,
    seg_after: Seq<u8>,
    registry_after: Registry,
)
    requires
        sound(h),
        seg.len() == segment_size(h),
        starts(
            h,
            seg,
            registry,
            frame_id,
            data,
            timestamp_us,
            r,
            seg_after,
            registry_after,
        ),
    ensures
        r is Ok <==> data.len() <= h.width * h.height * h.channels && exists|i: int|
            0 <= i < h.slot_count && #[trigger] slot_state(h, seg, i) == 0,
        r matches Ok(trip) ==> {
            let slot = trip.meta.slot_index as int;
            &&& trip.phase == RelayPhase::Announcing
            &&& trip.meta.frame_id == frame_id
            &&& trip.meta.timestamp_us == timestamp_us
            &&& slot < h.slot_count
            &&& slot_state(h, seg, slot) == 0
            &&& forall|j: int| 0 <= j < slot ==> slot_state(h, seg, j) != 0
            &&& crate::shm::slot_header(h, seg_after, slot) == SlotHeader {
                state: 1,
                frame_id,
                timestamp_us,
            }
            &&& pixels(h, seg_after, slot).take(data.len() as int) == data
            &&& forall|j: int|
                0 <= j < h.slot_count && j != slot ==> #[trigger] crate::shm::slot_bytes(
                    h,
                    seg_after,
                    j,
                ) == crate::shm::slot_bytes(h, seg, j)
            &&& registry_after == registry
        },
        r is Err ==> {
            &&& seg_after == seg
            &&& registry_after == Registry { shm_full: registry_after.shm_full, ..registry }
            &&& registry_after.shm_full.value == wrapping_sum(
                registry.shm_full.value,
                if data.len() <= h.width * h.height * h.channels {
                    1
                } else {
                    0
                },
            )
        },
{
    match r {
        Ok(trip) => {
            let slot = trip.meta.slot_index as int;
            crate::shm::law_write_then_read(h, seg, slot, frame_id, timestamp_us, data);
            assert(slot_state(h, seg, slot) == 0);
        },
        Err(_) => {},
    }
}

/// The budget of a roundtrip is one and a half frame periods, right to the
/// nanosecond; without a frame rate it is a second and a half.
pub proof fn law_budget_is_one_and_a_half_periods(fps: u32)
    ensures
        fps > 0 ==> -2 * fps < roundtrip_budget(fps) * (2 * fps) - 3_000_000_000 < 2 * fps,
        roundtrip_budget(0) == roundtrip_budget(1),
{
    if fps > 0 {
        law_quotients_are_right_to_the_nanosecond(3, 2 * (fps as nat));
    }
}

/// A tapped frame is counted exactly if the relay did not take it.
pub proof fn law_untaken_frames_are_counted(r: Registry, taken: bool)
    ensures
        ({
            let after = after_tap(r, taken);
            &&& after.relay_channel_drops.value == wrapping_sum(
                r.relay_channel_drops.value,
                if taken {
                    0
                } else {
                    1
                },
            )
            &&& after == (Registry { relay_channel_drops: after.relay_channel_drops, ..r })
        }),
{
}

/// The roundtrip hears what happened: an announcement that worked or failed, an
/// acknowledgement with its frame and its result, and a missed frame with its
/// cause, and takes none for another.
pub proof fn law_events_are_heard_as_they_happened(event: RelayEvent)
    ensures
        event is Announced <==> event_of(event) is Announced,
        event is Acked <==> event_of(event) is Acked,
        event is Missed <==> event_of(event) is Missed,
        event matches RelayEvent::Announced(r) ==> (r is Ok <==> event_of(event)->Announced_0 is Ok),
        event matches RelayEvent::Announced(Err(e)) ==> event_of(event)->Announced_0->Err_0 == e@,
        event matches RelayEvent::Acked(ack) ==> event_of(event)->Acked_0 == ack.frame_id && (
        ack.result is Ok <==> event_of(event)->Acked_1 is Ok),
        event matches RelayEvent::Acked(ack) ==> match ack.result {
            Ok(meta) => event_of(event)->Acked_1->Ok_0 == meta,
            Err(e) => event_of(event)->Acked_1->Err_0 == e@,
        },
        event matches RelayEvent::Missed(e) ==> event_of(event)->Missed_0 == e@,
{
}

/// Frames are numbered one after the other, and start over once the numbers run
/// out.
pub proof fn law_frames_are_numbered_in_turn(frame_id: u64)
    ensures
        frame_id < u64::MAX ==> next_number(frame_id) == frame_id + 1,
        next_number(u64::MAX) == 0,
{
}

} // verus!
