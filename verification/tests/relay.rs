use braidpipe::metrics::Registry;
use braidpipe::ports::{FrameMetadata, IpcError};
use braidpipe::relay::{
    record_tapped, settle, RawFrame, Relay, RelayAction, RelayEvent, RelayPhase, Roundtrip,
};
use braidpipe::shm::{ShmRingBuffer, SLOT_FREE, SLOT_READY_FOR_AI};
use braidpipe::uds::{Ack, FrameProcessedPacket, UdsControlBridge};
use std::time::Duration;

fn fresh() -> (ShmRingBuffer, Vec<u8>, Registry) {
    let ring = ShmRingBuffer::create(4, 2, 3, 2);
    let mut segment = vec![0u8; ring.total_size()];
    ring.format(&mut segment);
    (ring, segment, Registry::new())
}

fn ack(frame_id: u64) -> RelayEvent {
    acked(frame_id, true)
}

fn acked(frame_id: u64, success: bool) -> RelayEvent {
    RelayEvent::Acked(Ack::of(FrameProcessedPacket {
        frame_id,
        slot_index: 0,
        processing_time_us: 4210,
        success,
    }))
}

#[test]
fn a_delivered_frame_carries_the_workers_pixels() {
    let (ring, mut segment, mut registry) = fresh();
    let mut data = vec![1u8; 24];
    let mut trip =
        Roundtrip::start(&ring, &mut segment, 7, &data, 55, &mut registry).unwrap();
    assert!(matches!(
        trip.begin(),
        RelayAction::Announce(FrameMetadata { frame_id: 7, slot_index: 0, timestamp_us: 55 })
    ));
    let next = trip.step(
        &ring,
        &mut segment,
        &mut data,
        &mut registry,
        RelayEvent::Announced(Ok(())),
    );
    assert!(matches!(next, RelayAction::AwaitAck));
    // Two late acknowledgements of earlier frames change nothing.
    for stale in [3, 4] {
        let next = trip.step(&ring, &mut segment, &mut data, &mut registry, ack(stale));
        assert!(matches!(next, RelayAction::AwaitAck));
        assert_eq!(data, vec![1u8; 24]);
    }
    assert_eq!(registry.stale_acks.get(), 2);
    // Neither does a late report of a failure.
    let next = trip.step(&ring, &mut segment, &mut data, &mut registry, acked(4, false));
    assert!(matches!(next, RelayAction::AwaitAck));
    assert_eq!(trip.phase, RelayPhase::Waiting);
    assert_eq!(registry.stale_acks.get(), 3);
    assert_eq!(ring.slot_header(&segment, 0).unwrap().state, SLOT_READY_FOR_AI);
    ring.store_processed(&mut segment, 0, &[8u8; 24]).unwrap();
    let next = trip.step(&ring, &mut segment, &mut data, &mut registry, ack(7));
    assert!(matches!(next, RelayAction::Finish(Ok(4210))));
    assert_eq!(data, vec![8u8; 24]);
    assert_eq!(trip.phase, RelayPhase::Done);
    assert_eq!(registry.stale_acks.get(), 3);
}

#[test]
fn every_failure_passes_the_original_through_and_returns_the_slot() {
    let failures = [
        RelayEvent::Announced(Err(IpcError::SocketError("no worker".to_string()))),
        RelayEvent::Missed(IpcError::DeadlineMissed),
        acked(7, false),
    ];
    for failure in failures {
        let (ring, mut segment, mut registry) = fresh();
        let mut data = vec![1u8; 24];
        let mut trip =
            Roundtrip::start(&ring, &mut segment, 7, &data, 0, &mut registry).unwrap();
        assert_eq!(ring.slot_header(&segment, 0).unwrap().state, SLOT_READY_FOR_AI);
        if !matches!(failure, RelayEvent::Announced(_)) {
            trip.step(
                &ring,
                &mut segment,
                &mut data,
                &mut registry,
                RelayEvent::Announced(Ok(())),
            );
        }
        let next = trip.step(&ring, &mut segment, &mut data, &mut registry, failure);
        assert!(matches!(next, RelayAction::Finish(Err(_))));
        assert_eq!(data, vec![1u8; 24]);
        assert_eq!(ring.slot_header(&segment, 0).unwrap().state, SLOT_FREE);
        assert_eq!(ring.occupied_slots(&segment), (0, 2));
    }
}

#[test]
fn a_full_ring_drops_the_frame_and_counts_it() {
    let (ring, mut segment, mut registry) = fresh();
    for id in 1..3 {
        Roundtrip::start(&ring, &mut segment, id, &[0; 24], 0, &mut registry).unwrap();
    }
    assert!(matches!(
        Roundtrip::start(&ring, &mut segment, 3, &[0; 24], 0, &mut registry),
        Err(IpcError::BufferFull)
    ));
    assert_eq!(registry.shm_full.get(), 1);
}

#[test]
fn an_oversized_frame_is_refused_but_not_counted_as_a_full_ring() {
    let (ring, mut segment, mut registry) = fresh();
    let before = segment.clone();
    assert!(matches!(
        Roundtrip::start(&ring, &mut segment, 1, &[0; 25], 0, &mut registry),
        Err(IpcError::ShmError(_))
    ));
    assert_eq!(segment, before);
    assert_eq!(registry.shm_full.get(), 0);
}

#[test]
fn the_budget_is_one_and_a_half_frame_periods() {
    assert_eq!(Relay::new(30).deadline_ns, 50_000_000);
    for fps in [0u32, 1, 7, 23, 24, 25, 29, 30, 48, 50, 59, 60, 90, 120, 144, 999, 4_294_967_295] {
        let expected = Duration::from_secs_f64(1.5 / f64::from(fps.max(1)));
        assert_eq!(u128::from(Relay::new(fps).deadline_ns), expected.as_nanos());
    }
}

#[test]
fn frames_keep_their_timestamps_and_caps_are_announced_once() {
    let mut relay = Relay::new(30);
    assert_eq!(relay.next_frame(), 1);
    assert_eq!(relay.next_frame(), 2);
    let frame = |has_caps: bool| RawFrame {
        data: vec![1, 2, 3],
        pts: Some(40),
        duration: Some(33),
        has_caps,
    };
    let out = relay.outgoing(frame(false));
    assert!(!out.apply_caps);
    let out = relay.outgoing(frame(true));
    assert!(out.apply_caps);
    assert_eq!((out.data, out.pts, out.duration), (vec![1, 2, 3], Some(40), Some(33)));
    assert!(!relay.outgoing(frame(true)).apply_caps);
}

#[test]
fn outcomes_are_booked() {
    let mut bridge = UdsControlBridge::bind(&ShmRingBuffer::create(4, 2, 3, 2).header());
    let mut registry = Registry::new();
    settle(&mut bridge, &mut registry, false, 0, 0, 0);
    assert_eq!(bridge.failure_streak, 31);
    assert_eq!(registry.failure_streak.get(), 31);
    assert_eq!(registry.frames_passthrough.get(), 1);
    settle(
        &mut bridge,
        &mut registry,
        true,
        0.02f64.to_bits(),
        0.004f64.to_bits(),
        1769506390.5f64.to_bits(),
    );
    assert_eq!(bridge.failure_streak, 0);
    assert_eq!(registry.frames_ai.get(), 1);
    assert_eq!(registry.frames_passthrough.get(), 1);
    assert_eq!(registry.roundtrip_seconds.count, 1);
    assert_eq!(registry.roundtrip_seconds.sum_us, 20_000);
    assert_eq!(registry.worker_processing_seconds.sum_us, 4_000);
    assert_eq!(f64::from_bits(registry.last_ai_frame_timestamp.get()), 1769506390.5);
    record_tapped(&mut registry, true);
    assert_eq!(registry.relay_channel_drops.get(), 0);
    record_tapped(&mut registry, false);
    assert_eq!(registry.relay_channel_drops.get(), 1);
}

#[test]
fn frames_are_numbered_from_one_and_each_is_counted_once() {
    let mut relay = Relay::new(30);
    let mut registry = Registry::new();
    let ring = ShmRingBuffer::create(4, 2, 3, 2);
    let mut bridge = UdsControlBridge::bind(&ring.header());
    let outcomes = [false, true, true, false, true, false, false];
    for (i, delivered) in outcomes.into_iter().enumerate() {
        assert_eq!(relay.next_frame(), i as u64 + 1);
        settle(
            &mut bridge,
            &mut registry,
            delivered,
            0.02f64.to_bits(),
            0.01f64.to_bits(),
            1.0f64.to_bits(),
        );
        let counted = registry.frames_ai.get() + registry.frames_passthrough.get();
        assert_eq!(counted, i as u64 + 1);
    }
    assert_eq!(registry.frames_ai.get(), 3);
    assert_eq!(registry.frames_passthrough.get(), 4);
    assert_eq!(bridge.failure_streak, 2);
}
