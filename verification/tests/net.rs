use braidpipe::net::{
    negotiation_reply, on_forwarded, on_header, on_payload, prepare_frame, tcp_config_json,
    NetHello, ReaderStep, RemoteState, SendOutcome, StopReason, WireHeader, DEFAULT_DEADLINE_US,
    FLAG_SUCCESS, WIRE_HEADER_SIZE,
};
use braidpipe::metrics::Registry;
use braidpipe::ports::{FrameMetadata, IpcError, ShmWriter};
use braidpipe::shm::{ShmRingBuffer, SLOT_FREE, SLOT_READY_FOR_AI};
use braidpipe::uds::{
    Announcement, FrameProcessedPacket, Incoming, UdsControlBridge, WaitStep, IPC_CONTRACT_VERSION,
};

fn ring() -> (ShmRingBuffer, Vec<u8>) {
    let ring = ShmRingBuffer::create(4, 2, 3, 2);
    let mut segment = vec![0u8; ring.total_size()];
    ring.format(&mut segment);
    (ring, segment)
}

#[test]
fn wire_header_roundtrips() {
    let header = WireHeader {
        frame_id: 0x0123_4567_89ab_cdef,
        time_us: 42_000_000,
        payload_len: 1280 * 720 * 3,
        slot: 3,
        flags: FLAG_SUCCESS,
    };
    assert_eq!(WireHeader::decode(&header.encode()), header);
}

#[test]
fn wire_header_bytes_are_little_endian() {
    let header = WireHeader {
        frame_id: 0x0123_4567_89ab_cdef,
        time_us: 1,
        payload_len: 0x0a0b_0c0d,
        slot: 3,
        flags: FLAG_SUCCESS,
    };
    let bytes = header.encode();
    assert_eq!(
        bytes,
        [
            0xef, 0xcd, 0xab, 0x89, 0x67, 0x45, 0x23, 0x01, 1, 0, 0, 0, 0, 0, 0, 0, 0x0d, 0x0c,
            0x0b, 0x0a, 3, 1, 0, 0
        ]
    );
    assert_eq!(WireHeader::decode(&bytes).encode(), bytes);
}

/// The remote loop without the sockets: hello, config, a frame out, the
/// inverted result back into the slot, and its acknowledgement.
#[test]
fn remote_worker_roundtrip_through_the_ring() {
    let (ring, mut segment) = ring();
    let mut bridge = UdsControlBridge::bind(&ring.header());
    let mut registry = Registry::new();
    bridge.enable_remote(30);
    assert_eq!(bridge.remote.deadline_us, 50_000);

    let config = tcp_config_json(&ring.header(), 7300);
    let hello = NetHello {
        kind: "hello".to_string(),
        transports: Some(vec!["tcp-raw".to_string()]),
    };
    let reply = negotiation_reply(&Some(hello), &config).unwrap();
    let value: serde_json::Value = serde_json::from_str(&reply).unwrap();
    assert_eq!(value["type"], "config");
    assert_eq!(value["transport"], "tcp-raw");
    assert_eq!(value["contract"], IPC_CONTRACT_VERSION);
    assert_eq!(value["width"], 4);
    assert_eq!(value["height"], 2);
    assert_eq!(value["channels"], 3);
    assert_eq!(value["data_port"], 7300);
    assert_eq!(value["format"], "rgb");

    assert!(!bridge.is_healthy(false, &mut registry));
    let (epoch, replaced) = bridge.remote.attach();
    assert!(!replaced);

    let pixels: Vec<u8> = (0..24).collect();
    let meta = ring.write_frame(&mut segment, 7, &pixels, 99).unwrap();
    assert!(matches!(bridge.notify_frame_ready(&meta), Ok(Announcement::SendFrame)));
    let (header, payload) = prepare_frame(&ring, &segment, &meta).unwrap();
    assert_eq!(header.frame_id, 7);
    assert_eq!(header.time_us, 99);
    assert_eq!(header.payload_len as usize, pixels.len());
    assert_eq!(payload, pixels);

    let inverted: Vec<u8> = payload.iter().map(|b| 255 - *b).collect();
    let reply = WireHeader {
        frame_id: 7,
        time_us: 1234,
        payload_len: inverted.len() as u32,
        slot: header.slot,
        flags: FLAG_SUCCESS,
    };
    let step = on_header(Some(reply.encode()), ring.frame_size());
    assert_eq!(step, ReaderStep::ReadPayload(reply));
    let packet = match on_payload(&ring, &mut segment, reply, Some(&inverted)) {
        ReaderStep::Forward(packet) => packet,
        other => panic!("unexpected step {other:?}"),
    };
    assert_eq!(on_forwarded(true), ReaderStep::ReadHeader);

    let ack = match bridge.await_processed_frame(Incoming::RemoteAck(packet)) {
        WaitStep::Acked(ack) => {
            assert_eq!(ack.frame_id, 7);
            ack.result.unwrap()
        }
        other => panic!("unexpected step {other:?}"),
    };
    assert_eq!(ack.frame_id, 7);
    assert_eq!(ack.slot_index, header.slot);
    assert_eq!(ack.timestamp_us, 1234);

    let mut out = vec![0u8; pixels.len()];
    ring.read_frame(&segment, ack.slot_index, &mut out).unwrap();
    assert_eq!(out[0], 255);
    assert_eq!(out[23], 255 - 23);
    assert_eq!(ring.slot_header(&segment, header.slot).unwrap().state, SLOT_FREE);
    assert!(bridge.remote.detach(epoch));
    assert!(!bridge.remote.attached());
}

#[test]
fn hellos_are_answered_and_nothing_else_is() {
    let config = "CONFIG";
    let hello = |kind: &str, list: Option<Vec<&str>>| {
        Some(NetHello {
            kind: kind.to_string(),
            transports: list.map(|l| l.into_iter().map(|t| t.to_string()).collect()),
        })
    };
    assert_eq!(negotiation_reply(&None, config), None);
    assert_eq!(negotiation_reply(&hello("bye", None), config), None);
    assert_eq!(negotiation_reply(&hello("hello", None), config).as_deref(), Some("CONFIG"));
    assert_eq!(
        negotiation_reply(&hello("hello", Some(vec!["shm", "tcp-raw"])), config).as_deref(),
        Some("CONFIG")
    );
    assert_eq!(
        negotiation_reply(&hello("hello", Some(vec!["shm"])), config).as_deref(),
        Some("{\"type\":\"error\",\"reason\":\"only tcp-raw is available over the network\"}")
    );
    assert!(negotiation_reply(&hello("hello", Some(vec![])), config).unwrap().contains("error"));
}

#[test]
fn deadlines_follow_the_frame_rate() {
    let mut remote = RemoteState::new();
    assert_eq!(remote.deadline_us, DEFAULT_DEADLINE_US);
    for fps in [0u32, 1, 7, 24, 25, 30, 59, 60, 120, 1_000_000, 4_294_967_295] {
        remote.enable(fps);
        let expected = (1.5 / f64::from(fps.max(1)) * 1e6) as u64;
        assert_eq!(remote.deadline_us, expected);
    }
}

#[test]
fn a_late_reader_spares_its_successor() {
    let mut remote = RemoteState::new();
    let (first, _) = remote.attach();
    let (second, replaced) = remote.attach();
    assert!(replaced);
    assert_ne!(first, second);
    assert!(!remote.detach(first));
    assert!(remote.attached());
    assert!(remote.detach(second));
    assert!(!remote.attached());
}

#[test]
fn a_send_that_fails_drops_the_connection() {
    let mut remote = RemoteState::new();
    assert_eq!(
        remote.send_frame().unwrap_err().message(),
        "Socket communication error: no remote worker attached"
    );
    let (epoch, _) = remote.attach();
    assert_eq!(remote.send_frame().unwrap(), epoch);
    assert!(remote.settle_send(SendOutcome::Sent).is_ok());
    assert!(remote.attached());
    let error = remote.settle_send(SendOutcome::Failed("broken pipe".to_string())).unwrap_err();
    assert_eq!(error.message(), "Socket communication error: tcp-raw send failed: broken pipe");
    assert!(!remote.attached());
    remote.attach();
    assert!(matches!(remote.settle_send(SendOutcome::TimedOut), Err(IpcError::DeadlineMissed)));
    assert!(!remote.attached());
}

#[test]
fn readers_stop_for_a_reason() {
    let (ring, mut segment) = ring();
    assert_eq!(on_header(None, 24), ReaderStep::Stop(StopReason::ConnectionClosed));
    let header = WireHeader { frame_id: 1, time_us: 2, payload_len: 23, slot: 0, flags: 1 };
    assert_eq!(
        on_header(Some(header.encode()), 24),
        ReaderStep::Stop(StopReason::ProtocolError)
    );
    assert_eq!(
        on_payload(&ring, &mut segment, header, None),
        ReaderStep::Stop(StopReason::ClosedMidFrame)
    );
    assert_eq!(on_forwarded(false), ReaderStep::Stop(StopReason::BridgeDropped));
    assert_eq!(StopReason::ConnectionClosed.text(), "connection closed");
    assert_eq!(StopReason::ProtocolError.text(), "protocol error");
    assert_eq!(StopReason::ClosedMidFrame.text(), "connection closed mid-frame");
    assert_eq!(StopReason::BridgeDropped.text(), "bridge dropped");
    assert_eq!(WIRE_HEADER_SIZE, 24);
}

#[test]
fn failed_and_misplaced_results() {
    let (ring, mut segment) = ring();
    let meta = ring.write_frame(&mut segment, 5, &[9u8; 24], 1).unwrap();
    // A failed result is passed on and leaves the slot to the roundtrip.
    let failed = WireHeader { frame_id: 5, time_us: 7, payload_len: 24, slot: 0, flags: 2 };
    assert_eq!(
        on_payload(&ring, &mut segment, failed, Some(&[1u8; 24])),
        ReaderStep::Forward(FrameProcessedPacket {
            frame_id: 5,
            slot_index: 0,
            processing_time_us: 7,
            success: false,
        })
    );
    assert_eq!(ring.slot_header(&segment, meta.slot_index).unwrap().state, SLOT_READY_FOR_AI);
    // One for a slot that does not exist is dropped.
    let lost = WireHeader { frame_id: 5, time_us: 7, payload_len: 24, slot: 9, flags: 1 };
    assert_eq!(
        on_payload(&ring, &mut segment, lost, Some(&[1u8; 24])),
        ReaderStep::ReadHeader
    );
    let nowhere = FrameMetadata { frame_id: 1, slot_index: 2, timestamp_us: 0 };
    assert_eq!(
        prepare_frame(&ring, &segment, &nowhere).unwrap_err().message(),
        "Shared Memory allocation or access failed: Slot index (2) out of range (2)"
    );
}
