use braidpipe::metrics::Registry;
use braidpipe::ports::{EngineError, FrameMetadata, IpcError};
use braidpipe::shm::ShmRingBuffer;
use braidpipe::uds::{
    ack_to_metadata, remaining, shm_config_json, socket_path, Announcement, FrameProcessedPacket,
    FrameReadyPacket, Incoming, UdsControlBridge, WaitStep, IPC_CONTRACT_VERSION,
    MAX_FAILURE_STREAK, WORKER_HELLO,
};

fn bridge() -> UdsControlBridge {
    UdsControlBridge::bind(&ShmRingBuffer::create(1280, 720, 3, 4).header())
}

#[test]
fn announcements_are_compact_json() {
    let packet = FrameReadyPacket {
        frame_id: 1081,
        slot_index: 2,
        timestamp_us: 1769506390123456,
    };
    let bytes = packet.to_json().unwrap();
    assert_eq!(
        String::from_utf8(bytes).unwrap(),
        "{\"frame_id\":1081,\"slot_index\":2,\"timestamp_us\":1769506390123456}"
    );
    let extreme = FrameReadyPacket {
        frame_id: u64::MAX,
        slot_index: 255,
        timestamp_us: 0,
    };
    assert_eq!(
        String::from_utf8(extreme.to_json().unwrap()).unwrap(),
        "{\"frame_id\":18446744073709551615,\"slot_index\":255,\"timestamp_us\":0}"
    );
}

#[test]
fn a_local_worker_is_told_which_slot() {
    let meta = FrameMetadata { frame_id: 5, slot_index: 1, timestamp_us: 6 };
    match bridge().notify_frame_ready(&meta) {
        Ok(Announcement::Datagram(bytes)) => {
            assert_eq!(bytes, b"{\"frame_id\":5,\"slot_index\":1,\"timestamp_us\":6}");
        }
        other => panic!("unexpected announcement {other:?}"),
    }
}

#[test]
fn hello_and_config() {
    let hello: serde_json::Value = serde_json::from_str(WORKER_HELLO).unwrap();
    assert_eq!(hello["type"], "hello");
    let header = ShmRingBuffer::create(1280, 720, 3, 4).header();
    let text = shm_config_json(&header);
    assert_eq!(
        text,
        "{\"type\":\"config\",\"transport\":\"shm\",\"contract\":1,\"width\":1280,\
         \"height\":720,\"channels\":3,\"slots\":4,\"format\":\"rgb\"}"
    );
    let value: serde_json::Value = serde_json::from_str(&text).unwrap();
    assert_eq!(value["contract"], IPC_CONTRACT_VERSION);
    assert_eq!(bridge().shm_config, text);
}

#[test]
fn acks_carry_the_processing_time() {
    let ack = FrameProcessedPacket {
        frame_id: 1081,
        slot_index: 2,
        processing_time_us: 4210,
        success: true,
    };
    assert_eq!(
        ack_to_metadata(ack).unwrap(),
        FrameMetadata { frame_id: 1081, slot_index: 2, timestamp_us: 4210 }
    );
    let failed = FrameProcessedPacket { success: false, ..ack };
    assert_eq!(
        ack_to_metadata(failed).unwrap_err().message(),
        "Socket communication error: Worker reported inference failure"
    );
}

#[test]
fn what_arrives_during_the_wait() {
    let bridge = bridge();
    let ack = FrameProcessedPacket {
        frame_id: 1,
        slot_index: 0,
        processing_time_us: 3,
        success: true,
    };
    let hello = Incoming::Datagram {
        control: Some("hello".to_string()),
        ack: Err("missing field".to_string()),
    };
    assert!(matches!(bridge.await_processed_frame(hello), WaitStep::AnswerHello));
    let other = Incoming::Datagram {
        control: Some("ping".to_string()),
        ack: Err("missing field".to_string()),
    };
    assert!(matches!(bridge.await_processed_frame(other), WaitStep::KeepWaiting));
    let good = Incoming::Datagram { control: None, ack: Ok(ack) };
    match bridge.await_processed_frame(good) {
        WaitStep::Acked(ack) => {
            assert_eq!(ack.frame_id, 1);
            assert_eq!(ack.result.unwrap().timestamp_us, 3);
        }
        step => panic!("unexpected step {step:?}"),
    }
    let failed = FrameProcessedPacket { frame_id: 9, success: false, ..ack };
    match bridge.await_processed_frame(Incoming::RemoteAck(failed)) {
        WaitStep::Acked(ack) => {
            assert_eq!(ack.frame_id, 9);
            assert_eq!(
                ack.result.unwrap_err().message(),
                "Socket communication error: Worker reported inference failure"
            );
        }
        step => panic!("unexpected step {step:?}"),
    }
    let bad = Incoming::Datagram { control: None, ack: Err("expected value".to_string()) };
    match bridge.await_processed_frame(bad) {
        WaitStep::Failed(e) => {
            assert_eq!(e.message(), "Socket communication error: Invalid ACK JSON: expected value");
        }
        step => panic!("unexpected step {step:?}"),
    }
    match bridge.await_processed_frame(Incoming::SocketFailed("gone".to_string())) {
        WaitStep::Failed(e) => {
            assert_eq!(e.message(), "Socket communication error: UDS recv error: gone");
        }
        step => panic!("unexpected step {step:?}"),
    }
    assert!(matches!(
        bridge.await_processed_frame(Incoming::TimedOut),
        WaitStep::Failed(IpcError::DeadlineMissed)
    ));
}

#[test]
fn thirty_failures_make_a_worker_unhealthy_and_one_success_heals() {
    let mut bridge = bridge();
    let mut registry = Registry::new();
    // It has to earn its place first.
    assert!(!bridge.is_healthy(true, &mut registry));
    assert_eq!(registry.worker_healthy.get(), 0);
    bridge.record_success(&mut registry);
    assert!(bridge.is_healthy(true, &mut registry));
    assert_eq!(registry.worker_healthy.get(), 1);
    assert!(!bridge.is_healthy(false, &mut registry));
    for i in 1..30 {
        bridge.record_failure(&mut registry);
        assert_eq!(registry.failure_streak.get(), i);
        assert!(bridge.is_healthy(true, &mut registry));
    }
    bridge.record_failure(&mut registry);
    assert_eq!(bridge.failure_streak, MAX_FAILURE_STREAK);
    assert!(!bridge.is_healthy(true, &mut registry));
    bridge.record_failure(&mut registry);
    assert!(!bridge.is_healthy(true, &mut registry));
    bridge.record_success(&mut registry);
    assert_eq!(registry.failure_streak.get(), 0);
    assert!(bridge.is_healthy(true, &mut registry));
}

#[test]
fn a_remote_worker_is_reachable_without_a_socket_file() {
    let mut bridge = bridge();
    let mut registry = Registry::new();
    bridge.record_success(&mut registry);
    assert!(!bridge.is_healthy(false, &mut registry));
    bridge.remote.attach();
    assert!(bridge.is_healthy(false, &mut registry));
}

#[test]
fn what_is_left_of_a_deadline() {
    assert_eq!(remaining(50, 20).unwrap(), 30);
    assert_eq!(remaining(50, 50).unwrap(), 0);
    assert!(matches!(remaining(50, 51), Err(IpcError::DeadlineMissed)));
}

#[test]
fn socket_paths_are_padded_and_bounded() {
    assert_eq!(socket_path(b"/tmp/a", 8).unwrap(), b"/tmp/a\0\0".to_vec());
    assert_eq!(socket_path(b"/tmp/a", 7).unwrap(), b"/tmp/a\0".to_vec());
    assert_eq!(socket_path(b"/tmp/a", 6).unwrap_err(), "socket path too long");
}

#[test]
fn failures_have_their_sentences() {
    assert_eq!(
        IpcError::ShmError("x".to_string()).message(),
        "Shared Memory allocation or access failed: x"
    );
    assert_eq!(
        IpcError::DeadlineMissed.message(),
        "Worker timed out: Python missed the frame deadline"
    );
    assert_eq!(
        IpcError::BufferFull.message(),
        "Ring buffer exhausted: All SHM slots are currently busy"
    );
    assert_eq!(
        EngineError::BuildFailed("x".to_string()).message(),
        "Failed to build pipeline: x"
    );
    assert_eq!(
        EngineError::StateChangeFailed("x".to_string()).message(),
        "Pipeline state change error: x"
    );
    assert_eq!(
        EngineError::SwitchFailed("x".to_string()).message(),
        "Dynamic switch failed: x"
    );
}

#[test]
fn one_success_among_the_last_thirty_keeps_a_worker_healthy() {
    let mut bridge = bridge();
    let mut registry = Registry::new();
    let outcomes: Vec<bool> = (0..100).map(|i| i == 5 || i == 40).collect();
    for n in 1..=outcomes.len() {
        if outcomes[n - 1] {
            bridge.record_success(&mut registry);
        } else {
            bridge.record_failure(&mut registry);
        }
        let recent = outcomes[n.saturating_sub(30)..n].iter().any(|&o| o);
        assert_eq!(bridge.is_healthy(true, &mut registry), recent);
    }
    assert!(!bridge.is_healthy(true, &mut registry));
}
