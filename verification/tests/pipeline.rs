use braidpipe::metrics::Registry;
use braidpipe::pipeline::{
    counts_keyframes, counts_wire_bytes, has_srt_stats, log_codec_element, record_bus_message,
    record_caps, record_encoded, record_output_frame, record_overrun, record_sink_buffer,
    BranchQueue, BusMessage, FrameRate, GStreamerEngine, InputProbe, MuxProbe, MuxStream,
    QueueDepth, SrtField, SrtStats, VIDEO_ENCODER_FACTORIES,
};
use braidpipe::ports::ActiveBranch;

#[test]
fn creates_a_decodebin3_pipeline_for_srt_uris() {
    let pipeline = GStreamerEngine::uri_source_pipeline("srt://127.0.0.1:9000")
        .expect("valid URI should build a source pipeline");

    assert!(pipeline.contains("srtsrc"));
    assert!(pipeline.contains("decodebin3"));
    assert!(pipeline.contains("uri=\"srt://127.0.0.1:9000\""));
}

#[test]
fn creates_a_uri_decoder_pipeline_for_non_srt_uris() {
    let pipeline = GStreamerEngine::uri_source_pipeline("ndi://Studio%20Camera")
        .expect("valid URI should build a source pipeline");

    assert!(pipeline.contains("uridecodebin3"));
}

#[test]
fn rejects_uris_without_a_scheme() {
    assert!(GStreamerEngine::uri_source_pipeline("127.0.0.1:9000").is_err());
}

#[test]
fn source_pipelines_word_for_word() {
    assert_eq!(
        GStreamerEngine::uri_source_pipeline("SRT://h:1").unwrap(),
        "srtsrc uri=\"SRT://h:1\" ! queue ! decodebin3 name=decoder decoder. ! queue ! video/x-raw ! videoconvert ! videoscale"
    );
    assert_eq!(
        GStreamerEngine::uri_source_pipeline("srts://h:1").unwrap(),
        "uridecodebin3 uri=\"srts://h:1\" name=decoder decoder. ! queue ! video/x-raw ! videoconvert ! videoscale"
    );
    for uri in ["", "   ", "no scheme"] {
        assert_eq!(
            GStreamerEngine::uri_source_pipeline(uri).unwrap_err().message(),
            "Failed to build pipeline: Input URI must include a scheme, such as srt://, udp://, rtp://, or ndi://"
        );
    }
    for uri in ["srt://a\"b", "srt://a\\b"] {
        assert_eq!(
            GStreamerEngine::uri_source_pipeline(uri).unwrap_err().message(),
            "Failed to build pipeline: Input URI cannot contain quotes or backslashes"
        );
    }
}

#[test]
fn the_description_splits_selects_and_joins() {
    let engine = GStreamerEngine::new("videotestsrc", "fakesink");
    assert_eq!(
        engine.description,
        "videotestsrc ! tee name=t \
         t. ! queue name=q_pass leaky=downstream max-size-buffers=3 ! sel.sink_0 \
         t. ! queue name=q_ai leaky=downstream max-size-buffers=3 ! videoconvert ! appsink name=ai_sink sync=false max-buffers=1 drop=true \
         appsrc name=ai_src format=time is-live=true max-buffers=4 leaky-type=downstream min-latency=0 max-latency=-1 ! videoconvert ! sel.sink_1 \
         input-selector name=sel sync-streams=false ! fakesink "
    );
    assert_eq!(engine.current_branch(), ActiveBranch::Passthrough);
    assert!(!engine.is_running);
    let engine = GStreamerEngine::new_with_branch("a", "b", Some("decoder. ! mux."));
    assert!(engine.description.starts_with("a ! tee name=t "));
    assert!(engine.description.ends_with(" ! b decoder. ! mux."));
    let engine = GStreamerEngine::new_from_uri("ndi://x", "b", None).unwrap();
    assert!(engine.description.starts_with("uridecodebin3 uri=\"ndi://x\" name=decoder "));
    assert!(GStreamerEngine::new_from_uri("x", "b", None).is_err());
}

#[test]
fn the_engine_switches_starts_and_stops() {
    let mut engine = GStreamerEngine::new("a", "b");
    assert_eq!(engine.set_active_branch(ActiveBranch::AiProcess), "sink_1");
    assert_eq!(engine.current_branch(), ActiveBranch::AiProcess);
    assert_eq!(engine.set_active_branch(ActiveBranch::Passthrough), "sink_0");
    assert!(engine.start(Err("busy".to_string())).is_err());
    assert!(!engine.is_running);
    assert!(engine.start(Ok(())).is_ok());
    assert!(engine.is_running);
    assert_eq!(
        engine.stop(Err("busy".to_string())).unwrap_err().message(),
        "Pipeline state change error: busy"
    );
    assert!(engine.is_running);
    assert!(engine.stop(Ok(())).is_ok());
    assert!(!engine.is_running);
    assert!(GStreamerEngine::check_parts(true, true, true).is_ok());
    assert_eq!(
        GStreamerEngine::check_parts(false, false, true).unwrap_err().message(),
        "Failed to build pipeline: Missing input-selector element"
    );
    assert_eq!(
        GStreamerEngine::check_parts(true, false, false).unwrap_err().message(),
        "Failed to build pipeline: Missing sink_0 pad"
    );
    assert_eq!(
        GStreamerEngine::check_parts(true, true, false).unwrap_err().message(),
        "Failed to build pipeline: Missing sink_1 pad"
    );
}

#[test]
fn the_input_probe_finds_discontinuities() {
    let mut registry = Registry::new();
    let mut probe = InputProbe::new();
    let frame = 40_000_000u64;
    let tick = 0.04f64.to_bits();
    // The first frame has no interval, whatever is said of it.
    probe.frame(&mut registry, tick, Some(0), Some(frame));
    assert_eq!(registry.input_interval_seconds.count, 0);
    probe.frame(&mut registry, tick, Some(frame), Some(frame));
    assert_eq!(registry.input_interval_seconds.count, 1);
    assert_eq!(registry.input_interval_seconds.sum_us, 40_000);
    // Exactly one and three quarter durations is still in order.
    probe.frame(&mut registry, 0.07f64.to_bits(), Some(frame + 70_000_000), Some(frame));
    assert_eq!(registry.pts_discontinuities.get(), 0);
    probe.frame(&mut registry, tick, Some(frame + 140_000_001), Some(frame));
    assert_eq!(registry.pts_discontinuities.get(), 1);
    // Backwards is wrong with or without a duration; a gap needs one.
    probe.frame(&mut registry, tick, Some(5), None);
    assert_eq!(registry.pts_discontinuities.get(), 2);
    probe.frame(&mut registry, tick, Some(u64::MAX), None);
    assert_eq!(registry.pts_discontinuities.get(), 2);
    probe.frame(&mut registry, tick, None, Some(frame));
    assert_eq!(probe.last_pts, Some(u64::MAX));
    assert_eq!(registry.input_frames.get(), 7);
    assert_eq!(registry.input_interval_seconds.count, 6);
}

#[test]
fn caps_are_recorded_as_far_as_they_say() {
    let mut registry = Registry::new();
    let half = FrameRate { denom: 1001, quotient: (30000.0f64 / 1001.0).to_bits() };
    record_caps(&mut registry, Some(1280), None, Some(half));
    assert_eq!(registry.input_width.get(), 1280);
    assert_eq!(registry.input_height.get(), 0);
    assert_eq!(f64::from_bits(registry.input_fps.get()), 30000.0 / 1001.0);
    let broken = FrameRate { denom: 0, quotient: f64::INFINITY.to_bits() };
    record_caps(&mut registry, None, Some(720), Some(broken));
    assert_eq!(registry.input_width.get(), 1280);
    assert_eq!(registry.input_height.get(), 720);
    assert_eq!(f64::from_bits(registry.input_fps.get()), 30000.0 / 1001.0);
}

#[test]
fn probes_count_what_passes_them() {
    let mut registry = Registry::new();
    record_output_frame(&mut registry);
    record_encoded(&mut registry, true);
    record_encoded(&mut registry, false);
    record_sink_buffer(&mut registry, 1316);
    record_overrun(&mut registry, BranchQueue::Passthrough);
    record_overrun(&mut registry, BranchQueue::Ai);
    record_overrun(&mut registry, BranchQueue::Ai);
    assert!(record_bus_message(&mut registry, BusMessage::Error));
    assert!(record_bus_message(&mut registry, BusMessage::Warning));
    assert!(record_bus_message(&mut registry, BusMessage::Other));
    assert!(!record_bus_message(&mut registry, BusMessage::EndOfStream));
    assert_eq!(registry.output_frames.get(), 1);
    assert_eq!(registry.keyframes.get(), 1);
    assert_eq!(registry.sink_bytes.get(), 1316);
    assert_eq!(registry.sink_buffers.get(), 1);
    assert_eq!(registry.queue_overruns_pass.get(), 1);
    assert_eq!(registry.queue_overruns_ai.get(), 2);
    assert_eq!(registry.bus_errors.get(), 1);
    assert_eq!(registry.bus_warnings.get(), 1);
}

#[test]
fn elements_are_told_apart() {
    for factory in VIDEO_ENCODER_FACTORIES {
        assert!(counts_keyframes(factory));
    }
    assert!(!counts_keyframes("avenc_aac"));
    assert!(has_srt_stats("srtsink"));
    assert!(has_srt_stats("srtsrc"));
    assert!(!has_srt_stats("udpsink"));
    assert!(!counts_wire_bytes("ai_sink"));
    assert!(counts_wire_bytes("sink0"));
    assert_eq!(log_codec_element("Codec/Decoder/Video/Hardware"), Some(("decoder", "hardware")));
    assert_eq!(log_codec_element("Codec/Encoder/Video"), Some(("encoder", "software")));
    assert_eq!(log_codec_element("Codec/Encoder/Audio"), None);
    assert_eq!(log_codec_element("Filter/Video"), None);
}

#[test]
fn skew_compares_running_times() {
    let mut registry = Registry::new();
    let mut video = MuxProbe::new();
    let mut audio = MuxProbe::new();
    video.buffer(&mut registry, None, Some(1_000_000));
    assert_eq!(video.stream, MuxStream::Undetermined);
    assert_eq!(registry.last_video_pts_us, -1);
    video.buffer(&mut registry, Some("video/x-h264"), Some(2_000_000_999));
    audio.buffer(&mut registry, Some("audio/mpeg"), Some(1_900_000_000));
    assert_eq!(registry.av_skew_micros(), Some(100_000));
    // Once determined, a pad keeps its stream.
    video.buffer(&mut registry, Some("audio/mpeg"), None);
    assert_eq!(video.stream, MuxStream::Video);
    let mut other = MuxProbe::new();
    other.buffer(&mut registry, Some("text/x-raw"), Some(5));
    assert_eq!(other.stream, MuxStream::Neither);
    assert_eq!(registry.av_skew_micros(), Some(100_000));
}

#[test]
fn runtime_metrics_are_appended() {
    let mut out = String::from("x\n");
    GStreamerEngine::collect_runtime_metrics(&mut out, &vec![], &vec![]);
    assert_eq!(out, "x\n");
    let queues = vec![
        QueueDepth { queue: BranchQueue::Passthrough, buffers: 3 },
        QueueDepth { queue: BranchQueue::Ai, buffers: 0 },
    ];
    let field = |name: &str, value: Option<&str>| SrtField {
        name: name.to_string(),
        value: value.map(|v| v.to_string()),
    };
    let stats = vec![SrtStats {
        element: "srtsink0".to_string(),
        fields: vec![
            field("rtt-ms", Some("1.5")),
            field("callers", None),
            field("packets-sent-lost", Some("7")),
        ],
    }];
    GStreamerEngine::collect_runtime_metrics(&mut out, &queues, &stats);
    assert_eq!(
        out,
        "x\n# HELP braidpipe_queue_depth Buffers currently held per branch queue\n\
         # TYPE braidpipe_queue_depth gauge\n\
         braidpipe_queue_depth{queue=\"q_pass\"} 3\n\
         braidpipe_queue_depth{queue=\"q_ai\"} 0\n\
         braidpipe_srt_rtt_ms{element=\"srtsink0\"} 1.5\n\
         braidpipe_srt_packets_sent_lost{element=\"srtsink0\"} 7\n"
    );
}
