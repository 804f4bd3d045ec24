use braidpipe::metrics::{
    render, Counter, FloatTexts, Gauge, GaugeF, Histogram, Registry, SecondsCounter,
    BUCKET_LABELS, LATENCY_BUCKETS,
};

fn micros(us: u64) -> String {
    format!("{}", us as f64 / 1e6)
}

fn floats(r: &Registry) -> FloatTexts {
    FloatTexts {
        roundtrip_sum: micros(r.roundtrip_seconds.sum_us),
        worker_processing_sum: micros(r.worker_processing_seconds.sum_us),
        relay_deadline: format!("{}", f64::from_bits(r.relay_deadline_seconds.get())),
        last_ai_frame: format!("{}", f64::from_bits(r.last_ai_frame_timestamp.get())),
        branch_seconds_ai: micros(r.branch_seconds_ai.micros()),
        branch_seconds_passthrough: micros(r.branch_seconds_passthrough.micros()),
        worker_cpu: format!("{}", f64::from_bits(r.worker_cpu_seconds.get())),
        input_interval_sum: micros(r.input_interval_seconds.sum_us),
        input_fps: format!("{}", f64::from_bits(r.input_fps.get())),
        av_skew: match r.av_skew_micros() {
            Some(us) => format!("{}", us as f64 / 1e6),
            None => String::new(),
        },
    }
}

#[test]
fn histogram_buckets_are_cumulative() {
    let mut h = Histogram::new();
    h.observe_seconds(0.0007f64.to_bits()); // > 0.0005, <= 0.001
    h.observe_seconds(0.012f64.to_bits());
    h.observe_seconds(9.0f64.to_bits()); // beyond every bound: +Inf only
    let mut out = String::new();
    h.render(&mut out, "test_seconds", &micros(h.sum_us));
    assert!(out.contains("test_seconds_bucket{le=\"0.0005\"} 0"));
    assert!(out.contains("test_seconds_bucket{le=\"0.001\"} 1"));
    assert!(out.contains("test_seconds_bucket{le=\"0.015\"} 2"));
    assert!(out.contains("test_seconds_bucket{le=\"+Inf\"} 3"));
    assert!(out.contains("test_seconds_count 3"));
    assert!(out.contains("test_seconds_sum 9.0127\n"));
}

#[test]
fn render_produces_labeled_families_and_conditional_skew() {
    let mut registry = Registry::new();
    registry.frames_ai.inc();
    let mut out = String::new();
    render(&registry, &floats(&registry), &mut out);
    assert!(out.contains("braidpipe_frames_total{outcome=\"ai\"}"));
    assert!(out.contains("# TYPE braidpipe_roundtrip_seconds histogram"));
    // both PTS sides unset: skew must be absent, not zero
    assert!(!out.contains("braidpipe_av_skew_seconds"));

    registry.last_video_pts_us = 2_000_000;
    registry.last_audio_pts_us = 1_900_000;
    let mut out = String::new();
    render(&registry, &floats(&registry), &mut out);
    assert!(out.contains("braidpipe_av_skew_seconds 0.1"));
}

#[test]
fn seconds_counter_accumulates_fractions() {
    let mut c = SecondsCounter::new();
    for _ in 0..30 {
        c.add_seconds((1.0f64 / 30.0).to_bits());
    }
    assert!((c.micros() as f64 / 1e6 - 1.0).abs() < 0.001);
}

#[test]
fn bounds_are_the_labels() {
    for i in 0..13 {
        assert_eq!(f64::from_bits(LATENCY_BUCKETS[i]), BUCKET_LABELS[i].parse::<f64>().unwrap());
    }
}

#[test]
fn observations_match_double_arithmetic() {
    let bounds: Vec<f64> = LATENCY_BUCKETS.iter().map(|b| f64::from_bits(*b)).collect();
    let samples = [
        0.0,
        -0.0,
        -1.0,
        0.0005,
        0.00050000001,
        0.001,
        0.0333333333,
        0.5,
        0.50001,
        1e-320,
        1e300,
        f64::INFINITY,
        f64::NEG_INFINITY,
        f64::NAN,
        123.456789,
    ];
    for s in samples {
        let mut h = Histogram::new();
        h.observe_seconds(s.to_bits());
        for i in 0..13 {
            assert_eq!(h.buckets[i], u64::from(s <= bounds[i]));
        }
        assert_eq!(h.count, 1);
        assert_eq!(h.sum_us, (s * 1e6) as u64);
    }
}

#[test]
fn counters_and_gauges() {
    let mut c = Counter { value: u64::MAX };
    c.inc();
    assert_eq!(c.get(), 0);
    c.add(5);
    assert_eq!(c.get(), 5);
    assert_eq!(Counter::default().get(), 0);
    let mut g = Gauge::new(-3);
    assert_eq!(g.get(), -3);
    g.set(9);
    assert_eq!(g.get(), 9);
    let mut f = GaugeF::default();
    assert_eq!(f64::from_bits(f.get()), 0.0);
    f.set(2.5f64.to_bits());
    assert_eq!(f64::from_bits(f.get()), 2.5);
    assert_eq!(SecondsCounter::default().micros(), 0);
    assert_eq!(Histogram::default().count, 0);
}

#[test]
fn a_histogram_renders_every_line() {
    let mut h = Histogram::new();
    h.observe_seconds(0.03f64.to_bits());
    let mut out = String::from("before\n");
    h.render(&mut out, "x", "0.03");
    assert_eq!(
        out,
        "before\n# TYPE x histogram\n\
         x_bucket{le=\"0.0005\"} 0\nx_bucket{le=\"0.001\"} 0\nx_bucket{le=\"0.002\"} 0\n\
         x_bucket{le=\"0.005\"} 0\nx_bucket{le=\"0.01\"} 0\nx_bucket{le=\"0.015\"} 0\n\
         x_bucket{le=\"0.02\"} 0\nx_bucket{le=\"0.03\"} 1\nx_bucket{le=\"0.04\"} 1\n\
         x_bucket{le=\"0.05\"} 1\nx_bucket{le=\"0.075\"} 1\nx_bucket{le=\"0.15\"} 1\n\
         x_bucket{le=\"0.5\"} 1\nx_bucket{le=\"+Inf\"} 1\nx_sum 0.03\nx_count 1\n"
    );
}

#[test]
fn a_fresh_registry_renders_its_families_in_order() {
    let registry = Registry::new();
    let mut out = String::new();
    render(&registry, &floats(&registry), &mut out);
    assert!(out.starts_with(
        "# HELP braidpipe_up 1 while the daemon is running, 0 once shutdown has begun\n\
         # TYPE braidpipe_up gauge\nbraidpipe_up 0\n\
         # HELP braidpipe_frames_total Frames pushed downstream by the relay, by outcome\n\
         # TYPE braidpipe_frames_total counter\n\
         braidpipe_frames_total{outcome=\"ai\"} 0\n\
         braidpipe_frames_total{outcome=\"passthrough\"} 0\n\
         # TYPE braidpipe_roundtrip_seconds histogram\n"
    ));
    let families = [
        "braidpipe_worker_processing_seconds_count 0\n",
        "braidpipe_relay_deadline_seconds 0\n",
        "braidpipe_last_ai_frame_timestamp_seconds 0\n",
        "braidpipe_stale_acks_total 0\n",
        "braidpipe_relay_channel_drops_total 0\n",
        "braidpipe_shm_full_total 0\n",
        "braidpipe_failure_streak 0\n",
        "braidpipe_worker_healthy 0\n",
        "braidpipe_active_branch 0\n",
        "braidpipe_branch_switches_total{direction=\"to_ai\"} 0\n",
        "braidpipe_branch_switches_total{direction=\"to_passthrough\"} 0\n",
        "braidpipe_branch_seconds_total{branch=\"ai\"} 0\n",
        "braidpipe_branch_seconds_total{branch=\"passthrough\"} 0\n",
        "braidpipe_worker_up 0\n",
        "braidpipe_worker_exits_total 0\n",
        "braidpipe_worker_last_exit_code 0\n",
        "braidpipe_worker_cpu_seconds_total 0\n",
        "braidpipe_worker_resident_memory_bytes 0\n",
        "braidpipe_input_frames_total 0\n",
        "braidpipe_input_interval_seconds_sum 0\n",
        "braidpipe_pts_discontinuities_total 0\n",
        "braidpipe_input_width 0\n",
        "braidpipe_input_height 0\n",
        "braidpipe_input_fps 0\n",
        "braidpipe_output_frames_total 0\n",
        "braidpipe_sink_bytes_total 0\n",
        "braidpipe_sink_buffers_total 0\n",
        "braidpipe_keyframes_total 0\n",
        "braidpipe_queue_drop_events_total{queue=\"q_pass\"} 0\n",
        "braidpipe_queue_drop_events_total{queue=\"q_ai\"} 0\n",
        "braidpipe_bus_messages_total{severity=\"error\"} 0\n",
        "braidpipe_bus_messages_total{severity=\"warning\"} 0\n",
    ];
    let mut at = 0;
    for family in families {
        let found = out[at..].find(family).unwrap();
        at += found;
    }
    assert!(out.ends_with("braidpipe_bus_messages_total{severity=\"warning\"} 0\n"));
}

#[test]
fn exact_seconds_need_no_text() {
    let mut registry = Registry::new();
    registry.roundtrip_seconds.observe_seconds(0.0335f64.to_bits());
    registry.branch_seconds_ai.add_seconds(1.5f64.to_bits());
    registry.branch_seconds_passthrough.add_seconds(2e9f64.to_bits());
    registry.last_video_pts_us = 5;
    registry.last_audio_pts_us = 15;
    let mut texts = floats(&registry);
    texts.roundtrip_sum = String::new();
    texts.branch_seconds_ai = String::new();
    texts.branch_seconds_passthrough = "two billion".to_string();
    texts.av_skew = String::new();
    let mut out = String::new();
    render(&registry, &texts, &mut out);
    assert!(out.contains("braidpipe_roundtrip_seconds_sum 0.0335\n"));
    assert!(out.contains("braidpipe_branch_seconds_total{branch=\"ai\"} 1.5\n"));
    assert!(out.contains("braidpipe_branch_seconds_total{branch=\"passthrough\"} two billion\n"));
    assert!(out.ends_with("braidpipe_av_skew_seconds -0.00001\n"));
}

#[test]
fn negative_gauges_and_skew() {
    let mut registry = Registry::new();
    registry.worker_last_exit_code.set(-1);
    registry.last_video_pts_us = 0;
    assert_eq!(registry.av_skew_micros(), None);
    registry.last_audio_pts_us = 250_000;
    assert_eq!(registry.av_skew_micros(), Some(-250_000));
    let mut out = String::new();
    render(&registry, &floats(&registry), &mut out);
    assert!(out.contains("braidpipe_worker_last_exit_code -1\n"));
    assert!(out.ends_with("braidpipe_av_skew_seconds -0.25\n"));
}

#[test]
fn buckets_count_what_was_observed_under_their_bounds() {
    let seconds = [0.0005, 0.003, 0.0167, 0.02, 0.4, 3.0];
    let mut h = Histogram::new();
    for s in seconds {
        h.observe_seconds(f64::to_bits(s));
    }
    for (i, bound) in LATENCY_BUCKETS.iter().enumerate() {
        let under = seconds.iter().filter(|&&s| s <= f64::from_bits(*bound)).count();
        assert_eq!(h.buckets[i], under as u64);
    }
    assert_eq!(h.count, 6);
    assert_eq!(h.sum_us, 3_440_200);
}
