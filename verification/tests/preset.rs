use braidpipe::hwaccel::{hw_encoders, Platform};
use braidpipe::preset::{
    audio_rate_in_range, buffer_in_range, build_audio_branch, build_sink, defaults, parse_bool,
    parse_num, render, resolve, resolve_sink, AudioOverrides, Encoder, GopOverride, Overrides,
    Params, ENCODER_VALUES, PRESET_NAMES,
};

fn no_env(_: &str) -> Option<String> {
    None
}

fn seconds(text: &str) -> Option<u64> {
    text.parse::<f64>().ok().map(|s| s.to_bits())
}

fn only(name: &'static str, value: &'static str) -> Overrides {
    Overrides::from_env(
        move |key: &str| if key == name { Some(value.to_string()) } else { None },
        seconds,
    )
}

fn none() -> Overrides {
    Overrides::from_env(no_env, seconds)
}

#[test]
fn lowlatency_rtmp_matches_measured_tuned_sink() {
    let p = resolve("lowlatency", &none()).unwrap();
    let sink = render(&p, "rtmp://127.0.0.1:1935/live/stream", 30).unwrap();
    assert_eq!(
        sink,
        "videoconvert ! video/x-raw,format=I420 ! \
         x264enc speed-preset=veryfast tune=zerolatency bitrate=4500 key-int-max=60 \
         vbv-buf-capacity=200 ! \
         h264parse config-interval=-1 ! flvmux name=mux streamable=true ! \
         rtmp2sink sync=false location=rtmp://127.0.0.1:1935/live/stream"
    );
}

#[test]
fn bandwidth_preset_drops_zerolatency_and_keeps_sync() {
    let p = resolve("bandwidth", &none()).unwrap();
    let sink = render(&p, "rtmp://example/live", 30).unwrap();
    assert!(!sink.contains("tune=zerolatency"));
    assert!(sink.contains("sync=true"));
    assert!(sink.contains("key-int-max=120"));
    assert!(sink.contains("vbv-buf-capacity=1000"));
}

#[test]
fn env_overrides_win_over_preset_defaults() {
    let env = Overrides::from_env(
        |key: &str| match key {
            "BRAIDPIPE_BITRATE_KBPS" => Some("2500".into()),
            "BRAIDPIPE_SINK_SYNC" => Some("1".into()),
            "BRAIDPIPE_ENCODER" => Some("vtenc".into()),
            "BRAIDPIPE_VBV_BUF_MS" => Some("350".into()),
            _ => None,
        },
        seconds,
    );
    let p = resolve("lowlatency", &env).unwrap();
    assert_eq!(p.bitrate_kbps, 2500);
    assert_eq!(p.vbv_buf_ms, 350);
    assert!(p.sync);
    assert_eq!(p.encoder, Encoder::Vtenc);
    let sink = render(&p, "rtmp://example/live", 30).unwrap();
    assert!(sink.contains("vtenc_h264 realtime=true"));
    assert!(sink.contains("sync=true"));
}

#[test]
fn srt_output_uses_mpegts_and_latency_budget() {
    let p = resolve("zerolatency", &none()).unwrap();
    let sink = render(&p, "srt://127.0.0.1:8888", 30).unwrap();
    assert!(sink.contains("mpegtsmux name=mux alignment=7"));
    assert!(sink.contains("queue max-size-buffers=3 leaky=downstream"));
    assert!(sink.contains(
        "srtsink sync=false wait-for-connection=false latency=50 uri=srt://127.0.0.1:8888"
    ));
}

#[test]
fn srt_wait_for_connection_env_override() {
    let p = resolve("lowlatency", &only("BRAIDPIPE_SRT_WAIT_FOR_CONNECTION", "1")).unwrap();
    assert!(p.srt_wait_for_connection);
    let sink = render(&p, "srt://127.0.0.1:8888", 30).unwrap();
    assert!(sink.contains("wait-for-connection=true"));
}

#[test]
fn udp_output_splits_host_and_port() {
    let p = resolve("lowlatency", &none()).unwrap();
    let sink = render(&p, "udp://239.0.0.1:5000", 30).unwrap();
    assert!(sink.contains("udpsink sync=false host=239.0.0.1 port=5000"));
    assert!(render(&p, "udp://nohost", 30).is_err());
}

#[test]
fn audio_branch_links_decoder_to_mux() {
    let branch = build_audio_branch(None, &AudioOverrides::from_env(no_env)).unwrap();
    assert!(branch.starts_with("decoder. ! "));
    assert!(branch.ends_with(" ! mux."));
    assert!(branch.contains("avenc_aac bitrate=128000"));
}

#[test]
fn audio_branch_tap_override_replaces_the_decoder() {
    let branch = build_audio_branch(
        Some("decklinkaudiosrc device-number=0 ! queue"),
        &AudioOverrides::from_env(no_env),
    )
    .unwrap();
    assert!(branch.starts_with("decklinkaudiosrc device-number=0 ! queue ! audioconvert"));
    assert!(branch.ends_with(" ! mux."));
}

#[test]
fn audio_branch_env_overrides() {
    let env = AudioOverrides::from_env(|key: &str| match key {
        "BRAIDPIPE_AUDIO_ENCODER" => Some("fdkaacenc".into()),
        "BRAIDPIPE_AUDIO_BITRATE_KBPS" => Some("96".into()),
        _ => None,
    });
    let branch = build_audio_branch(None, &env).unwrap();
    assert!(branch.contains("fdkaacenc bitrate=96000"));

    let env = AudioOverrides::from_env(|key: &str| {
        if key == "BRAIDPIPE_AUDIO_BRANCH" {
            Some("decoder. ! fakesink".to_string())
        } else {
            None
        }
    });
    let replaced = build_audio_branch(None, &env).unwrap();
    assert_eq!(replaced, "decoder. ! fakesink");
}

#[test]
fn hardware_encoders_map_the_shared_params() {
    let with_encoder = |name: &'static str| {
        let p = resolve("lowlatency", &only("BRAIDPIPE_ENCODER", name)).unwrap();
        render(&p, "srt://127.0.0.1:8888", 30).unwrap()
    };

    // lowlatency: 4500 kbps, 2s GOP at 30fps = 60, 200ms VBV = 900 kbit.
    let vtenc = with_encoder("vtenc");
    assert!(vtenc.contains(
        "vtenc_h264 realtime=true allow-frame-reordering=false bitrate=4500 \
         max-keyframe-interval=60 rate-control=cbr quality=0.65"
    ));

    let nvenc = with_encoder("nvenc");
    assert!(nvenc.contains(
        "nvh264enc bitrate=4500 gop-size=60 rc-mode=cbr-ld-hq preset=low-latency-hq \
         vbv-buffer-size=900 b-adapt=false bframes=0 zerolatency=true ! \
         video/x-h264,profile=high"
    ));
    assert!(nvenc.contains("video/x-raw,format=NV12"));

    let va = with_encoder("va");
    assert!(va.contains("vah264enc bitrate=4500 key-int-max=60 target-usage=6 cpb-size=900"));

    assert!(with_encoder("vaapi").contains("vaapih264enc bitrate=4500 keyframe-period=60"));
    assert!(with_encoder("qsv").contains("qsvh264enc bitrate=4500 gop-size=60 low-latency=true"));
    assert!(with_encoder("mf").contains("mfh264enc bitrate=4500 gop-size=60 low-latency=true"));
    assert!(with_encoder("amf")
        .contains("amfh264enc bitrate=4500 gop-size=60 usage=ultra-low-latency"));
}

#[test]
fn auto_encoder_keeps_the_preset_default_for_later_detection() {
    let p = resolve("lowlatency", &only("BRAIDPIPE_ENCODER", "auto")).unwrap();
    assert_eq!(p.encoder, Encoder::X264);
}

#[test]
fn cli_encoder_values_match_the_enum() {
    assert_eq!(ENCODER_VALUES[0], "auto");
    assert_eq!(ENCODER_VALUES.len(), Encoder::NAMES.len() + 1);
    for (name, encoder) in Encoder::NAMES {
        assert!(ENCODER_VALUES.contains(&name));
        assert_eq!(Encoder::from_name(name), Some(encoder));
    }
}

#[test]
fn factory_names_round_trip_to_encoders() {
    assert_eq!(Encoder::from_factory("nvh264enc"), Some(Encoder::Nvenc));
    assert_eq!(Encoder::from_factory("vtenc_h264"), Some(Encoder::Vtenc));
    assert_eq!(Encoder::from_factory("vah264enc"), Some(Encoder::Va));
    assert_eq!(Encoder::from_factory("x264enc"), None);
}

#[test]
fn unknown_preset_and_bad_env_are_reported() {
    assert!(resolve("warpspeed", &none())
        .unwrap_err()
        .contains("zerolatency, lowlatency, balanced, bandwidth"));
    assert!(resolve("lowlatency", &only("BRAIDPIPE_ZEROLATENCY", "maybe")).is_err());
}

#[test]
fn every_complaint_has_its_text() {
    assert_eq!(
        resolve("warpspeed", &none()).unwrap_err(),
        "unknown preset 'warpspeed' (expected one of: zerolatency, lowlatency, balanced, bandwidth)"
    );
    assert_eq!(
        resolve("balanced", &only("BRAIDPIPE_ENCODER", "av1")).unwrap_err(),
        "BRAIDPIPE_ENCODER must be one of auto, x264, vtenc, nvenc, va, vaapi, qsv, mf, amf; got 'av1'"
    );
    assert_eq!(
        resolve("balanced", &only("BRAIDPIPE_ZEROLATENCY", "maybe")).unwrap_err(),
        "BRAIDPIPE_ZEROLATENCY must be a boolean (1/0/true/false), got 'maybe'"
    );
    assert_eq!(
        resolve("balanced", &only("BRAIDPIPE_BITRATE_KBPS", "-1")).unwrap_err(),
        "BRAIDPIPE_BITRATE_KBPS: could not parse '-1'"
    );
    assert_eq!(
        resolve("balanced", &only("BRAIDPIPE_GOP_SECONDS", "soon")).unwrap_err(),
        "BRAIDPIPE_GOP_SECONDS: could not parse 'soon'"
    );
    assert_eq!(
        resolve("balanced", &only("BRAIDPIPE_VBV_BUF_MS", "4294967296")).unwrap_err(),
        "BRAIDPIPE_VBV_BUF_MS: could not parse '4294967296'"
    );
    assert_eq!(
        resolve("balanced", &only("BRAIDPIPE_SINK_SYNC", "on")).unwrap_err(),
        "BRAIDPIPE_SINK_SYNC must be a boolean (1/0/true/false), got 'on'"
    );
    assert_eq!(
        resolve("balanced", &only("BRAIDPIPE_SRT_LATENCY_MS", "")).unwrap_err(),
        "BRAIDPIPE_SRT_LATENCY_MS: could not parse ''"
    );
    assert_eq!(
        resolve("balanced", &only("BRAIDPIPE_SRT_WAIT_FOR_CONNECTION", "2")).unwrap_err(),
        "BRAIDPIPE_SRT_WAIT_FOR_CONNECTION must be a boolean (1/0/true/false), got '2'"
    );
    let p = resolve("balanced", &none()).unwrap();
    assert_eq!(
        render(&p, "udp://nohost", 30).unwrap_err(),
        "udp output must be udp://host:port, got 'udp://nohost'"
    );
    assert_eq!(
        render(&p, "http://example", 30).unwrap_err(),
        "unsupported output 'http://example' (expected rtmp://, srt:// or udp://host:port)"
    );
    assert_eq!(
        build_sink("balanced", "rtmp://x", 30, Some("av1"), &none(), None).unwrap_err(),
        "--encoder must be one of auto, x264, vtenc, nvenc, va, vaapi, qsv, mf, amf; got 'av1'"
    );
}

#[test]
fn the_first_bad_override_is_the_one_reported() {
    let env = Overrides::from_env(
        |key: &str| match key {
            "BRAIDPIPE_SINK_SYNC" => Some("bad".into()),
            "BRAIDPIPE_BITRATE_KBPS" => Some("bad".into()),
            _ => None,
        },
        seconds,
    );
    assert!(resolve("balanced", &env).unwrap_err().starts_with("BRAIDPIPE_BITRATE_KBPS"));
}

#[test]
fn udp_edge_cases() {
    let p = resolve("lowlatency", &none()).unwrap();
    assert!(render(&p, "udp://:5000", 30).is_err());
    assert!(render(&p, "udp://host:50a0", 30).is_err());
    // The last colon separates, and the port may be empty.
    assert!(render(&p, "udp://::1:5000", 30).unwrap().ends_with("host=::1 port=5000"));
    assert!(render(&p, "udp://host:", 30).unwrap().ends_with("host=host port="));
}

#[test]
fn presets_stand_without_overrides() {
    for name in PRESET_NAMES {
        let resolved: Params = resolve(name, &none()).unwrap();
        assert_eq!(resolved, defaults(name).unwrap());
    }
    assert!(defaults("warpspeed").is_none());
    let zero = defaults("zerolatency").unwrap();
    assert_eq!(zero.speed_preset, "ultrafast");
    assert_eq!(zero.bitrate_kbps, 6000);
    assert_eq!(f64::from_bits(zero.gop_seconds), 1.0);
    let balanced = defaults("balanced").unwrap();
    assert_eq!(balanced.speed_preset, "medium");
    assert_eq!(balanced.vbv_buf_ms, 500);
    assert_eq!(f64::from_bits(balanced.gop_seconds), 2.0);
    assert_eq!(f64::from_bits(defaults("bandwidth").unwrap().gop_seconds), 4.0);
}

#[test]
fn an_override_turns_one_knob() {
    let base = defaults("lowlatency").unwrap();
    let mut p = resolve("lowlatency", &only("BRAIDPIPE_SRT_LATENCY_MS", "80")).unwrap();
    assert_eq!(p.srt_latency_ms, 80);
    p.srt_latency_ms = base.srt_latency_ms;
    assert_eq!(p, base);

    let mut p = resolve("lowlatency", &only("BRAIDPIPE_SPEED_PRESET", "placebo")).unwrap();
    assert_eq!(p.speed_preset, "placebo");
    p.speed_preset = base.speed_preset.clone();
    assert_eq!(p, base);

    let mut p = resolve("lowlatency", &only("BRAIDPIPE_GOP_SECONDS", "0.5")).unwrap();
    assert_eq!(f64::from_bits(p.gop_seconds), 0.5);
    p.gop_seconds = base.gop_seconds;
    assert_eq!(p, base);
}

#[test]
fn keyframe_interval_rounds_like_a_double() {
    let keyint = |gop: &str, fps: u32| {
        let mut env = none();
        env.gop_seconds = Some(GopOverride { text: gop.to_string(), seconds: seconds(gop) });
        let p = resolve("lowlatency", &env).unwrap();
        let sink = render(&p, "rtmp://x", fps).unwrap();
        let tail = sink.split("key-int-max=").nth(1).unwrap().to_string();
        tail.split(' ').next().unwrap().parse::<u32>().unwrap()
    };
    for gop in ["0", "0.01", "0.05", "0.5", "1.7", "2", "3.3333", "1e9", "inf", "nan", "-1"] {
        for fps in [0u32, 1, 24, 25, 30, 50, 60, 4294967295] {
            let seconds: f64 = gop.parse().unwrap();
            let expected = ((seconds * f64::from(fps.max(1))).round() as u32).max(1);
            assert_eq!(keyint(gop, fps), expected);
        }
    }
    assert_eq!(keyint("2", 30), 60);
    assert_eq!(keyint("0.05", 30), 2);
}

#[test]
fn a_high_quality_recipe_turns_two_knobs() {
    let env = Overrides::from_env(
        |key: &str| match key {
            "BRAIDPIPE_BITRATE_KBPS" => Some("20000".into()),
            "BRAIDPIPE_SPEED_PRESET" => Some("fast".into()),
            _ => None,
        },
        seconds,
    );
    let sink =
        build_sink("lowlatency", "rtmp://localhost/live/stream", 50, Some("auto"), &env, None)
            .unwrap();
    assert!(sink.contains(
        "x264enc speed-preset=fast tune=zerolatency bitrate=20000 key-int-max=100 vbv-buf-capacity=200"
    ));
}

#[test]
fn encoder_precedence() {
    let env = only("BRAIDPIPE_ENCODER", "qsv");
    let pick = |flag: Option<&str>, env: &Overrides, detected: Option<&str>| {
        resolve_sink("lowlatency", flag, env, detected).unwrap().encoder
    };
    assert_eq!(pick(Some("amf"), &env, Some("nvh264enc")), Encoder::Amf);
    assert_eq!(pick(Some("auto"), &env, Some("nvh264enc")), Encoder::Nvenc);
    assert_eq!(pick(Some("auto"), &env, None), Encoder::X264);
    assert_eq!(pick(Some("auto"), &env, Some("mystery")), Encoder::X264);
    // The flag overrides the variable, whatever that says.
    let nonsense = only("BRAIDPIPE_ENCODER", "av1");
    assert_eq!(pick(Some("auto"), &nonsense, None), Encoder::X264);
    assert_eq!(pick(Some("va"), &nonsense, None), Encoder::Va);
    assert!(resolve_sink("lowlatency", None, &nonsense, None).is_err());
    let nvenc = only("BRAIDPIPE_ENCODER", "nvenc");
    let sink = build_sink("lowlatency", "rtmp://x", 30, Some("auto"), &nvenc, None).unwrap();
    assert!(sink.contains("x264enc speed-preset=veryfast"));
    assert_eq!(pick(None, &env, Some("nvh264enc")), Encoder::Qsv);
    assert_eq!(pick(None, &none(), Some("nvh264enc")), Encoder::Nvenc);
    assert_eq!(pick(None, &only("BRAIDPIPE_ENCODER", "auto"), Some("vah264enc")), Encoder::Va);
    assert_eq!(pick(None, &none(), Some("mystery")), Encoder::X264);
    assert_eq!(pick(None, &none(), None), Encoder::X264);
}

#[test]
fn detected_encoders_are_known_and_names_are_distinct() {
    for platform in [Platform::MacOs, Platform::Linux, Platform::Windows, Platform::Other] {
        for factory in hw_encoders(platform) {
            assert!(Encoder::from_factory(factory).is_some());
        }
    }
    for (name, encoder) in Encoder::NAMES {
        assert_eq!(encoder.name(), name);
    }
    assert_eq!(Encoder::from_name("auto"), None);
}

#[test]
fn burst_bound_is_computed_within_its_type() {
    let env = Overrides::from_env(
        |key: &str| match key {
            "BRAIDPIPE_ENCODER" => Some("va".into()),
            "BRAIDPIPE_BITRATE_KBPS" => Some("4294967295".into()),
            "BRAIDPIPE_VBV_BUF_MS" => Some("2".into()),
            _ => None,
        },
        seconds,
    );
    let p = resolve("lowlatency", &env).unwrap();
    assert!(!buffer_in_range(&p));
    assert!(buffer_in_range(&defaults("bandwidth").unwrap()));
}

#[test]
fn words_and_numbers() {
    assert_eq!(parse_bool("K", "yes"), Ok(true));
    assert_eq!(parse_bool("K", "no"), Ok(false));
    assert_eq!(
        parse_bool("K", "TRUE"),
        Err("K must be a boolean (1/0/true/false), got 'TRUE'".to_string())
    );
    assert_eq!(parse_num("K", "+7"), Ok(7));
    assert_eq!(parse_num("K", "4294967295"), Ok(4294967295));
    assert_eq!(parse_num("K", "4294967296"), Err("K: could not parse '4294967296'".to_string()));
    assert_eq!(parse_num("K", " 7"), Err("K: could not parse ' 7'".to_string()));
    assert_eq!(parse_num("K", "+"), Err("K: could not parse '+'".to_string()));
}

#[test]
fn audio_links_to_the_named_muxer() {
    let p = defaults("balanced").unwrap();
    for output in ["rtmp://a", "srt://a", "udp://a:1"] {
        assert!(render(&p, output, 25).unwrap().contains(" name=mux "));
    }
    let bad = AudioOverrides {
        branch: None,
        encoder: None,
        bitrate_kbps: Some("loud".to_string()),
    };
    assert_eq!(
        build_audio_branch(None, &bad).unwrap_err(),
        "BRAIDPIPE_AUDIO_BITRATE_KBPS: could not parse 'loud'"
    );
    let huge = AudioOverrides {
        branch: None,
        encoder: None,
        bitrate_kbps: Some("4294968".to_string()),
    };
    assert!(!audio_rate_in_range(&huge));
    assert!(audio_rate_in_range(&bad));
}
