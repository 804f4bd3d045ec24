use braidpipe::daemon::{
    hw_choice, plan, python_exe, worker_mode, Options, Run, Stage, WorkerMode, DEFAULT_SOURCE,
    FRAME_CHANNELS, RING_SLOTS, WORKER_GRACE_MS,
};
use braidpipe::preset::{AudioOverrides, Overrides};

fn options() -> Options {
    Options {
        source: None,
        uri: None,
        sink: "videoconvert ! autovideosink".to_string(),
        output: None,
        preset: "lowlatency".to_string(),
        encoder: None,
        audio: false,
        fps: 30,
    }
}

fn env() -> Overrides {
    Overrides::from_env(|_: &str| None, |_: &str| None)
}

fn audio_env() -> AudioOverrides {
    AudioOverrides::from_env(|_: &str| None)
}

fn text(o: &Options) -> Result<String, String> {
    plan(o, &env(), &audio_env(), None).map(|engine| engine.description)
}

#[test]
fn the_default_is_a_test_picture_on_screen() {
    let description = text(&options()).unwrap();
    assert!(description.starts_with(
        "videotestsrc is-live=true pattern=ball ! video/x-raw,width=1280,height=720,framerate=30/1 ! videoconvert ! tee name=t "
    ));
    assert!(description.ends_with(" ! videoconvert ! autovideosink "));
    assert!(description.starts_with(DEFAULT_SOURCE));
}

#[test]
fn an_output_is_built_from_the_preset() {
    let mut o = options();
    o.output = Some("rtmp://h/live".to_string());
    o.source = Some("mysrc".to_string());
    let description = text(&o).unwrap();
    assert!(description.starts_with("mysrc ! tee name=t "));
    assert!(description.ends_with("rtmp2sink sync=false location=rtmp://h/live "));
    o.preset = "warpspeed".to_string();
    assert!(text(&o).unwrap_err().starts_with("unknown preset 'warpspeed'"));
    o.preset = "lowlatency".to_string();
    let engine = plan(&o, &env(), &audio_env(), Some("nvh264enc")).unwrap();
    assert!(engine.description.contains("nvh264enc bitrate=4500"));
}

#[test]
fn audio_needs_both_ends() {
    let mut o = options();
    o.audio = true;
    assert_eq!(
        text(&o).unwrap_err(),
        "--audio needs a source exposing audio: use --uri, or name your demuxer/decodebin 'decoder' in --source"
    );
    o.source = Some("filesrc ! decodebin3 name=decoder".to_string());
    assert_eq!(
        text(&o).unwrap_err(),
        "--audio needs a muxer to join: use --output, or name your muxer 'mux' in --sink"
    );
    o.sink = "x264enc ! flvmux name=mux ! filesink".to_string();
    assert!(text(&o).unwrap().ends_with("aacparse ! queue ! mux."));
    // A branch written by hand may tap anything.
    let mut o = options();
    o.audio = true;
    let by_hand = AudioOverrides {
        branch: Some("audiotestsrc ! fakesink".to_string()),
        encoder: None,
        bitrate_kbps: None,
    };
    let engine = plan(&o, &env(), &by_hand, None).unwrap();
    assert!(engine.description.ends_with(" audiotestsrc ! fakesink"));
}

#[test]
fn audio_links_from_uri_to_output() {
    let mut o = options();
    o.audio = true;
    o.uri = Some("srt://127.0.0.1:8890?mode=caller".to_string());
    o.output = Some("srt://127.0.0.1:8891?mode=listener".to_string());
    let description = text(&o).unwrap();
    assert!(description.starts_with("srtsrc uri=\"srt://127.0.0.1:8890?mode=caller\""));
    assert!(description.ends_with(
        "uri=srt://127.0.0.1:8891?mode=listener decoder. ! queue ! audio/x-raw ! audioconvert ! audioresample ! avenc_aac bitrate=128000 ! aacparse ! queue ! mux."
    ));
    o.uri = Some("nowhere".to_string());
    assert!(text(&o).unwrap_err().starts_with("Failed to build pipeline: Input URI must"));
}

#[test]
fn audio_settings_matter_only_with_audio() {
    let bad = AudioOverrides {
        branch: None,
        encoder: None,
        bitrate_kbps: Some("loud".to_string()),
    };
    let mut o = options();
    let engine = plan(&o, &env(), &bad, None).unwrap();
    assert_eq!(engine.description, text(&o).unwrap());
    o.audio = true;
    assert_eq!(
        plan(&o, &env(), &bad, None).unwrap_err(),
        "BRAIDPIPE_AUDIO_BITRATE_KBPS: could not parse 'loud'"
    );
}

#[test]
fn who_runs_the_worker() {
    assert_eq!(worker_mode(false, false), WorkerMode::Managed);
    assert_eq!(worker_mode(false, true), WorkerMode::External);
    assert_eq!(worker_mode(true, false), WorkerMode::PassthroughOnly);
    assert_eq!(python_exe(true), ".venv/bin/python3");
    assert_eq!(python_exe(false), "python3");
    assert_eq!(hw_choice(None), None);
    assert_eq!(hw_choice(Some("off")), Some(false));
    assert_eq!(hw_choice(Some("auto")), Some(true));
    assert_eq!((FRAME_CHANNELS, RING_SLOTS, WORKER_GRACE_MS), (3, 4, 2000));
}

fn stages(mode: WorkerMode, remote: bool) -> Vec<Stage> {
    let mut run = Run::new(mode, remote);
    let mut seen = vec![run.stage];
    while run.stage != Stage::Finished {
        run.advance(true);
        seen.push(run.stage);
    }
    seen
}

#[test]
fn a_managed_run_goes_through_its_stages() {
    assert_eq!(
        stages(WorkerMode::Managed, true),
        vec![
            Stage::CreateRing,
            Stage::BindBridge,
            Stage::ListenRemote,
            Stage::AttachRelay,
            Stage::StartWorker,
            Stage::ServeMetrics,
            Stage::MarkUp,
            Stage::ArmGuard,
            Stage::RunWatchdog,
            Stage::StopWorker,
            Stage::Drain,
            Stage::Finished,
        ]
    );
    let mut run = Run::new(WorkerMode::Managed, false);
    run.advance(true);
    run.advance(false);
    assert_eq!(run.stage, Stage::Failed);
    run.advance(true);
    assert_eq!(run.stage, Stage::Failed);
}

#[test]
fn an_external_worker_is_left_alone() {
    let seen = stages(WorkerMode::External, false);
    assert!(seen.contains(&Stage::WatchExternal));
    assert!(!seen.contains(&Stage::StartWorker));
    assert!(!seen.contains(&Stage::StopWorker));
    assert!(!seen.contains(&Stage::ListenRemote));
}

#[test]
fn passthrough_involves_no_worker() {
    assert_eq!(
        stages(WorkerMode::PassthroughOnly, true),
        vec![
            Stage::ServeMetrics,
            Stage::MarkUp,
            Stage::ArmGuard,
            Stage::StartEngine,
            Stage::AwaitSignal,
            Stage::MarkDown,
            Stage::StopEngine,
            Stage::Drain,
            Stage::Finished,
        ]
    );
}
