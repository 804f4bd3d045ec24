use braidpipe::metrics::{FloatTexts, Registry};
use braidpipe::metrics_server::{
    drain, endpoint_enabled, http_response, parse_worker_sample, record_down, record_up,
    record_worker_exit, record_worker_sample, record_worker_up, render_build_info, render_process,
    render_slots, resident_bytes, resident_pages, scrape, shutdown_deadline, terminate_worker,
    ProcessStats, ProcessUsage, StopAction,
};

fn process() -> ProcessStats {
    ProcessStats {
        start_time: "1769506390.5".to_string(),
        usage: Some(ProcessUsage { cpu_seconds: "1.25".to_string(), resident_bytes: 4096 }),
        open_fds: Some(12),
    }
}

#[test]
fn build_and_process_are_rendered() {
    let mut out = String::new();
    render_build_info(&mut out, "0.2.0");
    assert_eq!(
        out,
        "# HELP braidpipe_build_info Build metadata as labels\n\
         # TYPE braidpipe_build_info gauge\n\
         braidpipe_build_info{version=\"0.2.0\"} 1\n"
    );
    let mut out = String::new();
    render_process(&mut out, &process());
    assert_eq!(
        out,
        "# TYPE process_start_time_seconds gauge\nprocess_start_time_seconds 1769506390.5\n\
         # TYPE process_cpu_seconds_total counter\nprocess_cpu_seconds_total 1.25\n\
         # TYPE process_resident_memory_bytes gauge\nprocess_resident_memory_bytes 4096\n\
         # TYPE process_open_fds gauge\nprocess_open_fds 12\n"
    );
    let mut out = String::new();
    let bare = ProcessStats { start_time: "0".to_string(), usage: None, open_fds: None };
    render_process(&mut out, &bare);
    assert_eq!(out, "# TYPE process_start_time_seconds gauge\nprocess_start_time_seconds 0\n");
}

#[test]
fn responses_count_bytes() {
    assert_eq!(
        http_response("abc"),
        "HTTP/1.1 200 OK\r\n\
         Content-Type: text/plain; version=0.0.4; charset=utf-8\r\n\
         Content-Length: 3\r\n\
         Connection: close\r\n\r\nabc"
    );
    assert!(http_response("h\u{e9}").contains("Content-Length: 3\r\n"));
}

#[test]
fn a_scrape_is_the_whole_page() {
    let empty = || String::from("0");
    let floats = FloatTexts {
        roundtrip_sum: empty(),
        worker_processing_sum: empty(),
        relay_deadline: String::from("0.05"),
        last_ai_frame: empty(),
        branch_seconds_ai: empty(),
        branch_seconds_passthrough: empty(),
        worker_cpu: empty(),
        input_interval_sum: empty(),
        input_fps: empty(),
        av_skew: empty(),
    };
    let live = vec!["first\n".to_string(), render_slots(1, 4)];
    let response = scrape("0.2.0", &process(), &Registry::new(), &floats, &live);
    let (head, body) = response.split_once("\r\n\r\n").unwrap();
    assert!(head.contains(&format!("Content-Length: {}", body.len())));
    assert!(body.starts_with("# HELP braidpipe_build_info"));
    assert!(body.contains("braidpipe_relay_deadline_seconds 0.05\n"));
    assert!(body.ends_with(
        "first\n# HELP braidpipe_shm_slots_occupied Ring slots currently holding a frame\n\
         # TYPE braidpipe_shm_slots_occupied gauge\n\
         braidpipe_shm_slots_occupied 1\n\
         # TYPE braidpipe_shm_slots gauge\n\
         braidpipe_shm_slots 4\n"
    ));
    assert!(endpoint_enabled(9184));
    assert!(!endpoint_enabled(0));
}

#[test]
fn memory_reports_are_read() {
    assert_eq!(resident_pages("12345 678 90 1 0 2 0\n"), Some(678));
    assert_eq!(resident_pages("12345"), None);
    assert_eq!(resident_pages("1 x"), None);
    assert_eq!(resident_pages(""), None);
    assert_eq!(resident_bytes(Some(678)), 678 * 4096);
    assert_eq!(resident_bytes(None), 0);
}

#[test]
fn worker_samples_are_read_and_booked() {
    let sample = parse_worker_sample("  0:03.45  20480\n").unwrap();
    assert_eq!(sample.cputime, "0:03.45");
    assert_eq!(sample.rss_kb, Some(20480));
    assert!(parse_worker_sample("0:03.45").is_none());
    assert_eq!(parse_worker_sample("0:03.45 big").unwrap().rss_kb, None);
    let mut registry = Registry::new();
    record_worker_sample(&mut registry, Some(3.45f64.to_bits()), Some(20480));
    assert_eq!(f64::from_bits(registry.worker_cpu_seconds.get()), 3.45);
    assert_eq!(registry.worker_rss_bytes.get(), 20480 * 1024);
    record_worker_sample(&mut registry, None, None);
    assert_eq!(registry.worker_rss_bytes.get(), 20480 * 1024);
}

#[test]
fn lifecycle_is_booked() {
    let mut registry = Registry::new();
    record_up(&mut registry);
    record_worker_up(&mut registry, true);
    registry.worker_healthy.set(1);
    assert_eq!(registry.up.get(), 1);
    assert_eq!(registry.worker_up.get(), 1);
    record_worker_exit(&mut registry, Some(3));
    assert_eq!(registry.worker_up.get(), 0);
    assert_eq!(registry.worker_exits.get(), 1);
    assert_eq!(registry.worker_last_exit_code.get(), 3);
    record_worker_exit(&mut registry, None);
    assert_eq!(registry.worker_last_exit_code.get(), -1);
    record_down(&mut registry);
    assert_eq!(registry.up.get(), 0);
    assert_eq!(registry.worker_healthy.get(), 1);
    record_up(&mut registry);
    assert_eq!(drain(&mut registry, 9184, 2000), Some(2000));
    assert_eq!(registry.up.get(), 0);
    assert_eq!(registry.worker_healthy.get(), 0);
    assert_eq!(drain(&mut registry, 0, 2000), None);
    assert_eq!(drain(&mut registry, 9184, 0), None);
    assert_eq!(shutdown_deadline(2000), 6000);
}

#[test]
fn a_worker_that_ends_is_not_forced() {
    let mut registry = Registry::new();
    record_worker_up(&mut registry, true);
    let (mut stop, action) = terminate_worker(&registry, 42);
    assert_eq!(action, StopAction::Ask);
    assert_eq!(stop.step(&mut registry, false), StopAction::LookAgain(25));
    record_worker_up(&mut registry, false);
    assert_eq!(stop.step(&mut registry, false), StopAction::Finish);
}

#[test]
fn a_worker_that_has_ended_is_not_forced_at_the_deadline() {
    let mut registry = Registry::new();
    record_worker_up(&mut registry, true);
    let (mut stop, _) = terminate_worker(&registry, 42);
    record_worker_exit(&mut registry, Some(0));
    assert_eq!(stop.step(&mut registry, true), StopAction::Finish);
}

#[test]
fn a_worker_that_stays_is_forced() {
    let mut registry = Registry::new();
    record_worker_up(&mut registry, true);
    let (mut stop, action) = terminate_worker(&registry, 42);
    assert_eq!(action, StopAction::Ask);
    assert_eq!(stop.step(&mut registry, true), StopAction::Force(100));
    assert_eq!(registry.worker_up.get(), 1);
    assert_eq!(stop.step(&mut registry, true), StopAction::Finish);
    assert_eq!(registry.worker_up.get(), 0);
}

#[test]
fn there_may_be_no_worker_to_stop() {
    let mut registry = Registry::new();
    assert_eq!(terminate_worker(&registry, 42).1, StopAction::Finish);
    record_worker_up(&mut registry, true);
    assert_eq!(terminate_worker(&registry, 0).1, StopAction::Finish);
}
