//! The metrics endpoint, and what the daemon does about its worker process.
//!
//! Every request is answered with the metrics page. The page starts with the
//! build and the process, continues with the registry, and ends with what the
//! collectors of live state contribute.

use crate::metrics::{render, FloatTexts, Gauge, GaugeF, Registry};
#[allow(unused_imports)]
use crate::metrics::registry_text;
#[allow(unused_imports)]
use crate::page::law_page_is_whole_lines;
#[allow(unused_imports)]
use crate::relay::bumped;
use crate::text::{parse_signed, parse_unsigned, push_decimal, split_words};
#[allow(unused_imports)]
use crate::text::{
    decimal, ends_with, has_prefix, has_value, is_space, law_numerals_read_back,
    law_signed_numerals_read_back, law_words_stand_between_separators, lemma_ends_with,
    lemma_line_among, lemma_numeral_is_a_word, lemma_stands, lemma_value_before,
    lemma_value_behind, lemma_whole_sum, numeral_up_to, signed_decimal, signed_numeral,
    stands_between, texts, value_line, whole_lines, words,
};
use vstd::prelude::*;
#[allow(unused_imports)]
use vstd::utf8::encode_utf8;

verus! {

/// Whether there is an endpoint at all: port 0 disables it.
pub fn endpoint_enabled(port: u16) -> (r: bool)
    ensures
        r == (port != 0),
{
    port != 0
}

/// The version of the build.
pub open spec fn build_info_text(version: Seq<char>) -> Seq<char> {
    "# HELP braidpipe_build_info Build metadata as labels\n# TYPE braidpipe_build_info gauge\nbraidpipe_build_info{version=\""@
        + version + "\"} 1\n"@
}

/// Appends the version of the build.
pub fn render_build_info(out: &mut String, version: &str)
    ensures
        final(out)@ == old(out)@ + build_info_text(version@),
{
    out.append(
        "# HELP braidpipe_build_info Build metadata as labels\n# TYPE braidpipe_build_info gauge\nbraidpipe_build_info{version=\"",
    );
    out.append(version);
    out.append("\"} 1\n");
    assert(out@ =~= old(out)@ + build_info_text(version@));
}

/// What the process has used.
#[derive(Debug)]
pub struct ProcessUsage {
    /// The text of its processor time in seconds.
    pub cpu_seconds: String,
    pub resident_bytes: u64,
}

/// What is known about the daemon's own process.
#[derive(Debug)]
pub struct ProcessStats {
    /// The text of its start time.
    pub start_time: String,
    pub usage: Option<ProcessUsage>,
    pub open_fds: Option<u64>,
}

pub open spec fn usage_text(usage: Option<ProcessUsage>) -> Seq<char> {
    match usage {
        Some(u) => "# TYPE process_cpu_seconds_total counter\nprocess_cpu_seconds_total "@
            + u.cpu_seconds@
            + "\n# TYPE process_resident_memory_bytes gauge\nprocess_resident_memory_bytes "@
            + decimal(u.resident_bytes as nat) + "\n"@,
        None => seq![],
    }
}

pub open spec fn fds_text(fds: Option<u64>) -> Seq<char> {
    match fds {
        Some(n) => "# TYPE process_open_fds gauge\nprocess_open_fds "@ + decimal(n as nat) + "\n"@,
        None => seq![],
    }
}

/// The metrics of the daemon's own process, as far as they are known.
pub open spec fn process_text(p: ProcessStats) -> Seq<char> {
    "# TYPE process_start_time_seconds gauge\nprocess_start_time_seconds "@ + p.start_time@ + "\n"@
        + usage_text(p.usage) + fds_text(p.open_fds)
}

/// Appends the metrics of the daemon's own process.
pub fn render_process(out: &mut String, process: &ProcessStats)
    ensures
        final(out)@ == old(out)@ + process_text(*process),
{
    out.append("# TYPE process_start_time_seconds gauge\nprocess_start_time_seconds ");
    out.append(process.start_time.as_str());
    out.append("\n");
    let ghost head = out@;
    match &process.usage {
        Some(u) => {
            out.append("# TYPE process_cpu_seconds_total counter\nprocess_cpu_seconds_total ");
            out.append(u.cpu_seconds.as_str());
            out.append(
                "\n# TYPE process_resident_memory_bytes gauge\nprocess_resident_memory_bytes ",
            );
            push_decimal(out, u.resident_bytes);
            out.append("\n");
        },
        None => {},
    }
    assert(out@ =~= head + usage_text(process.usage));
    let ghost middle = out@;
    match process.open_fds {
        Some(n) => {
            out.append("# TYPE process_open_fds gauge\nprocess_open_fds ");
            push_decimal(out, n);
            out.append("\n");
        },
        None => {},
    }
    assert(out@ =~= middle + fds_text(process.open_fds));
    assert(out@ =~= old(out)@ + process_text(*process));
}

/// The second word of a memory report: the resident pages.
pub open spec fn reported_pages(statm: Seq<char>) -> Option<nat> {
    if words(statm).len() < 2 {
        None
    } else {
        numeral_up_to(words(statm)[1], u64::MAX as nat)
    }
}

/// Reads the resident pages out of a memory report.
pub fn resident_pages(statm: &str) -> (r: Option<u64>)
    ensures
        match r {
            Some(pages) => reported_pages(statm@) == Some(pages as nat),
            None => reported_pages(statm@) is None,
        },
{
    let fields = split_words(statm);
    assert(texts(fields@).len() == fields@.len());
    if fields.len() < 2 {
        return None;
    }
    assert(texts(fields@)[1] == fields@[1]@);
    parse_unsigned(fields[1].as_str(), u64::MAX)
}

/// The bytes of so many pages, none where their number is not known.
pub open spec fn bytes_of(pages: Option<u64>) -> int {
    match pages {
        Some(n) => n * 4096,
        None => 0,
    }
}

/// Resident memory in bytes, none where it could not be read.
pub fn resident_bytes(pages: Option<u64>) -> (r: u64)
    requires
        pages matches Some(n) ==> n * 4096 <= u64::MAX,
    ensures
        r == bytes_of(pages),
{
    match pages {
        Some(n) => n * 4096,
        None => 0,
    }
}

/// The texts of the first `n` collectors, one after the other.
pub open spec fn joined(parts: Seq<String>, n: nat) -> Seq<char>
    decreases n,
{
    if n == 0 {
        seq![]
    } else {
        joined(parts, (n - 1) as nat) + parts[n - 1]@
    }
}

/// The metrics page.
pub open spec fn page_text(
    version: Seq<char>,
    process: ProcessStats,
    registry: Registry,
    floats: FloatTexts,
    live: Seq<String>,
) -> Seq<char> {
    build_info_text(version) + process_text(process) + registry_text(registry, floats) + joined(
        live,
        live.len(),
    )
}

/// The response that carries a page. Its length counts bytes.
pub open spec fn response_text(body: Seq<char>) -> Seq<char> {
    "HTTP/1.1 200 OK\r\nContent-Type: text/plain; version=0.0.4; charset=utf-8\r\nContent-Length: "@
        + decimal(encode_utf8(body).len()) + "\r\nConnection: close\r\n\r\n"@ + body
}

/// Writes the response that carries a page.
pub fn http_response(body: &str) -> (r: String)
    ensures
        r@ == response_text(body@),
{
    let length: usize = body.as_bytes().len();
    let mut out =
        "HTTP/1.1 200 OK\r\nContent-Type: text/plain; version=0.0.4; charset=utf-8\r\nContent-Length: ".to_owned();
    push_decimal(&mut out, length as u64);
    out.append("\r\nConnection: close\r\n\r\n");
    out.append(body);
    out
}

/// The answer to a scrape.
pub open spec fn scrape_text(
    version: Seq<char>,
    process: ProcessStats,
    registry: Registry,
    floats: FloatTexts,
    live: Seq<String>,
) -> Seq<char> {
    response_text(page_text(version, process, registry, floats, live))
}

/// Answers a scrape. `live` holds what each collector of live state says.
pub fn scrape(
    version: &str,
    process: &ProcessStats,
    registry: &Registry,
    floats: &FloatTexts,
    live: &Vec<String>,
) -> (r: String)
    ensures
        r@ == scrape_text(version@, *process, *registry, *floats, live@),
{
    let mut body = String::new();
    render_build_info(&mut body, version);
    proof {
        lemma_nothing_before(build_info_text(version@));
    }
    render_process(&mut body, process);
    render(registry, floats, &mut body);
    push_all(&mut body, live);
    http_response(body.as_str())
}

fn push_all(out: &mut String, parts: &Vec<String>)
    ensures
        final(out)@ == old(out)@ + joined(parts@, parts@.len()),
{
    let ghost before = out@;
    let mut i: usize = 0;
    assert(before + joined(parts@, 0) =~= before);
    while i < parts.len()
        invariant
            i <= parts@.len(),
            out@ == before + joined(parts@, i as nat),
        decreases parts@.len() - i,
    {
        out.append(parts[i].as_str());
        assert(out@ =~= before + joined(parts@, (i + 1) as nat));
        i += 1;
    }
}

proof fn lemma_nothing_before(s: Seq<char>)
    ensures
        Seq::<char>::empty() + s == s,
{
    assert(Seq::<char>::empty() + s =~= s);
}

/// How full the ring is.
pub open spec fn slots_text(occupied: nat, total: nat) -> Seq<char> {
    "# HELP braidpipe_shm_slots_occupied Ring slots currently holding a frame\n# TYPE braidpipe_shm_slots_occupied gauge\nbraidpipe_shm_slots_occupied "@
        + decimal(occupied) + "\n# TYPE braidpipe_shm_slots gauge\nbraidpipe_shm_slots "@ + decimal(
        total,
    ) + "\n"@
}

/// Describes how full the ring is.
pub fn render_slots(occupied: u64, total: u64) -> (r: String)
    ensures
        r@ == slots_text(occupied as nat, total as nat),
{
    let mut out =
        "# HELP braidpipe_shm_slots_occupied Ring slots currently holding a frame\n# TYPE braidpipe_shm_slots_occupied gauge\nbraidpipe_shm_slots_occupied ".to_owned();
    push_decimal(&mut out, occupied);
    out.append("\n# TYPE braidpipe_shm_slots gauge\nbraidpipe_shm_slots ");
    push_decimal(&mut out, total);
    out.append("\n");
    out
}

/// A line of process status: processor time and resident kilobytes.
#[derive(Debug)]
pub struct WorkerSample {
    pub cputime: String,
    pub rss_kb: Option<i64>,
}

/// Whether `r` is what a line of process status says.
pub open spec fn is_sample(text: Seq<char>, r: Option<WorkerSample>) -> bool {
    match r {
        Some(sample) => {
            &&& words(text).len() >= 2
            &&& sample.cputime@ == words(text)[0]
            &&& sample.rss_kb == match signed_numeral(words(text)[1]) {
                Some(n) => if i64::MIN <= n <= i64::MAX {
                    Some(n as i64)
                } else {
                    None
                },
                None => None,
            }
        },
        None => words(text).len() < 2,
    }
}

/// Reads a line of process status. Without both fields there is no sample; a
/// size that is no number leaves the rest of the sample standing.
pub fn parse_worker_sample(text: &str) -> (r: Option<WorkerSample>)
    ensures
        is_sample(text@, r),
{
    let fields = split_words(text);
    assert(texts(fields@).len() == fields@.len());
    if fields.len() < 2 {
        return None;
    }
    assert(texts(fields@)[0] == fields@[0]@);
    assert(texts(fields@)[1] == fields@[1]@);
    let rss_kb = parse_signed(fields[1].as_str());
    Some(WorkerSample { cputime: fields[0].clone(), rss_kb })
}

/// What a sample of the worker does to the metrics.
pub open spec fn sampled(r: Registry, cpu_seconds: Option<u64>, rss_kb: Option<i64>) -> Registry {
    Registry {
        worker_cpu_seconds: match cpu_seconds {
            Some(bits) => GaugeF { bits },
            None => r.worker_cpu_seconds,
        },
        worker_rss_bytes: match rss_kb {
            Some(kb) => Gauge { value: (kb * 1024) as i64 },
            None => r.worker_rss_bytes,
        },
        ..r
    }
}

/// Books a sample of the worker. Its processor time is given as the bit
/// pattern of its seconds; what could not be read leaves its gauge alone.
pub fn record_worker_sample(registry: &mut Registry, cpu_seconds: Option<u64>, rss_kb: Option<i64>)
    requires
        rss_kb matches Some(kb) ==> i64::MIN <= kb * 1024 <= i64::MAX,
    ensures
        *final(registry) == sampled(*old(registry), cpu_seconds, rss_kb),
{
    if let Some(bits) = cpu_seconds {
        registry.worker_cpu_seconds.set(bits);
    }
    if let Some(kb) = rss_kb {
        registry.worker_rss_bytes.set(kb * 1024);
    }
}

/// The metrics of a daemon that is running, or not.
pub open spec fn with_up(r: Registry, up: bool) -> Registry {
    Registry {
        up: Gauge {
            value: if up {
                1
            } else {
                0
            },
        },
        ..r
    }
}

/// Marks the daemon running.
pub fn record_up(registry: &mut Registry)
    ensures
        *final(registry) == with_up(*old(registry), true),
{
    registry.up.set(1);
}

/// Marks the daemon down, the moment a shutdown signal arrives.
pub fn record_down(registry: &mut Registry)
    ensures
        *final(registry) == with_up(*old(registry), false),
{
    registry.up.set(0);
}

/// The metrics with a worker that is running, or not.
pub open spec fn with_worker_up(r: Registry, up: bool) -> Registry {
    Registry {
        worker_up: Gauge {
            value: if up {
                1
            } else {
                0
            },
        },
        ..r
    }
}

/// Marks the worker process running or not. For a worker that the daemon does
/// not own, running means that it delivered a frame of late.
pub fn record_worker_up(registry: &mut Registry, up: bool)
    ensures
        *final(registry) == with_worker_up(*old(registry), up),
{
    registry.worker_up.set(
        if up {
            1
        } else {
            0
        },
    );
}

/// What the end of the worker process does to the metrics.
pub open spec fn after_worker_exit(r: Registry, code: Option<i32>) -> Registry {
    Registry {
        worker_up: Gauge { value: 0 },
        worker_exits: bumped(r.worker_exits),
        worker_last_exit_code: Gauge {
            value: match code {
                Some(c) => c as i64,
                None => -1i64,
            },
        },
        ..r
    }
}

/// Books the end of the worker process. One that was killed has no code.
pub fn record_worker_exit(registry: &mut Registry, code: Option<i32>)
    ensures
        *final(registry) == after_worker_exit(*old(registry), code),
{
    registry.worker_up.set(0);
    registry.worker_exits.inc();
    registry.worker_last_exit_code.set(
        match code {
            Some(c) => c as i64,
            None => -1,
        },
    );
}

/// What draining does to the metrics.
pub open spec fn after_drain(r: Registry) -> Registry {
    Registry { up: Gauge { value: 0 }, worker_healthy: Gauge { value: 0 }, ..r }
}

/// How long the endpoint stays open for a last scrape, where there is one.
pub open spec fn drain_time(port: u16, drain_ms: u64) -> Option<u64> {
    if port == 0 || drain_ms == 0 {
        None
    } else {
        Some(drain_ms)
    }
}

/// Marks the daemon down and says how long to keep the endpoint open, so that
/// the final state is scraped.
pub fn drain(registry: &mut Registry, port: u16, drain_ms: u64) -> (r: Option<u64>)
    ensures
        *final(registry) == after_drain(*old(registry)),
        r == drain_time(port, drain_ms),
{
    registry.up.set(0);
    registry.worker_healthy.set(0);
    if port == 0 || drain_ms == 0 {
        return None;
    }
    Some(drain_ms)
}

/// How long a shutdown may take beyond the drain before it is cut short.
pub const SHUTDOWN_GRACE_MS: u64 = 4000;

/// When a shutdown is cut short.
pub open spec fn cut_short_after(drain_ms: u64) -> int {
    drain_ms + SHUTDOWN_GRACE_MS
}

/// How long after the signal a shutdown that has not finished is cut short.
pub fn shutdown_deadline(drain_ms: u64) -> (r: u64)
    requires
        drain_ms + SHUTDOWN_GRACE_MS <= u64::MAX,
    ensures
        r == cut_short_after(drain_ms),
{
    drain_ms + SHUTDOWN_GRACE_MS
}

/// How far stopping the worker has come.
#[derive(Debug, Clone, Copy, PartialEq, Eq, Structural)]
pub enum StopPhase {
    /// Asked to end.
    Asked,
    /// Forced to end.
    Forced,
    Done,
}

/// What stopping the worker takes next.
#[derive(Debug, Clone, Copy, PartialEq, Eq, Structural)]
pub enum StopAction {
    /// Ask the worker to end, so that it can let go of its memory and socket.
    Ask,
    /// Look again after this many milliseconds.
    LookAgain(u64),
    /// Force the worker to end, and look again after this many milliseconds.
    Force(u64),
    Finish,
}

/// How stopping the worker goes on. It is forced only when it is still there
/// at the deadline.
pub open spec fn stop_next(phase: StopPhase, worker_up: bool, deadline_passed: bool) -> (
    StopPhase,
    StopAction,
) {
    match phase {
        StopPhase::Asked => if !worker_up {
            (StopPhase::Done, StopAction::Finish)
        } else if deadline_passed {
            (StopPhase::Forced, StopAction::Force(100))
        } else {
            (StopPhase::Asked, StopAction::LookAgain(25))
        },
        _ => (StopPhase::Done, StopAction::Finish),
    }
}

/// Stopping the worker.
#[derive(Debug, Clone, Copy, PartialEq, Eq, Structural)]
pub struct Termination {
    pub phase: StopPhase,
}

/// How stopping the worker begins.
pub open spec fn first_stop(pid: u32, worker_up: bool) -> (Termination, StopAction) {
    if pid == 0 || !worker_up {
        (Termination { phase: StopPhase::Done }, StopAction::Finish)
    } else {
        (Termination { phase: StopPhase::Asked }, StopAction::Ask)
    }
}

/// Begins to stop the worker, if there is one running.
pub fn terminate_worker(registry: &Registry, pid: u32) -> (r: (Termination, StopAction))
    ensures
        r == first_stop(pid, registry.worker_up.value != 0),
{
    if pid == 0 || registry.worker_up.get() == 0 {
        (Termination { phase: StopPhase::Done }, StopAction::Finish)
    } else {
        (Termination { phase: StopPhase::Asked }, StopAction::Ask)
    }
}

impl Termination {
    /// Goes on stopping the worker. One that was forced counts as down.
    pub fn step(&mut self, registry: &mut Registry, deadline_passed: bool) -> (r: StopAction)
        ensures
            (final(self).phase, r) == stop_next(
                old(self).phase,
                old(registry).worker_up.value != 0,
                deadline_passed,
            ),
            *final(registry) == if old(self).phase == StopPhase::Forced {
                Registry { worker_up: Gauge { value: 0 }, ..*old(registry) }
            } else {
                *old(registry)
            },
    {
        match self.phase {
            StopPhase::Asked => {
                if registry.worker_up.get() == 0 {
                    self.phase = StopPhase::Done;
                    StopAction::Finish
                } else if deadline_passed {
                    self.phase = StopPhase::Forced;
                    StopAction::Force(100)
                } else {
                    StopAction::LookAgain(25)
                }
            },
            StopPhase::Forced => {
                registry.worker_up.set(0);
                self.phase = StopPhase::Done;
                StopAction::Finish
            },
            StopPhase::Done => StopAction::Finish,
        }
    }
}

/// Stopping cannot hang: once the deadline has passed, two more steps end it.
/// A worker is forced only then, and only if it is still there.
pub proof fn law_stopping_ends(phase: StopPhase, up_before: bool, up_after: bool, late: bool)
    ensures
        ({
            let (next, _) = stop_next(phase, up_before, true);
            stop_next(next, up_after, late).1 == StopAction::Finish
        }),
        forall|ms: u64|
            #![auto]
            stop_next(phase, up_before, late).1 == StopAction::Force(ms) ==> late && up_before
                && phase == StopPhase::Asked,
{
}

/// The page names the build.
pub proof fn law_build_is_reported(version: Seq<char>)
    ensures
        has_value(
            build_info_text(version),
            "braidpipe_build_info{version=\""@ + version + "\"}"@,
            "1"@,
        ),
        whole_lines(build_info_text(version)),
{
    reveal_strlit("\n");
    reveal_strlit(" ");
    reveal_strlit("1");
    reveal_strlit("\"}");
    reveal_strlit("\"} 1\n");
    reveal_strlit("braidpipe_build_info{version=\"");
    reveal_strlit(
        "# HELP braidpipe_build_info Build metadata as labels\n# TYPE braidpipe_build_info gauge\n",
    );
    reveal_strlit(
        "# HELP braidpipe_build_info Build metadata as labels\n# TYPE braidpipe_build_info gauge\nbraidpipe_build_info{version=\"",
    );
    let head =
        "# HELP braidpipe_build_info Build metadata as labels\n# TYPE braidpipe_build_info gauge\n"@;
    let series = "braidpipe_build_info{version=\""@ + version + "\"}"@;
    let none = Seq::<char>::empty();
    assert("# HELP braidpipe_build_info Build metadata as labels\n# TYPE braidpipe_build_info gauge\nbraidpipe_build_info{version=\""@
        =~= head + "braidpipe_build_info{version=\""@);
    lemma_line_among(head, value_line(series, "1"@), none, series, "1"@);
    assert(build_info_text(version) =~= head + value_line(series, "1"@) + none);
}

/// What is known of the daemon's own process is on the page, each number under
/// its name.
pub proof fn law_process_is_reported(p: ProcessStats)
    ensures
        whole_lines(process_text(p)),
        has_value(process_text(p), "process_start_time_seconds"@, p.start_time@),
        p.usage matches Some(u) ==> {
            &&& has_value(process_text(p), "process_cpu_seconds_total"@, u.cpu_seconds@)
            &&& has_value(
                process_text(p),
                "process_resident_memory_bytes"@,
                decimal(u.resident_bytes as nat),
            )
        },
        p.open_fds matches Some(n) ==> has_value(
            process_text(p),
            "process_open_fds"@,
            decimal(n as nat),
        ),
{
    reveal_strlit("\n");
    reveal_strlit(" ");
    let none = Seq::<char>::empty();
    let head = "# TYPE process_start_time_seconds gauge\n"@;
    reveal_strlit("# TYPE process_start_time_seconds gauge\n");
    reveal_strlit("process_start_time_seconds");
    reveal_strlit("# TYPE process_start_time_seconds gauge\nprocess_start_time_seconds ");
    let line = value_line("process_start_time_seconds"@, p.start_time@);
    let start = "# TYPE process_start_time_seconds gauge\nprocess_start_time_seconds "@
        + p.start_time@ + "\n"@;
    assert(start =~= head + line + none);
    lemma_line_among(head, line, none, "process_start_time_seconds"@, p.start_time@);
    let (usage, fds) = (usage_text(p.usage), fds_text(p.open_fds));
    assert(whole_lines(start));
    lemma_value_before(start, usage, "process_start_time_seconds"@, p.start_time@);
    lemma_value_before(start + usage, fds, "process_start_time_seconds"@, p.start_time@);
    if p.usage is Some {
        lemma_usage_lines(p.usage->0);
        let u = p.usage->0;
        let bytes = decimal(u.resident_bytes as nat);
        lemma_value_behind(start, usage, "process_cpu_seconds_total"@, u.cpu_seconds@);
        lemma_value_before(start + usage, fds, "process_cpu_seconds_total"@, u.cpu_seconds@);
        lemma_value_behind(start, usage, "process_resident_memory_bytes"@, bytes);
        lemma_value_before(start + usage, fds, "process_resident_memory_bytes"@, bytes);
    }
    lemma_whole_sum(start, usage);
    if p.open_fds is Some {
        let n = decimal(p.open_fds->0 as nat);
        reveal_strlit("# TYPE process_open_fds gauge\n");
        reveal_strlit("process_open_fds");
        reveal_strlit("# TYPE process_open_fds gauge\nprocess_open_fds ");
        let above = "# TYPE process_open_fds gauge\n"@;
        let opened = value_line("process_open_fds"@, n);
        assert(fds =~= above + opened + none);
        lemma_line_among(above, opened, none, "process_open_fds"@, n);
        lemma_value_behind(start + usage, fds, "process_open_fds"@, n);
    }
    lemma_whole_sum(start + usage, fds);
}

proof fn lemma_usage_lines(u: ProcessUsage)
    ensures
        whole_lines(usage_text(Some(u))),
        has_value(usage_text(Some(u)), "process_cpu_seconds_total"@, u.cpu_seconds@),
        has_value(
            usage_text(Some(u)),
            "process_resident_memory_bytes"@,
            decimal(u.resident_bytes as nat),
        ),
{
    reveal_strlit("\n");
    reveal_strlit(" ");
    reveal_strlit("# TYPE process_cpu_seconds_total counter\n");
    reveal_strlit("process_cpu_seconds_total");
    reveal_strlit("# TYPE process_cpu_seconds_total counter\nprocess_cpu_seconds_total ");
    reveal_strlit("# TYPE process_resident_memory_bytes gauge\n");
    reveal_strlit("process_resident_memory_bytes");
    reveal_strlit(
        "\n# TYPE process_resident_memory_bytes gauge\nprocess_resident_memory_bytes ",
    );
    let none = Seq::<char>::empty();
    let a = "# TYPE process_cpu_seconds_total counter\n"@;
    let b = "# TYPE process_resident_memory_bytes gauge\n"@;
    let bytes = decimal(u.resident_bytes as nat);
    let time = value_line("process_cpu_seconds_total"@, u.cpu_seconds@);
    let memory = value_line("process_resident_memory_bytes"@, bytes);
    let text = usage_text(Some(u));
    assert(text =~= a + time + (b + memory));
    lemma_line_among(a, time, b + memory, "process_cpu_seconds_total"@, u.cpu_seconds@);
    assert(text =~= (a + time + b) + memory + none);
    lemma_line_among(a + time + b, memory, none, "process_resident_memory_bytes"@, bytes);
}

/// How full the ring is is on the page: the slots that hold a frame, out of all
/// the slots.
pub proof fn law_slots_are_reported(occupied: nat, total: nat)
    ensures
        whole_lines(slots_text(occupied, total)),
        has_value(slots_text(occupied, total), "braidpipe_shm_slots_occupied"@, decimal(occupied)),
        has_value(slots_text(occupied, total), "braidpipe_shm_slots"@, decimal(total)),
{
    reveal_strlit("\n");
    reveal_strlit(" ");
    reveal_strlit("braidpipe_shm_slots_occupied");
    reveal_strlit("braidpipe_shm_slots");
    reveal_strlit(
        "# HELP braidpipe_shm_slots_occupied Ring slots currently holding a frame\n# TYPE braidpipe_shm_slots_occupied gauge\n",
    );
    reveal_strlit(
        "# HELP braidpipe_shm_slots_occupied Ring slots currently holding a frame\n# TYPE braidpipe_shm_slots_occupied gauge\nbraidpipe_shm_slots_occupied ",
    );
    reveal_strlit("# TYPE braidpipe_shm_slots gauge\n");
    reveal_strlit("\n# TYPE braidpipe_shm_slots gauge\nbraidpipe_shm_slots ");
    let none = Seq::<char>::empty();
    let a =
        "# HELP braidpipe_shm_slots_occupied Ring slots currently holding a frame\n# TYPE braidpipe_shm_slots_occupied gauge\n"@;
    let b = "# TYPE braidpipe_shm_slots gauge\n"@;
    let first = value_line("braidpipe_shm_slots_occupied"@, decimal(occupied));
    let second = value_line("braidpipe_shm_slots"@, decimal(total));
    let text = slots_text(occupied, total);
    assert(text =~= a + first + (b + second));
    lemma_line_among(a, first, b + second, "braidpipe_shm_slots_occupied"@, decimal(occupied));
    assert(text =~= (a + first + b) + second + none);
    lemma_line_among(a + first + b, second, none, "braidpipe_shm_slots"@, decimal(total));
}

/// What any part of the page says, the page says: the build, the process, the
/// registry, and each collector of live state.
#[verifier::spinoff_prover]
#[verifier::rlimit(40)]
pub proof fn law_page_says_what_its_parts_say(
    version: Seq<char>,
    process: ProcessStats,
    registry: Registry,
    floats: FloatTexts,
    live: Seq<String>,
    i: int,
    series: Seq<char>,
    value: Seq<char>,
)
    requires
        forall|j: int| 0 <= j < live.len() ==> whole_lines((#[trigger] live[j])@),
    ensures
        ({
            let page = page_text(version, process, registry, floats, live);
            &&& has_value(build_info_text(version), series, value) ==> has_value(
                page,
                series,
                value,
            )
            &&& has_value(process_text(process), series, value) ==> has_value(page, series, value)
            &&& has_value(registry_text(registry, floats), series, value) ==> has_value(
                page,
                series,
                value,
            )
            &&& 0 <= i < live.len() && has_value(live[i]@, series, value) ==> has_value(
                page,
                series,
                value,
            )
        }),
{
    let (a, b, c, d) = (
        build_info_text(version),
        process_text(process),
        registry_text(registry, floats),
        joined(live, live.len()),
    );
    law_build_is_reported(version);
    law_process_is_reported(process);
    law_page_is_whole_lines(registry, floats);
    lemma_whole_sum(a, b);
    lemma_whole_sum(a + b, c);
    if has_value(a, series, value) {
        lemma_value_before(a, b, series, value);
        lemma_value_before(a + b, c, series, value);
        lemma_value_before(a + b + c, d, series, value);
    }
    if has_value(b, series, value) {
        lemma_value_behind(a, b, series, value);
        lemma_value_before(a + b, c, series, value);
        lemma_value_before(a + b + c, d, series, value);
    }
    if has_value(c, series, value) {
        lemma_value_behind(a + b, c, series, value);
        lemma_value_before(a + b + c, d, series, value);
    }
    if 0 <= i < live.len() && has_value(live[i]@, series, value) {
        lemma_joined_value(live, i, live.len(), series, value);
        lemma_value_behind(a + b + c, d, series, value);
    }
}

proof fn lemma_joined_value(
    live: Seq<String>,
    i: int,
    n: nat,
    series: Seq<char>,
    value: Seq<char>,
)
    requires
        n <= live.len(),
        forall|j: int| 0 <= j < live.len() ==> whole_lines((#[trigger] live[j])@),
        0 <= i < live.len(),
        has_value(live[i]@, series, value),
    ensures
        whole_lines(joined(live, n)),
        i < n ==> has_value(joined(live, n), series, value),
    decreases n,
{
    if n > 0 {
        let earlier = joined(live, (n - 1) as nat);
        lemma_joined_value(live, i, (n - 1) as nat, series, value);
        assert(whole_lines(live[n - 1]@));
        lemma_whole_sum(earlier, live[n - 1]@);
        if i == n - 1 {
            lemma_value_behind(earlier, live[i]@, series, value);
        } else if i < n - 1 {
            lemma_value_before(earlier, live[n - 1]@, series, value);
        }
    }
}

/// The response is a success that says how many bytes its body has, and ends
/// with the body, behind an empty line.
pub proof fn law_response_carries_the_page(body: Seq<char>)
    ensures
        has_prefix(response_text(body), "HTTP/1.1 200 OK\r\n"@),
        stands_between(
            response_text(body),
            "\r\nContent-Length: "@,
            decimal(encode_utf8(body).len()),
            '\r',
        ),
        ends_with(response_text(body), "\r\n\r\n"@ + body),
{
    let start =
        "HTTP/1.1 200 OK\r\nContent-Type: text/plain; version=0.0.4; charset=utf-8\r\nContent-Length: "@;
    let head = "HTTP/1.1 200 OK\r\nContent-Type: text/plain; version=0.0.4; charset=utf-8"@;
    let mark = "\r\nContent-Length: "@;
    let close = "\r\nConnection: close\r\n\r\n"@;
    reveal_strlit(
        "HTTP/1.1 200 OK\r\nContent-Type: text/plain; version=0.0.4; charset=utf-8\r\nContent-Length: ",
    );
    reveal_strlit("HTTP/1.1 200 OK\r\nContent-Type: text/plain; version=0.0.4; charset=utf-8");
    reveal_strlit("\r\nContent-Length: ");
    reveal_strlit("HTTP/1.1 200 OK\r\n");
    reveal_strlit("\r\nConnection: close\r\n\r\n");
    reveal_strlit("\r\nConnection: close");
    reveal_strlit("\r\n\r\n");
    assert(start =~= head + mark);
    assert(close =~= "\r\nConnection: close"@ + "\r\n\r\n"@);
    let length = decimal(encode_utf8(body).len());
    let text = response_text(body);
    assert(text.subrange(0, 17) =~= "HTTP/1.1 200 OK\r\n"@);
    lemma_stands(head, mark, length, close + body, '\r');
    assert(text =~= head + mark + length + (close + body));
    lemma_ends_with(start + length + "\r\nConnection: close"@, "\r\n\r\n"@ + body);
    assert(text =~= start + length + "\r\nConnection: close"@ + ("\r\n\r\n"@ + body));
}

/// The resident pages are the second word of a memory report, whatever the
/// first and the rest are; a report of one word has none.
pub proof fn law_resident_pages_come_second(
    first: Seq<char>,
    n: nat,
    space: char,
    rest: Seq<char>,
)
    requires
        first.len() > 0,
        forall|i: int| 0 <= i < first.len() ==> !is_space(#[trigger] first[i]),
        is_space(space),
    ensures
        reported_pages(first + seq![space] + (decimal(n) + seq![space] + rest)) == if n
            <= u64::MAX {
            Some(n)
        } else {
            None
        },
        reported_pages(first + seq![space] + decimal(n)) == if n <= u64::MAX {
            Some(n)
        } else {
            None
        },
        reported_pages(first) is None,
{
    lemma_numeral_is_a_word(n);
    law_numerals_read_back(n);
    law_words_stand_between_separators(decimal(n), space, rest);
    law_words_stand_between_separators(first, space, decimal(n) + seq![space] + rest);
    law_words_stand_between_separators(first, space, decimal(n));
    let long = first + seq![space] + (decimal(n) + seq![space] + rest);
    assert(words(long)[1] == decimal(n));
    assert(words(first + seq![space] + decimal(n))[1] == decimal(n));
    assert(words(first).len() == 1);
}

/// A line of process status gives the processor time first and the resident
/// kilobytes second.
pub proof fn law_samples_are_time_then_memory(
    time: Seq<char>,
    space: char,
    kb: i64,
    r: Option<WorkerSample>,
)
    requires
        time.len() > 0,
        forall|i: int| 0 <= i < time.len() ==> !is_space(#[trigger] time[i]),
        is_space(space),
        kb >= 0,
        is_sample(time + seq![space] + decimal(kb as nat), r),
    ensures
        r is Some,
        r->0.cputime@ == time,
        r->0.rss_kb == Some(kb),
{
    lemma_numeral_is_a_word(kb as nat);
    law_signed_numerals_read_back(kb as int);
    law_words_stand_between_separators(decimal(kb as nat), space, seq![]);
    law_words_stand_between_separators(time, space, decimal(kb as nat));
    let text = time + seq![space] + decimal(kb as nat);
    assert(words(text)[0] == time);
    assert(words(text)[1] == decimal(kb as nat));
}

/// What a sample could read is on record, memory in bytes; what it could not
/// stays as it was.
pub proof fn law_samples_are_recorded(r: Registry, cpu_seconds: Option<u64>, rss_kb: Option<i64>)
    requires
        rss_kb matches Some(kb) ==> i64::MIN <= kb * 1024 <= i64::MAX,
    ensures
        ({
            let after = sampled(r, cpu_seconds, rss_kb);
            &&& cpu_seconds matches Some(bits) ==> after.worker_cpu_seconds.bits == bits
            &&& cpu_seconds is None ==> after.worker_cpu_seconds == r.worker_cpu_seconds
            &&& rss_kb matches Some(kb) ==> after.worker_rss_bytes.value == 1024 * kb
            &&& rss_kb is None ==> after.worker_rss_bytes == r.worker_rss_bytes
            &&& after == (Registry {
                worker_cpu_seconds: after.worker_cpu_seconds,
                worker_rss_bytes: after.worker_rss_bytes,
                ..r
            })
        }),
{
}

/// The gauges say whether the daemon and the worker are up, and change nothing
/// else; the end of the worker counts once, with its code or with -1 if it was
/// killed; and draining takes down the daemon and the worker's health.
pub proof fn law_life_is_on_record(r: Registry, up: bool, code: Option<i32>)
    ensures
        ({
            let after = with_up(r, up);
            &&& after.up.value == 1 <==> up
            &&& after.up.value == 0 <==> !up
            &&& after == (Registry { up: after.up, ..r })
        }),
        ({
            let after = with_worker_up(r, up);
            &&& after.worker_up.value == 1 <==> up
            &&& after.worker_up.value == 0 <==> !up
            &&& after == (Registry { worker_up: after.worker_up, ..r })
        }),
        ({
            let after = after_worker_exit(r, code);
            &&& after.worker_up.value == 0
            &&& after.worker_exits.value == crate::metrics::wrapping_sum(r.worker_exits.value, 1)
            &&& code matches Some(c) ==> after.worker_last_exit_code.value == c
            &&& code is None ==> after.worker_last_exit_code.value == -1
            &&& after == (Registry {
                worker_up: after.worker_up,
                worker_exits: after.worker_exits,
                worker_last_exit_code: after.worker_last_exit_code,
                ..r
            })
        }),
        ({
            let after = after_drain(r);
            &&& after.up.value == 0
            &&& after.worker_healthy.value == 0
            &&& after == (Registry { up: after.up, worker_healthy: after.worker_healthy, ..r })
        }),
{
}

/// The endpoint stays open for as long as was asked, exactly if there is an
/// endpoint and a time to wait.
pub proof fn law_drain_lasts_as_asked(port: u16, drain_ms: u64)
    ensures
        drain_time(port, drain_ms) is Some <==> port > 0 && drain_ms > 0,
        drain_time(port, drain_ms) matches Some(ms) ==> ms == drain_ms,
{
}

/// A worker is asked to end exactly if there is a process and it counts as
/// running. Once it has gone nothing more is done; until the deadline it is
/// looked for forty times a second; and at the deadline it is forced, which
/// ends it within the next tenth.
pub proof fn law_workers_are_asked_before_they_are_forced(pid: u32, worker_up: bool, late: bool)
    ensures
        first_stop(pid, worker_up).1 == StopAction::Ask <==> pid != 0 && worker_up,
        first_stop(pid, worker_up).1 == StopAction::Ask || first_stop(pid, worker_up).1
            == StopAction::Finish,
        first_stop(pid, worker_up).1 == StopAction::Ask ==> first_stop(pid, worker_up).0.phase
            == StopPhase::Asked,
        stop_next(StopPhase::Asked, false, late) == (StopPhase::Done, StopAction::Finish),
        stop_next(StopPhase::Asked, true, false).0 == StopPhase::Asked,
        stop_next(StopPhase::Asked, true, false).1 is LookAgain,
        stop_next(StopPhase::Asked, true, true).0 == StopPhase::Forced,
        stop_next(StopPhase::Asked, true, true).1 is Force,
        4 * stop_next(StopPhase::Asked, true, false).1->LookAgain_0 == stop_next(
            StopPhase::Asked,
            true,
            true,
        ).1->Force_0,
        stop_next(StopPhase::Asked, true, true).1->Force_0 == 100,
        stop_next(StopPhase::Forced, worker_up, late) == (StopPhase::Done, StopAction::Finish),
        stop_next(StopPhase::Done, worker_up, late) == (StopPhase::Done, StopAction::Finish),
{
}

/// Every page counts the same: twice the pages are twice the bytes, and a page
/// has 4096 of them.
pub proof fn law_pages_are_of_one_size(n: u64)
    ensures
        n > 0 ==> bytes_of(Some(n)) - bytes_of(Some((n - 1) as u64)) == 4096,
        bytes_of(Some(0)) == 0,
        bytes_of(None) == 0,
{
}

/// A shutdown gets its drain and the same grace on top, however long the drain
/// is.
pub proof fn law_grace_comes_on_top_of_the_drain(one: u64, other: u64)
    ensures
        cut_short_after(one) > one,
        cut_short_after(one) - one == cut_short_after(other) - other,
        cut_short_after(0) == SHUTDOWN_GRACE_MS,
{
}

/// A scrape is answered with the whole page: behind the empty line come the
/// build, the process, the registry and every collector, each exactly once and
/// in this order.
#[verifier::spinoff_prover]
#[verifier::rlimit(40)]
pub proof fn law_scrapes_carry_everything(
    version: Seq<char>,
    process: ProcessStats,
    registry: Registry,
    floats: FloatTexts,
    live: Seq<String>,
    one_more: String,
)
    ensures
        ends_with(
            scrape_text(version, process, registry, floats, seq![]),
            "\r\n\r\n"@ + (build_info_text(version) + process_text(process) + registry_text(
                registry,
                floats,
            )),
        ),
        page_text(version, process, registry, floats, live.push(one_more)) == page_text(
            version,
            process,
            registry,
            floats,
            live,
        ) + one_more@,
        ends_with(
            scrape_text(version, process, registry, floats, live),
            "\r\n\r\n"@ + page_text(version, process, registry, floats, live),
        ),
{
    let fixed = build_info_text(version) + process_text(process) + registry_text(registry, floats);
    lemma_regroup(fixed, Seq::empty(), Seq::empty());
    law_response_carries_the_page(fixed);
    law_response_carries_the_page(page_text(version, process, registry, floats, live));
    let longer = live.push(one_more);
    lemma_joined_prefix(live, one_more, live.len());
    assert(longer[live.len() as int] == one_more);
    lemma_regroup(fixed, joined(live, live.len()), one_more@);
}

proof fn lemma_regroup(a: Seq<char>, b: Seq<char>, c: Seq<char>)
    ensures
        a + (b + c) == a + b + c,
        a + Seq::<char>::empty() == a,
{
    assert(a + (b + c) =~= a + b + c);
    assert(a + Seq::<char>::empty() =~= a);
}

proof fn lemma_joined_prefix(live: Seq<String>, one_more: String, n: nat)
    requires
        n <= live.len(),
    ensures
        joined(live.push(one_more), n) == joined(live, n),
    decreases n,
{
    if n > 0 {
        lemma_joined_prefix(live, one_more, (n - 1) as nat);
        assert(live.push(one_more)[n - 1] == live[n - 1]);
    }
}

} // verus!
