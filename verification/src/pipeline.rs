//! The media engine: the description of the dual-branch pipeline, the state of
//! its selector, and what its probes make of the traffic.
//!
//! The stream is split in two. One branch carries the frames untouched, the
//! other through the worker, and a selector downstream picks one of them.
//! Whoever runs the pipeline builds it from the description, attaches the
//! probes, and reports what they see.

use crate::metrics::{Counter, Gauge, GaugeF, Registry};
#[allow(unused_imports)]
use crate::metrics::{observes, skew_micros, wrapping_sum};
use crate::ports::{ActiveBranch, EngineError, EngineFailure};
#[allow(unused_imports)]
use crate::relay::bumped;
use crate::text::{chars_of, contains, push_decimal, same_text, starts_with};
#[allow(unused_imports)]
use crate::text::{
    decimal, ends_with, has_prefix, has_substring, has_value, lemma_ends_with, lemma_line_among,
    lemma_stands, lemma_substring_between, lemma_substring_of_sum, lemma_value_before,
    lemma_value_behind, maybe, occurs_at, stands_between, value_line, whole_lines,
};
use vstd::prelude::*;

verus! {

/// The video encoders whose output tells keyframes from the rest.
pub const VIDEO_ENCODER_FACTORIES: [&'static str; 11] = [
    "x264enc",
    "vtenc_h264",
    "vtenc_h264_hw",
    "openh264enc",
    "vp9enc",
    "nvh264enc",
    "vah264enc",
    "vaapih264enc",
    "qsvh264enc",
    "mfh264enc",
    "amfh264enc",
];

/// The pipeline that splits, selects and joins. Both branch queues leak, so
/// that what piles up on the branch that is not selected never blocks the
/// split; each link of the AI branch converts for itself; and the source of
/// that branch declares no maximum latency, which live sources need.
pub open spec fn description_text(
    source: Seq<char>,
    sink: Seq<char>,
    extra: Option<Seq<char>>,
) -> Seq<char> {
    source
        + " ! tee name=t t. ! queue name=q_pass leaky=downstream max-size-buffers=3 ! sel.sink_0 t. ! queue name=q_ai leaky=downstream max-size-buffers=3 ! videoconvert ! appsink name=ai_sink sync=false max-buffers=1 drop=true appsrc name=ai_src format=time is-live=true max-buffers=4 leaky-type=downstream min-latency=0 max-latency=-1 ! videoconvert ! sel.sink_1 input-selector name=sel sync-streams=false ! "@
        + sink + " "@ + match extra {
        Some(branch) => branch,
        None => ""@,
    }
}

/// An ASCII letter in lower case.
pub open spec fn ascii_lower(c: char) -> char {
    if 'A' <= c <= 'Z' {
        ((c as int) + 32) as char
    } else {
        c
    }
}

/// Whether a URI names the SRT scheme, in letters of any case.
pub open spec fn is_srt_uri(uri: Seq<char>) -> bool {
    &&& uri.len() >= 6
    &&& ascii_lower(uri[0]) == 's'
    &&& ascii_lower(uri[1]) == 'r'
    &&& ascii_lower(uri[2]) == 't'
    &&& uri[3] == ':'
    &&& uri[4] == '/'
    &&& uri[5] == '/'
}

/// Whether a text could break out of its quotes.
pub open spec fn breaks_quotes(s: Seq<char>) -> bool {
    exists|i: int| 0 <= i < s.len() && (#[trigger] s[i] == '"' || s[i] == '\\')
}

/// The source half of a pipeline for a URI.
pub open spec fn source_text(uri: Seq<char>) -> Result<Seq<char>, EngineFailure> {
    if !has_substring(uri, "://"@) {
        Err(
            EngineFailure::BuildFailed(
                "Input URI must include a scheme, such as srt://, udp://, rtp://, or ndi://"@,
            ),
        )
    } else if breaks_quotes(uri) {
        Err(EngineFailure::BuildFailed("Input URI cannot contain quotes or backslashes"@))
    } else if is_srt_uri(uri) {
        Ok(
            "srtsrc uri=\""@ + uri
                + "\" ! queue ! decodebin3 name=decoder decoder. ! queue ! video/x-raw ! videoconvert ! videoscale"@,
        )
    } else {
        Ok(
            "uridecodebin3 uri=\""@ + uri
                + "\" name=decoder decoder. ! queue ! video/x-raw ! videoconvert ! videoscale"@,
        )
    }
}

fn has_srt_scheme(cs: &Vec<char>) -> (r: bool)
    ensures
        r == is_srt_uri(cs@),
{
    if cs.len() < 6 {
        return false;
    }
    (cs[0] == 's' || cs[0] == 'S') && (cs[1] == 'r' || cs[1] == 'R') && (cs[2] == 't' || cs[2]
        == 'T') && cs[3] == ':' && cs[4] == '/' && cs[5] == '/'
}

fn has_quote(cs: &Vec<char>) -> (r: bool)
    ensures
        r == breaks_quotes(cs@),
{
    let mut i: usize = 0;
    while i < cs.len()
        invariant
            i <= cs@.len(),
            forall|k: int| 0 <= k < i ==> #[trigger] cs@[k] != '"' && cs@[k] != '\\',
        decreases cs@.len() - i,
    {
        if cs[i] == '"' || cs[i] == '\\' {
            return true;
        }
        i += 1;
    }
    false
}

/// A pipeline and the state of its selector.
#[derive(Debug)]
pub struct GStreamerEngine {
    pub description: String,
    pub current_branch: ActiveBranch,
    pub is_running: bool,
}

/// An engine before its first start, on the untouched frames.
pub open spec fn fresh(engine: GStreamerEngine, description: Seq<char>) -> bool {
    &&& engine.description@ == description
    &&& engine.current_branch == ActiveBranch::Passthrough
    &&& !engine.is_running
}

/// The pad of the selector that carries a branch.
pub open spec fn pad_of(branch: ActiveBranch) -> Seq<char> {
    match branch {
        ActiveBranch::Passthrough => "sink_0"@,
        ActiveBranch::AiProcess => "sink_1"@,
    }
}

/// What the end of an attempt to start or stop the pipeline does to the engine.
pub open spec fn settles(
    engine: GStreamerEngine,
    running: bool,
    outcome: Result<(), String>,
    r: Result<(), EngineError>,
    after: GStreamerEngine,
) -> bool {
    match outcome {
        Ok(_) => r is Ok && after == (GStreamerEngine { is_running: running, ..engine }),
        Err(text) => (r matches Err(e) && e@ == EngineFailure::StateChangeFailed(text@)) && after
            == engine,
    }
}

/// The engine once it was switched to a branch.
pub open spec fn switched(engine: GStreamerEngine, branch: ActiveBranch) -> GStreamerEngine {
    GStreamerEngine { current_branch: branch, ..engine }
}

/// What the engine could not find among its parts.
pub open spec fn missing_part(selector: bool, passthrough_pad: bool, ai_pad: bool) -> Option<
    Seq<char>,
> {
    if !selector {
        Some("Missing input-selector element"@)
    } else if !passthrough_pad {
        Some("Missing sink_0 pad"@)
    } else if !ai_pad {
        Some("Missing sink_1 pad"@)
    } else {
        None
    }
}

impl GStreamerEngine {
    /// The engine between a source and a sink.
    pub fn new(source_pipeline: &str, sink_pipeline: &str) -> (r: GStreamerEngine)
        ensures
            fresh(r, description_text(source_pipeline@, sink_pipeline@, None)),
    {
        Self::new_with_branch(source_pipeline, sink_pipeline, None)
    }

    /// The same with an extra branch beside the video, which links elements
    /// that the source and the sink name. Switching never touches it.
    pub fn new_with_branch(
        source_pipeline: &str,
        sink_pipeline: &str,
        extra_branch: Option<&str>,
    ) -> (r: GStreamerEngine)
        ensures
            fresh(r, description_text(source_pipeline@, sink_pipeline@, maybe(extra_branch))),
    {
        let mut description = source_pipeline.to_owned();
        description.append(
            " ! tee name=t t. ! queue name=q_pass leaky=downstream max-size-buffers=3 ! sel.sink_0 t. ! queue name=q_ai leaky=downstream max-size-buffers=3 ! videoconvert ! appsink name=ai_sink sync=false max-buffers=1 drop=true appsrc name=ai_src format=time is-live=true max-buffers=4 leaky-type=downstream min-latency=0 max-latency=-1 ! videoconvert ! sel.sink_1 input-selector name=sel sync-streams=false ! ",
        );
        description.append(sink_pipeline);
        description.append(" ");
        match extra_branch {
            Some(branch) => {
                description.append(branch);
            },
            None => {
                description.append("");
            },
        }
        GStreamerEngine {
            description,
            current_branch: ActiveBranch::Passthrough,
            is_running: false,
        }
    }

    /// The engine for an input URI.
    pub fn new_from_uri(uri: &str, sink_pipeline: &str, extra_branch: Option<&str>) -> (r: Result<
        GStreamerEngine,
        EngineError,
    >)
        ensures
            match (r, source_text(uri@)) {
                (Ok(engine), Ok(source)) => fresh(
                    engine,
                    description_text(source, sink_pipeline@, maybe(extra_branch)),
                ),
                (Err(e), Err(failure)) => e@ == failure,
                _ => false,
            },
    {
        match Self::uri_source_pipeline(uri) {
            Ok(source) => Ok(Self::new_with_branch(source.as_str(), sink_pipeline, extra_branch)),
            Err(e) => Err(e),
        }
    }

    /// The source half of a pipeline for a URI.
    pub fn uri_source_pipeline(uri: &str) -> (r: Result<String, EngineError>)
        ensures
            match (r, source_text(uri@)) {
                (Ok(text), Ok(source)) => text@ == source,
                (Err(e), Err(failure)) => e@ == failure,
                _ => false,
            },
    {
        if !contains(uri, "://") {
            return Err(
                EngineError::BuildFailed(
                    "Input URI must include a scheme, such as srt://, udp://, rtp://, or ndi://".to_owned(),
                ),
            );
        }
        let cs = chars_of(uri);
        if has_quote(&cs) {
            return Err(
                EngineError::BuildFailed(
                    "Input URI cannot contain quotes or backslashes".to_owned(),
                ),
            );
        }
        if has_srt_scheme(&cs) {
            let mut out = "srtsrc uri=\"".to_owned();
            out.append(uri);
            out.append(
                "\" ! queue ! decodebin3 name=decoder decoder. ! queue ! video/x-raw ! videoconvert ! videoscale",
            );
            return Ok(out);
        }
        let mut out = "uridecodebin3 uri=\"".to_owned();
        out.append(uri);
        out.append("\" name=decoder decoder. ! queue ! video/x-raw ! videoconvert ! videoscale");
        Ok(out)
    }

    /// Makes sure that the parts the engine switches by are there.
    pub fn check_parts(selector: bool, passthrough_pad: bool, ai_pad: bool) -> (r: Result<
        (),
        EngineError,
    >)
        ensures
            match missing_part(selector, passthrough_pad, ai_pad) {
                Some(text) => r matches Err(e) && e@ == EngineFailure::BuildFailed(text),
                None => r is Ok,
            },
    {
        if !selector {
            Err(EngineError::BuildFailed("Missing input-selector element".to_owned()))
        } else if !passthrough_pad {
            Err(EngineError::BuildFailed("Missing sink_0 pad".to_owned()))
        } else if !ai_pad {
            Err(EngineError::BuildFailed("Missing sink_1 pad".to_owned()))
        } else {
            Ok(())
        }
    }

    /// Selects a branch and names the selector's pad that carries it.
    pub fn set_active_branch(&mut self, branch: ActiveBranch) -> (r: &'static str)
        ensures
            r@ == pad_of(branch),
            *final(self) == switched(*old(self), branch),
    {
        self.current_branch = branch;
        match branch {
            ActiveBranch::Passthrough => "sink_0",
            ActiveBranch::AiProcess => "sink_1",
        }
    }

    pub fn current_branch(&self) -> (r: ActiveBranch)
        ensures
            r == self.current_branch,
    {
        self.current_branch
    }

    /// Records how an attempt to start the pipeline ended.
    pub fn start(&mut self, outcome: Result<(), String>) -> (r: Result<(), EngineError>)
        ensures
            settles(*old(self), true, outcome, r, *final(self)),
    {
        match outcome {
            Ok(_) => {
                self.is_running = true;
                Ok(())
            },
            Err(text) => Err(EngineError::StateChangeFailed(text)),
        }
    }

    /// Records how an attempt to stop the pipeline ended.
    pub fn stop(&mut self, outcome: Result<(), String>) -> (r: Result<(), EngineError>)
        ensures
            settles(*old(self), false, outcome, r, *final(self)),
    {
        match outcome {
            Ok(_) => {
                self.is_running = false;
                Ok(())
            },
            Err(text) => Err(EngineError::StateChangeFailed(text)),
        }
    }
}

/// What the probe at the input remembers.
#[derive(Debug, Clone, Copy, PartialEq, Eq, Structural)]
pub struct InputProbe {
    /// Whether a frame has come by.
    pub seen: bool,
    /// The latest timestamp, in nanoseconds.
    pub last_pts: Option<u64>,
}

/// Whether a timestamp does not follow its predecessor: backwards is always
/// wrong, and forwards once the gap passes one and three quarter frame
/// durations, where the duration is known.
pub open spec fn discontinuous(last: u64, pts: u64, duration: Option<u64>) -> bool {
    pts < last || (duration matches Some(d) && pts > last + d * 7 / 4)
}

/// What an arriving frame does to the probe at the input and to the metrics.
pub open spec fn arrives(
    probe: InputProbe,
    r: Registry,
    elapsed: u64,
    pts: Option<u64>,
    duration: Option<u64>,
    probe_after: InputProbe,
    after: Registry,
) -> bool {
    &&& probe_after.seen
    &&& probe_after.last_pts == match pts {
        Some(t) => Some(t),
        None => probe.last_pts,
    }
    &&& probe.seen ==> observes(r.input_interval_seconds, after.input_interval_seconds, elapsed)
    &&& !probe.seen ==> after.input_interval_seconds == r.input_interval_seconds
    &&& after == (Registry {
        input_frames: bumped(r.input_frames),
        input_interval_seconds: after.input_interval_seconds,
        pts_discontinuities: if pts is Some && probe.last_pts is Some && discontinuous(
            probe.last_pts->0,
            pts->0,
            duration,
        ) {
            bumped(r.pts_discontinuities)
        } else {
            r.pts_discontinuities
        },
        ..r
    })
}

impl InputProbe {
    pub fn new() -> (r: InputProbe)
        ensures
            !r.seen,
            r.last_pts is None,
    {
        InputProbe { seen: false, last_pts: None }
    }

    /// Counts an arriving frame. `elapsed` is the time since the frame before
    /// it, as the bit pattern of its seconds; of the first frame, which has none
    /// before it, no interval is observed.
    pub fn frame(
        &mut self,
        registry: &mut Registry,
        elapsed: u64,
        pts: Option<u64>,
        duration: Option<u64>,
    )
        ensures
            arrives(
                *old(self),
                *old(registry),
                elapsed,
                pts,
                duration,
                *final(self),
                *final(registry),
            ),
    {
        registry.input_frames.inc();
        if self.seen {
            registry.input_interval_seconds.observe_seconds(elapsed);
        }
        self.seen = true;
        if let Some(t) = pts {
            if let Some(last) = self.last_pts {
                let gapped: bool = match duration {
                    Some(d) => t as u128 > last as u128 + d as u128 * 7 / 4,
                    None => false,
                };
                if t < last || gapped {
                    registry.pts_discontinuities.inc();
                }
            }
            self.last_pts = Some(t);
        }
    }
}

/// A negotiated frame rate: the denominator of its fraction, and the bit
/// pattern of its quotient.
#[derive(Debug, Clone, Copy, PartialEq, Eq, Structural)]
pub struct FrameRate {
    pub denom: i32,
    pub quotient: u64,
}

/// What a negotiated format does to the metrics.
pub open spec fn negotiated(
    r: Registry,
    width: Option<i32>,
    height: Option<i32>,
    fps: Option<FrameRate>,
) -> Registry {
    Registry {
        input_width: match width {
            Some(w) => Gauge { value: w as i64 },
            None => r.input_width,
        },
        input_height: match height {
            Some(h) => Gauge { value: h as i64 },
            None => r.input_height,
        },
        input_fps: match fps {
            Some(f) => if f.denom != 0 {
                GaugeF { bits: f.quotient }
            } else {
                r.input_fps
            },
            None => r.input_fps,
        },
        ..r
    }
}

/// Records the format that the input negotiated, as far as it says.
pub fn record_caps(
    registry: &mut Registry,
    width: Option<i32>,
    height: Option<i32>,
    fps: Option<FrameRate>,
)
    ensures
        *final(registry) == negotiated(*old(registry), width, height, fps),
{
    if let Some(w) = width {
        registry.input_width.set(w as i64);
    }
    if let Some(h) = height {
        registry.input_height.set(h as i64);
    }
    if let Some(f) = fps {
        if f.denom != 0 {
            registry.input_fps.set(f.quotient);
        }
    }
}

/// What a frame that leaves the selector does to the metrics.
pub open spec fn after_output_frame(r: Registry) -> Registry {
    Registry { output_frames: bumped(r.output_frames), ..r }
}

/// Counts a frame that leaves the selector.
pub fn record_output_frame(registry: &mut Registry)
    ensures
        *final(registry) == after_output_frame(*old(registry)),
{
    registry.output_frames.inc();
}

/// Whether a factory makes one of the known video encoders.
pub open spec fn is_video_encoder(factory: Seq<char>) -> bool {
    exists|i: int| 0 <= i < 11 && (#[trigger] VIDEO_ENCODER_FACTORIES@[i])@ == factory
}

/// Whether keyframes are counted at the output of such an element.
pub fn counts_keyframes(factory: &str) -> (r: bool)
    ensures
        r == is_video_encoder(factory@),
{
    let mut i: usize = 0;
    while i < 11
        invariant
            i <= 11,
            forall|k: int| 0 <= k < i ==> (#[trigger] VIDEO_ENCODER_FACTORIES@[k])@ != factory@,
        decreases 11 - i,
    {
        if same_text(VIDEO_ENCODER_FACTORIES[i], factory) {
            assert(VIDEO_ENCODER_FACTORIES@[i as int]@ == factory@);
            return true;
        }
        i += 1;
    }
    false
}

/// Whether a factory makes one end of an SRT connection.
pub open spec fn is_srt_element(factory: Seq<char>) -> bool {
    factory == "srtsink"@ || factory == "srtsrc"@
}

/// Whether an element has SRT transport statistics.
pub fn has_srt_stats(factory: &str) -> (r: bool)
    ensures
        r == is_srt_element(factory@),
{
    same_text(factory, "srtsink") || same_text(factory, "srtsrc")
}

/// Whether what reaches the sink of this name leaves the process.
pub open spec fn leaves_the_process(sink_name: Seq<char>) -> bool {
    sink_name != "ai_sink"@
}

/// Whether what reaches a sink leaves the process. The tap of the AI branch
/// is a sink of the daemon's own.
pub fn counts_wire_bytes(sink_name: &str) -> (r: bool)
    ensures
        r == leaves_the_process(sink_name@),
{
    !same_text(sink_name, "ai_sink")
}

/// What a buffer at the output of an encoder does to the metrics.
pub open spec fn after_encoded(r: Registry, delta_unit: bool) -> Registry {
    if delta_unit {
        r
    } else {
        Registry { keyframes: bumped(r.keyframes), ..r }
    }
}

/// Counts a buffer at the output of an encoder, if it is a keyframe.
pub fn record_encoded(registry: &mut Registry, delta_unit: bool)
    ensures
        *final(registry) == after_encoded(*old(registry), delta_unit),
{
    if !delta_unit {
        registry.keyframes.inc();
    }
}

/// What a buffer that leaves the process does to the metrics.
pub open spec fn after_sink_buffer(r: Registry, size: u64) -> Registry {
    Registry {
        sink_bytes: Counter { value: wrapping_sum(r.sink_bytes.value, size as nat) as u64 },
        sink_buffers: bumped(r.sink_buffers),
        ..r
    }
}

/// Counts a buffer that leaves the process.
pub fn record_sink_buffer(registry: &mut Registry, size: u64)
    ensures
        *final(registry) == after_sink_buffer(*old(registry), size),
{
    registry.sink_bytes.add(size);
    registry.sink_buffers.inc();
}

/// The queues of the two branches.
#[derive(Debug, Clone, Copy, PartialEq, Eq, Structural)]
pub enum BranchQueue {
    Passthrough,
    Ai,
}

pub open spec fn queue_name(q: BranchQueue) -> Seq<char> {
    match q {
        BranchQueue::Passthrough => "q_pass"@,
        BranchQueue::Ai => "q_ai"@,
    }
}

impl BranchQueue {
    /// The name of the queue in the pipeline.
    pub fn name(&self) -> (r: &'static str)
        ensures
            r@ == queue_name(*self),
    {
        match self {
            BranchQueue::Passthrough => "q_pass",
            BranchQueue::Ai => "q_ai",
        }
    }
}

/// What a drop on a branch queue does to the metrics.
pub open spec fn after_overrun(r: Registry, queue: BranchQueue) -> Registry {
    match queue {
        BranchQueue::Passthrough => Registry {
            queue_overruns_pass: bumped(r.queue_overruns_pass),
            ..r
        },
        BranchQueue::Ai => Registry { queue_overruns_ai: bumped(r.queue_overruns_ai), ..r },
    }
}

/// Counts a drop on a branch queue: an old buffer made room for a new one.
pub fn record_overrun(registry: &mut Registry, queue: BranchQueue)
    ensures
        *final(registry) == after_overrun(*old(registry), queue),
{
    match queue {
        BranchQueue::Passthrough => registry.queue_overruns_pass.inc(),
        BranchQueue::Ai => registry.queue_overruns_ai.inc(),
    }
}

/// What the pipeline reports on its bus.
#[derive(Debug, Clone, Copy, PartialEq, Eq, Structural)]
pub enum BusMessage {
    Error,
    Warning,
    EndOfStream,
    Other,
}

/// What a message of the bus does to the metrics.
pub open spec fn after_bus_message(r: Registry, message: BusMessage) -> Registry {
    match message {
        BusMessage::Error => Registry { bus_errors: bumped(r.bus_errors), ..r },
        BusMessage::Warning => Registry { bus_warnings: bumped(r.bus_warnings), ..r },
        _ => r,
    }
}

/// Counts a message of the bus. Returns whether there are more to come.
pub fn record_bus_message(registry: &mut Registry, message: BusMessage) -> (r: bool)
    ensures
        r == (message != BusMessage::EndOfStream),
        *final(registry) == after_bus_message(*old(registry), message),
{
    match message {
        BusMessage::Error => {
            registry.bus_errors.inc();
            true
        },
        BusMessage::Warning => {
            registry.bus_warnings.inc();
            true
        },
        BusMessage::EndOfStream => false,
        BusMessage::Other => true,
    }
}

/// Which stream a pad of the muxer carries.
#[derive(Debug, Clone, Copy, PartialEq, Eq, Structural)]
pub enum MuxStream {
    /// The format is not negotiated yet.
    Undetermined,
    Video,
    Audio,
    Neither,
}

/// The stream that a media type stands for.
pub open spec fn stream_of(media_type: Seq<char>) -> MuxStream {
    if has_prefix(media_type, "video/"@) {
        MuxStream::Video
    } else if has_prefix(media_type, "audio/"@) {
        MuxStream::Audio
    } else {
        MuxStream::Neither
    }
}

/// What a pad carries, once a buffer came with the given media type. What has
/// been determined stays.
pub open spec fn stream_after(stream: MuxStream, media_type: Option<Seq<char>>) -> MuxStream {
    match (stream, media_type) {
        (MuxStream::Undetermined, Some(name)) => stream_of(name),
        _ => stream,
    }
}

/// What a buffer at the muxer does to the metrics. Running time is the clock
/// that both streams mux on; raw timestamps are not comparable.
pub open spec fn muxed(r: Registry, stream: MuxStream, running_time_ns: Option<u64>) -> Registry {
    match (stream, running_time_ns) {
        (MuxStream::Video, Some(t)) => Registry {
            last_video_pts_us: (t as int / 1000) as i64,
            ..r
        },
        (MuxStream::Audio, Some(t)) => Registry {
            last_audio_pts_us: (t as int / 1000) as i64,
            ..r
        },
        _ => r,
    }
}

/// The probe at one pad of the muxer.
#[derive(Debug, Clone, Copy, PartialEq, Eq, Structural)]
pub struct MuxProbe {
    pub stream: MuxStream,
}

impl MuxProbe {
    pub fn new() -> (r: MuxProbe)
        ensures
            r.stream == MuxStream::Undetermined,
    {
        MuxProbe { stream: MuxStream::Undetermined }
    }

    /// Records a buffer that enters the muxer.
    pub fn buffer(
        &mut self,
        registry: &mut Registry,
        media_type: Option<&str>,
        running_time_ns: Option<u64>,
    )
        ensures
            final(self).stream == stream_after(old(self).stream, maybe(media_type)),
            *final(registry) == muxed(*old(registry), final(self).stream, running_time_ns),
    {
        if self.stream == MuxStream::Undetermined {
            if let Some(name) = media_type {
                self.stream = if starts_with(name, "video/") {
                    MuxStream::Video
                } else if starts_with(name, "audio/") {
                    MuxStream::Audio
                } else {
                    MuxStream::Neither
                };
            }
        }
        if let Some(t) = running_time_ns {
            let us: i64 = (t / 1000) as i64;
            match self.stream {
                MuxStream::Video => {
                    registry.last_video_pts_us = us;
                },
                MuxStream::Audio => {
                    registry.last_audio_pts_us = us;
                },
                _ => {},
            }
        }
    }
}

/// The skew is the difference of the two streams' running times at the muxer,
/// whichever of them got there first.
pub proof fn law_skew_compares_running_times(r: Registry, video_ns: u64, audio_ns: u64)
    ensures
        skew_micros(muxed(muxed(r, MuxStream::Video, Some(video_ns)), MuxStream::Audio, Some(audio_ns)))
            == Some(video_ns as int / 1000 - audio_ns as int / 1000),
        skew_micros(muxed(muxed(r, MuxStream::Audio, Some(audio_ns)), MuxStream::Video, Some(video_ns)))
            == Some(video_ns as int / 1000 - audio_ns as int / 1000),
{
}

/// A pad's stream, once determined, never changes.
pub proof fn law_mux_stream_is_determined_once(
    stream: MuxStream,
    first: Seq<char>,
    later: Option<Seq<char>>,
)
    ensures
        stream_after(stream_after(stream, Some(first)), later) == stream_after(stream, Some(first)),
{
}

/// How a codec element is logged: its direction and its implementation.
pub open spec fn codec_label(klass: Seq<char>) -> Option<(Seq<char>, Seq<char>)> {
    let implementation = if has_substring(klass, "Hardware"@) {
        "hardware"@
    } else {
        "software"@
    };
    if !has_substring(klass, "Video"@) {
        None
    } else if has_substring(klass, "Decoder"@) {
        Some(("decoder"@, implementation))
    } else if has_substring(klass, "Encoder"@) {
        Some(("encoder"@, implementation))
    } else {
        None
    }
}

/// Tells a video decoder or encoder, and whether it works in hardware, from
/// the class of its factory.
pub fn log_codec_element(klass: &str) -> (r: Option<(&'static str, &'static str)>)
    ensures
        match r {
            Some((direction, implementation)) => codec_label(klass@) == Some(
                (direction@, implementation@),
            ),
            None => codec_label(klass@) is None,
        },
{
    if !contains(klass, "Video") {
        return None;
    }
    let direction: &'static str = if contains(klass, "Decoder") {
        "decoder"
    } else if contains(klass, "Encoder") {
        "encoder"
    } else {
        return None;
    };
    let implementation: &'static str = if contains(klass, "Hardware") {
        "hardware"
    } else {
        "software"
    };
    Some((direction, implementation))
}

/// The statistics of one SRT element, field by field. A field that is no
/// number has no text.
#[derive(Debug)]
pub struct SrtStats {
    pub element: String,
    pub fields: Vec<SrtField>,
}

/// One field of an element's statistics.
#[derive(Debug)]
pub struct SrtField {
    pub name: String,
    pub value: Option<String>,
}

/// How deep one branch queue is.
#[derive(Debug, Clone, Copy, PartialEq, Eq, Structural)]
pub struct QueueDepth {
    pub queue: BranchQueue,
    pub buffers: u32,
}

/// A field's name as a metric's name.
pub open spec fn metric_name(field: Seq<char>) -> Seq<char> {
    field.map_values(
        |c: char|
            if c == '-' {
                '_'
            } else {
                c
            },
    )
}

/// The line of one queue.
pub open spec fn depth_line(q: QueueDepth) -> Seq<char> {
    "braidpipe_queue_depth{queue=\""@ + queue_name(q.queue) + "\"} "@ + decimal(q.buffers as nat)
        + "\n"@
}

/// The lines of the first `n` queues.
pub open spec fn depth_lines(queues: Seq<QueueDepth>, n: nat) -> Seq<char>
    decreases n,
{
    if n == 0 {
        seq![]
    } else {
        depth_lines(queues, (n - 1) as nat) + depth_line(queues[n - 1])
    }
}

/// The queue depths, with their heading, where there are queues.
pub open spec fn depths_text(queues: Seq<QueueDepth>) -> Seq<char> {
    if queues.len() == 0 {
        seq![]
    } else {
        "# HELP braidpipe_queue_depth Buffers currently held per branch queue\n# TYPE braidpipe_queue_depth gauge\n"@
            + depth_lines(queues, queues.len())
    }
}

/// The line of one field; none for a field that is no number.
pub open spec fn field_line(element: Seq<char>, field: SrtField) -> Seq<char> {
    match field.value {
        Some(value) => "braidpipe_srt_"@ + metric_name(field.name@) + "{element=\""@ + element
            + "\"} "@ + value@ + "\n"@,
        None => seq![],
    }
}

/// The lines of the first `n` fields of an element.
pub open spec fn field_lines(element: Seq<char>, fields: Seq<SrtField>, n: nat) -> Seq<char>
    decreases n,
{
    if n == 0 {
        seq![]
    } else {
        field_lines(element, fields, (n - 1) as nat) + field_line(element, fields[n - 1])
    }
}

/// The lines of the first `n` elements.
pub open spec fn srt_lines(stats: Seq<SrtStats>, n: nat) -> Seq<char>
    decreases n,
{
    if n == 0 {
        seq![]
    } else {
        let last = stats[n - 1];
        srt_lines(stats, (n - 1) as nat) + field_lines(
            last.element@,
            last.fields@,
            last.fields@.len(),
        )
    }
}

/// The metrics that only exist while the pipeline runs.
pub open spec fn runtime_text(queues: Seq<QueueDepth>, stats: Seq<SrtStats>) -> Seq<char> {
    depths_text(queues) + srt_lines(stats, stats.len())
}

fn push_metric_name(out: &mut String, field: &str)
    ensures
        final(out)@ == old(out)@ + metric_name(field@),
{
    let cs = chars_of(field);
    let mut i: usize = 0;
    let ghost before = out@;
    assert(before + metric_name(field@).take(0) =~= before);
    while i < cs.len()
        invariant
            i <= cs@.len(),
            cs@ == field@,
            out@ == before + metric_name(field@).take(i as int),
        decreases cs@.len() - i,
    {
        if cs[i] == '-' {
            out.append("_");
            proof {
                reveal_strlit("_");
            }
        } else {
            out.append(field.substring_char(i, i + 1));
        }
        assert(out@ =~= before + metric_name(field@).take(i + 1));
        i += 1;
    }
    assert(metric_name(field@).take(i as int) =~= metric_name(field@));
}

fn push_field(out: &mut String, element: &str, field: &SrtField)
    ensures
        final(out)@ == old(out)@ + field_line(element@, *field),
{
    match &field.value {
        Some(value) => {
            out.append("braidpipe_srt_");
            push_metric_name(out, field.name.as_str());
            out.append("{element=\"");
            out.append(element);
            out.append("\"} ");
            out.append(value.as_str());
            out.append("\n");
            assert(out@ =~= old(out)@ + field_line(element@, *field));
        },
        None => {
            assert(out@ =~= old(out)@ + field_line(element@, *field));
        },
    }
}

fn push_element(out: &mut String, stats: &SrtStats)
    ensures
        final(out)@ == old(out)@ + field_lines(stats.element@, stats.fields@, stats.fields@.len()),
{
    let mut i: usize = 0;
    let ghost before = out@;
    assert(before + field_lines(stats.element@, stats.fields@, 0) =~= before);
    while i < stats.fields.len()
        invariant
            i <= stats.fields@.len(),
            out@ == before + field_lines(stats.element@, stats.fields@, i as nat),
        decreases stats.fields@.len() - i,
    {
        push_field(out, stats.element.as_str(), &stats.fields[i]);
        assert(out@ =~= before + field_lines(stats.element@, stats.fields@, (i + 1) as nat));
        i += 1;
    }
}

fn push_depths(out: &mut String, queues: &Vec<QueueDepth>)
    ensures
        final(out)@ == old(out)@ + depths_text(queues@),
{
    if queues.len() == 0 {
        assert(out@ + depths_text(queues@) =~= out@);
        return;
    }
    out.append(
        "# HELP braidpipe_queue_depth Buffers currently held per branch queue\n# TYPE braidpipe_queue_depth gauge\n",
    );
    let mut i: usize = 0;
    let ghost before = out@;
    assert(before + depth_lines(queues@, 0) =~= before);
    while i < queues.len()
        invariant
            i <= queues@.len(),
            out@ == before + depth_lines(queues@, i as nat),
        decreases queues@.len() - i,
    {
        let ghost start = out@;
        out.append("braidpipe_queue_depth{queue=\"");
        out.append(queues[i].queue.name());
        out.append("\"} ");
        push_decimal(out, queues[i].buffers as u64);
        out.append("\n");
        assert(out@ =~= start + depth_line(queues@[i as int]));
        assert(out@ =~= before + depth_lines(queues@, (i + 1) as nat));
        i += 1;
    }
    assert(out@ =~= old(out)@ + depths_text(queues@));
}

impl GStreamerEngine {
    /// Appends the metrics that only exist while the pipeline runs: the depths of
    /// the branch queues and the statistics of the SRT elements.
    pub fn collect_runtime_metrics(out: &mut String, queues: &Vec<QueueDepth>, stats: &Vec<SrtStats>)
        ensures
            final(out)@ == old(out)@ + runtime_text(queues@, stats@),
    {
        push_depths(out, queues);
        let mut i: usize = 0;
        let ghost before = out@;
        assert(before + srt_lines(stats@, 0) =~= before);
        while i < stats.len()
            invariant
                i <= stats@.len(),
                out@ == before + srt_lines(stats@, i as nat),
            decreases stats@.len() - i,
        {
            push_element(out, &stats[i]);
            assert(out@ =~= before + srt_lines(stats@, (i + 1) as nat));
            i += 1;
        }
        assert(out@ =~= old(out)@ + runtime_text(queues@, stats@));
    }
}

/// The middle of every pipeline, piece by piece.
spec fn middle_pieces() -> Seq<Seq<char>> {
    seq![
        " ! tee name=t "@,
        "t. ! queue name="@,
        "q_pass"@,
        " leaky=downstream max-size-buffers=3 ! sel."@,
        "sink_0"@,
        " "@,
        "t. ! queue name="@,
        "q_ai"@,
        " leaky=downstream max-size-buffers=3 ! videoconvert ! appsink name=ai_sink sync=false max-buffers=1 drop=true "@,
        "appsrc name=ai_src format=time is-live=true max-buffers=4 leaky-type=downstream min-latency=0 max-latency=-1 ! videoconvert ! sel."@,
        "sink_1"@,
        " input-selector name=sel sync-streams=false ! "@,
    ]
}

/// A text in twelve pieces.
spec fn twelve(m: Seq<Seq<char>>) -> Seq<char> {
    m[0] + m[1] + m[2] + m[3] + m[4] + m[5] + m[6] + m[7] + m[8] + m[9] + m[10] + m[11]
}

proof fn lemma_middle()
    ensures
        twelve(middle_pieces())
            == " ! tee name=t t. ! queue name=q_pass leaky=downstream max-size-buffers=3 ! sel.sink_0 t. ! queue name=q_ai leaky=downstream max-size-buffers=3 ! videoconvert ! appsink name=ai_sink sync=false max-buffers=1 drop=true appsrc name=ai_src format=time is-live=true max-buffers=4 leaky-type=downstream min-latency=0 max-latency=-1 ! videoconvert ! sel.sink_1 input-selector name=sel sync-streams=false ! "@,
{
    reveal_strlit(
        " ! tee name=t t. ! queue name=q_pass leaky=downstream max-size-buffers=3 ! sel.sink_0 t. ! queue name=q_ai leaky=downstream max-size-buffers=3 ! videoconvert ! appsink name=ai_sink sync=false max-buffers=1 drop=true appsrc name=ai_src format=time is-live=true max-buffers=4 leaky-type=downstream min-latency=0 max-latency=-1 ! videoconvert ! sel.sink_1 input-selector name=sel sync-streams=false ! ",
    );
    reveal_strlit(" ! tee name=t ");
    reveal_strlit("t. ! queue name=");
    reveal_strlit("q_pass");
    reveal_strlit(" leaky=downstream max-size-buffers=3 ! sel.");
    reveal_strlit("sink_0");
    reveal_strlit(" ");
    reveal_strlit("q_ai");
    reveal_strlit(
        " leaky=downstream max-size-buffers=3 ! videoconvert ! appsink name=ai_sink sync=false max-buffers=1 drop=true ",
    );
    reveal_strlit(
        "appsrc name=ai_src format=time is-live=true max-buffers=4 leaky-type=downstream min-latency=0 max-latency=-1 ! videoconvert ! sel.",
    );
    reveal_strlit("sink_1");
    reveal_strlit(" input-selector name=sel sync-streams=false ! ");
    assert(twelve(middle_pieces())
        =~= " ! tee name=t t. ! queue name=q_pass leaky=downstream max-size-buffers=3 ! sel.sink_0 t. ! queue name=q_ai leaky=downstream max-size-buffers=3 ! videoconvert ! appsink name=ai_sink sync=false max-buffers=1 drop=true appsrc name=ai_src format=time is-live=true max-buffers=4 leaky-type=downstream min-latency=0 max-latency=-1 ! videoconvert ! sel.sink_1 input-selector name=sel sync-streams=false ! "@);
}

/// A pipeline runs from its source through both branches into its sink, and
/// carries an extra branch, if it has one, beside them: it begins with the
/// source and ends with the sink and the extra branch.
pub proof fn law_pipeline_joins_its_ends(
    source: Seq<char>,
    sink: Seq<char>,
    extra: Option<Seq<char>>,
)
    ensures
        ({
            let text = description_text(source, sink, extra);
            &&& has_prefix(text, source + " ! tee name=t "@)
            &&& ends_with(
                text,
                " input-selector name=sel sync-streams=false ! "@ + sink + " "@ + match extra {
                    Some(branch) => branch,
                    None => ""@,
                },
            )
        }),
{
    lemma_middle();
    let m = middle_pieces();
    let end = match extra {
        Some(branch) => branch,
        None => ""@,
    };
    lemma_ends(source, m, sink, end);
}

proof fn lemma_ends(source: Seq<char>, m: Seq<Seq<char>>, sink: Seq<char>, end: Seq<char>)
    requires
        m.len() == 12,
    ensures
        has_prefix(source + twelve(m) + sink + " "@ + end, source + m[0]),
        ends_with(source + twelve(m) + sink + " "@ + end, m[11] + sink + " "@ + end),
{
    let text = source + twelve(m) + sink + " "@ + end;
    let rest = m[1] + m[2] + m[3] + m[4] + m[5] + m[6] + m[7] + m[8] + m[9] + m[10] + m[11];
    assert(twelve(m) =~= m[0] + rest);
    assert(text =~= (source + m[0]) + (rest + sink + " "@ + end));
    assert(text.subrange(0, (source + m[0]).len() as int) =~= source + m[0]);
    let front = m[0] + m[1] + m[2] + m[3] + m[4] + m[5] + m[6] + m[7] + m[8] + m[9] + m[10];
    lemma_ends_with(source + front, m[11] + sink + " "@ + end);
    assert(text =~= (source + front) + (m[11] + sink + " "@ + end));
}

/// Each branch leaves the split through its own queue and enters the selector
/// at the pad that selecting it activates: the untouched frames directly, the
/// others by way of the worker's tap and its source.
pub proof fn law_branches_run_to_their_pads(
    source: Seq<char>,
    sink: Seq<char>,
    extra: Option<Seq<char>>,
)
    ensures
        ({
            let text = description_text(source, sink, extra);
            let passthrough = "t. ! queue name="@ + queue_name(BranchQueue::Passthrough)
                + " leaky=downstream max-size-buffers=3 ! sel."@ + pad_of(
                ActiveBranch::Passthrough,
            ) + " "@;
            let tap = "t. ! queue name="@ + queue_name(BranchQueue::Ai)
                + " leaky=downstream max-size-buffers=3 ! videoconvert ! appsink name=ai_sink sync=false max-buffers=1 drop=true "@;
            let ai =
                "appsrc name=ai_src format=time is-live=true max-buffers=4 leaky-type=downstream min-latency=0 max-latency=-1 ! videoconvert ! sel."@
                + pad_of(ActiveBranch::AiProcess)
                + " input-selector name=sel sync-streams=false ! "@;
            &&& has_substring(text, passthrough)
            &&& has_substring(text, tap)
            &&& has_substring(text, ai)
            &&& pad_of(ActiveBranch::Passthrough) != pad_of(ActiveBranch::AiProcess)
            &&& queue_name(BranchQueue::Passthrough) != queue_name(BranchQueue::Ai)
        }),
{
    reveal_strlit("sink_0");
    reveal_strlit("sink_1");
    reveal_strlit("q_pass");
    reveal_strlit("q_ai");
    assert("sink_0"@[5] == '0' && "sink_1"@[5] == '1');
    assert("q_pass"@.len() == 6 && "q_ai"@.len() == 4);
    lemma_middle();
    let m = middle_pieces();
    let end = match extra {
        Some(branch) => branch,
        None => ""@,
    };
    lemma_routes(source, m, sink, end);
}

proof fn lemma_routes(source: Seq<char>, m: Seq<Seq<char>>, sink: Seq<char>, end: Seq<char>)
    requires
        m.len() == 12,
    ensures
        has_substring(
            source + twelve(m) + sink + " "@ + end,
            m[1] + m[2] + m[3] + m[4] + m[5],
        ),
        has_substring(source + twelve(m) + sink + " "@ + end, m[6] + m[7] + m[8]),
        has_substring(source + twelve(m) + sink + " "@ + end, m[9] + m[10] + m[11]),
{
    let text = source + twelve(m) + sink + " "@ + end;
    let a = m[1] + m[2] + m[3] + m[4] + m[5];
    let b = m[6] + m[7] + m[8];
    let c = m[9] + m[10] + m[11];
    let rest = sink + " "@ + end;
    lemma_substring_between(source + m[0], a, b + c + rest);
    assert(text =~= (source + m[0]) + a + (b + c + rest));
    lemma_substring_between(source + m[0] + a, b, c + rest);
    assert(text =~= (source + m[0] + a) + b + (c + rest));
    lemma_substring_between(source + m[0] + a + b, c, rest);
    assert(text =~= (source + m[0] + a + b) + c + rest);
}

/// A URI makes a source exactly if it has a scheme and cannot break out of its
/// quotes. The source then holds the URI in quotes, opened by the element of
/// its scheme, and names its decoder, from which the video goes on and an audio
/// branch can start.
pub proof fn law_sources_hold_their_uri(uri: Seq<char>)
    ensures
        source_text(uri) is Ok <==> has_substring(uri, "://"@) && forall|i: int|
            0 <= i < uri.len() ==> #[trigger] uri[i] != '"' && uri[i] != '\\',
        source_text(uri) matches Err(e) ==> e is BuildFailed,
        source_text(uri) matches Ok(text) ==> {
            &&& stands_between(text, " uri=\""@, uri, '"')
            &&& is_srt_uri(uri) ==> has_prefix(text, "srtsrc uri="@)
            &&& !is_srt_uri(uri) ==> has_prefix(text, "uridecodebin3 uri="@)
            &&& ends_with(
                text,
                " name=decoder decoder. ! queue ! video/x-raw ! videoconvert ! videoscale"@,
            )
        },
{
    reveal_strlit(" uri=\"");
    reveal_strlit("srtsrc");
    reveal_strlit("srtsrc uri=");
    reveal_strlit("srtsrc uri=\"");
    reveal_strlit("uridecodebin3");
    reveal_strlit("uridecodebin3 uri=");
    reveal_strlit("uridecodebin3 uri=\"");
    reveal_strlit(
        "\" ! queue ! decodebin3 name=decoder decoder. ! queue ! video/x-raw ! videoconvert ! videoscale",
    );
    reveal_strlit("\" ! queue ! decodebin3");
    reveal_strlit("\"");
    reveal_strlit(
        "\" name=decoder decoder. ! queue ! video/x-raw ! videoconvert ! videoscale",
    );
    reveal_strlit(" name=decoder decoder. ! queue ! video/x-raw ! videoconvert ! videoscale");
    let named = " name=decoder decoder. ! queue ! video/x-raw ! videoconvert ! videoscale"@;
    if source_text(uri) is Ok {
        let text = source_text(uri)->Ok_0;
        if is_srt_uri(uri) {
            let start = "srtsrc uri=\""@;
            let end =
                "\" ! queue ! decodebin3 name=decoder decoder. ! queue ! video/x-raw ! videoconvert ! videoscale"@;
            assert(start =~= "srtsrc"@ + " uri=\""@);
            assert(end =~= "\" ! queue ! decodebin3"@ + named);
            lemma_stands("srtsrc"@, " uri=\""@, uri, end, '"');
            assert(text.subrange(0, 11) =~= "srtsrc uri="@);
            lemma_ends_with(start + uri + "\" ! queue ! decodebin3"@, named);
            assert(text =~= start + uri + "\" ! queue ! decodebin3"@ + named);
        } else {
            let start = "uridecodebin3 uri=\""@;
            let end =
                "\" name=decoder decoder. ! queue ! video/x-raw ! videoconvert ! videoscale"@;
            assert(start =~= "uridecodebin3"@ + " uri=\""@);
            assert(end =~= "\""@ + named);
            lemma_stands("uridecodebin3"@, " uri=\""@, uri, end, '"');
            assert(text.subrange(0, 18) =~= "uridecodebin3 uri="@);
            lemma_ends_with(start + uri + "\""@, named);
            assert(text =~= start + uri + "\""@ + named);
        }
    }
}

/// The scheme is recognised in letters of any case, and nothing behind it
/// matters.
pub proof fn law_srt_scheme_in_any_case(a: char, b: char, c: char, rest: Seq<char>)
    ensures
        is_srt_uri(seq![a, b, c] + "://"@ + rest) <==> (a == 's' || a == 'S') && (b == 'r' || b
            == 'R') && (c == 't' || c == 'T'),
        is_srt_uri("srt://"@ + rest),
        is_srt_uri(rest) ==> rest.len() >= 6 && rest.subrange(3, 6) == "://"@,
{
    reveal_strlit("://");
    reveal_strlit("srt://");
    let uri = seq![a, b, c] + "://"@ + rest;
    assert(uri[0] == a && uri[1] == b && uri[2] == c && uri[3] == ':' && uri[4] == '/' && uri[5]
        == '/');
    if is_srt_uri(rest) {
        assert(rest.subrange(3, 6) =~= "://"@);
    }
    let plain = "srt://"@ + rest;
    assert(plain[0] == 's' && plain[1] == 'r' && plain[2] == 't' && plain[3] == ':' && plain[4]
        == '/' && plain[5] == '/');
}

/// The engine is complete exactly if all its parts are there, and otherwise
/// names the first that is not.
pub proof fn law_missing_parts_are_named(selector: bool, passthrough_pad: bool, ai_pad: bool)
    ensures
        missing_part(selector, passthrough_pad, ai_pad) is None <==> selector && passthrough_pad
            && ai_pad,
        selector && !passthrough_pad ==> missing_part(selector, passthrough_pad, ai_pad) == Some(
            "Missing "@ + pad_of(ActiveBranch::Passthrough) + " pad"@,
        ),
        selector && passthrough_pad && !ai_pad ==> missing_part(selector, passthrough_pad, ai_pad)
            == Some("Missing "@ + pad_of(ActiveBranch::AiProcess) + " pad"@),
{
    reveal_strlit("Missing ");
    reveal_strlit(" pad");
    reveal_strlit("sink_0");
    reveal_strlit("sink_1");
    reveal_strlit("Missing sink_0 pad");
    reveal_strlit("Missing sink_1 pad");
    assert("Missing sink_0 pad"@ =~= "Missing "@ + "sink_0"@ + " pad"@);
    assert("Missing sink_1 pad"@ =~= "Missing "@ + "sink_1"@ + " pad"@);
}

/// A timestamp follows its predecessor unless it lies before it or, where the
/// frame's duration is known, more than one and three quarter durations behind
/// it.
pub proof fn law_gaps_are_one_and_three_quarter_durations(last: u64, pts: u64, duration: Option<u64>)
    ensures
        discontinuous(last, pts, duration) <==> pts < last || (duration is Some && 4 * (pts - last)
            > 7 * duration->0),
{
}

/// Every frame that arrives is counted once, and an interval is observed for
/// every one but the first. A discontinuity is counted where a timestamp does
/// not follow the latest one before it; frames without a timestamp neither
/// count as one nor change what the next is held against.
pub proof fn law_arrivals_are_counted(
    probe: InputProbe,
    r: Registry,
    elapsed: u64,
    pts: Option<u64>,
    duration: Option<u64>,
    probe_after: InputProbe,
    after: Registry,
)
    requires
        arrives(probe, r, elapsed, pts, duration, probe_after, after),
    ensures
        after.input_frames.value == wrapping_sum(r.input_frames.value, 1),
        probe_after.seen,
        after.input_interval_seconds.count == wrapping_sum(
            r.input_interval_seconds.count,
            if probe.seen {
                1
            } else {
                0
            },
        ),
        probe.seen ==> after.input_interval_seconds.sum_us == wrapping_sum(
            r.input_interval_seconds.sum_us,
            crate::metrics::seconds_to_micros(elapsed),
        ),
        pts is None ==> probe_after.last_pts == probe.last_pts && after.pts_discontinuities
            == r.pts_discontinuities,
        pts is Some ==> probe_after.last_pts == pts,
        pts is Some && probe.last_pts is None ==> after.pts_discontinuities
            == r.pts_discontinuities,
        pts is Some && probe.last_pts is Some ==> after.pts_discontinuities.value == wrapping_sum(
            r.pts_discontinuities.value,
            if pts->0 < probe.last_pts->0 || (duration is Some && 4 * (pts->0 - probe.last_pts->0)
                > 7 * duration->0) {
                1
            } else {
                0
            },
        ),
        after == (Registry {
            input_frames: after.input_frames,
            input_interval_seconds: after.input_interval_seconds,
            pts_discontinuities: after.pts_discontinuities,
            ..r
        }),
{
    if pts is Some && probe.last_pts is Some {
        law_gaps_are_one_and_three_quarter_durations(probe.last_pts->0, pts->0, duration);
    }
}

/// What the input negotiates is on record as it said it, and what it left open
/// stays as it was; a frame rate over nothing is none.
pub proof fn law_format_is_recorded(
    r: Registry,
    width: Option<i32>,
    height: Option<i32>,
    fps: Option<FrameRate>,
)
    ensures
        ({
            let after = negotiated(r, width, height, fps);
            &&& width matches Some(w) ==> after.input_width.value == w
            &&& width is None ==> after.input_width == r.input_width
            &&& height matches Some(h) ==> after.input_height.value == h
            &&& height is None ==> after.input_height == r.input_height
            &&& fps matches Some(f) ==> if f.denom != 0 {
                after.input_fps.bits == f.quotient
            } else {
                after.input_fps == r.input_fps
            }
            &&& fps is None ==> after.input_fps == r.input_fps
            &&& after == (Registry {
                input_width: after.input_width,
                input_height: after.input_height,
                input_fps: after.input_fps,
                ..r
            })
        }),
{
}

/// What passes a probe is counted where it belongs, and nowhere else: a frame
/// at the selector, a keyframe at the encoder, a buffer with all its bytes at
/// the sink, a drop at its own queue, an error or a warning on the bus.
pub proof fn law_traffic_is_counted(
    r: Registry,
    delta_unit: bool,
    size: u64,
    queue: BranchQueue,
    message: BusMessage,
)
    ensures
        ({
            let after = after_output_frame(r);
            &&& after.output_frames.value == wrapping_sum(r.output_frames.value, 1)
            &&& after == (Registry { output_frames: after.output_frames, ..r })
        }),
        ({
            let after = after_encoded(r, delta_unit);
            &&& after.keyframes.value == wrapping_sum(
                r.keyframes.value,
                if delta_unit {
                    0
                } else {
                    1
                },
            )
            &&& after == (Registry { keyframes: after.keyframes, ..r })
        }),
        ({
            let after = after_sink_buffer(r, size);
            &&& after.sink_buffers.value == wrapping_sum(r.sink_buffers.value, 1)
            &&& after.sink_bytes.value == wrapping_sum(r.sink_bytes.value, size as nat)
            &&& after == (Registry {
                sink_buffers: after.sink_buffers,
                sink_bytes: after.sink_bytes,
                ..r
            })
        }),
        ({
            let after = after_overrun(r, queue);
            let on_ai = queue_name(queue) == "q_ai"@;
            &&& after.queue_overruns_ai.value == wrapping_sum(
                r.queue_overruns_ai.value,
                if on_ai {
                    1
                } else {
                    0
                },
            )
            &&& after.queue_overruns_pass.value == wrapping_sum(
                r.queue_overruns_pass.value,
                if on_ai {
                    0
                } else {
                    1
                },
            )
            &&& after == (Registry {
                queue_overruns_ai: after.queue_overruns_ai,
                queue_overruns_pass: after.queue_overruns_pass,
                ..r
            })
        }),
        ({
            let after = after_bus_message(r, message);
            &&& after.bus_errors.value == wrapping_sum(
                r.bus_errors.value,
                if message == BusMessage::Error {
                    1
                } else {
                    0
                },
            )
            &&& after.bus_warnings.value == wrapping_sum(
                r.bus_warnings.value,
                if message == BusMessage::Warning {
                    1
                } else {
                    0
                },
            )
            &&& after == (Registry {
                bus_errors: after.bus_errors,
                bus_warnings: after.bus_warnings,
                ..r
            })
        }),
{
    reveal_strlit("q_pass");
    reveal_strlit("q_ai");
    assert("q_pass"@.len() == 6 && "q_ai"@.len() == 4);
}

/// Keyframes are counted at every encoder that a sink can be built on, and not
/// at an audio encoder.
pub proof fn law_sink_encoders_count_keyframes(factory: Seq<char>)
    ensures
        crate::preset::factory_encoder(factory) is Some ==> is_video_encoder(factory),
        is_video_encoder("x264enc"@),
        !is_video_encoder("avenc_aac"@),
{
    let known = VIDEO_ENCODER_FACTORIES@;
    assert(known[0]@ == "x264enc"@);
    assert(known[1]@ == "vtenc_h264"@);
    assert(known[2]@ == "vtenc_h264_hw"@);
    assert(known[3]@ == "openh264enc"@);
    assert(known[4]@ == "vp9enc"@);
    assert(known[5]@ == "nvh264enc"@);
    assert(known[6]@ == "vah264enc"@);
    assert(known[7]@ == "vaapih264enc"@);
    assert(known[8]@ == "qsvh264enc"@);
    assert(known[9]@ == "mfh264enc"@);
    assert(known[10]@ == "amfh264enc"@);
    reveal_strlit("avenc_aac");
    reveal_strlit("x264enc");
    reveal_strlit("vtenc_h264");
    reveal_strlit("vtenc_h264_hw");
    reveal_strlit("openh264enc");
    reveal_strlit("vp9enc");
    reveal_strlit("nvh264enc");
    reveal_strlit("vah264enc");
    reveal_strlit("vaapih264enc");
    reveal_strlit("qsvh264enc");
    reveal_strlit("mfh264enc");
    reveal_strlit("amfh264enc");
    assert("avenc_aac"@[8] == 'c' && "avenc_aac"@.len() == 9);
    assert("avenc_aac"@[0] == 'a' && "avenc_aac"@[1] == 'v');
    assert forall|i: int| 0 <= i < 11 implies (#[trigger] known[i])@ != "avenc_aac"@ by {
        assert("vah264enc"@[0] == 'v' && "nvh264enc"@[0] == 'n' && "mfh264enc"@[0] == 'm');
    }
}

/// A media type says which stream a pad carries by what stands before the
/// slash, whatever stands behind it.
pub proof fn law_media_types_tell_the_stream(subtype: Seq<char>)
    ensures
        stream_after(MuxStream::Undetermined, Some("video/"@ + subtype)) == MuxStream::Video,
        stream_after(MuxStream::Undetermined, Some("audio/"@ + subtype)) == MuxStream::Audio,
        stream_after(MuxStream::Undetermined, Some("text/"@ + subtype)) == MuxStream::Neither,
        stream_after(MuxStream::Undetermined, None) == MuxStream::Undetermined,
{
    reveal_strlit("video/");
    reveal_strlit("audio/");
    reveal_strlit("text/");
    let (v, a, t) = ("video/"@ + subtype, "audio/"@ + subtype, "text/"@ + subtype);
    assert(v.subrange(0, 6) =~= "video/"@);
    assert(a.subrange(0, 6) =~= "audio/"@);
    assert(a[0] == 'a' && t[0] == 't');
    if has_prefix(a, "video/"@) {
        assert(a.subrange(0, 6)[0] == "video/"@[0]);
    }
    if has_prefix(t, "video/"@) {
        assert(t.subrange(0, 6)[0] == "video/"@[0]);
    }
    if has_prefix(t, "audio/"@) {
        assert(t.subrange(0, 6)[0] == "audio/"@[0]);
    }
}

/// A buffer at the muxer moves the clock of its own stream, to its running time
/// in whole microseconds, and nothing else.
pub proof fn law_muxed_buffers_move_their_clock(
    r: Registry,
    stream: MuxStream,
    running_time_ns: Option<u64>,
)
    ensures
        ({
            let after = muxed(r, stream, running_time_ns);
            &&& after == (Registry {
                last_video_pts_us: after.last_video_pts_us,
                last_audio_pts_us: after.last_audio_pts_us,
                ..r
            })
            &&& stream != MuxStream::Video ==> after.last_video_pts_us == r.last_video_pts_us
            &&& stream != MuxStream::Audio ==> after.last_audio_pts_us == r.last_audio_pts_us
            &&& running_time_ns is None ==> after == r
            &&& running_time_ns matches Some(t) ==> {
                &&& stream == MuxStream::Video ==> 1000 * after.last_video_pts_us <= t < 1000 * (
                after.last_video_pts_us + 1)
                &&& stream == MuxStream::Audio ==> 1000 * after.last_audio_pts_us <= t < 1000 * (
                after.last_audio_pts_us + 1)
            }
        }),
{
}

/// A codec element is logged exactly if it decodes or encodes video, as a
/// decoder where it could be either, and as hardware exactly if its class says
/// so.
pub proof fn law_codecs_are_labelled(klass: Seq<char>)
    ensures
        codec_label(klass) is Some <==> has_substring(klass, "Video"@) && (has_substring(
            klass,
            "Decoder"@,
        ) || has_substring(klass, "Encoder"@)),
        codec_label(klass) matches Some((direction, implementation)) ==> {
            &&& direction == if has_substring(klass, "Decoder"@) {
                "decoder"@
            } else {
                "encoder"@
            }
            &&& implementation == if has_substring(klass, "Hardware"@) {
                "hardware"@
            } else {
                "software"@
            }
        },
{
}

proof fn lemma_depth_lines(queues: Seq<QueueDepth>, i: int, n: nat)
    requires
        0 <= i < n <= queues.len(),
    ensures
        whole_lines(depth_lines(queues, n)),
        has_value(
            depth_lines(queues, n),
            "braidpipe_queue_depth{queue=\""@ + queue_name(queues[i].queue) + "\"}"@,
            decimal(queues[i].buffers as nat),
        ),
    decreases n,
{
    reveal_strlit("\n");
    reveal_strlit(" ");
    reveal_strlit("\"}");
    reveal_strlit("\"} ");
    let none = Seq::<char>::empty();
    let earlier = depth_lines(queues, (n - 1) as nat);
    let q = queues[n - 1];
    let series = "braidpipe_queue_depth{queue=\""@ + queue_name(q.queue) + "\"}"@;
    let value = decimal(q.buffers as nat);
    assert(depth_line(q) =~= value_line(series, value));
    if i == n - 1 {
        if n > 1 {
            lemma_depth_lines(queues, 0, (n - 1) as nat);
        }
        lemma_line_among(earlier, depth_line(q), none, series, value);
        assert(depth_lines(queues, n) =~= earlier + depth_line(q) + none);
    } else {
        lemma_depth_lines(queues, i, (n - 1) as nat);
        lemma_value_before(
            earlier,
            depth_line(q),
            "braidpipe_queue_depth{queue=\""@ + queue_name(queues[i].queue) + "\"}"@,
            decimal(queues[i].buffers as nat),
        );
    }
}

/// The depth of every branch queue is on the page, under the queue's name; and
/// without queues there is not even a heading.
pub proof fn law_queue_depths_are_reported(
    queues: Seq<QueueDepth>,
    stats: Seq<SrtStats>,
    i: int,
)
    requires
        0 <= i < queues.len(),
    ensures
        has_value(
            runtime_text(queues, stats),
            "braidpipe_queue_depth{queue=\""@ + queue_name(queues[i].queue) + "\"}"@,
            decimal(queues[i].buffers as nat),
        ),
        runtime_text(seq![], seq![]) == Seq::<char>::empty(),
{
    let head =
        "# HELP braidpipe_queue_depth Buffers currently held per branch queue\n# TYPE braidpipe_queue_depth gauge\n"@;
    reveal_strlit(
        "# HELP braidpipe_queue_depth Buffers currently held per branch queue\n# TYPE braidpipe_queue_depth gauge\n",
    );
    let series = "braidpipe_queue_depth{queue=\""@ + queue_name(queues[i].queue) + "\"}"@;
    let value = decimal(queues[i].buffers as nat);
    lemma_depth_lines(queues, i, queues.len());
    lemma_value_behind(head, depth_lines(queues, queues.len()), series, value);
    lemma_value_before(depths_text(queues), srt_lines(stats, stats.len()), series, value);
    assert(runtime_text(seq![], seq![]) =~= Seq::<char>::empty());
}

proof fn lemma_field_lines(element: Seq<char>, fields: Seq<SrtField>, i: int, n: nat)
    requires
        n <= fields.len(),
    ensures
        whole_lines(field_lines(element, fields, n)),
        0 <= i < n && fields[i].value is Some ==> has_value(
            field_lines(element, fields, n),
            "braidpipe_srt_"@ + metric_name(fields[i].name@) + "{element=\""@ + element + "\"}"@,
            fields[i].value->0@,
        ),
    decreases n,
{
    reveal_strlit("\n");
    reveal_strlit(" ");
    reveal_strlit("\"}");
    reveal_strlit("\"} ");
    if n > 0 {
        let none = Seq::<char>::empty();
        let earlier = field_lines(element, fields, (n - 1) as nat);
        let f = fields[n - 1];
        let line = field_line(element, f);
        lemma_field_lines(element, fields, i, (n - 1) as nat);
        if f.value is Some {
            let series = "braidpipe_srt_"@ + metric_name(f.name@) + "{element=\""@ + element
                + "\"}"@;
            assert(line =~= value_line(series, f.value->0@));
            if i == n - 1 {
                lemma_line_among(earlier, line, none, series, f.value->0@);
                assert(earlier + line =~= earlier + line + none);
            }
            assert((earlier + line).last() == line.last());
        } else {
            assert(earlier + line =~= earlier);
        }
        if 0 <= i < n - 1 && fields[i].value is Some {
            lemma_value_before(
                earlier,
                line,
                "braidpipe_srt_"@ + metric_name(fields[i].name@) + "{element=\""@ + element
                    + "\"}"@,
                fields[i].value->0@,
            );
        }
    }
}

proof fn lemma_srt_lines(stats: Seq<SrtStats>, i: int, j: int, n: nat)
    requires
        n <= stats.len(),
    ensures
        whole_lines(srt_lines(stats, n)),
        0 <= i < n && 0 <= j < stats[i].fields@.len() && stats[i].fields@[j].value is Some
            ==> has_value(
            srt_lines(stats, n),
            "braidpipe_srt_"@ + metric_name(stats[i].fields@[j].name@) + "{element=\""@
                + stats[i].element@ + "\"}"@,
            stats[i].fields@[j].value->0@,
        ),
    decreases n,
{
    if n > 0 {
        let earlier = srt_lines(stats, (n - 1) as nat);
        let last = stats[n - 1];
        let lines = field_lines(last.element@, last.fields@, last.fields@.len());
        lemma_srt_lines(stats, i, j, (n - 1) as nat);
        lemma_field_lines(last.element@, last.fields@, j, last.fields@.len());
        if lines.len() == 0 {
            assert(earlier + lines =~= earlier);
        } else {
            assert((earlier + lines).last() == lines.last());
        }
        if 0 <= i < n && 0 <= j < stats[i].fields@.len() && stats[i].fields@[j].value is Some {
            let series = "braidpipe_srt_"@ + metric_name(stats[i].fields@[j].name@)
                + "{element=\""@ + stats[i].element@ + "\"}"@;
            let value = stats[i].fields@[j].value->0@;
            if i == n - 1 {
                lemma_value_behind(earlier, lines, series, value);
            } else {
                lemma_value_before(earlier, lines, series, value);
            }
        }
    }
}

/// Every number among the statistics of an SRT element is on the page, under
/// the field's name, with underscores for its dashes, and the element's.
pub proof fn law_srt_statistics_are_reported(
    queues: Seq<QueueDepth>,
    stats: Seq<SrtStats>,
    i: int,
    j: int,
)
    requires
        0 <= i < stats.len(),
        0 <= j < stats[i].fields@.len(),
        stats[i].fields@[j].value is Some,
    ensures
        has_value(
            runtime_text(queues, stats),
            "braidpipe_srt_"@ + metric_name(stats[i].fields@[j].name@) + "{element=\""@
                + stats[i].element@ + "\"}"@,
            stats[i].fields@[j].value->0@,
        ),
        ({
            let (name, field) = (metric_name(stats[i].fields@[j].name@), stats[i].fields@[j].name@);
            &&& name.len() == field.len()
            &&& forall|k: int|
                0 <= k < field.len() ==> #[trigger] name[k] == if field[k] == '-' {
                    '_'
                } else {
                    field[k]
                }
        }),
{
    reveal_strlit(
        "# HELP braidpipe_queue_depth Buffers currently held per branch queue\n# TYPE braidpipe_queue_depth gauge\n",
    );
    let lines = srt_lines(stats, stats.len());
    lemma_srt_lines(stats, i, j, stats.len());
    let series = "braidpipe_srt_"@ + metric_name(stats[i].fields@[j].name@) + "{element=\""@
        + stats[i].element@ + "\"}"@;
    if queues.len() > 0 {
        lemma_depth_lines(queues, 0, queues.len());
        assert(depths_text(queues).last() == depth_lines(queues, queues.len()).last()) by {
            reveal_strlit("\n");
            assert(depth_line(queues[queues.len() - 1]).len() > 0);
        }
    }
    lemma_value_behind(depths_text(queues), lines, series, stats[i].fields@[j].value->0@);
}

/// An engine keeps its description for good. It runs from a start that worked
/// to a stop that worked; an attempt that failed leaves it as it was, and says
/// why. Switching branches neither starts nor stops it, and starting and
/// stopping switch no branch.
pub proof fn law_engine_runs_between_start_and_stop(
    engine: GStreamerEngine,
    outcome: Result<(), String>,
    r: Result<(), EngineError>,
    started: GStreamerEngine,
    stopped: GStreamerEngine,
    branch: ActiveBranch,
    description: Seq<char>,
)
    requires
        settles(engine, true, outcome, r, started),
        settles(started, false, outcome, r, stopped),
    ensures
        r is Ok <==> outcome is Ok,
        outcome is Ok ==> started.is_running && !stopped.is_running,
        outcome is Err ==> started == engine && stopped == engine && r->Err_0@
            == EngineFailure::StateChangeFailed(outcome->Err_0@),
        started.current_branch == engine.current_branch && stopped.current_branch
            == engine.current_branch,
        started.description == engine.description && stopped.description == engine.description,
        switched(engine, branch).current_branch == branch,
        switched(engine, branch).is_running == engine.is_running,
        switched(engine, branch).description == engine.description,
        fresh(engine, description) ==> !engine.is_running && engine.current_branch
            == ActiveBranch::Passthrough && engine.description@ == description,
        fresh(engine, description) ==> !fresh(switched(engine, ActiveBranch::AiProcess), description),
        fresh(engine, description) && outcome is Ok ==> !fresh(started, description)
            && fresh(stopped, description),
{
}

/// Of every pipeline the sink in the AI branch, and no other, is the daemon's
/// own: what reaches it does not leave the process. The elements with SRT
/// statistics are the two ends of a connection and nothing else.
pub proof fn law_only_the_ai_branch_stays_inside(
    source: Seq<char>,
    sink: Seq<char>,
    extra: Option<Seq<char>>,
    name: Seq<char>,
)
    ensures
        !leaves_the_process(name) ==> has_substring(
            description_text(source, sink, extra),
            "appsink name="@ + name + " "@,
        ),
        exists|inside: Seq<char>| !leaves_the_process(inside),
        is_srt_element(name) <==> exists|end: Seq<char>|
            #[trigger] ("srts"@ + end) == name && (end == "ink"@ || end == "rc"@),
{
    assert(!leaves_the_process("ai_sink"@));
    reveal_strlit("srts");
    reveal_strlit("srtsink");
    reveal_strlit("srtsrc");
    reveal_strlit("ink");
    reveal_strlit("rc");
    assert("srts"@ + "ink"@ =~= "srtsink"@);
    assert("srts"@ + "rc"@ =~= "srtsrc"@);
    lemma_ai_sink(source, sink, extra);
}

proof fn lemma_ai_sink(source: Seq<char>, sink: Seq<char>, extra: Option<Seq<char>>)
    ensures
        has_substring(
            description_text(source, sink, extra),
            "appsink name="@ + "ai_sink"@ + " "@,
        ),
{
    reveal_strlit(
        " ! tee name=t t. ! queue name=q_pass leaky=downstream max-size-buffers=3 ! sel.sink_0 t. ! queue name=q_ai leaky=downstream max-size-buffers=3 ! videoconvert ! appsink name=ai_sink sync=false max-buffers=1 drop=true appsrc name=ai_src format=time is-live=true max-buffers=4 leaky-type=downstream min-latency=0 max-latency=-1 ! videoconvert ! sel.sink_1 input-selector name=sel sync-streams=false ! ",
    );
    reveal_strlit("appsink name=");
    reveal_strlit("ai_sink");
    reveal_strlit(" ");
    let middle =
        " ! tee name=t t. ! queue name=q_pass leaky=downstream max-size-buffers=3 ! sel.sink_0 t. ! queue name=q_ai leaky=downstream max-size-buffers=3 ! videoconvert ! appsink name=ai_sink sync=false max-buffers=1 drop=true appsrc name=ai_src format=time is-live=true max-buffers=4 leaky-type=downstream min-latency=0 max-latency=-1 ! videoconvert ! sel.sink_1 input-selector name=sel sync-streams=false ! "@;
    let needle = "appsink name="@ + "ai_sink"@ + " "@;
    assert(middle.subrange(160, 181) =~= needle);
    assert(occurs_at(middle, needle, 160));
    let rest = match extra {
        Some(branch) => branch,
        None => ""@,
    };
    lemma_substring_of_sum(source, middle, needle);
    lemma_substring_of_sum(source + middle, sink, needle);
    lemma_substring_of_sum(source + middle + sink, " "@, needle);
    lemma_substring_of_sum(source + middle + sink + " "@, rest, needle);
}

} // verus!
