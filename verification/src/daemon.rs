//! What the daemon makes of its command line: the pipeline to build, who runs
//! the worker, and what is wrong with the combination.

use crate::pipeline::GStreamerEngine;
#[allow(unused_imports)]
use crate::pipeline::{
    description_text, fresh, law_pipeline_joins_its_ends, law_sources_hold_their_uri, source_text,
};
#[allow(unused_imports)]
use crate::ports::engine_message;
use crate::preset::{build_audio_branch, build_sink, AudioOverrides, Overrides};
#[allow(unused_imports)]
use crate::preset::{
    audio_rate_fits, audio_text, buffer_fits, keyframe_interval,
    law_sink_carries_the_profile, sink_profile, sink_text, Encoder,
};
use crate::text::{contains, same_text};
#[allow(unused_imports)]
use crate::text::{
    decimal, ends_with, has_prefix, has_substring, lemma_stands_before, lemma_stands_behind, maybe,
    occurs_at, stands_between,
};
use vstd::prelude::*;

verus! {

/// The source when none is named.
pub const DEFAULT_SOURCE: &'static str =
    "videotestsrc is-live=true pattern=ball ! video/x-raw,width=1280,height=720,framerate=30/1 ! videoconvert";

/// Bytes per pixel of the frames handed to the worker: red, green, blue.
pub const FRAME_CHANNELS: u8 = 3;

/// How many frames the ring holds.
pub const RING_SLOTS: u8 = 4;

/// How long the worker may take to end before it is forced to, in
/// milliseconds.
pub const WORKER_GRACE_MS: u64 = 2000;

/// The choices of the command line that shape the pipeline.
#[derive(Debug)]
pub struct Options {
    pub source: Option<String>,
    pub uri: Option<String>,
    pub sink: String,
    pub output: Option<String>,
    pub preset: String,
    pub encoder: Option<String>,
    pub audio: bool,
    pub fps: u32,
}

/// A text that may be absent, by view.
pub open spec fn owned(s: Option<String>) -> Option<Seq<char>> {
    match s {
        Some(t) => Some(t@),
        None => None,
    }
}

fn borrowed(s: &Option<String>) -> (r: Option<&str>)
    ensures
        maybe(r) == owned(*s),
{
    match s {
        Some(t) => Some(t.as_str()),
        None => None,
    }
}

/// What a word of the command line says about the GPU.
pub open spec fn gpu_choice(hw: Option<Seq<char>>) -> Option<bool> {
    match hw {
        Some(word) => Some(word != "off"@),
        None => None,
    }
}

/// Whether GPU mode was asked for on the command line, and what was asked.
pub fn hw_choice(hw: Option<&str>) -> (r: Option<bool>)
    ensures
        r == gpu_choice(maybe(hw)),
{
    match hw {
        Some(word) => Some(!same_text(word, "off")),
        None => None,
    }
}

/// The sink: built from a preset when there is an output to publish to, or as
/// it was given.
pub open spec fn sink_choice(o: Options, env: Overrides, detected: Option<Seq<char>>) -> Result<
    Seq<char>,
    Seq<char>,
> {
    match o.output {
        Some(output) => match sink_profile(o.preset@, owned(o.encoder), env, detected) {
            Ok(p) => sink_text(p, output@, o.fps),
            Err(e) => Err(e),
        },
        None => Ok(o.sink@),
    }
}

/// What is wrong with carrying audio. A generated branch links the source's
/// decoder to the sink's muxer by name, so both have to be there; a branch
/// written by hand may tap anything it likes.
pub open spec fn audio_complaint(o: Options, sink: Seq<char>, by_hand: bool) -> Option<Seq<char>> {
    if by_hand {
        None
    } else if o.uri is None && !(o.source is Some && has_substring(o.source->0@, "name=decoder"@)) {
        Some(
            "--audio needs a source exposing audio: use --uri, or name your demuxer/decodebin 'decoder' in --source"@,
        )
    } else if o.output is None && !has_substring(sink, "name=mux"@) {
        Some(
            "--audio needs a muxer to join: use --output, or name your muxer 'mux' in --sink"@,
        )
    } else {
        None
    }
}

/// The audio branch, if audio is carried at all.
pub open spec fn audio_choice(o: Options, env: AudioOverrides, sink: Seq<char>) -> Result<
    Option<Seq<char>>,
    Seq<char>,
> {
    if !o.audio {
        Ok(None)
    } else {
        match audio_text(None, env) {
            Err(e) => Err(e),
            Ok(branch) => match audio_complaint(o, sink, env.branch is Some) {
                Some(text) => Err(text),
                None => Ok(Some(branch)),
            },
        }
    }
}

/// The source half of the pipeline: a URI's, or the given one, or the default.
pub open spec fn source_choice(o: Options) -> Result<Seq<char>, Seq<char>> {
    match o.uri {
        Some(uri) => match source_text(uri@) {
            Ok(source) => Ok(source),
            Err(failure) => Err(engine_message(failure)),
        },
        None => match o.source {
            Some(source) => Ok(source@),
            None => Ok(DEFAULT_SOURCE@),
        },
    }
}

/// The whole pipeline, or the first thing that is wrong: with the sink, then
/// with the audio, then with the source.
pub open spec fn plan_text(
    o: Options,
    env: Overrides,
    audio_env: AudioOverrides,
    detected: Option<Seq<char>>,
) -> Result<Seq<char>, Seq<char>> {
    match sink_choice(o, env, detected) {
        Err(e) => Err(e),
        Ok(sink) => match audio_choice(o, audio_env, sink) {
            Err(e) => Err(e),
            Ok(extra) => match source_choice(o) {
                Err(e) => Err(e),
                Ok(source) => Ok(description_text(source, sink, extra)),
            },
        },
    }
}

/// Whether every number that the plan computes stays within its type.
pub open spec fn plan_in_range(
    o: Options,
    env: Overrides,
    audio_env: AudioOverrides,
    detected: Option<Seq<char>>,
) -> bool {
    &&& o.output is Some ==> match sink_profile(o.preset@, owned(o.encoder), env, detected) {
        Ok(p) => buffer_fits(p),
        Err(_) => true,
    }
    &&& o.audio ==> audio_rate_fits(audio_env)
}

fn check_audio(o: &Options, sink: &str, by_hand: bool) -> (r: Option<String>)
    ensures
        owned(r) == audio_complaint(*o, sink@, by_hand),
{
    if by_hand {
        return None;
    }
    let named_decoder: bool = match &o.source {
        Some(s) => contains(s.as_str(), "name=decoder"),
        None => false,
    };
    if o.uri.is_none() && !named_decoder {
        return Some(
            "--audio needs a source exposing audio: use --uri, or name your demuxer/decodebin 'decoder' in --source".to_owned(),
        );
    }
    if o.output.is_none() && !contains(sink, "name=mux") {
        return Some(
            "--audio needs a muxer to join: use --output, or name your muxer 'mux' in --sink".to_owned(),
        );
    }
    None
}

/// Plans the pipeline that the command line and the environment ask for.
/// `detected` is the factory of the best hardware encoder at hand.
pub fn plan(
    o: &Options,
    env: &Overrides,
    audio_env: &AudioOverrides,
    detected: Option<&str>,
) -> (r: Result<GStreamerEngine, String>)
    requires
        plan_in_range(*o, *env, *audio_env, maybe(detected)),
    ensures
        match (r, plan_text(*o, *env, *audio_env, maybe(detected))) {
            (Ok(engine), Ok(text)) => fresh(engine, text),
            (Err(e), Err(text)) => e@ == text,
            _ => false,
        },
{
    let sink: String = match &o.output {
        Some(output) => match build_sink(
            o.preset.as_str(),
            output.as_str(),
            o.fps,
            borrowed(&o.encoder),
            env,
            detected,
        ) {
            Ok(text) => text,
            Err(e) => {
                return Err(e);
            },
        },
        None => o.sink.clone(),
    };
    let extra: Option<String> = if o.audio {
        let branch = match build_audio_branch(None, audio_env) {
            Ok(text) => text,
            Err(e) => {
                return Err(e);
            },
        };
        match check_audio(o, sink.as_str(), audio_env.branch.is_some()) {
            Some(e) => {
                return Err(e);
            },
            None => {},
        }
        Some(branch)
    } else {
        None
    };
    match &o.uri {
        Some(uri) => match GStreamerEngine::new_from_uri(
            uri.as_str(),
            sink.as_str(),
            borrowed(&extra),
        ) {
            Ok(engine) => Ok(engine),
            Err(e) => Err(e.message()),
        },
        None => match &o.source {
            Some(source) => Ok(
                GStreamerEngine::new_with_branch(source.as_str(), sink.as_str(), borrowed(&extra)),
            ),
            None => Ok(
                GStreamerEngine::new_with_branch(DEFAULT_SOURCE, sink.as_str(), borrowed(&extra)),
            ),
        },
    }
}

/// With `--uri` and `--output`, audio always has both ends to link to: the
/// combination is never what is wrong.
pub proof fn law_audio_links_from_uri_to_output(
    o: Options,
    env: Overrides,
    audio_env: AudioOverrides,
    detected: Option<Seq<char>>,
)
    requires
        o.audio,
        o.uri is Some,
        o.output is Some,
        sink_choice(o, env, detected) is Ok,
        audio_text(None, audio_env) is Ok,
        source_choice(o) is Ok,
    ensures
        plan_text(o, env, audio_env, detected) is Ok,
{
}

/// Without audio the audio settings of the environment are not even read.
pub proof fn law_audio_settings_matter_only_with_audio(
    o: Options,
    env: Overrides,
    one: AudioOverrides,
    other: AudioOverrides,
    detected: Option<Seq<char>>,
)
    requires
        !o.audio,
    ensures
        plan_text(o, env, one, detected) == plan_text(o, env, other, detected),
{
}

/// Who runs the worker.
#[derive(Debug, Clone, Copy, PartialEq, Eq, Structural)]
pub enum WorkerMode {
    /// Nobody: the stream stays on the untouched frames.
    PassthroughOnly,
    /// Someone else; the daemon never signals it.
    External,
    /// The daemon, which spawns and supervises it.
    Managed,
}

/// Who runs the worker, as the command line says.
pub open spec fn mode_for(passthrough_only: bool, external_worker: bool) -> WorkerMode {
    if passthrough_only {
        WorkerMode::PassthroughOnly
    } else if external_worker {
        WorkerMode::External
    } else {
        WorkerMode::Managed
    }
}

/// Decides who runs the worker.
pub fn worker_mode(passthrough_only: bool, external_worker: bool) -> (r: WorkerMode)
    ensures
        r == mode_for(passthrough_only, external_worker),
{
    if passthrough_only {
        WorkerMode::PassthroughOnly
    } else if external_worker {
        WorkerMode::External
    } else {
        WorkerMode::Managed
    }
}

/// The path of the worker's interpreter.
pub open spec fn interpreter(virtualenv: bool) -> Seq<char> {
    if virtualenv {
        ".venv/bin/python3"@
    } else {
        "python3"@
    }
}

/// The interpreter of the worker: the project's own environment where there
/// is one.
pub fn python_exe(virtualenv: bool) -> (r: &'static str)
    ensures
        r@ == interpreter(virtualenv),
{
    if virtualenv {
        ".venv/bin/python3"
    } else {
        "python3"
    }
}

/// The stages of a run, each one piece of work for whoever runs the daemon.
#[derive(Debug, Clone, Copy, PartialEq, Eq, Structural)]
pub enum Stage {
    CreateRing,
    BindBridge,
    /// Accept workers from other machines.
    ListenRemote,
    AttachRelay,
    StartWorker,
    /// Derive from its frames whether someone else's worker is running.
    WatchExternal,
    ServeMetrics,
    MarkUp,
    /// From here on a shutdown that hangs is cut short.
    ArmGuard,
    StartEngine,
    AwaitSignal,
    MarkDown,
    StopEngine,
    /// The watchdog starts, switches and stops the engine.
    RunWatchdog,
    StopWorker,
    /// Let the final state be scraped.
    Drain,
    Finished,
    /// A stage failed, and the run is over.
    Failed,
}

/// Where a run begins.
pub open spec fn first_stage(mode: WorkerMode) -> Stage {
    if mode == WorkerMode::PassthroughOnly {
        Stage::ServeMetrics
    } else {
        Stage::CreateRing
    }
}

/// What follows a stage that succeeded.
pub open spec fn stage_after(mode: WorkerMode, remote: bool, stage: Stage) -> Stage {
    match stage {
        Stage::CreateRing => Stage::BindBridge,
        Stage::BindBridge => if remote {
            Stage::ListenRemote
        } else {
            Stage::AttachRelay
        },
        Stage::ListenRemote => Stage::AttachRelay,
        Stage::AttachRelay => if mode == WorkerMode::External {
            Stage::WatchExternal
        } else {
            Stage::StartWorker
        },
        Stage::StartWorker => Stage::ServeMetrics,
        Stage::WatchExternal => Stage::ServeMetrics,
        Stage::ServeMetrics => Stage::MarkUp,
        Stage::MarkUp => Stage::ArmGuard,
        Stage::ArmGuard => if mode == WorkerMode::PassthroughOnly {
            Stage::StartEngine
        } else {
            Stage::RunWatchdog
        },
        Stage::StartEngine => Stage::AwaitSignal,
        Stage::AwaitSignal => Stage::MarkDown,
        Stage::MarkDown => Stage::StopEngine,
        Stage::StopEngine => Stage::Drain,
        Stage::RunWatchdog => if mode == WorkerMode::Managed {
            Stage::StopWorker
        } else {
            Stage::Drain
        },
        Stage::StopWorker => Stage::Drain,
        Stage::Drain => Stage::Finished,
        Stage::Finished => Stage::Finished,
        Stage::Failed => Stage::Failed,
    }
}

/// What follows a stage. One that fails ends the run.
pub open spec fn next_stage(mode: WorkerMode, remote: bool, stage: Stage, ok: bool) -> Stage {
    if ok || stage == Stage::Finished {
        stage_after(mode, remote, stage)
    } else {
        Stage::Failed
    }
}

/// One run of the daemon.
#[derive(Debug, Clone, Copy, PartialEq, Eq, Structural)]
pub struct Run {
    pub mode: WorkerMode,
    /// Whether workers from other machines are accepted.
    pub remote: bool,
    pub stage: Stage,
}

impl Run {
    pub fn new(mode: WorkerMode, remote: bool) -> (r: Run)
        ensures
            r == (Run { mode, remote, stage: first_stage(mode) }),
    {
        let stage = if mode == WorkerMode::PassthroughOnly {
            Stage::ServeMetrics
        } else {
            Stage::CreateRing
        };
        Run { mode, remote, stage }
    }

    /// Takes the outcome of the current stage and moves on.
    pub fn advance(&mut self, ok: bool)
        ensures
            *final(self) == (Run {
                stage: next_stage(old(self).mode, old(self).remote, old(self).stage, ok),
                ..*old(self)
            }),
    {
        if !ok && self.stage != Stage::Finished {
            self.stage = Stage::Failed;
            return;
        }
        self.stage = match self.stage {
            Stage::CreateRing => Stage::BindBridge,
            Stage::BindBridge => if self.remote {
                Stage::ListenRemote
            } else {
                Stage::AttachRelay
            },
            Stage::ListenRemote => Stage::AttachRelay,
            Stage::AttachRelay => if self.mode == WorkerMode::External {
                Stage::WatchExternal
            } else {
                Stage::StartWorker
            },
            Stage::StartWorker => Stage::ServeMetrics,
            Stage::WatchExternal => Stage::ServeMetrics,
            Stage::ServeMetrics => Stage::MarkUp,
            Stage::MarkUp => Stage::ArmGuard,
            Stage::ArmGuard => if self.mode == WorkerMode::PassthroughOnly {
                Stage::StartEngine
            } else {
                Stage::RunWatchdog
            },
            Stage::StartEngine => Stage::AwaitSignal,
            Stage::AwaitSignal => Stage::MarkDown,
            Stage::MarkDown => Stage::StopEngine,
            Stage::StopEngine => Stage::Drain,
            Stage::RunWatchdog => if self.mode == WorkerMode::Managed {
                Stage::StopWorker
            } else {
                Stage::Drain
            },
            Stage::StopWorker => Stage::Drain,
            Stage::Drain => Stage::Finished,
            Stage::Finished => Stage::Finished,
            Stage::Failed => Stage::Failed,
        };
    }
}

/// The stage of a run after `outcomes`.
pub open spec fn stage_reached(mode: WorkerMode, remote: bool, outcomes: Seq<bool>) -> Stage
    decreases outcomes.len(),
{
    if outcomes.len() == 0 {
        first_stage(mode)
    } else {
        next_stage(
            mode,
            remote,
            stage_reached(mode, remote, outcomes.drop_last()),
            outcomes.last(),
        )
    }
}

/// The stages that touch a worker or the memory shared with one.
pub open spec fn involves_worker(stage: Stage) -> bool {
    ||| stage == Stage::CreateRing
    ||| stage == Stage::BindBridge
    ||| stage == Stage::ListenRemote
    ||| stage == Stage::AttachRelay
    ||| stage == Stage::StartWorker
    ||| stage == Stage::WatchExternal
    ||| stage == Stage::RunWatchdog
    ||| stage == Stage::StopWorker
}

/// Passthrough only means the media path alone: no run in that mode, whatever
/// happens, comes near a worker or shared memory.
pub proof fn law_passthrough_involves_no_worker(remote: bool, outcomes: Seq<bool>)
    ensures
        !involves_worker(stage_reached(WorkerMode::PassthroughOnly, remote, outcomes)),
    decreases outcomes.len(),
{
    if outcomes.len() > 0 {
        law_passthrough_involves_no_worker(remote, outcomes.drop_last());
    }
}

/// A worker that someone else runs is neither started nor stopped.
pub proof fn law_external_worker_is_left_alone(remote: bool, outcomes: Seq<bool>)
    ensures
        ({
            let stage = stage_reached(WorkerMode::External, remote, outcomes);
            stage != Stage::StartWorker && stage != Stage::StopWorker
        }),
    decreases outcomes.len(),
{
    if outcomes.len() > 0 {
        law_external_worker_is_left_alone(remote, outcomes.drop_last());
    }
}

/// How many stages there are at most before a run is over.
pub open spec fn stages_ahead(stage: Stage) -> nat {
    match stage {
        Stage::CreateRing => 13,
        Stage::BindBridge => 12,
        Stage::ListenRemote => 11,
        Stage::AttachRelay => 10,
        Stage::StartWorker => 9,
        Stage::WatchExternal => 9,
        Stage::ServeMetrics => 8,
        Stage::MarkUp => 7,
        Stage::ArmGuard => 6,
        Stage::StartEngine => 5,
        Stage::AwaitSignal => 4,
        Stage::MarkDown => 3,
        Stage::StopEngine => 2,
        Stage::RunWatchdog => 3,
        Stage::StopWorker => 2,
        Stage::Drain => 1,
        Stage::Finished => 0,
        Stage::Failed => 0,
    }
}

/// Every stage brings a run nearer to its end, and a run that is over stays
/// over.
pub proof fn law_runs_end(mode: WorkerMode, remote: bool, stage: Stage, ok: bool)
    ensures
        stage != Stage::Finished && stage != Stage::Failed ==> stages_ahead(
            next_stage(mode, remote, stage, ok),
        ) < stages_ahead(stage),
        next_stage(mode, remote, Stage::Finished, ok) == Stage::Finished,
        next_stage(mode, remote, Stage::Failed, ok) == Stage::Failed,
{
}

/// The stage of a run after `n` stages that all succeeded.
pub open spec fn stage_at(mode: WorkerMode, remote: bool, n: nat) -> Stage {
    stage_reached(mode, remote, Seq::new(n, |i: int| true))
}

/// Whether a run whose stages all succeed comes to a stage.
pub open spec fn comes_to(mode: WorkerMode, remote: bool, stage: Stage) -> bool {
    exists|n: nat| #[trigger] stage_at(mode, remote, n) == stage
}

/// Whether a run whose stages all succeed comes to one stage and later to
/// another.
pub open spec fn comes_before(
    mode: WorkerMode,
    remote: bool,
    first: Stage,
    second: Stage,
) -> bool {
    exists|m: nat, n: nat|
        m < n && #[trigger] stage_at(mode, remote, m) == first && #[trigger] stage_at(
            mode,
            remote,
            n,
        ) == second
}

proof fn lemma_next_stage(mode: WorkerMode, remote: bool, n: nat)
    ensures
        stage_at(mode, remote, 0) == first_stage(mode),
        stage_at(mode, remote, n + 1) == stage_after(mode, remote, stage_at(mode, remote, n)),
{
    let longer = Seq::new(n + 1, |i: int| true);
    assert(longer.drop_last() =~= Seq::new(n, |i: int| true));
    assert(Seq::new(0, |i: int| true) =~= Seq::<bool>::empty());
}

proof fn lemma_first_stages(mode: WorkerMode, remote: bool)
    ensures
        stage_at(mode, remote, 0) == first_stage(mode),
        stage_at(mode, remote, 1) == stage_after(mode, remote, stage_at(mode, remote, 0)),
        stage_at(mode, remote, 2) == stage_after(mode, remote, stage_at(mode, remote, 1)),
        stage_at(mode, remote, 3) == stage_after(mode, remote, stage_at(mode, remote, 2)),
        stage_at(mode, remote, 4) == stage_after(mode, remote, stage_at(mode, remote, 3)),
        stage_at(mode, remote, 5) == stage_after(mode, remote, stage_at(mode, remote, 4)),
        stage_at(mode, remote, 6) == stage_after(mode, remote, stage_at(mode, remote, 5)),
        stage_at(mode, remote, 7) == stage_after(mode, remote, stage_at(mode, remote, 6)),
        stage_at(mode, remote, 8) == stage_after(mode, remote, stage_at(mode, remote, 7)),
        stage_at(mode, remote, 9) == stage_after(mode, remote, stage_at(mode, remote, 8)),
        stage_at(mode, remote, 10) == stage_after(mode, remote, stage_at(mode, remote, 9)),
        stage_at(mode, remote, 11) == stage_after(mode, remote, stage_at(mode, remote, 10)),
{
    lemma_next_stage(mode, remote, 0);
    lemma_next_stage(mode, remote, 1);
    lemma_next_stage(mode, remote, 2);
    lemma_next_stage(mode, remote, 3);
    lemma_next_stage(mode, remote, 4);
    lemma_next_stage(mode, remote, 5);
    lemma_next_stage(mode, remote, 6);
    lemma_next_stage(mode, remote, 7);
    lemma_next_stage(mode, remote, 8);
    lemma_next_stage(mode, remote, 9);
    lemma_next_stage(mode, remote, 10);
}

proof fn lemma_precedes(mode: WorkerMode, remote: bool, m: nat, n: nat)
    requires
        m < n,
    ensures
        comes_before(mode, remote, stage_at(mode, remote, m), stage_at(mode, remote, n)),
{
}

/// A run with a worker, whoever runs it, lays out the memory, binds the control
/// channel, attaches the relay, and has the watchdog run the stream, in this
/// order and before the end. It accepts workers from other machines exactly if
/// asked to. A worker of its own is started before the watchdog runs and
/// stopped after it; someone else's is only watched. The engine is never run
/// without the watchdog.
pub proof fn law_worker_runs_go_through_the_watchdog(mode: WorkerMode, remote: bool)
    requires
        mode != WorkerMode::PassthroughOnly,
    ensures
        stage_at(mode, remote, 0) == Stage::CreateRing,
        comes_before(mode, remote, Stage::CreateRing, Stage::BindBridge),
        comes_before(mode, remote, Stage::BindBridge, Stage::AttachRelay),
        comes_before(mode, remote, Stage::AttachRelay, Stage::ServeMetrics),
        comes_before(mode, remote, Stage::ServeMetrics, Stage::MarkUp),
        comes_before(mode, remote, Stage::MarkUp, Stage::ArmGuard),
        comes_before(mode, remote, Stage::ArmGuard, Stage::RunWatchdog),
        comes_before(mode, remote, Stage::RunWatchdog, Stage::Drain),
        comes_before(mode, remote, Stage::Drain, Stage::Finished),
        remote ==> comes_before(mode, remote, Stage::BindBridge, Stage::ListenRemote)
            && comes_before(mode, remote, Stage::ListenRemote, Stage::AttachRelay),
        !remote ==> !comes_to(mode, remote, Stage::ListenRemote),
        mode == WorkerMode::Managed ==> {
            &&& comes_before(mode, remote, Stage::AttachRelay, Stage::StartWorker)
            &&& comes_before(mode, remote, Stage::StartWorker, Stage::RunWatchdog)
            &&& comes_before(mode, remote, Stage::RunWatchdog, Stage::StopWorker)
            &&& comes_before(mode, remote, Stage::StopWorker, Stage::Finished)
            &&& !comes_to(mode, remote, Stage::WatchExternal)
        },
        mode == WorkerMode::External ==> {
            &&& comes_before(mode, remote, Stage::AttachRelay, Stage::WatchExternal)
            &&& comes_before(mode, remote, Stage::WatchExternal, Stage::RunWatchdog)
            &&& !comes_to(mode, remote, Stage::StartWorker)
            &&& !comes_to(mode, remote, Stage::StopWorker)
        },
        !comes_to(mode, remote, Stage::StartEngine),
        !comes_to(mode, remote, Stage::AwaitSignal),
        !comes_to(mode, remote, Stage::MarkDown),
        !comes_to(mode, remote, Stage::StopEngine),
        !comes_to(mode, remote, Stage::Failed),
{
    lemma_first_stages(mode, remote);
    let k: nat = if remote {
        1
    } else {
        0
    };
    let w: nat = if mode == WorkerMode::Managed {
        1
    } else {
        0
    };
    let at = |n: nat| stage_at(mode, remote, n);
    assert(at(0) == Stage::CreateRing);
    assert(at(1) == Stage::BindBridge);
    assert(remote ==> at(2) == Stage::ListenRemote);
    assert(at(2 + k) == Stage::AttachRelay);
    assert(at(3 + k) == if w == 1 {
        Stage::StartWorker
    } else {
        Stage::WatchExternal
    });
    assert(at(4 + k) == Stage::ServeMetrics);
    assert(at(5 + k) == Stage::MarkUp);
    assert(at(6 + k) == Stage::ArmGuard);
    assert(at(7 + k) == Stage::RunWatchdog);
    assert(w == 1 ==> at(8 + k) == Stage::StopWorker);
    assert(at(8 + k + w) == Stage::Drain);
    assert(at(9 + k + w) == Stage::Finished);
    lemma_precedes(mode, remote, 0, 1);
    lemma_precedes(mode, remote, 1, 2);
    lemma_precedes(mode, remote, 1, 2 + k);
    lemma_precedes(mode, remote, 2, 2 + k + 1);
    lemma_precedes(mode, remote, 2, 3);
    lemma_precedes(mode, remote, 2 + k, 3 + k);
    lemma_precedes(mode, remote, 2 + k, 4 + k);
    lemma_precedes(mode, remote, 3 + k, 7 + k);
    lemma_precedes(mode, remote, 4 + k, 5 + k);
    lemma_precedes(mode, remote, 5 + k, 6 + k);
    lemma_precedes(mode, remote, 6 + k, 7 + k);
    lemma_precedes(mode, remote, 7 + k, 8 + k);
    lemma_precedes(mode, remote, 7 + k, 8 + k + w);
    lemma_precedes(mode, remote, 8 + k, 9 + k + w);
    lemma_precedes(mode, remote, 8 + k + w, 9 + k + w);
    assert forall|n: nat| belongs(mode, remote, #[trigger] stage_at(mode, remote, n)) by {
        lemma_stages_belong(mode, remote, n);
    }
}

/// The stages that a run can be in while everything succeeds.
spec fn belongs(mode: WorkerMode, remote: bool, stage: Stage) -> bool {
    let engine = stage == Stage::StartEngine || stage == Stage::AwaitSignal || stage
        == Stage::MarkDown || stage == Stage::StopEngine;
    &&& stage != Stage::Failed
    &&& engine ==> mode == WorkerMode::PassthroughOnly
    &&& involves_worker(stage) ==> mode != WorkerMode::PassthroughOnly
    &&& stage == Stage::ListenRemote ==> remote
    &&& stage == Stage::WatchExternal ==> mode == WorkerMode::External
    &&& stage == Stage::StartWorker ==> mode == WorkerMode::Managed
    &&& stage == Stage::StopWorker ==> mode == WorkerMode::Managed
}

proof fn lemma_stages_belong(mode: WorkerMode, remote: bool, n: nat)
    ensures
        belongs(mode, remote, stage_at(mode, remote, n)),
    decreases n,
{
    if n == 0 {
        lemma_next_stage(mode, remote, 0);
    } else {
        lemma_stages_belong(mode, remote, (n - 1) as nat);
        lemma_next_stage(mode, remote, (n - 1) as nat);
    }
}

/// A run without a worker starts the engine itself, waits for the signal, and
/// stops the engine once the daemon counts as down.
pub proof fn law_passthrough_runs_the_engine(remote: bool)
    ensures
        ({
            let mode = WorkerMode::PassthroughOnly;
            &&& stage_at(mode, remote, 0) == Stage::ServeMetrics
            &&& comes_before(mode, remote, Stage::ServeMetrics, Stage::MarkUp)
            &&& comes_before(mode, remote, Stage::MarkUp, Stage::ArmGuard)
            &&& comes_before(mode, remote, Stage::ArmGuard, Stage::StartEngine)
            &&& comes_before(mode, remote, Stage::StartEngine, Stage::AwaitSignal)
            &&& comes_before(mode, remote, Stage::AwaitSignal, Stage::MarkDown)
            &&& comes_before(mode, remote, Stage::MarkDown, Stage::StopEngine)
            &&& comes_before(mode, remote, Stage::StopEngine, Stage::Drain)
            &&& comes_before(mode, remote, Stage::Drain, Stage::Finished)
            &&& !comes_to(mode, remote, Stage::RunWatchdog)
        }),
{
    let mode = WorkerMode::PassthroughOnly;
    lemma_first_stages(mode, remote);
    let at = |n: nat| stage_at(mode, remote, n);
    assert(at(0) == Stage::ServeMetrics);
    assert(at(1) == Stage::MarkUp);
    assert(at(2) == Stage::ArmGuard);
    assert(at(3) == Stage::StartEngine);
    assert(at(4) == Stage::AwaitSignal);
    assert(at(5) == Stage::MarkDown);
    assert(at(6) == Stage::StopEngine);
    assert(at(7) == Stage::Drain);
    assert(at(8) == Stage::Finished);
    lemma_precedes(mode, remote, 0, 1);
    lemma_precedes(mode, remote, 1, 2);
    lemma_precedes(mode, remote, 2, 3);
    lemma_precedes(mode, remote, 3, 4);
    lemma_precedes(mode, remote, 4, 5);
    lemma_precedes(mode, remote, 5, 6);
    lemma_precedes(mode, remote, 6, 7);
    lemma_precedes(mode, remote, 7, 8);
    assert forall|n: nat| belongs(mode, remote, #[trigger] stage_at(mode, remote, n)) by {
        lemma_stages_belong(mode, remote, n);
    }
}

/// No run comes to the same stage twice, but for the end.
pub proof fn law_stages_come_once(mode: WorkerMode, remote: bool, m: nat, n: nat)
    requires
        m < n,
        stage_at(mode, remote, m) == stage_at(mode, remote, n),
    ensures
        stage_at(mode, remote, m) == Stage::Finished,
{
    if stage_at(mode, remote, m) != Stage::Finished {
        lemma_stages_ahead_fall(mode, remote, m, n);
    }
}

proof fn lemma_stages_ahead_fall(mode: WorkerMode, remote: bool, m: nat, n: nat)
    requires
        m < n,
        stage_at(mode, remote, m) != Stage::Finished,
    ensures
        stages_ahead(stage_at(mode, remote, n)) < stages_ahead(stage_at(mode, remote, m)),
    decreases n - m,
{
    lemma_stages_belong(mode, remote, m);
    lemma_next_stage(mode, remote, m);
    law_runs_end(mode, remote, stage_at(mode, remote, m), true);
    if m + 1 < n {
        if stage_at(mode, remote, m + 1) == Stage::Finished {
            lemma_finished_stays(mode, remote, m + 1, n);
        } else {
            lemma_stages_ahead_fall(mode, remote, m + 1, n);
        }
    }
}

proof fn lemma_finished_stays(mode: WorkerMode, remote: bool, m: nat, n: nat)
    requires
        m <= n,
        stage_at(mode, remote, m) == Stage::Finished,
    ensures
        stage_at(mode, remote, n) == Stage::Finished,
    decreases n - m,
{
    if m < n {
        lemma_next_stage(mode, remote, m);
        lemma_finished_stays(mode, remote, m + 1, n);
    }
}

/// Whether stage `i` of a run failed before the run had finished.
pub open spec fn fails_at(mode: WorkerMode, remote: bool, outcomes: Seq<bool>, i: int) -> bool {
    &&& 0 <= i < outcomes.len()
    &&& !outcomes[i]
    &&& stage_reached(mode, remote, outcomes.take(i)) != Stage::Finished
}

/// A stage that fails ends the run there and then, and only that does; what
/// has finished cannot fail any more.
pub proof fn law_a_failed_stage_ends_the_run(mode: WorkerMode, remote: bool, outcomes: Seq<bool>)
    ensures
        stage_reached(mode, remote, outcomes) == Stage::Failed <==> exists|i: int|
            fails_at(mode, remote, outcomes, i),
    decreases outcomes.len(),
{
    if outcomes.len() > 0 {
        let last = outcomes.len() - 1;
        let front = outcomes.drop_last();
        law_a_failed_stage_ends_the_run(mode, remote, front);
        assert(outcomes.take(last) =~= front);
        assert forall|i: int| 0 <= i < last implies fails_at(mode, remote, outcomes, i) == fails_at(
            mode,
            remote,
            front,
            i,
        ) by {
            assert(outcomes[i] == front[i]);
            assert(outcomes.take(i) =~= front.take(i));
        }
        let before = stage_reached(mode, remote, front);
        assert(fails_at(mode, remote, outcomes, last) == (!outcomes.last() && before
            != Stage::Finished));
        if before == Stage::Failed {
            let i = choose|i: int| fails_at(mode, remote, front, i);
            assert(fails_at(mode, remote, outcomes, i));
        } else {
            assert(stage_after(mode, remote, before) != Stage::Failed);
            if exists|i: int| fails_at(mode, remote, outcomes, i) {
                let i = choose|i: int| fails_at(mode, remote, outcomes, i);
                assert(i < last ==> fails_at(mode, remote, front, i));
            }
        }
    }
}

/// The daemon has a worker unless it was told to pass the frames through, and
/// runs that worker itself unless told that someone else does. So the worker is
/// started exactly where nobody else runs one.
pub proof fn law_who_runs_the_worker(passthrough_only: bool, external_worker: bool, remote: bool)
    ensures
        ({
            let mode = mode_for(passthrough_only, external_worker);
            &&& comes_to(mode, remote, Stage::RunWatchdog) <==> !passthrough_only
            &&& comes_to(mode, remote, Stage::StartWorker) <==> !passthrough_only
                && !external_worker
            &&& comes_to(mode, remote, Stage::StartEngine) <==> passthrough_only
        }),
{
    let mode = mode_for(passthrough_only, external_worker);
    if passthrough_only {
        law_passthrough_runs_the_engine(remote);
        assert forall|n: nat| belongs(mode, remote, #[trigger] stage_at(mode, remote, n)) by {
            lemma_stages_belong(mode, remote, n);
        }
    } else {
        law_worker_runs_go_through_the_watchdog(mode, remote);
    }
}

/// The GPU is refused by the word `off` alone, and without a word nothing is
/// said about it.
pub proof fn law_only_off_refuses_the_gpu(word: Seq<char>)
    ensures
        gpu_choice(Some(word)) == Some(false) <==> word == "off"@,
        gpu_choice(Some(word)) is Some,
        gpu_choice(None) is None,
{
}

/// The worker runs on a Python 3, and on that of the project's own environment
/// exactly if there is one.
pub proof fn law_own_environment_is_preferred(virtualenv: bool)
    ensures
        ends_with(interpreter(virtualenv), "python3"@),
        has_prefix(interpreter(virtualenv), ".venv/"@) <==> virtualenv,
{
    reveal_strlit("python3");
    reveal_strlit(".venv/");
    reveal_strlit(".venv/bin/python3");
    assert(".venv/bin/python3"@.subrange(10, 17) =~= "python3"@);
    assert("python3"@.subrange(0, 7) =~= "python3"@);
    assert(".venv/bin/python3"@.subrange(0, 6) =~= ".venv/"@);
    if has_prefix("python3"@, ".venv/"@) {
        assert("python3"@.subrange(0, 6)[0] == 'p');
        assert(".venv/"@[0] == '.');
    }
}

/// Each end of the pipeline is taken from where the command line says, and what
/// it overrides does not matter: a URI makes a given source moot, an output a
/// given sink, and without an output none of the encoder's settings counts.
pub proof fn law_plans_take_one_of_each_end(
    o: Options,
    env: Overrides,
    audio_env: AudioOverrides,
    detected: Option<Seq<char>>,
    other: Options,
    other_env: Overrides,
    other_detected: Option<Seq<char>>,
)
    ensures
        o.uri is Some ==> plan_text(o, env, audio_env, detected) == plan_text(
            Options { source: other.source, ..o },
            env,
            audio_env,
            detected,
        ),
        o.output is Some ==> plan_text(o, env, audio_env, detected) == plan_text(
            Options { sink: other.sink, ..o },
            env,
            audio_env,
            detected,
        ),
        o.output is None ==> plan_text(o, env, audio_env, detected) == plan_text(
            Options { preset: other.preset, encoder: other.encoder, fps: other.fps, ..o },
            other_env,
            audio_env,
            other_detected,
        ),
{
}

/// A plan is a pipeline from the source that was asked for to the sink that was
/// asked for: it begins with the URI's source, or else the given one, or else
/// the test picture, and it ends with the sink, given as it is or made for the
/// output, and behind it the audio branch where audio is carried.
pub proof fn law_plans_run_from_source_to_sink(
    o: Options,
    env: Overrides,
    audio_env: AudioOverrides,
    detected: Option<Seq<char>>,
)
    requires
        plan_text(o, env, audio_env, detected) is Ok,
    ensures
        ({
            let text = plan_text(o, env, audio_env, detected)->Ok_0;
            let selector = " input-selector name=sel sync-streams=false ! "@;
            let audio = if o.audio {
                audio_text(None, audio_env)->Ok_0
            } else {
                ""@
            };
            &&& o.uri matches Some(uri) ==> stands_between(text, " uri=\""@, uri@, '"')
            &&& o.uri is None && o.source is Some ==> has_prefix(
                text,
                o.source->0@ + " ! tee name=t "@,
            )
            &&& o.uri is None && o.source is None ==> has_prefix(
                text,
                "videotestsrc is-live=true "@,
            )
            &&& o.output is None ==> ends_with(text, selector + o.sink@ + " "@ + audio)
            &&& o.output matches Some(output) ==> ({
                let profile = sink_profile(o.preset@, owned(o.encoder), env, detected);
                let sink = sink_text(profile->Ok_0, output@, o.fps);
                &&& profile is Ok
                &&& sink is Ok
                &&& ends_with(text, selector + sink->Ok_0 + " "@ + audio)
            })
        }),
{
    let text = plan_text(o, env, audio_env, detected)->Ok_0;
    let sink = sink_choice(o, env, detected)->Ok_0;
    let extra = audio_choice(o, audio_env, sink)->Ok_0;
    let source = source_choice(o)->Ok_0;
    law_pipeline_joins_its_ends(source, sink, extra);
    if o.uri is Some {
        let uri = o.uri->0@;
        law_sources_hold_their_uri(uri);
        lemma_beginning_goes_on(text, source, " uri=\""@, uri);
    } else if o.source is None {
        reveal_strlit("videotestsrc is-live=true ");
        reveal_strlit(
            "videotestsrc is-live=true pattern=ball ! video/x-raw,width=1280,height=720,framerate=30/1 ! videoconvert",
        );
        let word = "videotestsrc is-live=true "@;
        assert(source == "videotestsrc is-live=true pattern=ball ! video/x-raw,width=1280,height=720,framerate=30/1 ! videoconvert"@);
        assert(source.subrange(0, 26) =~= word);
        let head = source + " ! tee name=t "@;
        assert(text.subrange(0, head.len() as int) == head);
        assert(text.subrange(0, 26) =~= word) by {
            assert forall|i: int| 0 <= i < 26 implies text[i] == word[i] by {
                assert(text[i] == text.subrange(0, head.len() as int)[i]);
                assert(source.subrange(0, 26)[i] == source[i]);
            }
        }
    }
}

proof fn lemma_beginning_goes_on(
    text: Seq<char>,
    source: Seq<char>,
    mark: Seq<char>,
    value: Seq<char>,
)
    requires
        has_prefix(text, source + " ! tee name=t "@),
        stands_between(source, mark, value, '"'),
    ensures
        stands_between(text, mark, value, '"'),
{
    let head = source + " ! tee name=t "@;
    let rest = text.skip(source.len() as int);
    assert(text.subrange(0, head.len() as int) == head);
    assert(text =~= source + rest) by {
        assert forall|i: int| 0 <= i < source.len() implies text[i] == source[i] by {
            assert(text[i] == text.subrange(0, head.len() as int)[i]);
        }
    }
    lemma_stands_before(source, rest, mark, value, '"');
}

/// Audio that is not written by hand is carried only where both of its ends are
/// there: a decoder to start from and a muxer to end in. It is refused exactly
/// if one of them is missing.
pub proof fn law_audio_needs_both_ends(
    o: Options,
    env: Overrides,
    audio_env: AudioOverrides,
    detected: Option<Seq<char>>,
)
    requires
        o.audio,
        audio_env.branch is None,
        sink_choice(o, env, detected) is Ok,
        audio_text(None, audio_env) is Ok,
        source_choice(o) is Ok,
    ensures
        plan_text(o, env, audio_env, detected) is Ok <==> ({
            &&& o.uri is Some || (o.source is Some && has_substring(
                o.source->0@,
                "name=decoder"@,
            ))
            &&& o.output is Some || has_substring(o.sink@, "name=mux"@)
        }),
{
}

/// The first thing that is wrong is what a plan reports: with the sink, then
/// with the audio, then with the source.
pub proof fn law_plans_report_the_first_complaint(
    o: Options,
    env: Overrides,
    audio_env: AudioOverrides,
    detected: Option<Seq<char>>,
)
    ensures
        ({
            let sink = sink_choice(o, env, detected);
            let plan = plan_text(o, env, audio_env, detected);
            &&& sink is Err ==> plan == sink
            &&& sink is Ok && o.audio && audio_text(None, audio_env) is Err ==> plan == audio_text(
                None,
                audio_env,
            )
            &&& sink is Ok && !o.audio ==> plan is Ok == source_choice(o) is Ok
        }),
{
}

/// A plan with an output sends there at the frame rate and the bitrate that its
/// options come to.
pub proof fn law_plans_carry_their_rates(
    o: Options,
    env: Overrides,
    audio_env: AudioOverrides,
    detected: Option<Seq<char>>,
)
    requires
        o.output is Some,
        plan_text(o, env, audio_env, detected) is Ok,
    ensures
        ({
            let text = plan_text(o, env, audio_env, detected)->Ok_0;
            let p = sink_profile(o.preset@, owned(o.encoder), env, detected)->Ok_0;
            &&& sink_profile(o.preset@, owned(o.encoder), env, detected) is Ok
            &&& stands_between(text, " bitrate="@, decimal(p.bitrate_kbps as nat), ' ')
            &&& p.encoder == Encoder::X264 ==> stands_between(
                text,
                " key-int-max="@,
                decimal(keyframe_interval(p, o.fps)),
                ' ',
            )
        }),
{
    let p = sink_profile(o.preset@, owned(o.encoder), env, detected)->Ok_0;
    let sink = sink_choice(o, env, detected)->Ok_0;
    law_sink_carries_the_profile(p, o.output->0@, o.fps);
    let source = source_choice(o)->Ok_0;
    let extra = audio_choice(o, audio_env, sink)->Ok_0;
    let bitrate = decimal(p.bitrate_kbps as nat);
    lemma_sink_in_description(source, sink, extra, " bitrate="@, bitrate);
    if p.encoder == Encoder::X264 {
        let key = decimal(keyframe_interval(p, o.fps));
        lemma_sink_in_description(source, sink, extra, " key-int-max="@, key);
    }
}

proof fn lemma_sink_in_description(
    source: Seq<char>,
    sink: Seq<char>,
    extra: Option<Seq<char>>,
    mark: Seq<char>,
    value: Seq<char>,
)
    requires
        stands_between(sink, mark, value, ' '),
    ensures
        stands_between(description_text(source, sink, extra), mark, value, ' '),
{
    let rest = match extra {
        Some(branch) => branch,
        None => ""@,
    };
    let middle =
        " ! tee name=t t. ! queue name=q_pass leaky=downstream max-size-buffers=3 ! sel.sink_0 t. ! queue name=q_ai leaky=downstream max-size-buffers=3 ! videoconvert ! appsink name=ai_sink sync=false max-buffers=1 drop=true appsrc name=ai_src format=time is-live=true max-buffers=4 leaky-type=downstream min-latency=0 max-latency=-1 ! videoconvert ! sel.sink_1 input-selector name=sel sync-streams=false ! "@;
    lemma_stands_behind(source + middle, sink, mark, value, ' ');
    lemma_stands_before(source + middle + sink, " "@, mark, value, ' ');
    lemma_stands_before(source + middle + sink + " "@, rest, mark, value, ' ');
}

} // verus!
