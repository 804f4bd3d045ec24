//! The watchdog: once per frame period it selects the branch that the worker's
//! health calls for.
//!
//! The watchdog decides; whoever drives it starts and stops the pipeline,
//! waits for the next tick or the shutdown signal, and reports back.

use crate::double::ratio_nanos;
#[allow(unused_imports)]
use crate::double::{law_quotients_are_right_to_the_nanosecond, quotient_nanos};
use crate::metrics::{Counter, Gauge, Registry, SecondsCounter};
#[allow(unused_imports)]
use crate::metrics::{seconds_to_micros, wrapping_sum};
use crate::ports::ActiveBranch;
#[allow(unused_imports)]
use crate::uds::{failures_in_a_row, healthy, MAX_FAILURE_STREAK};
use vstd::prelude::*;

verus! {

/// Where the watchdog is in its life.
#[derive(Debug, Clone, Copy, PartialEq, Eq, Structural)]
pub enum Phase {
    /// Waiting for the pipeline to start.
    Starting,
    Running,
    /// Waiting for the pipeline to stop.
    Stopping,
    Finished,
}

/// What the watchdog is told.
#[derive(Debug, Clone, Copy, PartialEq, Eq, Structural)]
pub enum Event {
    /// The pipeline started, or failed to.
    MediaStarted { ok: bool },
    /// A frame period passed. `elapsed` is the stream time since the tick
    /// before, as the bit pattern of its seconds.
    Tick { healthy: bool, current: ActiveBranch, elapsed: u64 },
    /// A switch that was asked for succeeded, or failed.
    Switched { branch: ActiveBranch, ok: bool },
    /// The shutdown signal arrived.
    Shutdown,
    /// The pipeline stopped, or failed to.
    MediaStopped,
}

/// What the watchdog wants done.
#[derive(Debug, Clone, Copy, PartialEq, Eq, Structural)]
pub enum Action {
    StartMedia,
    /// Wait for the next tick or the shutdown signal.
    Wait,
    SwitchTo(ActiveBranch),
    StopMedia,
    Finish,
}

/// The branch that a worker's health calls for.
pub open spec fn branch_for(healthy: bool) -> ActiveBranch {
    if healthy {
        ActiveBranch::AiProcess
    } else {
        ActiveBranch::Passthrough
    }
}

/// What the watchdog does about an event. Events that do not belong to its
/// phase change nothing.
pub open spec fn transition(phase: Phase, event: Event) -> (Phase, Action) {
    match (phase, event) {
        (Phase::Starting, Event::MediaStarted { ok: true }) => (Phase::Running, Action::Wait),
        (Phase::Starting, Event::MediaStarted { ok: false }) => (Phase::Finished, Action::Finish),
        (Phase::Running, Event::Tick { healthy, current, .. }) => (
            Phase::Running,
            if current == branch_for(healthy) {
                Action::Wait
            } else {
                Action::SwitchTo(branch_for(healthy))
            },
        ),
        (Phase::Running, Event::Shutdown) => (Phase::Stopping, Action::StopMedia),
        (Phase::Stopping, Event::MediaStopped) => (Phase::Finished, Action::Finish),
        (Phase::Finished, _) => (Phase::Finished, Action::Finish),
        _ => (phase, Action::Wait),
    }
}

/// What a switch to a branch does to the metrics.
pub open spec fn switched(r: Registry, branch: ActiveBranch) -> Registry {
    match branch {
        ActiveBranch::AiProcess => Registry {
            active_branch: Gauge { value: 1 },
            branch_switches_to_ai: Counter {
                value: wrapping_sum(r.branch_switches_to_ai.value, 1) as u64,
            },
            ..r
        },
        ActiveBranch::Passthrough => Registry {
            active_branch: Gauge { value: 0 },
            branch_switches_to_passthrough: Counter {
                value: wrapping_sum(r.branch_switches_to_passthrough.value, 1) as u64,
            },
            ..r
        },
    }
}

/// What stream time on a branch does to the metrics.
pub open spec fn spent(r: Registry, branch: ActiveBranch, seconds: u64) -> Registry {
    match branch {
        ActiveBranch::AiProcess => Registry {
            branch_seconds_ai: SecondsCounter {
                micros: wrapping_sum(r.branch_seconds_ai.micros, seconds_to_micros(seconds)) as u64,
            },
            ..r
        },
        ActiveBranch::Passthrough => Registry {
            branch_seconds_passthrough: SecondsCounter {
                micros: wrapping_sum(
                    r.branch_seconds_passthrough.micros,
                    seconds_to_micros(seconds),
                ) as u64,
            },
            ..r
        },
    }
}

/// What an event does to the metrics: while running, a tick books stream time
/// on the branch that was selected, and a switch is booked if it succeeded.
pub open spec fn booked(phase: Phase, event: Event, r: Registry) -> Registry {
    match (phase, event) {
        (Phase::Running, Event::Tick { current, elapsed, .. }) => spent(r, current, elapsed),
        (Phase::Running, Event::Switched { branch, ok: true }) => switched(r, branch),
        _ => r,
    }
}

/// A frame rate, at least one frame per second.
pub open spec fn rate(fps: u32) -> nat {
    if fps == 0 {
        1
    } else {
        fps as nat
    }
}

/// Selects the branch of the stream.
#[derive(Debug, Clone, Copy, PartialEq, Eq, Structural)]
pub struct Watchdog {
    pub phase: Phase,
    /// One frame period, in nanoseconds.
    pub health_check_interval_ns: u64,
}

impl Watchdog {
    pub fn new(fps: u32) -> (r: Watchdog)
        ensures
            r.phase == Phase::Starting,
            r.health_check_interval_ns == quotient_nanos(1, rate(fps)),
    {
        let d: u64 = if fps == 0 {
            1
        } else {
            fps as u64
        };
        Watchdog { phase: Phase::Starting, health_check_interval_ns: ratio_nanos(1, d) }
    }

    /// The first thing to do.
    pub fn begin(&self) -> (r: Action)
        ensures
            r == Action::StartMedia,
    {
        Action::StartMedia
    }

    /// Takes an event, books it, and says what to do about it.
    pub fn step(&mut self, registry: &mut Registry, event: Event) -> (r: Action)
        ensures
            *final(registry) == booked(old(self).phase, event, *old(registry)),
            (final(self).phase, r) == transition(old(self).phase, event),
            final(self).health_check_interval_ns == old(self).health_check_interval_ns,
    {
        match (self.phase, event) {
            (Phase::Starting, Event::MediaStarted { ok }) => {
                if ok {
                    self.phase = Phase::Running;
                    Action::Wait
                } else {
                    self.phase = Phase::Finished;
                    Action::Finish
                }
            },
            (Phase::Running, Event::Tick { healthy, current, elapsed }) => {
                record_branch_time(registry, current, elapsed);
                match update_active_branch(healthy, current) {
                    Some(branch) => Action::SwitchTo(branch),
                    None => Action::Wait,
                }
            },
            (Phase::Running, Event::Switched { branch, ok }) => {
                if ok {
                    record_switch(registry, branch);
                }
                Action::Wait
            },
            (Phase::Running, Event::Shutdown) => {
                self.phase = Phase::Stopping;
                Action::StopMedia
            },
            (Phase::Stopping, Event::MediaStopped) => {
                self.phase = Phase::Finished;
                Action::Finish
            },
            (Phase::Finished, _) => Action::Finish,
            _ => Action::Wait,
        }
    }
}

/// The branch to switch to, if the stream is not on it already.
pub fn update_active_branch(healthy: bool, current: ActiveBranch) -> (r: Option<ActiveBranch>)
    ensures
        r == if current == branch_for(healthy) {
            None
        } else {
            Some(branch_for(healthy))
        },
{
    let target: ActiveBranch = if healthy {
        ActiveBranch::AiProcess
    } else {
        ActiveBranch::Passthrough
    };
    if current == target {
        None
    } else {
        Some(target)
    }
}

/// Books a switch that succeeded.
fn record_switch(registry: &mut Registry, branch: ActiveBranch)
    ensures
        *final(registry) == switched(*old(registry), branch),
{
    match branch {
        ActiveBranch::AiProcess => {
            registry.active_branch.set(1);
            registry.branch_switches_to_ai.inc();
        },
        ActiveBranch::Passthrough => {
            registry.active_branch.set(0);
            registry.branch_switches_to_passthrough.inc();
        },
    }
}

/// Books stream time on the branch that was selected meanwhile.
fn record_branch_time(registry: &mut Registry, branch: ActiveBranch, seconds: u64)
    ensures
        *final(registry) == spent(*old(registry), branch, seconds),
{
    match branch {
        ActiveBranch::AiProcess => registry.branch_seconds_ai.add_seconds(seconds),
        ActiveBranch::Passthrough => registry.branch_seconds_passthrough.add_seconds(seconds),
    }
}

/// The AI branch is only ever selected for a healthy worker, and only while
/// running.
pub proof fn law_ai_branch_is_earned(phase: Phase, event: Event)
    ensures
        transition(phase, event).1 == Action::SwitchTo(ActiveBranch::AiProcess) ==> phase
            == Phase::Running && (event matches Event::Tick { healthy, .. } && healthy),
{
}

/// The watchdog finishes only when the pipeline could not be started or has
/// been stopped again, and from then on it stays finished.
pub proof fn law_started_pipeline_is_stopped(phase: Phase, event: Event)
    ensures
        transition(phase, event).0 == Phase::Finished && phase != Phase::Finished ==> {
            ||| phase == Phase::Starting && event == Event::MediaStarted { ok: false }
            ||| phase == Phase::Stopping && event == Event::MediaStopped
        },
        transition(phase, event).1 == Action::Finish <==> transition(phase, event).0
            == Phase::Finished,
        transition(Phase::Finished, event).0 == Phase::Finished,
{
}

/// Where a series of events takes the watchdog from its start.
pub open spec fn phase_after(events: Seq<Event>) -> Phase
    decreases events.len(),
{
    if events.len() == 0 {
        Phase::Starting
    } else {
        transition(phase_after(events.drop_last()), events.last()).0
    }
}

/// What the watchdog says to event `i` of a series.
pub open spec fn answer(events: Seq<Event>, i: int) -> Action {
    transition(phase_after(events.take(i)), events[i]).1
}

/// Whether event `i` of a series is the start of the pipeline.
pub open spec fn starts_at(events: Seq<Event>, i: int) -> bool {
    &&& 0 <= i < events.len()
    &&& phase_after(events.take(i)) == Phase::Starting
    &&& events[i] == Event::MediaStarted { ok: true }
}

/// Over any series of events the watchdog asks to stop the pipeline at most
/// once, and only after the pipeline has started; it switches branches only
/// between the two; and once it has finished it says nothing else.
pub proof fn law_life_cycle(events: Seq<Event>)
    ensures
        forall|i: int|
            0 <= i < events.len() && #[trigger] answer(events, i) == Action::StopMedia ==> exists|
                k: int,
            |
                k < i && starts_at(events, k),
        forall|i: int, j: int|
            0 <= i < j < events.len() && #[trigger] answer(events, i) == Action::StopMedia ==> {
                &&& #[trigger] answer(events, j) != Action::StopMedia
                &&& !(answer(events, j) is SwitchTo)
            },
        forall|i: int|
            0 <= i < events.len() && #[trigger] answer(events, i) is SwitchTo ==> exists|k: int|
                k < i && starts_at(events, k),
        forall|i: int, j: int|
            0 <= i <= j < events.len() && #[trigger] answer(events, i) == Action::Finish
                ==> #[trigger] answer(events, j) == Action::Finish,
        forall|i: int|
            0 <= i < events.len() ==> #[trigger] answer(events, i) != Action::StartMedia,
{
    assert forall|i: int|
        0 <= i < events.len() && (#[trigger] answer(events, i) == Action::StopMedia || answer(
            events,
            i,
        ) is SwitchTo) implies exists|k: int| k < i && starts_at(events, k) by {
        lemma_running_was_started(events, i);
    }
    assert forall|i: int, j: int|
        0 <= i < j < events.len() && #[trigger] answer(events, i) == Action::StopMedia implies {
        &&& #[trigger] answer(events, j) != Action::StopMedia
        &&& !(answer(events, j) is SwitchTo)
    } by {
        lemma_phase_steps(events, i);
        lemma_phases_advance(events, i + 1, j);
    }
    assert forall|i: int, j: int|
        0 <= i <= j < events.len() && #[trigger] answer(events, i)
            == Action::Finish implies #[trigger] answer(events, j) == Action::Finish by {
        if i < j {
            lemma_phase_steps(events, i);
            lemma_phases_advance(events, i + 1, j);
        }
    }
}

/// The order in which phases follow one another.
spec fn phase_rank(phase: Phase) -> int {
    match phase {
        Phase::Starting => 0,
        Phase::Running => 1,
        Phase::Stopping => 2,
        Phase::Finished => 3,
    }
}

proof fn lemma_phase_steps(events: Seq<Event>, i: int)
    requires
        0 <= i < events.len(),
    ensures
        phase_after(events.take(i + 1)) == transition(phase_after(events.take(i)), events[i]).0,
{
    let longer = events.take(i + 1);
    assert(longer.drop_last() =~= events.take(i));
    assert(longer.last() == events[i]);
}

proof fn lemma_phases_advance(events: Seq<Event>, i: int, j: int)
    requires
        0 <= i <= j <= events.len(),
    ensures
        phase_rank(phase_after(events.take(i))) <= phase_rank(phase_after(events.take(j))),
    decreases j - i,
{
    if i < j {
        lemma_phases_advance(events, i, j - 1);
        lemma_phase_steps(events, j - 1);
    }
}

proof fn lemma_running_was_started(events: Seq<Event>, i: int)
    requires
        0 <= i <= events.len(),
        phase_after(events.take(i)) == Phase::Running,
    ensures
        exists|k: int| k < i && starts_at(events, k),
    decreases i,
{
    if i > 0 {
        lemma_phase_steps(events, i - 1);
        if phase_after(events.take(i - 1)) == Phase::Running {
            lemma_running_was_started(events, i - 1);
            let k = choose|k: int| k < i - 1 && starts_at(events, k);
            assert(k < i && starts_at(events, k));
        } else {
            assert(starts_at(events, i - 1));
        }
    }
}

/// A switch that succeeds settles: the next tick with the same health asks for
/// nothing more.
pub proof fn law_switching_settles(
    healthy: bool,
    current: ActiveBranch,
    elapsed: u64,
    later: u64,
)
    ensures
        match transition(Phase::Running, Event::Tick { healthy, current, elapsed }).1 {
            Action::SwitchTo(branch) => transition(
                Phase::Running,
                Event::Tick { healthy, current: branch, elapsed: later },
            ).1 == Action::Wait,
            action => action == Action::Wait,
        },
{
}

/// Exactly the switches that succeed are booked: a switch that failed, like
/// every other event but a tick, leaves the metrics alone, and a tick touches
/// neither the selected branch nor the number of switches.
pub proof fn law_successful_switches_are_booked(phase: Phase, event: Event, r: Registry)
    ensures
        event matches Event::Switched { branch, ok } ==> booked(phase, event, r) == if ok && phase
            == Phase::Running {
            switched(r, branch)
        } else {
            r
        },
        !(event is Switched) ==> ({
            let after = booked(phase, event, r);
            &&& after.active_branch == r.active_branch
            &&& after.branch_switches_to_ai == r.branch_switches_to_ai
            &&& after.branch_switches_to_passthrough == r.branch_switches_to_passthrough
            &&& !(event is Tick) ==> after == r
        }),
{
}

/// A worker that fails thirty frames in a row loses the stream: the next tick
/// switches it to the untouched frames, and no later failure brings it back.
pub proof fn law_failures_switch_to_passthrough(
    streak: u32,
    n: nat,
    reachable: bool,
    elapsed: u64,
)
    requires
        n >= MAX_FAILURE_STREAK,
        streak + n <= u32::MAX,
    ensures
        transition(
            Phase::Running,
            Event::Tick {
                healthy: healthy(reachable, failures_in_a_row(streak, n)),
                current: ActiveBranch::AiProcess,
                elapsed,
            },
        ).1 == Action::SwitchTo(ActiveBranch::Passthrough),
        transition(
            Phase::Running,
            Event::Tick {
                healthy: healthy(reachable, failures_in_a_row(streak, n)),
                current: ActiveBranch::Passthrough,
                elapsed,
            },
        ).1 == Action::Wait,
{
    crate::uds::law_failures_make_unhealthy(streak, n, reachable);
}

/// The first successful frame of a worker that can be reached brings the AI
/// branch back at the next tick, and a streak short of thirty failures leaves
/// it selected.
pub proof fn law_one_success_switches_back(n: nat, elapsed: u64)
    requires
        n < MAX_FAILURE_STREAK,
    ensures
        transition(
            Phase::Running,
            Event::Tick {
                healthy: healthy(true, failures_in_a_row(0, n)),
                current: ActiveBranch::Passthrough,
                elapsed,
            },
        ).1 == Action::SwitchTo(ActiveBranch::AiProcess),
        transition(
            Phase::Running,
            Event::Tick {
                healthy: healthy(true, failures_in_a_row(0, n)),
                current: ActiveBranch::AiProcess,
                elapsed,
            },
        ).1 == Action::Wait,
{
    crate::uds::law_short_streaks_are_forgiven(n);
}

/// A bridge that has not seen a success keeps the stream on the untouched
/// frames.
pub proof fn law_stream_starts_on_passthrough(reachable: bool, elapsed: u64)
    ensures
        transition(
            Phase::Running,
            Event::Tick {
                healthy: healthy(reachable, MAX_FAILURE_STREAK),
                current: ActiveBranch::Passthrough,
                elapsed,
            },
        ).1 == Action::Wait,
{
}

/// While running, each tick asks for the branch that the worker's health calls
/// for, unless the stream is on it: for the AI branch with a healthy worker,
/// for the untouched frames without one, however long the tick took.
pub proof fn law_each_tick_follows_health(healthy: bool, current: ActiveBranch, elapsed: u64)
    ensures
        ({
            let (phase, action) = transition(
                Phase::Running,
                Event::Tick { healthy, current, elapsed },
            );
            &&& phase == Phase::Running
            &&& healthy && current == ActiveBranch::Passthrough <==> action == Action::SwitchTo(
                ActiveBranch::AiProcess,
            )
            &&& !healthy && current == ActiveBranch::AiProcess <==> action == Action::SwitchTo(
                ActiveBranch::Passthrough,
            )
            &&& action is SwitchTo || action == Action::Wait
        }),
{
}

/// A pipeline that starts is run, one that does not is given up, and a signal
/// ends the run: from then on the pipeline is stopped, and once it has, the
/// watchdog is done.
pub proof fn law_signals_move_the_watchdog(phase: Phase)
    ensures
        transition(Phase::Starting, Event::MediaStarted { ok: true }) == (
            Phase::Running,
            Action::Wait,
        ),
        transition(Phase::Starting, Event::MediaStarted { ok: false }) == (
            Phase::Finished,
            Action::Finish,
        ),
        transition(Phase::Running, Event::Shutdown) == (Phase::Stopping, Action::StopMedia),
        transition(Phase::Stopping, Event::MediaStopped) == (Phase::Finished, Action::Finish),
        phase != Phase::Running ==> transition(phase, Event::Shutdown).0 == phase,
        phase != Phase::Starting ==> forall|ok: bool| #[trigger]
            transition(phase, Event::MediaStarted { ok }).0 == phase,
        phase != Phase::Stopping ==> transition(phase, Event::MediaStopped).0 == phase,
        forall|branch: ActiveBranch, ok: bool| #[trigger]
            transition(phase, Event::Switched { branch, ok }).0 == phase,
{
}

/// A tick books its time on the branch that the stream was on, and on nothing
/// else.
pub proof fn law_time_is_booked_on_its_branch(
    healthy: bool,
    current: ActiveBranch,
    elapsed: u64,
    r: Registry,
)
    ensures
        ({
            let after = booked(Phase::Running, Event::Tick { healthy, current, elapsed }, r);
            let us = seconds_to_micros(elapsed);
            &&& after == (Registry {
                branch_seconds_ai: after.branch_seconds_ai,
                branch_seconds_passthrough: after.branch_seconds_passthrough,
                ..r
            })
            &&& after.branch_seconds_ai.micros == wrapping_sum(
                r.branch_seconds_ai.micros,
                if current == ActiveBranch::AiProcess {
                    us
                } else {
                    0
                },
            )
            &&& after.branch_seconds_passthrough.micros == wrapping_sum(
                r.branch_seconds_passthrough.micros,
                if current == ActiveBranch::Passthrough {
                    us
                } else {
                    0
                },
            )
        }),
{
}

/// A switch that succeeds shows: the gauge says which branch is selected, and
/// the switch counts once, for its direction.
pub proof fn law_switches_show(branch: ActiveBranch, r: Registry)
    ensures
        ({
            let after = booked(Phase::Running, Event::Switched { branch, ok: true }, r);
            let to_ai = branch == ActiveBranch::AiProcess;
            &&& after.active_branch.value == if to_ai {
                1i64
            } else {
                0i64
            }
            &&& after.branch_switches_to_ai.value == wrapping_sum(
                r.branch_switches_to_ai.value,
                if to_ai {
                    1
                } else {
                    0
                },
            )
            &&& after.branch_switches_to_passthrough.value == wrapping_sum(
                r.branch_switches_to_passthrough.value,
                if to_ai {
                    0
                } else {
                    1
                },
            )
            &&& after == (Registry {
                active_branch: after.active_branch,
                branch_switches_to_ai: after.branch_switches_to_ai,
                branch_switches_to_passthrough: after.branch_switches_to_passthrough,
                ..r
            })
        }),
{
}

/// The interval between two checks is one frame period, right to the
/// nanosecond; without a frame rate it is a second.
pub proof fn law_checks_come_once_per_frame(fps: u32)
    ensures
        fps > 0 ==> -(fps as int) < quotient_nanos(1, rate(fps)) * fps - 1_000_000_000 < fps,
        rate(0) == rate(1),
{
    if fps > 0 {
        law_quotients_are_right_to_the_nanosecond(1, fps as nat);
    }
}

} // verus!
