//! The control channel to a worker on the same machine.
//!
//! Frames are announced and acknowledged in one JSON object per datagram. The
//! bridge keeps the failure streak that decides whether the worker counts as
//! healthy, answers hellos with the segment's geometry, and merges the
//! acknowledgements of a remote worker into the same wait.

use crate::metrics::{Gauge, Registry};
use crate::net::RemoteState;
use crate::ports::{FrameMetadata, IpcError, IpcFailure};
use crate::shm::ShmHeader;
use crate::text::{push_decimal, same_text};
#[allow(unused_imports)]
use crate::text::{
    decimal, ends_with, four_numerals, is_digit, lemma_ends_with, lemma_five_members,
    lemma_four_numerals, lemma_stands, lemma_three_numerals, stands_between, three_numerals,
};
use vstd::prelude::*;

verus! {

/// Version of the worker-facing contract: the shared-memory layouts, the
/// control packets and the wire format, as one number. It is part of every
/// config packet, so that a worker built against another contract can refuse
/// to attach.
pub const IPC_CONTRACT_VERSION: u32 = 1;

/// Consecutive failed roundtrips before the worker counts as unhealthy.
pub const MAX_FAILURE_STREAK: u32 = 30;

/// What a worker sends to announce itself.
pub const WORKER_HELLO: &'static str = "{\"type\":\"hello\"}";

/// Announces a frame to the worker.
#[derive(Debug, Clone, Copy, PartialEq, Eq, Structural)]
pub struct FrameReadyPacket {
    pub frame_id: u64,
    pub slot_index: u8,
    pub timestamp_us: u64,
}

/// The worker's acknowledgement of a frame.
#[derive(Debug, Clone, Copy, PartialEq, Eq, Structural)]
pub struct FrameProcessedPacket {
    pub frame_id: u64,
    pub slot_index: u8,
    pub processing_time_us: u64,
    pub success: bool,
}

/// The bytes of an ASCII text.
pub open spec fn ascii_bytes(text: Seq<char>) -> Seq<u8> {
    text.map_values(|c: char| c as u8)
}

/// A member name that JSON writes as it is: lower-case letters and underscores.
pub open spec fn plain_name(name: Seq<char>) -> bool {
    &&& name.len() > 0
    &&& forall|i: int| 0 <= i < name.len() ==> 'a' <= #[trigger] name[i] <= 'z' || name[i] == '_'
}

/// One member of a JSON object of numbers.
pub open spec fn json_member(name: Seq<char>, value: u64) -> Seq<char> {
    "\""@ + name + "\":"@ + decimal(value as nat)
}

/// A JSON object of three numbers.
pub open spec fn json_object_of_three(names: Seq<Seq<char>>, values: Seq<u64>) -> Seq<char> {
    "{"@ + json_member(names[0], values[0]) + ","@ + json_member(names[1], values[1]) + ","@
        + json_member(names[2], values[2]) + "}"@
}

/// The error type of `serde_json`, carried through unopened.
#[verifier::external_type_specification]
#[verifier::external_body]
pub struct ExJsonError(serde_json::Error);

/// `serde_json::to_vec` on a map from names to numbers: the compact object
/// with its members in ascending order of their names, each name in quotes as
/// it is and each number in decimal. Writing to memory does not fail, and
/// neither do strings as names or 64-bit numbers as values.
#[verifier::external_body]
fn json_of_three(names: [&str; 3], values: [u64; 3]) -> (r: Result<Vec<u8>, serde_json::Error>)
    requires
        plain_name(names@[0]@),
        plain_name(names@[1]@),
        plain_name(names@[2]@),
        names@[0]@[0] < names@[1]@[0] < names@[2]@[0],
    ensures
        r is Ok,
        r->Ok_0@ == ascii_bytes(
            json_object_of_three(seq![names@[0]@, names@[1]@, names@[2]@], values@),
        ),
{
    serde_json::to_vec(
        &std::collections::BTreeMap::from(
            [(names[0], values[0]), (names[1], values[1]), (names[2], values[2])],
        ),
    )
}

/// The text of a frame announcement.
pub open spec fn frame_ready_text(p: FrameReadyPacket) -> Seq<char> {
    "{\"frame_id\":"@ + decimal(p.frame_id as nat) + ",\"slot_index\":"@ + decimal(
        p.slot_index as nat,
    ) + ",\"timestamp_us\":"@ + decimal(p.timestamp_us as nat) + "}"@
}

impl FrameReadyPacket {
    /// The datagram that announces the frame.
    pub fn to_json(&self) -> (r: Result<Vec<u8>, IpcError>)
        ensures
            r matches Ok(bytes) && bytes@ == ascii_bytes(frame_ready_text(*self)),
    {
        proof {
            reveal_strlit("frame_id");
            reveal_strlit("slot_index");
            reveal_strlit("timestamp_us");
        }
        let names: [&str; 3] = ["frame_id", "slot_index", "timestamp_us"];
        let values: [u64; 3] = [self.frame_id, self.slot_index as u64, self.timestamp_us];
        match json_of_three(names, values) {
            Ok(bytes) => {
                proof {
                    lemma_frame_ready_text(*self);
                    assert(values@ =~= seq![self.frame_id, self.slot_index as u64, self.timestamp_us]);
                }
                Ok(bytes)
            },
            Err(_) => Err(IpcError::SocketError("Failed to serialize UDS packet".to_owned())),
        }
    }
}

proof fn lemma_frame_ready_text(p: FrameReadyPacket)
    ensures
        json_object_of_three(
            seq!["frame_id"@, "slot_index"@, "timestamp_us"@],
            seq![p.frame_id, p.slot_index as u64, p.timestamp_us],
        ) == frame_ready_text(p),
{
    reveal_strlit("{");
    reveal_strlit("}");
    reveal_strlit(",");
    reveal_strlit("\"");
    reveal_strlit("\":");
    reveal_strlit("frame_id");
    reveal_strlit("slot_index");
    reveal_strlit("timestamp_us");
    reveal_strlit("{\"frame_id\":");
    reveal_strlit(",\"slot_index\":");
    reveal_strlit(",\"timestamp_us\":");
    assert("{\"frame_id\":"@ =~= "{"@ + ("\""@ + "frame_id"@ + "\":"@));
    assert(",\"slot_index\":"@ =~= ","@ + ("\""@ + "slot_index"@ + "\":"@));
    assert(",\"timestamp_us\":"@ =~= ","@ + ("\""@ + "timestamp_us"@ + "\":"@));
    assert(json_object_of_three(
        seq!["frame_id"@, "slot_index"@, "timestamp_us"@],
        seq![p.frame_id, p.slot_index as u64, p.timestamp_us],
    ) =~= frame_ready_text(p));
}

/// What an acknowledgement means to the relay. The processing time rides in
/// the metadata's timestamp.
pub open spec fn ack_outcome(packet: FrameProcessedPacket) -> Result<FrameMetadata, IpcFailure> {
    if packet.success {
        Ok(
            FrameMetadata {
                frame_id: packet.frame_id,
                slot_index: packet.slot_index,
                timestamp_us: packet.processing_time_us,
            },
        )
    } else {
        Err(IpcFailure::SocketError("Worker reported inference failure"@))
    }
}

/// What a result says, with its error by view.
pub open spec fn outcome_of(r: Result<FrameMetadata, IpcError>) -> Result<
    FrameMetadata,
    IpcFailure,
> {
    match r {
        Ok(meta) => Ok(meta),
        Err(e) => Err(e@),
    }
}

/// Turns an acknowledgement into the result of the wait, whichever transport
/// carried it.
pub fn ack_to_metadata(packet: FrameProcessedPacket) -> (r: Result<FrameMetadata, IpcError>)
    ensures
        outcome_of(r) == ack_outcome(packet),
{
    if !packet.success {
        return Err(IpcError::SocketError("Worker reported inference failure".to_owned()));
    }
    Ok(
        FrameMetadata {
            frame_id: packet.frame_id,
            slot_index: packet.slot_index,
            timestamp_us: packet.processing_time_us,
        },
    )
}

/// An acknowledgement: which frame it is of, and what it says. The number
/// stays even where the worker failed, so that a late failure can be told from
/// one of the frame that is waited for.
#[derive(Debug)]
pub struct Ack {
    pub frame_id: u64,
    pub result: Result<FrameMetadata, IpcError>,
}

/// Whether an acknowledgement is the one that a packet carries.
pub open spec fn acknowledges(ack: Ack, packet: FrameProcessedPacket) -> bool {
    ack.frame_id == packet.frame_id && outcome_of(ack.result) == ack_outcome(packet)
}

impl Ack {
    /// The acknowledgement that a packet carries.
    pub fn of(packet: FrameProcessedPacket) -> (r: Ack)
        ensures
            acknowledges(r, packet),
    {
        Ack { frame_id: packet.frame_id, result: ack_to_metadata(packet) }
    }
}

/// The config packet that answers a hello on the local socket.
pub open spec fn shm_config_text(h: ShmHeader) -> Seq<char> {
    "{\"type\":\"config\",\"transport\":\"shm\",\"contract\":"@ + decimal(
        IPC_CONTRACT_VERSION as nat,
    ) + ",\"width\":"@ + decimal(h.width as nat) + ",\"height\":"@ + decimal(h.height as nat)
        + ",\"channels\":"@ + decimal(h.channels as nat) + ",\"slots\":"@ + decimal(
        h.slot_count as nat,
    ) + ",\"format\":\"rgb\"}"@
}

/// Describes the ring to a local worker; the segment's file descriptor rides
/// alongside.
pub fn shm_config_json(header: &ShmHeader) -> (r: String)
    ensures
        r@ == shm_config_text(*header),
{
    let mut out = "{\"type\":\"config\",\"transport\":\"shm\",\"contract\":".to_owned();
    push_decimal(&mut out, IPC_CONTRACT_VERSION as u64);
    out.append(",\"width\":");
    push_decimal(&mut out, header.width as u64);
    out.append(",\"height\":");
    push_decimal(&mut out, header.height as u64);
    out.append(",\"channels\":");
    push_decimal(&mut out, header.channels as u64);
    out.append(",\"slots\":");
    push_decimal(&mut out, header.slot_count as u64);
    out.append(",\"format\":\"rgb\"}");
    out
}

/// The daemon's end of the control channel.
#[derive(Debug)]
pub struct UdsControlBridge {
    /// Consecutive failed roundtrips.
    pub failure_streak: u32,
    /// The answer to a hello on the local socket.
    pub shm_config: String,
    /// The connection to a worker on another machine.
    pub remote: RemoteState,
}

/// Whether a worker counts as healthy: it can be reached, and it has not
/// failed too many frames in a row.
pub open spec fn healthy(reachable: bool, failure_streak: u32) -> bool {
    reachable && failure_streak < MAX_FAILURE_STREAK
}

/// Whether the worker behind a bridge counts as healthy.
pub open spec fn bridge_healthy(bridge: UdsControlBridge, socket_exists: bool) -> bool {
    healthy(socket_exists || bridge.remote.current is Some, bridge.failure_streak)
}

/// The metrics with a worker that is healthy, or not.
pub open spec fn with_health(r: Registry, up: bool) -> Registry {
    Registry {
        worker_healthy: Gauge {
            value: if up {
                1
            } else {
                0
            },
        },
        ..r
    }
}

/// Whether a bridge and the metrics have come to a failure streak, and changed
/// in nothing else.
pub open spec fn has_streak(
    bridge: UdsControlBridge,
    r: Registry,
    streak: u32,
    bridge_after: UdsControlBridge,
    after: Registry,
) -> bool {
    &&& bridge_after == (UdsControlBridge { failure_streak: streak, ..bridge })
    &&& after == (Registry { failure_streak: Gauge { value: streak as i64 }, ..r })
}

/// The failure streak after one more failure.
pub open spec fn one_more_failure(streak: u32) -> u32 {
    ((streak + 1) % 0x1_0000_0000) as u32
}

/// The failure streak after `n` failures in a row.
pub open spec fn failures_in_a_row(streak: u32, n: nat) -> u32
    decreases n,
{
    if n == 0 {
        streak
    } else {
        one_more_failure(failures_in_a_row(streak, (n - 1) as nat))
    }
}

/// The failure streak after an outcome.
pub open spec fn streak_next(streak: u32, delivered: bool) -> u32 {
    if delivered {
        0
    } else {
        one_more_failure(streak)
    }
}

/// The failure streak after a series of outcomes.
pub open spec fn streak_after(streak: u32, outcomes: Seq<bool>) -> u32
    decreases outcomes.len(),
{
    if outcomes.len() == 0 {
        streak
    } else {
        streak_next(streak_after(streak, outcomes.drop_last()), outcomes.last())
    }
}

/// How a frame is announced.
#[derive(Debug)]
pub enum Announcement {
    /// The remote worker takes the whole frame with the announcement.
    SendFrame,
    /// The local worker is told which slot to look at.
    Datagram(Vec<u8>),
}

/// Whether `r` is how a bridge announces a frame.
pub open spec fn announces(
    bridge: UdsControlBridge,
    meta: FrameMetadata,
    r: Result<Announcement, IpcError>,
) -> bool {
    &&& bridge.remote.current is Some ==> r == Ok::<Announcement, IpcError>(Announcement::SendFrame)
    &&& bridge.remote.current is None ==> (r matches Ok(Announcement::Datagram(bytes)) && bytes@
        == ascii_bytes(
        frame_ready_text(
            FrameReadyPacket {
                frame_id: meta.frame_id,
                slot_index: meta.slot_index,
                timestamp_us: meta.timestamp_us,
            },
        ),
    ))
}

/// What arrives while the relay waits for a worker.
#[derive(Debug)]
pub enum Incoming {
    /// A datagram on the local socket: its `type`, when it parses as a control
    /// packet, and what it is as an acknowledgement.
    Datagram { control: Option<String>, ack: Result<FrameProcessedPacket, String> },
    /// An acknowledgement from the remote worker.
    RemoteAck(FrameProcessedPacket),
    /// The socket failed.
    SocketFailed(String),
    /// The deadline passed.
    TimedOut,
}

/// What the wait does about it.
#[derive(Debug)]
pub enum WaitStep {
    /// Send the config and the segment's descriptor, then keep waiting.
    AnswerHello,
    KeepWaiting,
    /// A worker acknowledged a frame.
    Acked(Ack),
    /// The wait ended without an acknowledgement.
    Failed(IpcError),
}

/// How a wait for the worker goes on.
pub enum WaitOutcome {
    AnswerHello,
    KeepWaiting,
    Acked(u64, Result<FrameMetadata, IpcFailure>),
    Failed(IpcFailure),
}

pub open spec fn step_of(step: WaitStep) -> WaitOutcome {
    match step {
        WaitStep::AnswerHello => WaitOutcome::AnswerHello,
        WaitStep::KeepWaiting => WaitOutcome::KeepWaiting,
        WaitStep::Acked(ack) => WaitOutcome::Acked(ack.frame_id, outcome_of(ack.result)),
        WaitStep::Failed(e) => WaitOutcome::Failed(e@),
    }
}

/// What arriving traffic means for the wait. A control packet never ends it; a
/// datagram that is neither control packet nor acknowledgement does.
pub open spec fn wait_outcome(event: Incoming) -> WaitOutcome {
    match event {
        Incoming::Datagram { control: Some(kind), .. } => if kind@ == "hello"@ {
            WaitOutcome::AnswerHello
        } else {
            WaitOutcome::KeepWaiting
        },
        Incoming::Datagram { control: None, ack: Ok(packet) } => WaitOutcome::Acked(
            packet.frame_id,
            ack_outcome(packet),
        ),
        Incoming::Datagram { control: None, ack: Err(error) } => WaitOutcome::Failed(
            IpcFailure::SocketError("Invalid ACK JSON: "@ + error@),
        ),
        Incoming::RemoteAck(packet) => WaitOutcome::Acked(packet.frame_id, ack_outcome(packet)),
        Incoming::SocketFailed(error) => WaitOutcome::Failed(
            IpcFailure::SocketError("UDS recv error: "@ + error@),
        ),
        Incoming::TimedOut => WaitOutcome::Failed(IpcFailure::DeadlineMissed),
    }
}

/// Whether `r` is what is left of a deadline.
pub open spec fn leaves(deadline_ns: u64, elapsed_ns: u64, r: Result<u64, IpcError>) -> bool {
    &&& elapsed_ns <= deadline_ns ==> r == Ok::<u64, IpcError>((deadline_ns - elapsed_ns) as u64)
    &&& elapsed_ns > deadline_ns ==> (r matches Err(e) && e@ == IpcFailure::DeadlineMissed)
}

/// What is left of a deadline; nothing once more has elapsed than it allowed.
pub fn remaining(deadline_ns: u64, elapsed_ns: u64) -> (r: Result<u64, IpcError>)
    ensures
        leaves(deadline_ns, elapsed_ns, r),
{
    if elapsed_ns > deadline_ns {
        Err(IpcError::DeadlineMissed)
    } else {
        Ok(deadline_ns - elapsed_ns)
    }
}

impl UdsControlBridge {
    /// The bridge over a ring. It starts out unhealthy: the worker has to
    /// prove itself with one successful roundtrip.
    pub fn bind(header: &ShmHeader) -> (r: UdsControlBridge)
        ensures
            r.failure_streak == MAX_FAILURE_STREAK,
            r.shm_config@ == shm_config_text(*header),
            r.remote.current is None,
            r.remote.epoch == 0,
            r.remote.deadline_us == crate::net::DEFAULT_DEADLINE_US,
    {
        UdsControlBridge {
            failure_streak: MAX_FAILURE_STREAK,
            shm_config: shm_config_json(header),
            remote: RemoteState::new(),
        }
    }

    /// Starts accepting remote workers at a frame rate.
    pub fn enable_remote(&mut self, fps: u32)
        ensures
            final(self).remote.deadline_us == crate::net::deadline_micros(fps),
            final(self).remote.current == old(self).remote.current,
            final(self).remote.epoch == old(self).remote.epoch,
            final(self).failure_streak == old(self).failure_streak,
            final(self).shm_config == old(self).shm_config,
    {
        self.remote.enable(fps);
    }

    /// Records a successful roundtrip.
    pub fn record_success(&mut self, registry: &mut Registry)
        ensures
            has_streak(*old(self), *old(registry), 0, *final(self), *final(registry)),
    {
        self.failure_streak = 0;
        registry.failure_streak.set(0);
    }

    /// Records a missed deadline or another failure.
    pub fn record_failure(&mut self, registry: &mut Registry)
        ensures
            has_streak(
                *old(self),
                *old(registry),
                one_more_failure(old(self).failure_streak),
                *final(self),
                *final(registry),
            ),
    {
        self.failure_streak = self.failure_streak.wrapping_add(1);
        registry.failure_streak.set(self.failure_streak as i64);
    }

    /// Whether the AI branch may be selected. A worker is reachable through
    /// its socket file or a live remote connection; a stale socket file
    /// survives a kill, so the failure streak decides as well.
    pub fn is_healthy(&self, socket_exists: bool, registry: &mut Registry) -> (r: bool)
        ensures
            r == bridge_healthy(*self, socket_exists),
            *final(registry) == with_health(*old(registry), r),
    {
        let reachable: bool = socket_exists || self.remote.attached();
        let healthy: bool = reachable && self.failure_streak < MAX_FAILURE_STREAK;
        registry.worker_healthy.set(
            if healthy {
                1
            } else {
                0
            },
        );
        healthy
    }

    /// How to announce a frame.
    pub fn notify_frame_ready(&self, meta: &FrameMetadata) -> (r: Result<Announcement, IpcError>)
        ensures
            announces(*self, *meta, r),
    {
        if self.remote.attached() {
            return Ok(Announcement::SendFrame);
        }
        let packet = FrameReadyPacket {
            frame_id: meta.frame_id,
            slot_index: meta.slot_index,
            timestamp_us: meta.timestamp_us,
        };
        match packet.to_json() {
            Ok(bytes) => Ok(Announcement::Datagram(bytes)),
            Err(e) => Err(e),
        }
    }

    /// What to do about traffic that arrives during the wait for a frame.
    pub fn await_processed_frame(&self, event: Incoming) -> (r: WaitStep)
        ensures
            step_of(r) == wait_outcome(event),
    {
        match event {
            Incoming::Datagram { control: Some(kind), ack: _ } => {
                if same_text(kind.as_str(), "hello") {
                    WaitStep::AnswerHello
                } else {
                    WaitStep::KeepWaiting
                }
            },
            Incoming::Datagram { control: None, ack: Ok(packet) } => WaitStep::Acked(
                Ack::of(packet),
            ),
            Incoming::Datagram { control: None, ack: Err(error) } => WaitStep::Failed(
                IpcError::SocketError("Invalid ACK JSON: ".to_owned().concat(error.as_str())),
            ),
            Incoming::RemoteAck(packet) => WaitStep::Acked(Ack::of(packet)),
            Incoming::SocketFailed(error) => WaitStep::Failed(
                IpcError::SocketError("UDS recv error: ".to_owned().concat(error.as_str())),
            ),
            Incoming::TimedOut => WaitStep::Failed(IpcError::DeadlineMissed),
        }
    }
}

proof fn lemma_failures_add_up(streak: u32, n: nat)
    requires
        streak + n <= u32::MAX,
    ensures
        failures_in_a_row(streak, n) == streak + n,
    decreases n,
{
    if n > 0 {
        lemma_failures_add_up(streak, (n - 1) as nat);
    }
}

/// Thirty failures in a row make a worker unhealthy, wherever the streak
/// stood, and it stays so through further failures.
pub proof fn law_failures_make_unhealthy(streak: u32, n: nat, reachable: bool)
    requires
        n >= MAX_FAILURE_STREAK,
        streak + n <= u32::MAX,
    ensures
        !healthy(reachable, failures_in_a_row(streak, n)),
{
    lemma_failures_add_up(streak, n);
}

/// After a success, fewer than thirty failures in a row leave a reachable
/// worker healthy.
pub proof fn law_short_streaks_are_forgiven(n: nat)
    requires
        n < MAX_FAILURE_STREAK,
    ensures
        healthy(true, failures_in_a_row(0, n)),
{
    lemma_failures_add_up(0, n);
}

/// One success makes a reachable worker healthy again, and no worker that
/// cannot be reached is healthy.
pub proof fn law_one_success_heals(streak: u32)
    ensures
        healthy(true, 0),
        !healthy(false, streak),
        !healthy(true, MAX_FAILURE_STREAK),
{
}

/// Over any series of outcomes a reachable worker is healthy exactly if one of
/// the last thirty frames was a success. Before the first frame, and until the
/// first success, it is not.
pub proof fn law_health_is_the_recent_record(outcomes: Seq<bool>)
    requires
        outcomes.len() + MAX_FAILURE_STREAK <= u32::MAX,
    ensures
        healthy(true, streak_after(MAX_FAILURE_STREAK, outcomes)) <==> exists|i: int|
            #![trigger outcomes[i]]
            0 <= i < outcomes.len() && outcomes.len() - MAX_FAILURE_STREAK <= i && outcomes[i],
{
    let n = outcomes.len();
    if exists|i: int| #![trigger outcomes[i]] 0 <= i < n && outcomes[i] {
        lemma_last_success(outcomes);
        let k = choose|k: int| is_last_success(outcomes, k);
        lemma_streak_since(outcomes, k);
        if n - MAX_FAILURE_STREAK <= k {
            assert(outcomes[k]);
        }
    } else {
        lemma_streak_of_failures(outcomes);
    }
}

/// Whether outcome `k` is a success, and none after it is.
spec fn is_last_success(outcomes: Seq<bool>, k: int) -> bool {
    &&& 0 <= k < outcomes.len()
    &&& outcomes[k]
    &&& forall|j: int| k < j < outcomes.len() ==> !outcomes[j]
}

proof fn lemma_last_success(outcomes: Seq<bool>)
    requires
        exists|i: int| #![trigger outcomes[i]] 0 <= i < outcomes.len() && outcomes[i],
    ensures
        exists|k: int| is_last_success(outcomes, k),
    decreases outcomes.len(),
{
    let last = outcomes.len() - 1;
    if outcomes[last] {
        assert(is_last_success(outcomes, last));
    } else {
        let front = outcomes.drop_last();
        let i = choose|i: int| #![trigger outcomes[i]] 0 <= i < outcomes.len() && outcomes[i];
        assert(front[i]);
        lemma_last_success(front);
        let k = choose|k: int| is_last_success(front, k);
        assert forall|j: int| k < j < outcomes.len() implies !outcomes[j] by {
            if j < last {
                assert(!front[j]);
            }
        }
        assert(is_last_success(outcomes, k));
    }
}

proof fn lemma_streak_since(outcomes: Seq<bool>, k: int)
    requires
        outcomes.len() <= u32::MAX,
        is_last_success(outcomes, k),
    ensures
        streak_after(MAX_FAILURE_STREAK, outcomes) == outcomes.len() - 1 - k,
    decreases outcomes.len(),
{
    if k < outcomes.len() - 1 {
        let front = outcomes.drop_last();
        assert forall|j: int| k < j < front.len() implies !front[j] by {
            assert(!outcomes[j]);
        }
        assert(!outcomes[outcomes.len() - 1]);
        lemma_streak_since(front, k);
    }
}

proof fn lemma_streak_of_failures(outcomes: Seq<bool>)
    requires
        outcomes.len() + MAX_FAILURE_STREAK <= u32::MAX,
        forall|i: int| 0 <= i < outcomes.len() ==> !outcomes[i],
    ensures
        streak_after(MAX_FAILURE_STREAK, outcomes) == MAX_FAILURE_STREAK + outcomes.len(),
    decreases outcomes.len(),
{
    if outcomes.len() > 0 {
        lemma_streak_of_failures(outcomes.drop_last());
    }
}

/// How a socket address holds the path of a Unix socket: the path, then zero
/// bytes up to the address's capacity. There has to be room for at least one.
pub open spec fn padded_path(path: Seq<u8>, capacity: nat) -> Seq<u8> {
    path + Seq::new((capacity - path.len()) as nat, |i: int| 0u8)
}

/// Whether `r` is a path laid out for an address of the given capacity.
pub open spec fn is_laid_out(path: Seq<u8>, capacity: nat, r: Result<Vec<u8>, String>) -> bool {
    &&& path.len() >= capacity ==> (r matches Err(text) && text@ == "socket path too long"@)
    &&& path.len() < capacity ==> (r matches Ok(bytes) && bytes@ == padded_path(path, capacity))
}

/// Lays a socket path out for an address of the given capacity.
pub fn socket_path(path: &[u8], capacity: usize) -> (r: Result<Vec<u8>, String>)
    ensures
        is_laid_out(path@, capacity as nat, r),
{
    if path.len() >= capacity {
        return Err("socket path too long".to_owned());
    }
    let mut out: Vec<u8> = vstd::slice::slice_to_vec(path);
    while out.len() < capacity
        invariant
            path@.len() <= out@.len() <= capacity,
            out@ == padded_path(path@, out@.len()),
        decreases capacity - out@.len(),
    {
        out.push(0);
        assert(out@ =~= padded_path(path@, out@.len()));
    }
    Ok(out)
}

/// What has elapsed and what is left make up the deadline, and once more has
/// elapsed than that, the deadline is missed.
pub proof fn law_elapsed_and_left_make_the_deadline(
    deadline_ns: u64,
    elapsed_ns: u64,
    r: Result<u64, IpcError>,
)
    requires
        leaves(deadline_ns, elapsed_ns, r),
    ensures
        r is Ok <==> elapsed_ns <= deadline_ns,
        r matches Ok(left) ==> elapsed_ns + left == deadline_ns,
        r matches Err(e) ==> e@ == IpcFailure::DeadlineMissed,
{
}

/// An announcement tells the worker the frame's number, its slot and its
/// timestamp, each behind its name.
pub proof fn law_announcements_name_their_values(p: FrameReadyPacket)
    ensures
        ({
            let text = frame_ready_text(p);
            &&& stands_between(text, "\"frame_id\":"@, decimal(p.frame_id as nat), ',')
            &&& stands_between(text, "\"slot_index\":"@, decimal(p.slot_index as nat), ',')
            &&& stands_between(text, "\"timestamp_us\":"@, decimal(p.timestamp_us as nat), '}')
        }),
{
    reveal_strlit("{");
    reveal_strlit("}");
    reveal_strlit(",");
    reveal_strlit("{\"frame_id\":");
    reveal_strlit("\"frame_id\":");
    reveal_strlit(",\"slot_index\":");
    reveal_strlit("\"slot_index\":");
    reveal_strlit(",\"timestamp_us\":");
    reveal_strlit("\"timestamp_us\":");
    let (id, slot, time) = (
        decimal(p.frame_id as nat),
        decimal(p.slot_index as nat),
        decimal(p.timestamp_us as nat),
    );
    let (a, b, c) = ("\"frame_id\":"@, "\"slot_index\":"@, "\"timestamp_us\":"@);
    assert("{\"frame_id\":"@ =~= "{"@ + a);
    assert(",\"slot_index\":"@ =~= ","@ + b);
    assert(",\"timestamp_us\":"@ =~= ","@ + c);
    let text = "{"@ + a + id + (","@ + b) + slot + (","@ + c) + time + "}"@;
    assert(frame_ready_text(p) == text);
    let rest = (","@ + c) + time + "}"@;
    lemma_stands("{"@, a, id, (","@ + b) + slot + rest, ',');
    assert(text =~= "{"@ + a + id + ((","@ + b) + slot + rest));
    lemma_stands("{"@ + a + id + ","@, b, slot, rest, ',');
    assert(text =~= ("{"@ + a + id + ","@) + b + slot + rest);
    lemma_stands("{"@ + a + id + (","@ + b) + slot + ","@, c, time, "}"@, '}');
    assert(text =~= ("{"@ + a + id + (","@ + b) + slot + ","@) + c + time + "}"@);
}

/// No two frames are announced alike.
pub proof fn law_announcements_are_distinct(p: FrameReadyPacket, q: FrameReadyPacket)
    requires
        frame_ready_text(p) == frame_ready_text(q),
    ensures
        p == q,
{
    reveal_strlit(",\"slot_index\":");
    reveal_strlit(",\"timestamp_us\":");
    reveal_strlit("}");
    let head = "{\"frame_id\":"@;
    let between = (",\"slot_index\":"@, ",\"timestamp_us\":"@, "}"@);
    let m = (p.frame_id as nat, p.slot_index as nat, p.timestamp_us as nat);
    let n = (q.frame_id as nat, q.slot_index as nat, q.timestamp_us as nat);
    assert(frame_ready_text(p) == three_numerals(head, m, between));
    assert(frame_ready_text(q) == three_numerals(head, n, between));
    lemma_three_numerals(head, m, n, between);
}

/// The config packet tells rings apart: no two that differ in the width, the
/// height, the channels or the number of slots are described alike.
pub proof fn law_shm_configs_are_distinct(one: ShmHeader, other: ShmHeader)
    requires
        shm_config_text(one) == shm_config_text(other),
    ensures
        one.width == other.width,
        one.height == other.height,
        one.channels == other.channels,
        one.slot_count == other.slot_count,
{
    reveal_strlit(",\"height\":");
    reveal_strlit(",\"channels\":");
    reveal_strlit(",\"slots\":");
    reveal_strlit(",\"format\":\"rgb\"}");
    let head = "{\"type\":\"config\",\"transport\":\"shm\",\"contract\":"@ + decimal(
        IPC_CONTRACT_VERSION as nat,
    ) + ",\"width\":"@;
    let between = (
        ",\"height\":"@,
        ",\"channels\":"@,
        ",\"slots\":"@,
        ",\"format\":\"rgb\"}"@,
    );
    let m = (one.width as nat, one.height as nat, one.channels as nat, one.slot_count as nat);
    let n = (
        other.width as nat,
        other.height as nat,
        other.channels as nat,
        other.slot_count as nat,
    );
    assert(shm_config_text(one) == four_numerals(head, m, between));
    assert(shm_config_text(other) == four_numerals(head, n, between));
    lemma_four_numerals(head, m, n, between);
}

/// The config packet tells a worker the geometry of the ring: behind the name
/// of each member stands its value, in decimal, up to the next comma.
pub proof fn law_shm_config_names_its_values(h: ShmHeader)
    ensures
        ({
            let text = shm_config_text(h);
            &&& stands_between(
                text,
                "\"contract\":"@,
                decimal(IPC_CONTRACT_VERSION as nat),
                ',',
            )
            &&& stands_between(text, "\"width\":"@, decimal(h.width as nat), ',')
            &&& stands_between(text, "\"height\":"@, decimal(h.height as nat), ',')
            &&& stands_between(text, "\"channels\":"@, decimal(h.channels as nat), ',')
            &&& stands_between(text, "\"slots\":"@, decimal(h.slot_count as nat), ',')
        }),
{
    reveal_strlit(",");
    reveal_strlit("{\"type\":\"config\",\"transport\":\"shm\",");
    reveal_strlit("{\"type\":\"config\",\"transport\":\"shm\",\"contract\":");
    reveal_strlit("\"contract\":");
    reveal_strlit(",\"width\":");
    reveal_strlit("\"width\":");
    reveal_strlit(",\"height\":");
    reveal_strlit("\"height\":");
    reveal_strlit(",\"channels\":");
    reveal_strlit("\"channels\":");
    reveal_strlit(",\"slots\":");
    reveal_strlit("\"slots\":");
    reveal_strlit(",\"format\":\"rgb\"}");
    let start = "{\"type\":\"config\",\"transport\":\"shm\","@;
    assert("{\"type\":\"config\",\"transport\":\"shm\",\"contract\":"@ =~= start
        + "\"contract\":"@);
    assert(",\"width\":"@ =~= ","@ + "\"width\":"@);
    assert(",\"height\":"@ =~= ","@ + "\"height\":"@);
    assert(",\"channels\":"@ =~= ","@ + "\"channels\":"@);
    assert(",\"slots\":"@ =~= ","@ + "\"slots\":"@);
    lemma_five_members(
        start,
        ("\"contract\":"@, "\"width\":"@, "\"height\":"@, "\"channels\":"@, "\"slots\":"@),
        (
            decimal(IPC_CONTRACT_VERSION as nat),
            decimal(h.width as nat),
            decimal(h.height as nat),
            decimal(h.channels as nat),
            decimal(h.slot_count as nat),
        ),
        ",\"format\":\"rgb\"}"@,
    );
}

/// What ends the wait for a worker: an acknowledgement, over either transport;
/// the deadline; a socket that failed, or a datagram that is neither a control
/// packet nor an acknowledgement, each with what went wrong. A control packet
/// never does, and a hello is answered.
pub proof fn law_what_ends_the_wait(event: Incoming)
    ensures
        wait_outcome(event) is AnswerHello <==> event is Datagram && event->control is Some
            && event->control->0@ == "hello"@,
        wait_outcome(event) is KeepWaiting <==> event is Datagram && event->control is Some
            && event->control->0@ != "hello"@,
        event is TimedOut ==> wait_outcome(event) == WaitOutcome::Failed(
            IpcFailure::DeadlineMissed,
        ),
        event matches Incoming::SocketFailed(error) ==> {
            &&& wait_outcome(event) matches WaitOutcome::Failed(IpcFailure::SocketError(text))
            &&& ends_with(text, error@)
        },
        event matches Incoming::Datagram { control: None, ack: Err(error) } ==> {
            &&& wait_outcome(event) matches WaitOutcome::Failed(IpcFailure::SocketError(text))
            &&& ends_with(text, error@)
        },
        event matches Incoming::Datagram { control: None, ack: Ok(packet) } ==> wait_outcome(event)
            == WaitOutcome::Acked(packet.frame_id, ack_outcome(packet)),
        event matches Incoming::RemoteAck(packet) ==> wait_outcome(event) == WaitOutcome::Acked(
            packet.frame_id,
            ack_outcome(packet),
        ),
{
    match event {
        Incoming::SocketFailed(error) => {
            lemma_ends_with("UDS recv error: "@, error@);
        },
        Incoming::Datagram { control: None, ack: Err(error) } => {
            lemma_ends_with("Invalid ACK JSON: "@, error@);
        },
        _ => {},
    }
}

/// An acknowledgement of success hands on the frame's number, the slot and the
/// processing time; one of failure hands on nothing but an error of the socket.
pub proof fn law_acks_are_taken_at_their_word(packet: FrameProcessedPacket)
    ensures
        ack_outcome(packet) is Ok <==> packet.success,
        ack_outcome(packet) matches Ok(meta) ==> {
            &&& meta.frame_id == packet.frame_id
            &&& meta.slot_index == packet.slot_index
            &&& meta.timestamp_us == packet.processing_time_us
        },
        ack_outcome(packet) matches Err(e) ==> e is SocketError,
{
}

/// A worker can be reached through its socket or a live connection, either of
/// them; one that can is healthy while its streak is short, one that cannot
/// never is. The gauge says the same.
pub proof fn law_either_way_reaches_the_worker(
    bridge: UdsControlBridge,
    socket_exists: bool,
    r: Registry,
)
    ensures
        bridge_healthy(bridge, socket_exists) <==> (socket_exists || bridge.remote.current is Some)
            && bridge.failure_streak < 30,
        ({
            let up = bridge_healthy(bridge, socket_exists);
            let after = with_health(r, up);
            &&& after.worker_healthy.value == 1 <==> up
            &&& after.worker_healthy.value == 0 <==> !up
            &&& after == (Registry { worker_healthy: after.worker_healthy, ..r })
        }),
{
}

/// A frame goes whole to a worker that is connected, and is announced in a
/// datagram otherwise: one byte per character of the announcement, which names
/// this frame, this slot and this time.
pub proof fn law_frames_are_announced(
    bridge: UdsControlBridge,
    meta: FrameMetadata,
    r: Result<Announcement, IpcError>,
)
    requires
        announces(bridge, meta, r),
    ensures
        r is Ok,
        r->Ok_0 is SendFrame <==> bridge.remote.current is Some,
        bridge.remote.current is None ==> ({
            let bytes = r->Ok_0->Datagram_0@;
            let text = frame_ready_text(
                FrameReadyPacket {
                    frame_id: meta.frame_id,
                    slot_index: meta.slot_index,
                    timestamp_us: meta.timestamp_us,
                },
            );
            &&& bytes.len() == text.len()
            &&& forall|i: int| 0 <= i < text.len() ==> #[trigger] bytes[i] == text[i] as u8
            &&& stands_between(text, "\"frame_id\":"@, decimal(meta.frame_id as nat), ',')
            &&& stands_between(text, "\"slot_index\":"@, decimal(meta.slot_index as nat), ',')
            &&& stands_between(
                text,
                "\"timestamp_us\":"@,
                decimal(meta.timestamp_us as nat),
                '}',
            )
        }),
{
    law_announcements_name_their_values(
        FrameReadyPacket {
            frame_id: meta.frame_id,
            slot_index: meta.slot_index,
            timestamp_us: meta.timestamp_us,
        },
    );
}

/// A path is laid out exactly if it leaves room for a zero, and then byte for
/// byte, with zeros up to the capacity.
pub proof fn law_socket_paths_are_kept(path: Seq<u8>, capacity: nat, r: Result<Vec<u8>, String>)
    requires
        is_laid_out(path, capacity, r),
    ensures
        r is Ok <==> path.len() < capacity,
        r matches Ok(bytes) ==> {
            &&& bytes@.len() == capacity
            &&& forall|i: int|
                0 <= i < capacity ==> #[trigger] bytes@[i] == if i < path.len() {
                    path[i]
                } else {
                    0
                }
        },
{
}

/// One more failure makes the streak one longer, as far as 32 bits count, and
/// the gauge shows the streak. Which worker is connected does not change.
pub proof fn law_the_gauge_shows_the_streak(
    bridge: UdsControlBridge,
    r: Registry,
    streak: u32,
    bridge_after: UdsControlBridge,
    after: Registry,
)
    requires
        has_streak(bridge, r, streak, bridge_after, after),
    ensures
        bridge_after.failure_streak == streak,
        after.failure_streak.value == bridge_after.failure_streak,
        bridge_after.remote == bridge.remote,
        after == (Registry { failure_streak: after.failure_streak, ..r }),
        streak < u32::MAX ==> one_more_failure(streak) == streak + 1,
        one_more_failure(u32::MAX) == 0,
{
}

/// What a worker acknowledges is booked under the frame it names: a success
/// with the slot and the time it gave, anything else as a failure.
pub proof fn law_acks_keep_their_frame(ack: Ack, packet: FrameProcessedPacket)
    requires
        acknowledges(ack, packet),
    ensures
        ack.frame_id == packet.frame_id,
        ack.result is Ok <==> packet.success,
        ack.result matches Ok(meta) ==> meta.frame_id == packet.frame_id,
        ack.result matches Err(e) ==> outcome_of(ack.result) == Err::<FrameMetadata, IpcFailure>(e@),
{
}

/// A wait step is what the traffic came to: its kind, its frame and its failure
/// are those that were seen.
pub proof fn law_steps_are_what_was_seen(step: WaitStep, event: Incoming)
    requires
        step_of(step) == wait_outcome(event),
    ensures
        step is AnswerHello <==> wait_outcome(event) is AnswerHello,
        step is KeepWaiting <==> wait_outcome(event) is KeepWaiting,
        step is Acked <==> wait_outcome(event) is Acked,
        step matches WaitStep::Acked(ack) ==> wait_outcome(event)->Acked_0 == ack.frame_id && (
        ack.result is Ok <==> wait_outcome(event)->Acked_1 is Ok),
        step is Acked && step->Acked_0.result is Ok ==> wait_outcome(event)->Acked_1->Ok_0
            == step->Acked_0.result->Ok_0,
        step matches WaitStep::Failed(e) ==> wait_outcome(event) == WaitOutcome::Failed(e@),
{
}

} // verus!
