//! The vocabulary shared by the media side and the worker side: frames on
//! their way through a slot, the two branches of the stream, and what can go
//! wrong with either.

#[allow(unused_imports)]
use crate::text::{ends_with, lemma_ends_with};
use vstd::prelude::*;

verus! {

/// A frame that sits in a shared-memory slot.
#[derive(Debug, Clone, Copy, PartialEq, Eq, Structural)]
pub struct FrameMetadata {
    pub frame_id: u64,
    pub slot_index: u8,
    pub timestamp_us: u64,
}

/// Why a frame did not make it to the worker and back.
#[derive(Debug)]
pub enum IpcError {
    ShmError(String),
    SocketError(String),
    DeadlineMissed,
    BufferFull,
}

/// What an [`IpcError`] says.
pub enum IpcFailure {
    ShmError(Seq<char>),
    SocketError(Seq<char>),
    DeadlineMissed,
    BufferFull,
}

impl View for IpcError {
    type V = IpcFailure;

    open spec fn view(&self) -> IpcFailure {
        match self {
            IpcError::ShmError(s) => IpcFailure::ShmError(s@),
            IpcError::SocketError(s) => IpcFailure::SocketError(s@),
            IpcError::DeadlineMissed => IpcFailure::DeadlineMissed,
            IpcError::BufferFull => IpcFailure::BufferFull,
        }
    }
}

/// The sentence that reports a failure.
pub open spec fn ipc_message(e: IpcFailure) -> Seq<char> {
    match e {
        IpcFailure::ShmError(s) => "Shared Memory allocation or access failed: "@ + s,
        IpcFailure::SocketError(s) => "Socket communication error: "@ + s,
        IpcFailure::DeadlineMissed => "Worker timed out: Python missed the frame deadline"@,
        IpcFailure::BufferFull => "Ring buffer exhausted: All SHM slots are currently busy"@,
    }
}

impl IpcError {
    pub fn message(&self) -> (r: String)
        ensures
            r@ == ipc_message(self@),
    {
        match self {
            IpcError::ShmError(s) => "Shared Memory allocation or access failed: ".to_owned().concat(
                s.as_str(),
            ),
            IpcError::SocketError(s) => "Socket communication error: ".to_owned().concat(s.as_str()),
            IpcError::DeadlineMissed => {
                "Worker timed out: Python missed the frame deadline".to_owned()
            },
            IpcError::BufferFull => {
                "Ring buffer exhausted: All SHM slots are currently busy".to_owned()
            },
        }
    }
}

/// The two branches the stream can be switched to.
#[derive(Debug, Clone, Copy, PartialEq, Eq, Structural)]
pub enum ActiveBranch {
    Passthrough,
    AiProcess,
}

/// What can go wrong with the media pipeline.
#[derive(Debug)]
pub enum EngineError {
    BuildFailed(String),
    StateChangeFailed(String),
    SwitchFailed(String),
}

/// What an [`EngineError`] says.
pub enum EngineFailure {
    BuildFailed(Seq<char>),
    StateChangeFailed(Seq<char>),
    SwitchFailed(Seq<char>),
}

impl View for EngineError {
    type V = EngineFailure;

    open spec fn view(&self) -> EngineFailure {
        match self {
            EngineError::BuildFailed(s) => EngineFailure::BuildFailed(s@),
            EngineError::StateChangeFailed(s) => EngineFailure::StateChangeFailed(s@),
            EngineError::SwitchFailed(s) => EngineFailure::SwitchFailed(s@),
        }
    }
}

/// The sentence that reports a failure of the pipeline.
pub open spec fn engine_message(e: EngineFailure) -> Seq<char> {
    match e {
        EngineFailure::BuildFailed(s) => "Failed to build pipeline: "@ + s,
        EngineFailure::StateChangeFailed(s) => "Pipeline state change error: "@ + s,
        EngineFailure::SwitchFailed(s) => "Dynamic switch failed: "@ + s,
    }
}

impl EngineError {
    pub fn message(&self) -> (r: String)
        ensures
            r@ == engine_message(self@),
    {
        match self {
            EngineError::BuildFailed(s) => "Failed to build pipeline: ".to_owned().concat(s.as_str()),
            EngineError::StateChangeFailed(s) => "Pipeline state change error: ".to_owned().concat(
                s.as_str(),
            ),
            EngineError::SwitchFailed(s) => "Dynamic switch failed: ".to_owned().concat(s.as_str()),
        }
    }
}

/// Where frames are put for the worker to find.
pub trait ShmWriter {
    /// Whether the writer's own description of its memory is sound.
    spec fn valid(&self) -> bool;

    /// How many bytes of memory the writer describes.
    spec fn segment_len(&self) -> nat;

    /// Puts the bytes of a frame into a free slot of `segment` and says which.
    fn write_frame(
        &self,
        segment: &mut [u8],
        frame_id: u64,
        data: &[u8],
        timestamp_us: u64,
    ) -> (r: Result<FrameMetadata, IpcError>)
        requires
            self.valid(),
            old(segment)@.len() == self.segment_len(),
        ensures
            final(segment)@.len() == old(segment)@.len(),
    ;
}

/// A report carries the cause it was given to its end, and the kind of failure
/// can be told from how it begins: no two kinds read alike.
pub proof fn law_reports_carry_their_cause(a: IpcFailure, b: IpcFailure, cause: Seq<char>)
    ensures
        ends_with(ipc_message(IpcFailure::ShmError(cause)), cause),
        ends_with(ipc_message(IpcFailure::SocketError(cause)), cause),
        ipc_message(a) == ipc_message(b) ==> a == b,
{
    reveal_strlit("Shared Memory allocation or access failed: ");
    reveal_strlit("Socket communication error: ");
    reveal_strlit("Worker timed out: Python missed the frame deadline");
    reveal_strlit("Ring buffer exhausted: All SHM slots are currently busy");
    lemma_ends_with("Shared Memory allocation or access failed: "@, cause);
    lemma_ends_with("Socket communication error: "@, cause);
    if ipc_message(a) == ipc_message(b) {
        assert(ipc_message(a)[0] == ipc_message(b)[0]);
        assert(ipc_message(a)[1] == ipc_message(b)[1]);
        match (a, b) {
            (IpcFailure::ShmError(s), IpcFailure::ShmError(t)) => {
                lemma_same_cause("Shared Memory allocation or access failed: "@, s, t);
            },
            (IpcFailure::SocketError(s), IpcFailure::SocketError(t)) => {
                lemma_same_cause("Socket communication error: "@, s, t);
            },
            _ => {},
        }
    }
}

/// The same of the failures of the pipeline.
pub proof fn law_pipeline_reports_carry_their_cause(
    a: EngineFailure,
    b: EngineFailure,
    cause: Seq<char>,
)
    ensures
        ends_with(engine_message(EngineFailure::BuildFailed(cause)), cause),
        ends_with(engine_message(EngineFailure::StateChangeFailed(cause)), cause),
        ends_with(engine_message(EngineFailure::SwitchFailed(cause)), cause),
        engine_message(a) == engine_message(b) ==> a == b,
{
    reveal_strlit("Failed to build pipeline: ");
    reveal_strlit("Pipeline state change error: ");
    reveal_strlit("Dynamic switch failed: ");
    lemma_ends_with("Failed to build pipeline: "@, cause);
    lemma_ends_with("Pipeline state change error: "@, cause);
    lemma_ends_with("Dynamic switch failed: "@, cause);
    if engine_message(a) == engine_message(b) {
        assert(engine_message(a)[0] == engine_message(b)[0]);
        match (a, b) {
            (EngineFailure::BuildFailed(s), EngineFailure::BuildFailed(t)) => {
                lemma_same_cause("Failed to build pipeline: "@, s, t);
            },
            (EngineFailure::StateChangeFailed(s), EngineFailure::StateChangeFailed(t)) => {
                lemma_same_cause("Pipeline state change error: "@, s, t);
            },
            (EngineFailure::SwitchFailed(s), EngineFailure::SwitchFailed(t)) => {
                lemma_same_cause("Dynamic switch failed: "@, s, t);
            },
            _ => {},
        }
    }
}

proof fn lemma_same_cause(head: Seq<char>, s: Seq<char>, t: Seq<char>)
    requires
        head + s == head + t,
    ensures
        s == t,
{
    assert((head + s).skip(head.len() as int) =~= s);
    assert((head + t).skip(head.len() as int) =~= t);
}

} // verus!
