//! The tcp-raw transport: raw frames to a worker on another machine.
//!
//! A worker says hello over UDP and is answered with a config packet that
//! names a TCP port. On that connection frames flow both ways: a fixed
//! 24-byte header plus the pixels. The shared-memory ring stays the daemon's
//! frame store: sending copies a slot onto the wire, and a result is copied
//! back into the slot it came from.
//!
//! Backpressure is drop, not buffer: a send that does not complete within one
//! frame deadline tears the connection down, and the frame passes through.

use crate::bytes::{from_le, to_le};
#[allow(unused_imports)]
use crate::bytes::{
    byte_span, law_little_endian, le_bytes, le_value, lemma_le_bytes_len, lemma_le_read_back,
    lemma_le_write_back,
};
use crate::ports::{FrameMetadata, IpcError, IpcFailure, ShmWriter};
use crate::shm::{ShmHeader, ShmRingBuffer};
#[allow(unused_imports)]
use crate::shm::{
    law_store_then_read, lemma_slot_bounds, no_such_slot, payload_len, pixels, segment_size,
    slot_state, sound, stored,
};
use crate::text::{push_decimal, same_text};
#[allow(unused_imports)]
use crate::text::{
    decimal, four_numerals, is_digit, lemma_five_members, lemma_four_numerals, stands_between, texts,
};
use crate::uds::{FrameProcessedPacket, IPC_CONTRACT_VERSION};
#[allow(unused_imports)]
use vstd::arithmetic::power::pow;
use vstd::prelude::*;

verus! {

/// Bytes of the header in front of every frame on the wire.
pub const WIRE_HEADER_SIZE: usize = 24;

/// Set in the flags of a result that holds processed pixels.
pub const FLAG_SUCCESS: u8 = 1;

/// The wire header of one frame in either direction. `time_us` is the capture
/// timestamp toward the worker and its processing time on the way back.
#[derive(Debug, Clone, Copy, PartialEq, Eq, Structural)]
pub struct WireHeader {
    pub frame_id: u64,
    pub time_us: u64,
    pub payload_len: u32,
    pub slot: u8,
    pub flags: u8,
}

/// The 24 bytes of a wire header, little-endian, the last two unused.
pub open spec fn wire_bytes(h: WireHeader) -> Seq<u8> {
    le_bytes(h.frame_id as nat, 8) + le_bytes(h.time_us as nat, 8) + le_bytes(
        h.payload_len as nat,
        4,
    ) + seq![h.slot, h.flags, 0u8, 0u8]
}

/// The wire header that 24 bytes stand for.
pub open spec fn wire_of(b: Seq<u8>) -> WireHeader {
    WireHeader {
        frame_id: le_value(b.subrange(0, 8)) as u64,
        time_us: le_value(b.subrange(8, 16)) as u64,
        payload_len: le_value(b.subrange(16, 20)) as u32,
        slot: b[20],
        flags: b[21],
    }
}

/// Whether a result header reports success.
pub open spec fn reports_success(h: WireHeader) -> bool {
    h.flags % 2 == 1
}

proof fn lemma_spans()
    ensures
        byte_span(4) == 0x1_0000_0000,
        byte_span(8) == 0x1_0000_0000_0000_0000,
{
    reveal_with_fuel(byte_span, 9);
}

/// A header that is encoded and decoded again is the same header.
pub proof fn law_wire_header_roundtrips(h: WireHeader)
    ensures
        wire_bytes(h).len() == WIRE_HEADER_SIZE,
        wire_of(wire_bytes(h)) == h,
{
    lemma_spans();
    lemma_le_bytes_len(h.frame_id as nat, 8);
    lemma_le_bytes_len(h.time_us as nat, 8);
    lemma_le_bytes_len(h.payload_len as nat, 4);
    lemma_le_read_back(h.frame_id as nat, 8);
    lemma_le_read_back(h.time_us as nat, 8);
    lemma_le_read_back(h.payload_len as nat, 4);
    let b = wire_bytes(h);
    assert(b.subrange(0, 8) =~= le_bytes(h.frame_id as nat, 8));
    assert(b.subrange(8, 16) =~= le_bytes(h.time_us as nat, 8));
    assert(b.subrange(16, 20) =~= le_bytes(h.payload_len as nat, 4));
}

/// Bytes with zero padding are the encoding of the header they decode to.
pub proof fn law_wire_bytes_roundtrip(b: Seq<u8>)
    requires
        b.len() == WIRE_HEADER_SIZE,
        b[22] == 0,
        b[23] == 0,
    ensures
        wire_bytes(wire_of(b)) == b,
{
    lemma_spans();
    let (x, y, z) = (b.subrange(0, 8), b.subrange(8, 16), b.subrange(16, 20));
    crate::bytes::lemma_le_value_bound(x);
    crate::bytes::lemma_le_value_bound(y);
    crate::bytes::lemma_le_value_bound(z);
    lemma_le_write_back(x);
    lemma_le_write_back(y);
    lemma_le_write_back(z);
    assert(wire_bytes(wire_of(b)) =~= b);
}

impl WireHeader {
    pub fn encode(&self) -> (r: [u8; WIRE_HEADER_SIZE])
        ensures
            r@ == wire_bytes(*self),
    {
        let id = to_le(self.frame_id, 8);
        let time = to_le(self.time_us, 8);
        let len = to_le(self.payload_len as u64, 4);
        let buf: [u8; WIRE_HEADER_SIZE] = [
            id[0],
            id[1],
            id[2],
            id[3],
            id[4],
            id[5],
            id[6],
            id[7],
            time[0],
            time[1],
            time[2],
            time[3],
            time[4],
            time[5],
            time[6],
            time[7],
            len[0],
            len[1],
            len[2],
            len[3],
            self.slot,
            self.flags,
            0,
            0,
        ];
        assert(buf@ =~= wire_bytes(*self));
        buf
    }

    pub fn decode(buf: &[u8; WIRE_HEADER_SIZE]) -> (r: WireHeader)
        ensures
            r == wire_of(buf@),
    {
        proof {
            lemma_spans();
        }
        let b = buf.as_slice();
        WireHeader {
            frame_id: from_le(b, 0, 8),
            time_us: from_le(b, 8, 8),
            payload_len: from_le(b, 16, 4) as u32,
            slot: b[20],
            flags: b[21],
        }
    }
}

/// A worker's hello over the network. Without a list of transports it takes
/// whatever the listener carries.
#[derive(Debug)]
pub struct NetHello {
    pub kind: String,
    pub transports: Option<Vec<String>>,
}

/// Whether a hello asks for transports, and tcp-raw is not among them.
pub open spec fn wants_something_else(hello: NetHello) -> bool {
    hello.transports matches Some(list) && !texts(list@).contains("tcp-raw"@)
}

/// The answer to a datagram on the control port; nothing that is not a hello
/// is answered.
pub open spec fn reply_text(hello: Option<NetHello>, config: Seq<char>) -> Option<Seq<char>> {
    match hello {
        Some(h) => if h.kind@ != "hello"@ {
            None
        } else if wants_something_else(h) {
            Some("{\"type\":\"error\",\"reason\":\"only tcp-raw is available over the network\"}"@)
        } else {
            Some(config)
        },
        None => None,
    }
}

fn lists_tcp_raw(list: &Vec<String>) -> (r: bool)
    ensures
        r == texts(list@).contains("tcp-raw"@),
{
    let mut i: usize = 0;
    while i < list.len()
        invariant
            i <= list@.len(),
            forall|k: int| 0 <= k < i ==> texts(list@)[k] != "tcp-raw"@,
        decreases list@.len() - i,
    {
        if same_text(list[i].as_str(), "tcp-raw") {
            assert(texts(list@)[i as int] == "tcp-raw"@);
            return true;
        }
        i += 1;
    }
    false
}

/// Decides the answer to a datagram on the control port; `None` stands for one
/// that does not parse.
pub fn negotiation_reply(hello: &Option<NetHello>, config: &str) -> (r: Option<String>)
    ensures
        r is Some == reply_text(*hello, config@) is Some,
        r matches Some(text) ==> Some(text@) == reply_text(*hello, config@),
{
    match hello {
        None => None,
        Some(h) => {
            if !same_text(h.kind.as_str(), "hello") {
                return None;
            }
            match &h.transports {
                Some(list) => {
                    if !lists_tcp_raw(list) {
                        return Some(
                            "{\"type\":\"error\",\"reason\":\"only tcp-raw is available over the network\"}".to_owned(),
                        );
                    }
                },
                None => {},
            }
            Some(config.to_owned())
        },
    }
}

/// The config packet that answers a network hello.
pub open spec fn tcp_config_text(h: ShmHeader, data_port: u16) -> Seq<char> {
    "{\"type\":\"config\",\"transport\":\"tcp-raw\",\"contract\":"@ + decimal(
        IPC_CONTRACT_VERSION as nat,
    ) + ",\"data_port\":"@ + decimal(data_port as nat) + ",\"width\":"@ + decimal(h.width as nat)
        + ",\"height\":"@ + decimal(h.height as nat) + ",\"channels\":"@ + decimal(
        h.channels as nat,
    ) + ",\"format\":\"rgb\"}"@
}

/// Everything a remote worker needs to open the data connection and to parse
/// what flows on it.
pub fn tcp_config_json(header: &ShmHeader, data_port: u16) -> (r: String)
    ensures
        r@ == tcp_config_text(*header, data_port),
{
    let mut out = "{\"type\":\"config\",\"transport\":\"tcp-raw\",\"contract\":".to_owned();
    push_decimal(&mut out, IPC_CONTRACT_VERSION as u64);
    out.append(",\"data_port\":");
    push_decimal(&mut out, data_port as u64);
    out.append(",\"width\":");
    push_decimal(&mut out, header.width as u64);
    out.append(",\"height\":");
    push_decimal(&mut out, header.height as u64);
    out.append(",\"channels\":");
    push_decimal(&mut out, header.channels as u64);
    out.append(",\"format\":\"rgb\"}");
    out
}

/// The frame deadline before any frame rate is known: 50 milliseconds.
pub const DEFAULT_DEADLINE_US: u64 = 50_000;

/// One and a half frame periods, in whole microseconds.
pub open spec fn deadline_micros(fps: u32) -> int {
    1_500_000int / (if fps == 0 {
        1int
    } else {
        fps as int
    })
}

/// The state of the connection to a remote worker. Connections are numbered,
/// so that a reader that dies late cannot detach its successor.
#[derive(Debug, Clone, Copy, PartialEq, Eq, Structural)]
pub struct RemoteState {
    /// The number of the current connection, if there is one.
    pub current: Option<u64>,
    /// The number of the latest connection.
    pub epoch: u64,
    /// The frame deadline in microseconds; bounds how long a send may block.
    pub deadline_us: u64,
}

/// What attaching a connection does.
pub open spec fn after_attach(s: RemoteState) -> RemoteState {
    let epoch = ((s.epoch + 1) % 0x1_0000_0000_0000_0000) as u64;
    RemoteState { current: Some(epoch), epoch, deadline_us: s.deadline_us }
}

/// What the end of connection `epoch` does.
pub open spec fn after_detach(s: RemoteState, epoch: u64) -> RemoteState {
    if s.current == Some(epoch) {
        after_drop(s)
    } else {
        s
    }
}

/// What dropping the current connection does.
pub open spec fn after_drop(s: RemoteState) -> RemoteState {
    RemoteState { current: None, epoch: s.epoch, deadline_us: s.deadline_us }
}

/// How an attempt to put a frame on the wire ended.
#[derive(Debug)]
pub enum SendOutcome {
    Sent,
    Failed(String),
    TimedOut,
}

/// The error that an attempt to send leaves behind.
pub open spec fn send_failure(outcome: SendOutcome) -> Option<IpcFailure> {
    match outcome {
        SendOutcome::Sent => None,
        SendOutcome::Failed(error) => Some(
            IpcFailure::SocketError("tcp-raw send failed: "@ + error@),
        ),
        SendOutcome::TimedOut => Some(IpcFailure::DeadlineMissed),
    }
}

impl RemoteState {
    pub fn new() -> (r: RemoteState)
        ensures
            r.current is None,
            r.epoch == 0,
            r.deadline_us == DEFAULT_DEADLINE_US,
    {
        RemoteState { current: None, epoch: 0, deadline_us: DEFAULT_DEADLINE_US }
    }

    /// True while a remote worker holds a live data connection.
    pub fn attached(&self) -> (r: bool)
        ensures
            r == (self.current is Some),
    {
        self.current.is_some()
    }

    /// Sets the deadline that the frame rate allows.
    pub fn enable(&mut self, fps: u32)
        ensures
            final(self).deadline_us == deadline_micros(fps),
            final(self).current == old(self).current,
            final(self).epoch == old(self).epoch,
    {
        let rate: u64 = if fps == 0 {
            1
        } else {
            fps as u64
        };
        self.deadline_us = 1_500_000 / rate;
    }

    /// Takes over a fresh connection, replacing any predecessor. Returns its
    /// number and whether it replaced one.
    pub fn attach(&mut self) -> (r: (u64, bool))
        ensures
            *final(self) == after_attach(*old(self)),
            final(self).current == Some(r.0),
            r.1 == (old(self).current is Some),
    {
        let replaced: bool = self.current.is_some();
        let epoch: u64 = self.epoch.wrapping_add(1);
        self.epoch = epoch;
        self.current = Some(epoch);
        (epoch, replaced)
    }

    /// Forgets connection `epoch`, unless another one has taken its place.
    /// Returns whether it was the current one.
    pub fn detach(&mut self, epoch: u64) -> (r: bool)
        ensures
            *final(self) == after_detach(*old(self), epoch),
            r == (old(self).current == Some(epoch)),
    {
        match self.current {
            Some(current) => {
                if current == epoch {
                    self.current = None;
                    return true;
                }
                false
            },
            None => false,
        }
    }

    /// The connection a frame goes out on.
    pub fn send_frame(&self) -> (r: Result<u64, IpcError>)
        ensures
            goes_to(*self, r),
    {
        match self.current {
            Some(epoch) => Ok(epoch),
            None => Err(IpcError::SocketError("no remote worker attached".to_owned())),
        }
    }

    /// Settles an attempt to send a frame. Anything but success drops the
    /// connection: backpressure has to become passthrough.
    pub fn settle_send(&mut self, outcome: SendOutcome) -> (r: Result<(), IpcError>)
        ensures
            match send_failure(outcome) {
                None => r is Ok && *final(self) == *old(self),
                Some(failure) => (r matches Err(e) && e@ == failure) && *final(self) == after_drop(
                    *old(self),
                ),
            },
    {
        match outcome {
            SendOutcome::Sent => Ok(()),
            SendOutcome::Failed(error) => {
                self.current = None;
                Err(IpcError::SocketError("tcp-raw send failed: ".to_owned().concat(error.as_str())))
            },
            SendOutcome::TimedOut => {
                self.current = None;
                Err(IpcError::DeadlineMissed)
            },
        }
    }
}

/// A reader that dies after its connection was replaced does not take the new
/// connection down with it.
pub proof fn law_late_reader_spares_its_successor(s: RemoteState, old_epoch: u64)
    requires
        s.current == Some(old_epoch),
        old_epoch <= s.epoch,
        s.epoch < u64::MAX,
    ensures
        after_detach(after_attach(s), old_epoch) == after_attach(s),
        after_attach(s).current is Some,
        after_attach(s).current != s.current,
{
}

/// The end of the current connection leaves no worker attached.
pub proof fn law_current_reader_detaches(s: RemoteState, epoch: u64)
    requires
        s.current == Some(epoch),
    ensures
        after_detach(s, epoch).current is None,
{
}

/// What a frame in a slot looks like on the wire.
pub open spec fn goes_on_the_wire(
    h: ShmHeader,
    seg: Seq<u8>,
    meta: FrameMetadata,
    header: WireHeader,
    payload: Seq<u8>,
) -> bool {
    &&& meta.slot_index < h.slot_count
    &&& header == WireHeader {
        frame_id: meta.frame_id,
        time_us: meta.timestamp_us,
        payload_len: payload_len(h) as u32,
        slot: meta.slot_index,
        flags: 0,
    }
    &&& payload == pixels(h, seg, meta.slot_index as int)
}

/// Takes a frame from its slot for the wire: its header and its pixels.
pub fn prepare_frame(ring: &ShmRingBuffer, segment: &[u8], meta: &FrameMetadata) -> (r: Result<
    (WireHeader, Vec<u8>),
    IpcError,
>)
    requires
        ring.valid(),
        segment@.len() == ring.segment_len(),
    ensures
        match r {
            Ok((header, payload)) => goes_on_the_wire(ring@, segment@, *meta, header, payload@),
            Err(e) => meta.slot_index >= ring@.slot_count && e@ == IpcFailure::ShmError(
                no_such_slot(meta.slot_index as nat, ring@.slot_count as nat),
            ),
        },
{
    let size: usize = ring.frame_size();
    let mut payload: Vec<u8> = vec![0u8; size];
    match ring.read_frame(segment, meta.slot_index, payload.as_mut_slice()) {
        Err(e) => {
            return Err(e);
        },
        Ok(()) => {},
    }
    proof {
        crate::shm::lemma_slot_bounds(ring@, meta.slot_index as int);
        assert(payload@ =~= pixels(ring@, segment@, meta.slot_index as int));
    }
    let header = WireHeader {
        frame_id: meta.frame_id,
        time_us: meta.timestamp_us,
        payload_len: size as u32,
        slot: meta.slot_index,
        flags: 0,
    };
    Ok((header, payload))
}

/// Why the reader of a connection stopped.
#[derive(Debug, Clone, Copy, PartialEq, Eq, Structural)]
pub enum StopReason {
    ConnectionClosed,
    ProtocolError,
    ClosedMidFrame,
    BridgeDropped,
}

/// Whether `r` is the connection that a frame goes out on.
pub open spec fn goes_to(state: RemoteState, r: Result<u64, IpcError>) -> bool {
    match state.current {
        Some(epoch) => r == Ok::<u64, IpcError>(epoch),
        None => r matches Err(e) && e@ == IpcFailure::SocketError("no remote worker attached"@),
    }
}

/// How the reason reads in the log.
pub open spec fn reason_text(reason: StopReason) -> Seq<char> {
    match reason {
        StopReason::ConnectionClosed => "connection closed"@,
        StopReason::ProtocolError => "protocol error"@,
        StopReason::ClosedMidFrame => "connection closed mid-frame"@,
        StopReason::BridgeDropped => "bridge dropped"@,
    }
}

impl StopReason {
    pub fn text(&self) -> (r: &'static str)
        ensures
            r@ == reason_text(*self),
    {
        match self {
            StopReason::ConnectionClosed => "connection closed",
            StopReason::ProtocolError => "protocol error",
            StopReason::ClosedMidFrame => "connection closed mid-frame",
            StopReason::BridgeDropped => "bridge dropped",
        }
    }
}

/// What the reader of a connection does next.
#[derive(Debug, Clone, Copy, PartialEq, Eq, Structural)]
pub enum ReaderStep {
    /// Read the header of the next result.
    ReadHeader,
    /// Read the pixels that belong to this header.
    ReadPayload(WireHeader),
    /// Hand the acknowledgement to the bridge.
    Forward(FrameProcessedPacket),
    Stop(StopReason),
}

/// The acknowledgement that a result header carries.
pub open spec fn ack_of(h: WireHeader) -> FrameProcessedPacket {
    FrameProcessedPacket {
        frame_id: h.frame_id,
        slot_index: h.slot,
        processing_time_us: h.time_us,
        success: reports_success(h),
    }
}

/// What follows the bytes of a header, or their absence.
pub open spec fn after_header(read: Option<Seq<u8>>, payload_size: int) -> ReaderStep {
    match read {
        None => ReaderStep::Stop(StopReason::ConnectionClosed),
        Some(b) => if wire_of(b).payload_len == payload_size {
            ReaderStep::ReadPayload(wire_of(b))
        } else {
            ReaderStep::Stop(StopReason::ProtocolError)
        },
    }
}

/// The step after an attempt to read a header; `None` stands for a connection
/// that ended. A result of any other size than the frames of the ring is a
/// protocol error.
pub fn on_header(read: Option<[u8; WIRE_HEADER_SIZE]>, payload_size: usize) -> (r: ReaderStep)
    ensures
        r == after_header(
            match read {
                None => None,
                Some(b) => Some(b@),
            },
            payload_size as int,
        ),
{
    match read {
        None => ReaderStep::Stop(StopReason::ConnectionClosed),
        Some(b) => {
            let header = WireHeader::decode(&b);
            if header.payload_len as u64 != payload_size as u64 {
                ReaderStep::Stop(StopReason::ProtocolError)
            } else {
                ReaderStep::ReadPayload(header)
            }
        },
    }
}

/// What the pixels of a result, or their absence, come to.
pub open spec fn takes_result(
    h: ShmHeader,
    seg: Seq<u8>,
    header: WireHeader,
    payload: Option<Seq<u8>>,
    r: ReaderStep,
    seg_after: Seq<u8>,
) -> bool {
    match payload {
        None => {
            &&& r == ReaderStep::Stop(StopReason::ClosedMidFrame)
            &&& seg_after == seg
        },
        Some(data) => if !reports_success(header) {
            &&& r == ReaderStep::Forward(ack_of(header))
            &&& seg_after == seg
        } else if header.slot < h.slot_count && data.len() <= payload_len(h) {
            &&& r == ReaderStep::Forward(ack_of(header))
            &&& seg_after == stored(h, seg, header.slot as int, data)
        } else {
            &&& r == ReaderStep::ReadHeader
            &&& seg_after == seg
        },
    }
}

/// The step after an attempt to read the pixels of a result. A successful
/// result lands in its slot before its acknowledgement is passed on; one that
/// cannot be stored is dropped; a failed one is passed on as it is, and its
/// slot is left to the roundtrip that waits for it.
pub fn on_payload(
    ring: &ShmRingBuffer,
    segment: &mut [u8],
    header: WireHeader,
    payload: Option<&[u8]>,
) -> (r: ReaderStep)
    requires
        ring.valid(),
        old(segment)@.len() == ring.segment_len(),
    ensures
        takes_result(
            ring@,
            old(segment)@,
            header,
            match payload {
                None => None,
                Some(data) => Some(data@),
            },
            r,
            final(segment)@,
        ),
        final(segment)@.len() == old(segment)@.len(),
{
    match payload {
        None => ReaderStep::Stop(StopReason::ClosedMidFrame),
        Some(data) => {
            let flags: u8 = header.flags;
            assert((flags & 1 != 0) == (flags % 2 == 1)) by (bit_vector);
            let success: bool = flags & FLAG_SUCCESS != 0;
            if success {
                match ring.store_processed(segment, header.slot, data) {
                    Err(_) => {
                        return ReaderStep::ReadHeader;
                    },
                    Ok(()) => {},
                }
            }
            ReaderStep::Forward(
                FrameProcessedPacket {
                    frame_id: header.frame_id,
                    slot_index: header.slot,
                    processing_time_us: header.time_us,
                    success,
                },
            )
        },
    }
}

/// What follows an attempt to pass an acknowledgement on.
pub open spec fn after_forward(delivered: bool) -> ReaderStep {
    if delivered {
        ReaderStep::ReadHeader
    } else {
        ReaderStep::Stop(StopReason::BridgeDropped)
    }
}

/// The step after an attempt to pass an acknowledgement on.
pub fn on_forwarded(delivered: bool) -> (r: ReaderStep)
    ensures
        r == after_forward(delivered),
{
    if delivered {
        ReaderStep::ReadHeader
    } else {
        ReaderStep::Stop(StopReason::BridgeDropped)
    }
}

/// The config packet tells a worker the port and the frames' geometry: behind
/// the name of each member stands its value, in decimal, up to the next comma.
pub proof fn law_tcp_config_names_its_values(h: ShmHeader, data_port: u16)
    ensures
        ({
            let text = tcp_config_text(h, data_port);
            &&& stands_between(text, "\"data_port\":"@, decimal(data_port as nat), ',')
            &&& stands_between(text, "\"width\":"@, decimal(h.width as nat), ',')
            &&& stands_between(text, "\"height\":"@, decimal(h.height as nat), ',')
            &&& stands_between(text, "\"channels\":"@, decimal(h.channels as nat), ',')
            &&& stands_between(
                text,
                "\"contract\":"@,
                decimal(IPC_CONTRACT_VERSION as nat),
                ',',
            )
        }),
{
    reveal_strlit(",");
    reveal_strlit("{\"type\":\"config\",\"transport\":\"tcp-raw\",");
    reveal_strlit("{\"type\":\"config\",\"transport\":\"tcp-raw\",\"contract\":");
    reveal_strlit("\"contract\":");
    reveal_strlit(",\"data_port\":");
    reveal_strlit("\"data_port\":");
    reveal_strlit(",\"width\":");
    reveal_strlit("\"width\":");
    reveal_strlit(",\"height\":");
    reveal_strlit("\"height\":");
    reveal_strlit(",\"channels\":");
    reveal_strlit("\"channels\":");
    reveal_strlit(",\"format\":\"rgb\"}");
    let head = "{\"type\":\"config\",\"transport\":\"tcp-raw\",\"contract\":"@;
    let start = "{\"type\":\"config\",\"transport\":\"tcp-raw\","@;
    assert(head =~= start + "\"contract\":"@);
    assert(",\"data_port\":"@ =~= ","@ + "\"data_port\":"@);
    assert(",\"width\":"@ =~= ","@ + "\"width\":"@);
    assert(",\"height\":"@ =~= ","@ + "\"height\":"@);
    assert(",\"channels\":"@ =~= ","@ + "\"channels\":"@);
    lemma_five_members(
        start,
        (
            "\"contract\":"@,
            "\"data_port\":"@,
            "\"width\":"@,
            "\"height\":"@,
            "\"channels\":"@,
        ),
        (
            decimal(IPC_CONTRACT_VERSION as nat),
            decimal(data_port as nat),
            decimal(h.width as nat),
            decimal(h.height as nat),
            decimal(h.channels as nat),
        ),
        ",\"format\":\"rgb\"}"@,
    );
}

/// The config packet tells rings and ports apart: no two that differ in the
/// port, the width, the height or the channels are described alike.
pub proof fn law_tcp_configs_are_distinct(
    one: ShmHeader,
    one_port: u16,
    other: ShmHeader,
    other_port: u16,
)
    requires
        tcp_config_text(one, one_port) == tcp_config_text(other, other_port),
    ensures
        one_port == other_port,
        one.width == other.width,
        one.height == other.height,
        one.channels == other.channels,
{
    reveal_strlit(",\"data_port\":");
    reveal_strlit(",\"width\":");
    reveal_strlit(",\"height\":");
    reveal_strlit(",\"channels\":");
    reveal_strlit(",\"format\":\"rgb\"}");
    let head = "{\"type\":\"config\",\"transport\":\"tcp-raw\",\"contract\":"@ + decimal(
        IPC_CONTRACT_VERSION as nat,
    ) + ",\"data_port\":"@;
    let between = (
        ",\"width\":"@,
        ",\"height\":"@,
        ",\"channels\":"@,
        ",\"format\":\"rgb\"}"@,
    );
    let m = (one_port as nat, one.width as nat, one.height as nat, one.channels as nat);
    let n = (other_port as nat, other.width as nat, other.height as nat, other.channels as nat);
    assert(tcp_config_text(one, one_port) == four_numerals(head, m, between));
    assert(tcp_config_text(other, other_port) == four_numerals(head, n, between));
    lemma_four_numerals(head, m, n, between);
}

/// Where a worker finds what is in the header of a frame: its number in the
/// bytes from 0 on, its time from 8, the length of its pixels from 16, its slot
/// in byte 20 and its flags in byte 21, and zeros in the rest.
pub proof fn law_wire_layout(h: WireHeader, k: nat)
    requires
        k < 8,
    ensures
        wire_bytes(h).len() == 24,
        wire_bytes(h)[k as int] == (h.frame_id as int / pow(256, k)) % 256,
        wire_bytes(h)[8 + k as int] == (h.time_us as int / pow(256, k)) % 256,
        k < 4 ==> wire_bytes(h)[16 + k as int] == (h.payload_len as int / pow(256, k)) % 256,
        wire_bytes(h)[20] == h.slot,
        wire_bytes(h)[21] == h.flags,
        wire_bytes(h)[22] == 0,
        wire_bytes(h)[23] == 0,
{
    law_little_endian(h.frame_id as nat, 8, k);
    law_little_endian(h.time_us as nat, 8, k);
    lemma_le_bytes_len(h.payload_len as nat, 4);
    if k < 4 {
        law_little_endian(h.payload_len as nat, 4, k);
    }
}

/// A frame goes out whole, with its own number, timestamp and slot: byte for
/// byte the pixels of its slot, and as many as its header says.
pub proof fn law_frames_go_out_whole(
    h: ShmHeader,
    seg: Seq<u8>,
    meta: FrameMetadata,
    header: WireHeader,
    payload: Seq<u8>,
)
    requires
        sound(h),
        seg.len() == segment_size(h),
        goes_on_the_wire(h, seg, meta, header, payload),
    ensures
        header.frame_id == meta.frame_id,
        header.time_us == meta.timestamp_us,
        header.slot == meta.slot_index,
        header.flags == 0,
        payload.len() == header.payload_len,
        header.payload_len == h.width * h.height * h.channels,
        forall|k: int|
            0 <= k < payload.len() ==> #[trigger] payload[k] == seg[32 + meta.slot_index * (h.width
                * h.height * h.channels + 24) + 24 + k],
{
    let slot = meta.slot_index as int;
    lemma_slot_bounds(h, slot);
    assert(slot * h.slot_size == meta.slot_index * (h.width * h.height * h.channels + 24));
}

/// A result that a worker puts on the wire is read as the worker wrote it, if
/// it has the size of the ring's frames; any other ends the connection.
pub proof fn law_results_are_read_as_written(h: WireHeader, payload_size: int)
    ensures
        after_header(Some(wire_bytes(h)), payload_size) == if h.payload_len == payload_size {
            ReaderStep::ReadPayload(h)
        } else {
            ReaderStep::Stop(StopReason::ProtocolError)
        },
        after_header(None, payload_size) == ReaderStep::Stop(StopReason::ConnectionClosed),
        after_forward(true) == ReaderStep::ReadHeader,
        after_forward(false) == ReaderStep::Stop(StopReason::BridgeDropped),
{
    law_wire_header_roundtrips(h);
}

/// A result that reports success is in its slot, byte for byte, before its
/// acknowledgement is passed on with the worker's own number, slot and time; a
/// reported failure is passed on without touching the memory; a result for a
/// slot that is not there is dropped, and half a result ends the connection.
pub proof fn law_results_land_in_their_slot(
    h: ShmHeader,
    seg: Seq<u8>,
    header: WireHeader,
    data: Seq<u8>,
    r: ReaderStep,
    seg_after: Seq<u8>,
)
    requires
        sound(h),
        seg.len() == segment_size(h),
        data.len() == h.width * h.height * h.channels,
        takes_result(h, seg, header, Some(data), r, seg_after),
    ensures
        ({
            let success = header.flags % 2 == 1;
            let ack = FrameProcessedPacket {
                frame_id: header.frame_id,
                slot_index: header.slot,
                processing_time_us: header.time_us,
                success,
            };
            &&& success && header.slot < h.slot_count ==> {
                &&& r == ReaderStep::Forward(ack)
                &&& pixels(h, seg_after, header.slot as int) == data
                &&& slot_state(h, seg_after, header.slot as int) == 0
                &&& forall|j: int|
                    0 <= j < h.slot_count && j != header.slot ==> #[trigger] crate::shm::slot_bytes(
                        h,
                        seg_after,
                        j,
                    ) == crate::shm::slot_bytes(h, seg, j)
            }
            &&& success && header.slot >= h.slot_count ==> r == ReaderStep::ReadHeader && seg_after
                == seg
            &&& !success ==> r == ReaderStep::Forward(ack) && seg_after == seg
        }),
        takes_result(h, seg, header, None, ReaderStep::Stop(StopReason::ClosedMidFrame), seg),
{
    let slot = header.slot as int;
    if header.flags % 2 == 1 && header.slot < h.slot_count {
        law_store_then_read(h, seg, slot, data);
        lemma_slot_bounds(h, slot);
        assert(pixels(h, seg_after, slot).take(data.len() as int) =~= pixels(h, seg_after, slot));
    }
}

/// A hello is answered, and nothing but a hello: with the config if the worker
/// takes any transport or tcp-raw among others, and with a refusal, which is no
/// config, otherwise.
pub proof fn law_hellos_are_answered(hello: NetHello, config: Seq<char>)
    ensures
        reply_text(None, config) is None,
        hello.kind@ != "hello"@ ==> reply_text(Some(hello), config) is None,
        hello.kind@ == "hello"@ ==> ({
            let reply = reply_text(Some(hello), config);
            let suits = hello.transports is None || exists|i: int|
                0 <= i < hello.transports->0@.len() && (#[trigger] hello.transports->0@[i])@
                    == "tcp-raw"@;
            &&& reply is Some
            &&& suits ==> reply->0 == config
            &&& !suits ==> crate::text::has_prefix(reply->0, "{\"type\":\"error\","@)
        }),
{
    if hello.transports is Some {
        let list = hello.transports->0@;
        if texts(list).contains("tcp-raw"@) {
            let i = choose|i: int| 0 <= i < texts(list).len() && texts(list)[i] == "tcp-raw"@;
            assert(list[i]@ == "tcp-raw"@);
        }
        assert forall|i: int| 0 <= i < list.len() && (#[trigger] list[i])@ == "tcp-raw"@ implies texts(
            list,
        ).contains("tcp-raw"@) by {
            assert(texts(list)[i] == "tcp-raw"@);
        }
    }
    reveal_strlit("{\"type\":\"error\",");
    reveal_strlit("{\"type\":\"error\",\"reason\":\"only tcp-raw is available over the network\"}");
    let refusal =
        "{\"type\":\"error\",\"reason\":\"only tcp-raw is available over the network\"}"@;
    assert(refusal.subrange(0, 16) =~= "{\"type\":\"error\","@);
}

/// A send that goes through keeps the connection, and any other drops it: one
/// that took too long counts as a missed deadline, one that failed as an error
/// of the socket that says why.
pub proof fn law_only_sent_frames_keep_the_connection(s: RemoteState, outcome: SendOutcome)
    ensures
        send_failure(outcome) is None <==> outcome is Sent,
        outcome is TimedOut ==> send_failure(outcome) == Some(IpcFailure::DeadlineMissed),
        outcome matches SendOutcome::Failed(error) ==> {
            &&& send_failure(outcome) matches Some(IpcFailure::SocketError(text))
            &&& crate::text::ends_with(text, error@)
        },
        after_drop(s).current is None,
        after_drop(s).epoch == s.epoch,
        after_drop(s).deadline_us == s.deadline_us,
{
    if outcome is Failed {
        crate::text::lemma_ends_with("tcp-raw send failed: "@, outcome->Failed_0@);
    }
}

/// Each connection that takes over is the current one under a number of its
/// own, and keeps the deadline.
pub proof fn law_connections_are_numbered(s: RemoteState)
    ensures
        after_attach(s).current == Some(after_attach(s).epoch),
        after_attach(s).epoch != s.epoch,
        after_attach(s).deadline_us == s.deadline_us,
{
}

/// A send may block for one and a half frame periods, to the microsecond below.
pub proof fn law_send_deadline_is_one_and_a_half_periods(fps: u32)
    requires
        fps > 0,
    ensures
        2 * fps * deadline_micros(fps) <= 3 * 1_000_000 < 2 * fps * (deadline_micros(fps) + 1),
        deadline_micros(0) == deadline_micros(1),
{
    let f = fps as int;
    let d = deadline_micros(fps);
    assert(f * d <= 1_500_000 < f * (d + 1)) by (nonlinear_arith)
        requires
            f > 0,
            d == 1_500_000int / f,
    ;
    assert(2 * f * d == 2 * (f * d)) by (nonlinear_arith);
    assert(2 * f * (d + 1) == 2 * (f * (d + 1))) by (nonlinear_arith);
}

/// A frame goes to the connection that is there, whichever number it has, and
/// to none that is not.
pub proof fn law_frames_go_to_the_live_connection(state: RemoteState, r: Result<u64, IpcError>)
    requires
        goes_to(state, r),
    ensures
        r is Ok <==> state.current is Some,
        r matches Ok(epoch) ==> state.current == Some(epoch),
        r matches Err(e) ==> e@ is SocketError,
{
}

/// The log can tell why a reader stopped: no two reasons read alike.
pub proof fn law_reasons_are_told_apart(a: StopReason, b: StopReason)
    ensures
        reason_text(a) == reason_text(b) ==> a == b,
        reason_text(a).len() > 0,
{
    reveal_strlit("connection closed");
    reveal_strlit("protocol error");
    reveal_strlit("connection closed mid-frame");
    reveal_strlit("bridge dropped");
    if reason_text(a) == reason_text(b) {
        assert(reason_text(a)[0] == reason_text(b)[0]);
        assert(reason_text(a).len() == reason_text(b).len());
    }
}

} // verus!
