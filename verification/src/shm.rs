//! The shared-memory ring: one segment header, then `slot_count` slots, each a
//! slot header and the pixels of one frame.
//!
//! The layout is the contract with workers in other processes and languages:
//! a 32-byte segment header, a 24-byte header per slot, all numbers
//! little-endian. A slot is claimed and filled by the daemon
//! (`FREE -> PROCESSING -> READY_FOR_AI`) and goes back to `FREE` through
//! whichever side is done with it. The operations work on the bytes of the
//! segment, which the caller holds and keeps in step with the mapping.

use crate::bytes::{copy_into, from_le, to_le};
#[allow(unused_imports)]
use crate::bytes::{
    byte_span, law_little_endian, le_bytes, le_value, lemma_le_bytes_len, lemma_le_read_back,
    splice,
};
use crate::ports::{FrameMetadata, IpcError, IpcFailure, ShmWriter};
use crate::text::push_decimal;
#[allow(unused_imports)]
use crate::text::{decimal, lemma_stands, stands_between};
#[allow(unused_imports)]
use vstd::arithmetic::power::pow;
use vstd::prelude::*;

verus! {

pub const SLOT_FREE: u8 = 0;

pub const SLOT_READY_FOR_AI: u8 = 1;

pub const SLOT_PROCESSING: u8 = 2;

/// Bytes of the segment header.
pub const SHM_HEADER_SIZE: usize = 32;

/// Bytes of the header in front of each slot's pixels.
pub const SLOT_HEADER_SIZE: usize = 24;

/// The header at the start of the segment. `slot_size` is the whole stride of
/// a slot, its header included.
#[derive(Debug, Clone, Copy, PartialEq, Eq, Structural)]
pub struct ShmHeader {
    pub width: u32,
    pub height: u32,
    pub channels: u8,
    pub slot_count: u8,
    pub slot_size: u32,
}

/// The header in front of a slot's pixels.
#[derive(Debug, Clone, Copy, PartialEq, Eq, Structural)]
pub struct SlotHeader {
    pub state: u8,
    pub frame_id: u64,
    pub timestamp_us: u64,
}

/// `n` zero bytes.
pub open spec fn zeros(n: nat) -> Seq<u8> {
    Seq::new(n, |i: int| 0u8)
}

/// The 32 bytes of a segment header.
pub open spec fn header_bytes(h: ShmHeader) -> Seq<u8> {
    le_bytes(h.width as nat, 4) + le_bytes(h.height as nat, 4) + seq![
        h.channels,
        h.slot_count,
        0u8,
        0u8,
    ] + le_bytes(h.slot_size as nat, 4) + zeros(16)
}

/// The segment header that 32 bytes stand for.
pub open spec fn header_of(b: Seq<u8>) -> ShmHeader {
    ShmHeader {
        width: le_value(b.subrange(0, 4)) as u32,
        height: le_value(b.subrange(4, 8)) as u32,
        channels: b[8],
        slot_count: b[9],
        slot_size: le_value(b.subrange(12, 16)) as u32,
    }
}

/// The slot header that 24 bytes stand for.
pub open spec fn slot_header_of(b: Seq<u8>) -> SlotHeader {
    SlotHeader {
        state: b[0],
        frame_id: le_value(b.subrange(8, 16)) as u64,
        timestamp_us: le_value(b.subrange(16, 24)) as u64,
    }
}

/// The pixels of one frame, in bytes.
pub open spec fn payload_len(h: ShmHeader) -> int {
    h.width * h.height * h.channels
}

/// Where slot `i` begins.
pub open spec fn slot_offset(h: ShmHeader, i: int) -> int {
    SHM_HEADER_SIZE + i * h.slot_size
}

/// The bytes of a whole segment.
pub open spec fn segment_size(h: ShmHeader) -> int {
    slot_offset(h, h.slot_count as int)
}

/// Whether a frame geometry can be laid out at all: the pixel count, the
/// stride and the segment each fit the type that counts them.
pub open spec fn fits(width: u32, height: u32, channels: u8, slot_count: u8) -> bool {
    &&& width * height <= u32::MAX
    &&& width * height * channels + SLOT_HEADER_SIZE <= u32::MAX
    &&& SHM_HEADER_SIZE + slot_count * (width * height * channels + SLOT_HEADER_SIZE) <= usize::MAX
}

/// The header of a ring of `slot_count` frames.
pub open spec fn laid_out(width: u32, height: u32, channels: u8, slot_count: u8) -> ShmHeader {
    ShmHeader {
        width,
        height,
        channels,
        slot_count,
        slot_size: (width * height * channels + SLOT_HEADER_SIZE) as u32,
    }
}

/// Whether a header describes a segment laid out the way this ring does.
pub open spec fn sound(h: ShmHeader) -> bool {
    &&& fits(h.width, h.height, h.channels, h.slot_count)
    &&& h.slot_size == payload_len(h) + SLOT_HEADER_SIZE
}

/// The state byte of slot `i`.
pub open spec fn slot_state(h: ShmHeader, seg: Seq<u8>, i: int) -> u8 {
    seg[slot_offset(h, i)]
}

/// The header of slot `i`.
pub open spec fn slot_header(h: ShmHeader, seg: Seq<u8>, i: int) -> SlotHeader {
    slot_header_of(seg.subrange(slot_offset(h, i), slot_offset(h, i) + SLOT_HEADER_SIZE))
}

/// The pixels of slot `i`.
pub open spec fn pixels(h: ShmHeader, seg: Seq<u8>, i: int) -> Seq<u8> {
    seg.subrange(slot_offset(h, i) + SLOT_HEADER_SIZE, slot_offset(h, i + 1))
}

/// All the bytes of slot `i`, header and pixels.
pub open spec fn slot_bytes(h: ShmHeader, seg: Seq<u8>, i: int) -> Seq<u8> {
    seg.subrange(slot_offset(h, i), slot_offset(h, i + 1))
}

/// Whether slot `i` is the first one that is free.
pub open spec fn first_free(h: ShmHeader, seg: Seq<u8>, i: int) -> bool {
    &&& 0 <= i < h.slot_count
    &&& slot_state(h, seg, i) == SLOT_FREE
    &&& forall|j: int| 0 <= j < i ==> slot_state(h, seg, j) != SLOT_FREE
}

/// Whether no slot is free.
pub open spec fn all_busy(h: ShmHeader, seg: Seq<u8>) -> bool {
    forall|j: int| 0 <= j < h.slot_count ==> slot_state(h, seg, j) != SLOT_FREE
}

/// How many of the first `n` slots are not free.
pub open spec fn busy_count(h: ShmHeader, seg: Seq<u8>, n: nat) -> nat
    decreases n,
{
    if n == 0 {
        0
    } else {
        busy_count(h, seg, (n - 1) as nat) + if slot_state(h, seg, n - 1) != SLOT_FREE {
            1nat
        } else {
            0nat
        }
    }
}

/// The segment with the state byte of slot `i` replaced.
pub open spec fn with_state(h: ShmHeader, seg: Seq<u8>, i: int, state: u8) -> Seq<u8> {
    seg.update(slot_offset(h, i), state)
}

/// The segment once a frame has been written into slot `i`.
pub open spec fn written(
    h: ShmHeader,
    seg: Seq<u8>,
    i: int,
    frame_id: u64,
    timestamp_us: u64,
    data: Seq<u8>,
) -> Seq<u8> {
    let at = slot_offset(h, i);
    let filled = splice(seg, at + SLOT_HEADER_SIZE, data);
    let named = splice(filled, at + 8, le_bytes(frame_id as nat, 8));
    let stamped = splice(named, at + 16, le_bytes(timestamp_us as nat, 8));
    with_state(h, stamped, i, SLOT_READY_FOR_AI)
}

/// The segment once a processed frame has been stored back into slot `i`.
pub open spec fn stored(h: ShmHeader, seg: Seq<u8>, i: int, data: Seq<u8>) -> Seq<u8> {
    with_state(h, splice(seg, slot_offset(h, i) + SLOT_HEADER_SIZE, data), i, SLOT_FREE)
}

/// The complaint about a frame that does not fit its slot.
pub open spec fn too_large(size: nat, capacity: nat) -> Seq<char> {
    "Frame data size ("@ + decimal(size) + ") exceeds slot capacity ("@ + decimal(capacity) + ")"@
}

/// The complaint about a slot the ring does not have.
pub open spec fn no_such_slot(slot: nat, count: nat) -> Seq<char> {
    "Slot index ("@ + decimal(slot) + ") out of range ("@ + decimal(count) + ")"@
}

/// Slots lie inside the segment, one after the other.
pub proof fn lemma_slot_bounds(h: ShmHeader, i: int)
    requires
        sound(h),
        0 <= i < h.slot_count,
    ensures
        SHM_HEADER_SIZE <= slot_offset(h, i),
        slot_offset(h, i) + SLOT_HEADER_SIZE <= slot_offset(h, i + 1),
        slot_offset(h, i + 1) == slot_offset(h, i) + h.slot_size,
        slot_offset(h, i + 1) <= segment_size(h),
        segment_size(h) <= usize::MAX,
        slot_offset(h, i + 1) - slot_offset(h, i) - SLOT_HEADER_SIZE == payload_len(h),
        payload_len(h) >= 0,
{
    assert(payload_len(h) >= 0) by (nonlinear_arith)
        requires
            payload_len(h) == h.width * h.height * h.channels,
    ;
    assert((i + 1) * h.slot_size == i * h.slot_size + h.slot_size) by (nonlinear_arith);
    assert((i + 1) * h.slot_size <= h.slot_count * h.slot_size) by (nonlinear_arith)
        requires
            i + 1 <= h.slot_count,
    ;
    assert(0 <= i * h.slot_size) by (nonlinear_arith)
        requires
            0 <= i,
    ;
}

/// Of two different slots one ends before the other begins.
pub proof fn lemma_slots_disjoint(h: ShmHeader, i: int, j: int)
    requires
        sound(h),
        0 <= i < h.slot_count,
        0 <= j < h.slot_count,
        i != j,
    ensures
        slot_offset(h, i + 1) <= slot_offset(h, j) || slot_offset(h, j + 1) <= slot_offset(h, i),
{
    lemma_slot_bounds(h, i);
    lemma_slot_bounds(h, j);
    if i < j {
        assert((i + 1) * h.slot_size <= j * h.slot_size) by (nonlinear_arith)
            requires
                i + 1 <= j,
        ;
    } else {
        assert((j + 1) * h.slot_size <= i * h.slot_size) by (nonlinear_arith)
            requires
                j + 1 <= i,
        ;
    }
}

impl ShmHeader {
    /// The 32 bytes that describe the segment to whoever maps it.
    pub fn encode(&self) -> (r: Vec<u8>)
        ensures
            r@ == header_bytes(*self),
            r@.len() == SHM_HEADER_SIZE,
    {
        let mut out: Vec<u8> = to_le(self.width as u64, 4);
        let mut height = to_le(self.height as u64, 4);
        out.append(&mut height);
        out.push(self.channels);
        out.push(self.slot_count);
        out.push(0);
        out.push(0);
        let mut stride = to_le(self.slot_size as u64, 4);
        out.append(&mut stride);
        let ghost before = out@;
        let mut i: usize = 0;
        while i < 16
            invariant
                i <= 16,
                before.len() == 16,
                out@ == before + zeros(i as nat),
            decreases 16 - i,
        {
            out.push(0);
            assert(out@ =~= before + zeros((i + 1) as nat));
            i += 1;
        }
        assert(out@ =~= header_bytes(*self));
        out
    }

    /// Reads the header of a mapped segment.
    pub fn decode(b: &[u8]) -> (r: ShmHeader)
        requires
            b@.len() >= SHM_HEADER_SIZE,
        ensures
            r == header_of(b@),
    {
        let width: u64 = from_le(b, 0, 4);
        let height: u64 = from_le(b, 4, 4);
        let slot_size: u64 = from_le(b, 12, 4);
        proof {
            assert(byte_span(4) == 0x1_0000_0000) by {
                reveal_with_fuel(byte_span, 5);
            }
        }
        ShmHeader {
            width: width as u32,
            height: height as u32,
            channels: b[8],
            slot_count: b[9],
            slot_size: slot_size as u32,
        }
    }
}

/// A worker that maps the segment reads the header the daemon wrote.
pub proof fn law_header_reads_back(h: ShmHeader)
    ensures
        header_bytes(h).len() == SHM_HEADER_SIZE,
        header_of(header_bytes(h)) == h,
{
    assert(byte_span(4) == 0x1_0000_0000) by {
        reveal_with_fuel(byte_span, 5);
    }
    lemma_le_bytes_len(h.width as nat, 4);
    lemma_le_bytes_len(h.height as nat, 4);
    lemma_le_bytes_len(h.slot_size as nat, 4);
    lemma_le_read_back(h.width as nat, 4);
    lemma_le_read_back(h.height as nat, 4);
    lemma_le_read_back(h.slot_size as nat, 4);
    let b = header_bytes(h);
    assert(b.subrange(0, 4) =~= le_bytes(h.width as nat, 4));
    assert(b.subrange(4, 8) =~= le_bytes(h.height as nat, 4));
    assert(b.subrange(12, 16) =~= le_bytes(h.slot_size as nat, 4));
}

/// The ring of slots in a mapped segment: its geometry, and the operations on
/// the segment's bytes.
#[derive(Debug, Clone, Copy)]
pub struct ShmRingBuffer {
    header: ShmHeader,
}

/// Whether a frame geometry can be laid out.
pub fn geometry_fits(width: u32, height: u32, channels: u8, slot_count: u8) -> (r: bool)
    ensures
        r == fits(width, height, channels, slot_count),
{
    assert(0 <= width * height <= 0xffff_ffff * 0xffff_ffff) by (nonlinear_arith)
        requires
            0 <= width <= 0xffff_ffff,
            0 <= height <= 0xffff_ffff,
    ;
    let area: u128 = width as u128 * height as u128;
    assert(0 <= area * channels <= 0xffff_ffff * 0xffff_ffff * 0xff) by (nonlinear_arith)
        requires
            0 <= area <= 0xffff_ffff * 0xffff_ffff,
            0 <= channels <= 0xff,
    ;
    let payload: u128 = area * channels as u128;
    let stride: u128 = payload + 24;
    assert(0 <= slot_count * stride <= 0xff * (0xffff_ffff * 0xffff_ffff * 0xff + 24))
        by (nonlinear_arith)
        requires
            0 <= stride <= 0xffff_ffff * 0xffff_ffff * 0xff + 24,
            0 <= slot_count <= 0xff,
    ;
    let total: u128 = 32 + slot_count as u128 * stride;
    area <= u32::MAX as u128 && stride <= u32::MAX as u128 && total <= usize::MAX as u128
}

impl View for ShmRingBuffer {
    type V = ShmHeader;

    closed spec fn view(&self) -> ShmHeader {
        self.header
    }
}

impl ShmRingBuffer {
    /// Lays out a ring of `slot_count` frames.
    pub fn create(width: u32, height: u32, channels: u8, slot_count: u8) -> (r: ShmRingBuffer)
        requires
            fits(width, height, channels, slot_count),
        ensures
            r.valid(),
            r@ == laid_out(width, height, channels, slot_count),
    {
        assert(width * height * channels >= 0) by (nonlinear_arith);
        let pixels: u32 = width * height;
        let payload: u32 = pixels * channels as u32;
        ShmRingBuffer {
            header: ShmHeader { width, height, channels, slot_count, slot_size: payload + 24 },
        }
    }

    /// The header that describes the ring.
    pub fn header(&self) -> (r: ShmHeader)
        ensures
            r == self@,
    {
        self.header
    }

    /// The bytes of one frame's pixels.
    pub fn frame_size(&self) -> (r: usize)
        requires
            self.valid(),
        ensures
            r == payload_len(self@),
    {
        (self.header.slot_size - 24) as usize
    }

    /// The bytes of the whole segment.
    pub fn total_size(&self) -> (r: usize)
        requires
            self.valid(),
        ensures
            r == segment_size(self@),
    {
        proof {
            assert(self@.slot_count * (payload_len(self@) + SLOT_HEADER_SIZE) == self@.slot_count
                * self@.slot_size);
            assert(self@.slot_count * self@.slot_size >= 0) by (nonlinear_arith);
        }
        32 + self.header.slot_count as usize * self.header.slot_size as usize
    }

    /// Where slot `i` starts, at its state byte.
    pub fn offset(&self, i: u8) -> (r: usize)
        requires
            self.valid(),
            i < self@.slot_count,
        ensures
            r == slot_offset(self@, i as int),
            r + self@.slot_size <= segment_size(self@),
    {
        proof {
            lemma_slot_bounds(self@, i as int);
            assert(i * self@.slot_size >= 0) by (nonlinear_arith);
        }
        32 + i as usize * self.header.slot_size as usize
    }
}

/// What putting a frame into the ring does to the segment, and what comes back.
pub open spec fn writes(
    h: ShmHeader,
    seg: Seq<u8>,
    frame_id: u64,
    data: Seq<u8>,
    timestamp_us: u64,
    r: Result<FrameMetadata, IpcError>,
    after: Seq<u8>,
) -> bool {
    &&& data.len() > payload_len(h) ==> (r matches Err(e) && e@ == IpcFailure::ShmError(
        too_large(data.len(), payload_len(h) as nat),
    ))
    &&& data.len() <= payload_len(h) && all_busy(h, seg) ==> (r matches Err(e) && e@
        == IpcFailure::BufferFull)
    &&& r is Err ==> after == seg
    &&& data.len() <= payload_len(h) && !all_busy(h, seg) ==> (r matches Ok(meta) && {
        &&& meta.frame_id == frame_id
        &&& meta.timestamp_us == timestamp_us
        &&& first_free(h, seg, meta.slot_index as int)
        &&& after == written(h, seg, meta.slot_index as int, frame_id, timestamp_us, data)
    })
}

/// What copying pixels out of a slot leaves in `out`, and what comes back.
pub open spec fn reads(
    h: ShmHeader,
    seg: Seq<u8>,
    slot: u8,
    out: Seq<u8>,
    r: Result<(), IpcError>,
    after: Seq<u8>,
) -> bool {
    &&& slot >= h.slot_count ==> (r matches Err(e) && e@ == IpcFailure::ShmError(
        no_such_slot(slot as nat, h.slot_count as nat),
    ))
    &&& slot < h.slot_count && out.len() > payload_len(h) ==> (r matches Err(e) && e@
        == IpcFailure::ShmError(too_large(out.len(), payload_len(h) as nat)))
    &&& r is Err ==> after == out
    &&& slot < h.slot_count && out.len() <= payload_len(h) ==> r is Ok && after == pixels(
        h,
        seg,
        slot as int,
    ).take(out.len() as int)
}

/// What putting a processed frame back does to the segment, and what comes
/// back.
pub open spec fn stores(
    h: ShmHeader,
    seg: Seq<u8>,
    slot: u8,
    data: Seq<u8>,
    r: Result<(), IpcError>,
    after: Seq<u8>,
) -> bool {
    &&& slot >= h.slot_count ==> (r matches Err(e) && e@ == IpcFailure::ShmError(
        no_such_slot(slot as nat, h.slot_count as nat),
    ))
    &&& slot < h.slot_count && data.len() > payload_len(h) ==> (r matches Err(e) && e@
        == IpcFailure::ShmError(too_large(data.len(), payload_len(h) as nat)))
    &&& r is Err ==> after == seg
    &&& slot < h.slot_count && data.len() <= payload_len(h) ==> r is Ok && after == stored(
        h,
        seg,
        slot as int,
        data,
    )
}

impl ShmWriter for ShmRingBuffer {
    open spec fn valid(&self) -> bool {
        sound(self@)
    }

    open spec fn segment_len(&self) -> nat {
        segment_size(self@) as nat
    }

    /// Claims the first free slot, fills it, and only then marks it ready.
    fn write_frame(
        &self,
        segment: &mut [u8],
        frame_id: u64,
        data: &[u8],
        timestamp_us: u64,
    ) -> (r: Result<FrameMetadata, IpcError>)
        ensures
            writes(
                self@,
                old(segment)@,
                frame_id,
                data@,
                timestamp_us,
                r,
                final(segment)@,
            ),
    {
        match self.check_size(data.len()) {
            Err(e) => {
                return Err(e);
            },
            Ok(()) => {},
        }
        let ghost h = self@;
        let mut i: u8 = 0;
        while i < self.header.slot_count
            invariant
                h == self@,
                self.valid(),
                i <= h.slot_count,
                data@.len() <= payload_len(h),
                segment@ == old(segment)@,
                segment@.len() == segment_size(h),
                forall|j: int| 0 <= j < i ==> slot_state(h, old(segment)@, j) != SLOT_FREE,
            decreases h.slot_count - i,
        {
            let at: usize = self.offset(i);
            if segment[at] == SLOT_FREE {
                proof {
                    lemma_slot_bounds(h, i as int);
                    assert(!all_busy(h, old(segment)@)) by {
                        assert(slot_state(h, old(segment)@, i as int) == SLOT_FREE);
                    }
                }
                segment[at] = SLOT_PROCESSING;
                let ghost claimed = segment@;
                copy_into(segment, at + SLOT_HEADER_SIZE, data);
                let id = to_le(frame_id, 8);
                copy_into(segment, at + 8, id.as_slice());
                let stamp = to_le(timestamp_us, 8);
                copy_into(segment, at + 16, stamp.as_slice());
                segment[at] = SLOT_READY_FOR_AI;
                assert(segment@ =~= written(
                    h,
                    old(segment)@,
                    i as int,
                    frame_id,
                    timestamp_us,
                    data@,
                ));
                return Ok(FrameMetadata { frame_id, slot_index: i, timestamp_us });
            }
            i += 1;
        }
        Err(IpcError::BufferFull)
    }
}

/// Whether `seg` is a freshly laid out segment over the bytes `before`: the
/// header in place, every slot header cleared to `FREE`, pixels as they were.
pub open spec fn formatted(h: ShmHeader, before: Seq<u8>, seg: Seq<u8>) -> bool {
    &&& seg.len() == before.len()
    &&& seg.take(SHM_HEADER_SIZE as int) == header_bytes(h)
    &&& forall|i: int|
        0 <= i < h.slot_count ==> #[trigger] seg.subrange(
            slot_offset(h, i),
            slot_offset(h, i) + SLOT_HEADER_SIZE,
        ) == zeros(SLOT_HEADER_SIZE as nat)
    &&& forall|i: int| 0 <= i < h.slot_count ==> #[trigger] pixels(h, seg, i) == pixels(h, before, i)
}

impl ShmRingBuffer {
    /// Writes the segment header and clears the header of every slot.
    pub fn format(&self, segment: &mut [u8])
        requires
            self.valid(),
            old(segment)@.len() == self.segment_len(),
        ensures
            formatted(self@, old(segment)@, final(segment)@),
    {
        let ghost h = self@;
        proof {
            if h.slot_count > 0 {
                lemma_slot_bounds(h, 0);
            }
            assert(0 <= h.slot_count * h.slot_size) by (nonlinear_arith);
        }
        let head = self.header.encode();
        copy_into(segment, 0, head.as_slice());
        assert(segment@.take(SHM_HEADER_SIZE as int) =~= header_bytes(h));
        assert forall|i: int| 0 <= i < h.slot_count implies #[trigger] pixels(h, segment@, i)
            == pixels(h, old(segment)@, i) by {
            lemma_slot_bounds(h, i);
            assert(pixels(h, segment@, i) =~= pixels(h, old(segment)@, i));
        }
        let mut blank: Vec<u8> = Vec::new();
        while blank.len() < 24
            invariant
                blank@ == zeros(blank@.len()),
                blank@.len() <= 24,
            decreases 24 - blank@.len(),
        {
            blank.push(0);
            assert(blank@ =~= zeros(blank@.len()));
        }
        let mut i: u8 = 0;
        while i < self.header.slot_count
            invariant
                h == self@,
                self.valid(),
                i <= h.slot_count,
                blank@ == zeros(SLOT_HEADER_SIZE as nat),
                segment@.len() == segment_size(h),
                old(segment)@.len() == segment_size(h),
                segment@.take(SHM_HEADER_SIZE as int) == header_bytes(h),
                forall|k: int|
                    0 <= k < i ==> #[trigger] segment@.subrange(
                        slot_offset(h, k),
                        slot_offset(h, k) + SLOT_HEADER_SIZE,
                    ) == zeros(SLOT_HEADER_SIZE as nat),
                forall|k: int|
                    0 <= k < h.slot_count ==> #[trigger] pixels(h, segment@, k) == pixels(
                        h,
                        old(segment)@,
                        k,
                    ),
            decreases h.slot_count - i,
        {
            let at: usize = self.offset(i);
            let ghost before = segment@;
            proof {
                lemma_slot_bounds(h, i as int);
            }
            copy_into(segment, at, blank.as_slice());
            assert(segment@.take(SHM_HEADER_SIZE as int) =~= before.take(SHM_HEADER_SIZE as int));
            assert forall|k: int| 0 <= k < i + 1 implies #[trigger] segment@.subrange(
                slot_offset(h, k),
                slot_offset(h, k) + SLOT_HEADER_SIZE,
            ) == zeros(SLOT_HEADER_SIZE as nat) by {
                lemma_slot_bounds(h, k);
                let there = segment@.subrange(
                    slot_offset(h, k),
                    slot_offset(h, k) + SLOT_HEADER_SIZE,
                );
                if k < i {
                    lemma_slots_disjoint(h, k, i as int);
                    assert(there =~= before.subrange(
                        slot_offset(h, k),
                        slot_offset(h, k) + SLOT_HEADER_SIZE,
                    ));
                } else {
                    assert(there =~= zeros(SLOT_HEADER_SIZE as nat));
                }
            }
            assert forall|k: int| 0 <= k < h.slot_count implies #[trigger] pixels(h, segment@, k)
                == pixels(h, old(segment)@, k) by {
                lemma_slot_bounds(h, k);
                if k != i {
                    lemma_slots_disjoint(h, k, i as int);
                }
                assert(pixels(h, segment@, k) =~= pixels(h, before, k));
            }
            i += 1;
        }
    }

    fn check_slot(&self, slot: u8) -> (r: Result<(), IpcError>)
        ensures
            slot < self@.slot_count ==> r is Ok,
            slot >= self@.slot_count ==> (r matches Err(e) && e@ == IpcFailure::ShmError(
                no_such_slot(slot as nat, self@.slot_count as nat),
            )),
    {
        if slot < self.header.slot_count {
            Ok(())
        } else {
            let mut text = "Slot index (".to_owned();
            push_decimal(&mut text, slot as u64);
            text.append(") out of range (");
            push_decimal(&mut text, self.header.slot_count as u64);
            text.append(")");
            Err(IpcError::ShmError(text))
        }
    }

    fn check_size(&self, size: usize) -> (r: Result<(), IpcError>)
        requires
            self.valid(),
        ensures
            size <= payload_len(self@) ==> r is Ok,
            size > payload_len(self@) ==> (r matches Err(e) && e@ == IpcFailure::ShmError(
                too_large(size as nat, payload_len(self@) as nat),
            )),
    {
        let payload: usize = self.frame_size();
        if size <= payload {
            Ok(())
        } else {
            let mut text = "Frame data size (".to_owned();
            push_decimal(&mut text, size as u64);
            text.append(") exceeds slot capacity (");
            push_decimal(&mut text, payload as u64);
            text.append(")");
            Err(IpcError::ShmError(text))
        }
    }

    /// Copies the pixels of a slot out, as many as `out` holds. On an error
    /// `out` keeps what it held.
    pub fn read_frame(&self, segment: &[u8], slot: u8, out: &mut [u8]) -> (r: Result<(), IpcError>)
        requires
            self.valid(),
            segment@.len() == self.segment_len(),
        ensures
            reads(self@, segment@, slot, old(out)@, r, final(out)@),
    {
        match self.check_slot(slot) {
            Err(e) => {
                return Err(e);
            },
            Ok(()) => {},
        }
        match self.check_size(out.len()) {
            Err(e) => {
                return Err(e);
            },
            Ok(()) => {},
        }
        let at: usize = self.offset(slot);
        proof {
            lemma_slot_bounds(self@, slot as int);
        }
        let n: usize = out.len();
        let source = vstd::slice::slice_subrange(segment, at + 24, at + 24 + n);
        copy_into(out, 0, source);
        assert(out@ =~= pixels(self@, segment@, slot as int).take(n as int));
        Ok(())
    }

    /// Puts a processed frame back into its slot and frees the slot.
    pub fn store_processed(&self, segment: &mut [u8], slot: u8, data: &[u8]) -> (r: Result<
        (),
        IpcError,
    >)
        requires
            self.valid(),
            old(segment)@.len() == self.segment_len(),
        ensures
            stores(self@, old(segment)@, slot, data@, r, final(segment)@),
            final(segment)@.len() == old(segment)@.len(),
    {
        match self.check_slot(slot) {
            Err(e) => {
                return Err(e);
            },
            Ok(()) => {},
        }
        match self.check_size(data.len()) {
            Err(e) => {
                return Err(e);
            },
            Ok(()) => {},
        }
        let at: usize = self.offset(slot);
        proof {
            lemma_slot_bounds(self@, slot as int);
        }
        copy_into(segment, at + 24, data);
        segment[at] = SLOT_FREE;
        Ok(())
    }

    /// Takes a slot back, whatever state it is in. A slot the ring does not
    /// have is left alone.
    pub fn release_slot(&self, segment: &mut [u8], slot: u8)
        requires
            self.valid(),
            old(segment)@.len() == self.segment_len(),
        ensures
            final(segment)@ == if slot < self@.slot_count {
                with_state(self@, old(segment)@, slot as int, SLOT_FREE)
            } else {
                old(segment)@
            },
            final(segment)@.len() == old(segment)@.len(),
    {
        if slot < self.header.slot_count {
            let at: usize = self.offset(slot);
            segment[at] = SLOT_FREE;
        }
    }

    /// How many slots are not free, out of how many.
    pub fn occupied_slots(&self, segment: &[u8]) -> (r: (u64, u64))
        requires
            self.valid(),
            segment@.len() == self.segment_len(),
        ensures
            r.0 == busy_count(self@, segment@, self@.slot_count as nat),
            r.1 == self@.slot_count,
    {
        let mut busy: u64 = 0;
        let mut i: u8 = 0;
        while i < self.header.slot_count
            invariant
                self.valid(),
                segment@.len() == self.segment_len(),
                i <= self@.slot_count,
                busy == busy_count(self@, segment@, i as nat),
                busy <= i,
            decreases self@.slot_count - i,
        {
            let at: usize = self.offset(i);
            if segment[at] != SLOT_FREE {
                busy += 1;
            }
            i += 1;
        }
        (busy, self.header.slot_count as u64)
    }

    /// Reads the header of a slot.
    pub fn slot_header(&self, segment: &[u8], slot: u8) -> (r: Option<SlotHeader>)
        requires
            self.valid(),
            segment@.len() == self.segment_len(),
        ensures
            r == if slot < self@.slot_count {
                Some(slot_header(self@, segment@, slot as int))
            } else {
                None
            },
    {
        if slot >= self.header.slot_count {
            return None;
        }
        let at: usize = self.offset(slot);
        proof {
            lemma_slot_bounds(self@, slot as int);
            assert(byte_span(8) == 0x1_0000_0000_0000_0000) by {
                reveal_with_fuel(byte_span, 9);
            }
        }
        let head = vstd::slice::slice_subrange(segment, at, at + 24);
        Some(
            SlotHeader {
                state: head[0],
                frame_id: from_le(head, 8, 8),
                timestamp_us: from_le(head, 16, 8),
            },
        )
    }
}

/// What a write puts into a slot, a read gives back: the frame's number, its
/// timestamp and its pixels, in a slot marked ready. Nothing else in the
/// segment changes.
pub proof fn law_write_then_read(
    h: ShmHeader,
    seg: Seq<u8>,
    i: int,
    frame_id: u64,
    timestamp_us: u64,
    data: Seq<u8>,
)
    requires
        sound(h),
        seg.len() == segment_size(h),
        0 <= i < h.slot_count,
        data.len() <= payload_len(h),
    ensures
        ({
            let after = written(h, seg, i, frame_id, timestamp_us, data);
            &&& after.len() == seg.len()
            &&& slot_header(h, after, i) == SlotHeader {
                state: SLOT_READY_FOR_AI,
                frame_id,
                timestamp_us,
            }
            &&& pixels(h, after, i).take(data.len() as int) == data
            &&& pixels(h, after, i).skip(data.len() as int) == pixels(h, seg, i).skip(
                data.len() as int,
            )
            &&& after.take(SHM_HEADER_SIZE as int) == seg.take(SHM_HEADER_SIZE as int)
            &&& forall|j: int|
                0 <= j < h.slot_count && j != i ==> #[trigger] slot_bytes(h, after, j)
                    == slot_bytes(h, seg, j)
        }),
{
    let after = written(h, seg, i, frame_id, timestamp_us, data);
    let at = slot_offset(h, i);
    lemma_slot_bounds(h, i);
    lemma_le_bytes_len(frame_id as nat, 8);
    lemma_le_bytes_len(timestamp_us as nat, 8);
    assert(byte_span(8) == 0x1_0000_0000_0000_0000) by {
        reveal_with_fuel(byte_span, 9);
    }
    lemma_le_read_back(frame_id as nat, 8);
    lemma_le_read_back(timestamp_us as nat, 8);
    let head = after.subrange(at, at + SLOT_HEADER_SIZE);
    assert(head.subrange(8, 16) =~= le_bytes(frame_id as nat, 8));
    assert(head.subrange(16, 24) =~= le_bytes(timestamp_us as nat, 8));
    assert(pixels(h, after, i).take(data.len() as int) =~= data);
    assert(pixels(h, after, i).skip(data.len() as int) =~= pixels(h, seg, i).skip(
        data.len() as int,
    ));
    assert(after.take(SHM_HEADER_SIZE as int) =~= seg.take(SHM_HEADER_SIZE as int));
    assert forall|j: int| 0 <= j < h.slot_count && j != i implies #[trigger] slot_bytes(h, after, j)
        == slot_bytes(h, seg, j) by {
        lemma_slot_bounds(h, j);
        lemma_slots_disjoint(h, i, j);
        assert(slot_bytes(h, after, j) =~= slot_bytes(h, seg, j));
    }
}

/// What a worker's result stores into a slot, a read gives back, and the slot
/// is free. Nothing else in the segment changes.
pub proof fn law_store_then_read(h: ShmHeader, seg: Seq<u8>, i: int, data: Seq<u8>)
    requires
        sound(h),
        seg.len() == segment_size(h),
        0 <= i < h.slot_count,
        data.len() <= payload_len(h),
    ensures
        ({
            let after = stored(h, seg, i, data);
            &&& after.len() == seg.len()
            &&& slot_state(h, after, i) == SLOT_FREE
            &&& pixels(h, after, i).take(data.len() as int) == data
            &&& after.take(SHM_HEADER_SIZE as int) == seg.take(SHM_HEADER_SIZE as int)
            &&& forall|j: int|
                0 <= j < h.slot_count && j != i ==> #[trigger] slot_bytes(h, after, j)
                    == slot_bytes(h, seg, j)
        }),
{
    let after = stored(h, seg, i, data);
    lemma_slot_bounds(h, i);
    assert(pixels(h, after, i).take(data.len() as int) =~= data);
    assert(after.take(SHM_HEADER_SIZE as int) =~= seg.take(SHM_HEADER_SIZE as int));
    assert forall|j: int| 0 <= j < h.slot_count && j != i implies #[trigger] slot_bytes(h, after, j)
        == slot_bytes(h, seg, j) by {
        lemma_slot_bounds(h, j);
        lemma_slots_disjoint(h, i, j);
        assert(slot_bytes(h, after, j) =~= slot_bytes(h, seg, j));
    }
}

/// Releasing a slot frees it, keeps its pixels, and leaves every other slot
/// alone.
pub proof fn law_release_frees_one_slot(h: ShmHeader, seg: Seq<u8>, i: int)
    requires
        sound(h),
        seg.len() == segment_size(h),
        0 <= i < h.slot_count,
    ensures
        ({
            let after = with_state(h, seg, i, SLOT_FREE);
            &&& slot_state(h, after, i) == SLOT_FREE
            &&& pixels(h, after, i) == pixels(h, seg, i)
            &&& forall|j: int|
                0 <= j < h.slot_count && j != i ==> #[trigger] slot_bytes(h, after, j)
                    == slot_bytes(h, seg, j)
        }),
{
    let after = with_state(h, seg, i, SLOT_FREE);
    lemma_slot_bounds(h, i);
    assert(pixels(h, after, i) =~= pixels(h, seg, i));
    assert forall|j: int| 0 <= j < h.slot_count && j != i implies #[trigger] slot_bytes(h, after, j)
        == slot_bytes(h, seg, j) by {
        lemma_slot_bounds(h, j);
        lemma_slots_disjoint(h, i, j);
        assert(slot_bytes(h, after, j) =~= slot_bytes(h, seg, j));
    }
}

/// A freshly formatted segment carries the header of its ring, and all its
/// slots are free.
pub proof fn law_fresh_ring_is_free(h: ShmHeader, before: Seq<u8>, seg: Seq<u8>)
    requires
        sound(h),
        before.len() == segment_size(h),
        formatted(h, before, seg),
    ensures
        header_of(seg.take(SHM_HEADER_SIZE as int)) == h,
        forall|i: int| 0 <= i < h.slot_count ==> slot_state(h, seg, i) == SLOT_FREE,
        busy_count(h, seg, h.slot_count as nat) == 0,
{
    law_header_reads_back(h);
    assert forall|i: int| 0 <= i < h.slot_count implies slot_state(h, seg, i) == SLOT_FREE by {
        lemma_slot_bounds(h, i);
        assert(seg.subrange(slot_offset(h, i), slot_offset(h, i) + SLOT_HEADER_SIZE)[0]
            == seg[slot_offset(h, i)]);
    }
    lemma_none_busy(h, seg, h.slot_count as nat);
}

proof fn lemma_none_busy(h: ShmHeader, seg: Seq<u8>, n: nat)
    requires
        forall|i: int| 0 <= i < n ==> slot_state(h, seg, i) == SLOT_FREE,
    ensures
        busy_count(h, seg, n) == 0,
    decreases n,
{
    if n > 0 {
        lemma_none_busy(h, seg, (n - 1) as nat);
    }
}

/// Two segments whose slot states differ in slot `i` alone.
proof fn lemma_busy_count_differs(h: ShmHeader, a: Seq<u8>, b: Seq<u8>, i: int, n: nat)
    requires
        0 <= i,
        forall|j: int| 0 <= j < n && j != i ==> slot_state(h, a, j) == slot_state(h, b, j),
        slot_state(h, a, i) == SLOT_FREE,
        slot_state(h, b, i) != SLOT_FREE,
    ensures
        busy_count(h, b, n) == busy_count(h, a, n) + if i < n {
            1nat
        } else {
            0nat
        },
    decreases n,
{
    if n > 0 {
        lemma_busy_count_differs(h, a, b, i, (n - 1) as nat);
    }
}

/// A write takes exactly one slot out of circulation.
pub proof fn law_write_occupies_one_slot(
    h: ShmHeader,
    seg: Seq<u8>,
    i: int,
    frame_id: u64,
    timestamp_us: u64,
    data: Seq<u8>,
)
    requires
        sound(h),
        seg.len() == segment_size(h),
        first_free(h, seg, i),
        data.len() <= payload_len(h),
    ensures
        busy_count(h, written(h, seg, i, frame_id, timestamp_us, data), h.slot_count as nat)
            == busy_count(h, seg, h.slot_count as nat) + 1,
{
    let after = written(h, seg, i, frame_id, timestamp_us, data);
    law_write_then_read(h, seg, i, frame_id, timestamp_us, data);
    lemma_slot_bounds(h, i);
    assert(slot_header(h, after, i).state == slot_state(h, after, i));
    lemma_same_states(h, seg, after, i);
    lemma_busy_count_differs(h, seg, after, i, h.slot_count as nat);
}

/// Releasing an occupied slot brings exactly one slot back.
pub proof fn law_release_returns_one_slot(h: ShmHeader, seg: Seq<u8>, i: int)
    requires
        sound(h),
        seg.len() == segment_size(h),
        0 <= i < h.slot_count,
        slot_state(h, seg, i) != SLOT_FREE,
    ensures
        busy_count(h, with_state(h, seg, i, SLOT_FREE), h.slot_count as nat) + 1 == busy_count(
            h,
            seg,
            h.slot_count as nat,
        ),
{
    let after = with_state(h, seg, i, SLOT_FREE);
    law_release_frees_one_slot(h, seg, i);
    lemma_slot_bounds(h, i);
    lemma_same_states(h, seg, after, i);
    lemma_busy_count_differs(h, after, seg, i, h.slot_count as nat);
}

proof fn lemma_same_states(h: ShmHeader, a: Seq<u8>, b: Seq<u8>, i: int)
    requires
        sound(h),
        a.len() == segment_size(h),
        b.len() == segment_size(h),
        forall|j: int|
            0 <= j < h.slot_count && j != i ==> #[trigger] slot_bytes(h, b, j) == slot_bytes(h, a, j),
    ensures
        forall|j: int|
            0 <= j < h.slot_count && j != i ==> slot_state(h, a, j) == slot_state(h, b, j),
{
    assert forall|j: int| 0 <= j < h.slot_count && j != i implies slot_state(h, a, j) == slot_state(
        h,
        b,
        j,
    ) by {
        lemma_slot_bounds(h, j);
        assert(slot_bytes(h, a, j)[0] == slot_state(h, a, j));
        assert(slot_bytes(h, b, j)[0] == slot_state(h, b, j));
    }
}

/// The ring is full exactly when every slot is counted as occupied.
pub proof fn law_full_when_all_occupied(h: ShmHeader, seg: Seq<u8>)
    ensures
        busy_count(h, seg, h.slot_count as nat) <= h.slot_count,
        all_busy(h, seg) <==> busy_count(h, seg, h.slot_count as nat) == h.slot_count,
{
    lemma_busy_count_bound(h, seg, h.slot_count as nat);
}

proof fn lemma_busy_count_bound(h: ShmHeader, seg: Seq<u8>, n: nat)
    ensures
        busy_count(h, seg, n) <= n,
        (forall|j: int| 0 <= j < n ==> slot_state(h, seg, j) != SLOT_FREE) <==> busy_count(
            h,
            seg,
            n,
        ) == n,
    decreases n,
{
    if n > 0 {
        lemma_busy_count_bound(h, seg, (n - 1) as nat);
        if busy_count(h, seg, n) == n {
            assert forall|j: int| 0 <= j < n implies slot_state(h, seg, j) != SLOT_FREE by {}
        }
    }
}

/// Where a worker finds the geometry at the start of the segment: the width in
/// the bytes from 0 on, the height from 4, the channels in byte 8, the number
/// of slots in byte 9 and the stride from 12, and zeros otherwise.
pub proof fn law_segment_header_layout(h: ShmHeader, k: nat)
    requires
        k < 4,
    ensures
        header_bytes(h).len() == 32,
        header_bytes(h)[k as int] == (h.width as int / pow(256, k)) % 256,
        header_bytes(h)[4 + k as int] == (h.height as int / pow(256, k)) % 256,
        header_bytes(h)[8] == h.channels,
        header_bytes(h)[9] == h.slot_count,
        header_bytes(h)[12 + k as int] == (h.slot_size as int / pow(256, k)) % 256,
        header_bytes(h)[10] == 0,
        header_bytes(h)[11] == 0,
        forall|i: int| 16 <= i < 32 ==> #[trigger] header_bytes(h)[i] == 0,
{
    law_little_endian(h.width as nat, 4, k);
    law_little_endian(h.height as nat, 4, k);
    law_little_endian(h.slot_size as nat, 4, k);
}

/// Where a worker finds a frame in its slot: slots follow the header one stride
/// after the other, and each has its state in byte 0, the frame's number in the
/// bytes from 8 on, its timestamp from 16 and its pixels from 24.
pub proof fn law_slot_layout(
    h: ShmHeader,
    seg: Seq<u8>,
    i: int,
    frame_id: u64,
    timestamp_us: u64,
    data: Seq<u8>,
    k: nat,
)
    requires
        sound(h),
        seg.len() == segment_size(h),
        0 <= i < h.slot_count,
        data.len() <= payload_len(h),
        k < 8,
    ensures
        ({
            let after = written(h, seg, i, frame_id, timestamp_us, data);
            let at = 32 + i * (h.width * h.height * h.channels + 24);
            &&& seg.len() == 32 + h.slot_count * (h.width * h.height * h.channels + 24)
            &&& after.len() == seg.len()
            &&& after[at] == 1
            &&& after[at + 8 + k] == (frame_id as int / pow(256, k)) % 256
            &&& after[at + 16 + k] == (timestamp_us as int / pow(256, k)) % 256
            &&& forall|j: int| 0 <= j < data.len() ==> #[trigger] after[at + 24 + j] == data[j]
        }),
{
    let after = written(h, seg, i, frame_id, timestamp_us, data);
    let at = 32 + i * (h.width * h.height * h.channels + 24);
    lemma_slot_bounds(h, i);
    lemma_le_bytes_len(frame_id as nat, 8);
    lemma_le_bytes_len(timestamp_us as nat, 8);
    law_little_endian(frame_id as nat, 8, k);
    law_little_endian(timestamp_us as nat, 8, k);
    assert(i * h.slot_size == i * (h.width * h.height * h.channels + 24));
    assert(h.slot_count * h.slot_size == h.slot_count * (h.width * h.height * h.channels + 24));
    assert(at == slot_offset(h, i));
}

/// The states that a slot goes through are told apart by their bytes: free is
/// 0, ready for the worker 1, being filled 2.
pub proof fn law_slot_states(state: u8)
    ensures
        state == SLOT_FREE <==> state == 0,
        state == SLOT_READY_FOR_AI <==> state == 1,
        state == SLOT_PROCESSING <==> state == 2,
{
}

/// A geometry can be laid out exactly if the numbers that describe it fit where
/// they are kept: the pixels and the stride in 32 bits, the segment in the
/// address space. One that can be laid out with more slots, or with larger
/// frames, can be with fewer and smaller ones.
pub proof fn law_what_can_be_laid_out(
    width: u32,
    height: u32,
    channels: u8,
    slots: u8,
    less_width: u32,
    fewer_slots: u8,
)
    requires
        less_width <= width,
        fewer_slots <= slots,
    ensures
        fits(width, height, channels, slots) <==> {
            let stride = width * height * channels + 24;
            &&& width * height < 0x1_0000_0000
            &&& stride < 0x1_0000_0000
            &&& 32 + slots * stride <= usize::MAX
        },
        fits(width, height, channels, slots) ==> fits(
            less_width,
            height,
            channels,
            fewer_slots,
        ),
{
    let small = less_width * height;
    let large = width * height;
    assert(small <= large) by (nonlinear_arith)
        requires
            small == less_width * height,
            large == width * height,
            less_width <= width,
    ;
    let (s, l) = (small * channels, large * channels);
    assert(0 <= s <= l) by (nonlinear_arith)
        requires
            s == small * channels,
            l == large * channels,
            0 <= small <= large,
    ;
    assert(0 <= small) by (nonlinear_arith)
        requires
            small == less_width * height,
    ;
    assert(fewer_slots * (s + 24) <= slots * (l + 24)) by (nonlinear_arith)
        requires
            fewer_slots <= slots,
            0 <= s <= l,
    ;
}

/// A ring has the geometry it was asked for: so many slots, each with room for
/// every byte of every pixel and no more, behind a header of its own.
pub proof fn law_rings_have_the_geometry_asked_for(
    width: u32,
    height: u32,
    channels: u8,
    slot_count: u8,
)
    requires
        fits(width, height, channels, slot_count),
    ensures
        ({
            let h = laid_out(width, height, channels, slot_count);
            &&& sound(h)
            &&& (h.width, h.height, h.channels, h.slot_count) == (
                width,
                height,
                channels,
                slot_count,
            )
            &&& h.slot_size == width * height * channels + 24
            &&& payload_len(h) == width * height * channels
            &&& segment_size(h) == 32 + slot_count * (width * height * channels + 24)
        }),
{
    let pixels = width * height;
    assert(pixels * channels >= 0) by (nonlinear_arith)
        requires
            pixels == width * height,
    ;
}

/// A frame that was put into the ring comes out of its slot byte for byte, and
/// one that was put back does too.
pub proof fn law_frames_come_out_as_they_went_in(
    h: ShmHeader,
    seg: Seq<u8>,
    frame_id: u64,
    data: Seq<u8>,
    timestamp_us: u64,
    meta: FrameMetadata,
    filled: Seq<u8>,
    out: Seq<u8>,
    first: Seq<u8>,
    processed: Seq<u8>,
    put_back: Seq<u8>,
    second: Seq<u8>,
    done: Result<(), IpcError>,
)
    requires
        sound(h),
        seg.len() == segment_size(h),
        writes(h, seg, frame_id, data, timestamp_us, Ok(meta), filled),
        out.len() == data.len() == processed.len(),
        reads(h, filled, meta.slot_index, out, done, first),
        stores(h, filled, meta.slot_index, processed, done, put_back),
        reads(h, put_back, meta.slot_index, out, done, second),
    ensures
        done is Ok,
        first == data,
        second == processed,
        meta.frame_id == frame_id && meta.timestamp_us == timestamp_us,
        slot_state(h, seg, meta.slot_index as int) == 0,
        slot_state(h, filled, meta.slot_index as int) == 1,
        slot_state(h, put_back, meta.slot_index as int) == 0,
        filled.len() == put_back.len() == seg.len(),
{
    let i = meta.slot_index as int;
    law_write_then_read(h, seg, i, frame_id, timestamp_us, data);
    law_store_then_read(h, filled, i, processed);
    lemma_slot_bounds(h, i);
    assert(slot_header(h, filled, i).state == slot_state(h, filled, i));
}

/// The ring refuses for three reasons only: a frame that is too large for a
/// slot, a slot it does not have, and, of a new frame, no slot that is free.
/// It says which, with the numbers, and leaves everything as it was.
pub proof fn law_what_the_ring_refuses(
    h: ShmHeader,
    seg: Seq<u8>,
    frame_id: u64,
    data: Seq<u8>,
    timestamp_us: u64,
    slot: u8,
    written_as: Result<FrameMetadata, IpcError>,
    filled: Seq<u8>,
    put: Result<(), IpcError>,
    put_back: Seq<u8>,
    got: Result<(), IpcError>,
    after: Seq<u8>,
)
    requires
        sound(h),
        writes(h, seg, frame_id, data, timestamp_us, written_as, filled),
        stores(h, seg, slot, data, put, put_back),
        reads(h, seg, slot, data, got, after),
    ensures
        ({
            let room = h.width * h.height * h.channels;
            &&& written_as is Ok <==> data.len() <= room && exists|i: int|
                0 <= i < h.slot_count && slot_state(h, seg, i) == 0
            &&& put is Ok <==> data.len() <= room && slot < h.slot_count
            &&& got is Ok <==> data.len() <= room && slot < h.slot_count
            &&& written_as is Err ==> filled == seg
            &&& written_as is Err && data.len() <= room ==> written_as->Err_0@
                == IpcFailure::BufferFull
            &&& put is Err ==> put_back == seg
            &&& got is Err ==> after == data && got->Err_0@ == put->Err_0@
            &&& slot >= h.slot_count ==> put is Err && names_the_slot(
                put->Err_0@,
                slot as nat,
                h.slot_count as nat,
            )
            &&& data.len() > room ==> written_as is Err && names_the_size(
                written_as->Err_0@,
                data.len(),
                room as nat,
            )
            &&& data.len() > room && slot < h.slot_count ==> put is Err && put->Err_0@
                == written_as->Err_0@
        }),
{
    assert(h.width * h.height * h.channels >= 0) by (nonlinear_arith);
    let room = (h.width * h.height * h.channels) as nat;
    if exists|i: int| 0 <= i < h.slot_count && slot_state(h, seg, i) == 0 {
        assert(!all_busy(h, seg));
    }
    let size = too_large(data.len(), room);
    let place = no_such_slot(slot as nat, h.slot_count as nat);
    let none = Seq::<char>::empty();
    reveal_strlit("Frame data size (");
    reveal_strlit(") exceeds slot capacity (");
    reveal_strlit("Slot index (");
    reveal_strlit(") out of range (");
    reveal_strlit("capacity (");
    reveal_strlit("range (");
    reveal_strlit("size (");
    reveal_strlit("index (");
    reveal_strlit(")");
    let (a, b) = (decimal(data.len()), decimal(room));
    lemma_stands("Frame data "@, "size ("@, a, ") exceeds slot capacity ("@ + b + ")"@, ')');
    lemma_stands("Frame data size ("@ + a + ") exceeds slot "@, "capacity ("@, b, ")"@, ')');
    reveal_strlit("Frame data ");
    reveal_strlit(") exceeds slot ");
    assert(size =~= "Frame data "@ + "size ("@ + a + (") exceeds slot capacity ("@ + b + ")"@));
    assert(size =~= "Frame data size ("@ + a + ") exceeds slot "@ + "capacity ("@ + b + ")"@);
    let (c, d) = (decimal(slot as nat), decimal(h.slot_count as nat));
    reveal_strlit("Slot ");
    reveal_strlit(") out of ");
    lemma_stands("Slot "@, "index ("@, c, ") out of range ("@ + d + ")"@, ')');
    lemma_stands("Slot index ("@ + c + ") out of "@, "range ("@, d, ")"@, ')');
    assert(place =~= "Slot "@ + "index ("@ + c + (") out of range ("@ + d + ")"@));
    assert(place =~= "Slot index ("@ + c + ") out of "@ + "range ("@ + d + ")"@);
}

/// Whether a failure names a size and the room there is for it.
pub open spec fn names_the_size(e: IpcFailure, size: nat, room: nat) -> bool {
    &&& e is ShmError
    &&& stands_between(e->ShmError_0, "size ("@, decimal(size), ')')
    &&& stands_between(e->ShmError_0, "capacity ("@, decimal(room), ')')
}

/// Whether a failure names a slot and how many there are.
pub open spec fn names_the_slot(e: IpcFailure, slot: nat, count: nat) -> bool {
    &&& e is ShmError
    &&& stands_between(e->ShmError_0, "index ("@, decimal(slot), ')')
    &&& stands_between(e->ShmError_0, "range ("@, decimal(count), ')')
}

} // verus!
