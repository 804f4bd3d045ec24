use braidpipe::ports::{IpcError, ShmWriter};
use braidpipe::shm::{
    geometry_fits, ShmHeader, ShmRingBuffer, SHM_HEADER_SIZE, SLOT_FREE, SLOT_HEADER_SIZE,
    SLOT_PROCESSING, SLOT_READY_FOR_AI,
};

fn fresh(slots: u8) -> (ShmRingBuffer, Vec<u8>) {
    let ring = ShmRingBuffer::create(4, 2, 3, slots);
    let mut segment = vec![0xaau8; ring.total_size()];
    ring.format(&mut segment);
    (ring, segment)
}

#[test]
fn layout_matches_the_contract() {
    let (ring, segment) = fresh(2);
    assert_eq!(SHM_HEADER_SIZE, 32);
    assert_eq!(SLOT_HEADER_SIZE, 24);
    assert_eq!((SLOT_FREE, SLOT_READY_FOR_AI, SLOT_PROCESSING), (0, 1, 2));
    assert_eq!(ring.frame_size(), 24);
    assert_eq!(ring.total_size(), 32 + 2 * (24 + 24));
    assert_eq!(
        segment[..32].to_vec(),
        vec![
            4, 0, 0, 0, 2, 0, 0, 0, 3, 2, 0, 0, 48, 0, 0, 0, 0, 0, 0, 0, 0, 0, 0, 0, 0, 0, 0, 0, 0,
            0, 0, 0
        ]
    );
    assert_eq!(ShmHeader::decode(&segment), ring.header());
    assert_eq!(ring.header().encode(), segment[..32].to_vec());
    assert_eq!(segment[32..56].to_vec(), vec![0u8; 24]);
    assert_eq!(segment[80..104].to_vec(), vec![0u8; 24]);
    // Pixels are left as they were.
    assert_eq!(segment[56..80].to_vec(), vec![0xaau8; 24]);
}

#[test]
fn a_written_frame_reads_back() {
    let (ring, mut segment) = fresh(2);
    let pixels: Vec<u8> = (0..24).collect();
    let meta = ring.write_frame(&mut segment, 7, &pixels, 1234).unwrap();
    assert_eq!((meta.frame_id, meta.slot_index, meta.timestamp_us), (7, 0, 1234));
    let header = ring.slot_header(&segment, 0).unwrap();
    assert_eq!((header.state, header.frame_id, header.timestamp_us), (1, 7, 1234));
    let mut out = vec![0u8; 24];
    ring.read_frame(&segment, 0, &mut out).unwrap();
    assert_eq!(out, pixels);
    assert_eq!(segment[32], SLOT_READY_FOR_AI);
    assert_eq!(segment[40..48].to_vec(), vec![7, 0, 0, 0, 0, 0, 0, 0]);
    assert_eq!(segment[48..56].to_vec(), vec![0xd2, 4, 0, 0, 0, 0, 0, 0]);
}

#[test]
fn slots_fill_up_and_come_back() {
    let (ring, mut segment) = fresh(4);
    assert_eq!(ring.occupied_slots(&segment), (0, 4));
    for i in 0..4u8 {
        let meta = ring.write_frame(&mut segment, u64::from(i), &[i; 24], 0).unwrap();
        assert_eq!(meta.slot_index, i);
        assert_eq!(ring.occupied_slots(&segment), (u64::from(i) + 1, 4));
    }
    assert!(matches!(
        ring.write_frame(&mut segment, 9, &[9; 24], 0),
        Err(IpcError::BufferFull)
    ));
    ring.release_slot(&mut segment, 2);
    assert_eq!(ring.occupied_slots(&segment), (3, 4));
    // The pixels of the others are untouched, and the freed slot is the next.
    let mut out = vec![0u8; 24];
    ring.read_frame(&segment, 3, &mut out).unwrap();
    assert_eq!(out, vec![3u8; 24]);
    assert_eq!(ring.write_frame(&mut segment, 10, &[10; 24], 0).unwrap().slot_index, 2);
    ring.release_slot(&mut segment, 200);
    assert_eq!(ring.occupied_slots(&segment), (4, 4));
}

#[test]
fn a_stored_result_frees_its_slot() {
    let (ring, mut segment) = fresh(2);
    let meta = ring.write_frame(&mut segment, 1, &[1; 24], 0).unwrap();
    ring.store_processed(&mut segment, meta.slot_index, &[2; 24]).unwrap();
    assert_eq!(ring.slot_header(&segment, meta.slot_index).unwrap().state, SLOT_FREE);
    let mut out = vec![0u8; 24];
    ring.read_frame(&segment, meta.slot_index, &mut out).unwrap();
    assert_eq!(out, vec![2u8; 24]);
}

#[test]
fn what_does_not_fit_is_refused() {
    let (ring, mut segment) = fresh(2);
    let before = segment.clone();
    assert_eq!(
        ring.write_frame(&mut segment, 1, &[0; 25], 0).unwrap_err().message(),
        "Shared Memory allocation or access failed: Frame data size (25) exceeds slot capacity (24)"
    );
    assert_eq!(segment, before);
    let mut out = vec![0u8; 4];
    assert_eq!(
        ring.read_frame(&segment, 2, &mut out).unwrap_err().message(),
        "Shared Memory allocation or access failed: Slot index (2) out of range (2)"
    );
    let mut long = vec![0u8; 25];
    assert_eq!(
        ring.read_frame(&segment, 0, &mut long).unwrap_err().message(),
        "Shared Memory allocation or access failed: Frame data size (25) exceeds slot capacity (24)"
    );
    assert!(ring.store_processed(&mut segment, 7, &[0; 24]).is_err());
    assert!(ring.store_processed(&mut segment, 0, &[0; 25]).is_err());
    assert_eq!(segment, before);
    assert!(ring.slot_header(&segment, 2).is_none());
}

#[test]
fn geometry_has_limits() {
    assert!(geometry_fits(1280, 720, 3, 4));
    assert!(geometry_fits(0, 0, 0, 0));
    assert!(!geometry_fits(65536, 65536, 1, 1));
    assert!(!geometry_fits(32768, 65536, 3, 1));
}
