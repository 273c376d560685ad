use csq_reader::marker::find_markers;
use csq_reader::splitter::{collect_frames, CSQReader, SplitError};

const MARKER: [u8; 6] = [0x46, 0x46, 0x46, 0x00, 0x52, 0x54];

/// Builds a block of `total` filler bytes with the frame marker written at
/// each of the given offsets.
fn block_with_markers(total: usize, offsets: &[usize]) -> Vec<u8> {
    let mut b: Vec<u8> = (0..total).map(|i| (i % 251) as u8).collect();
    for &o in offsets {
        b[o..o + 6].copy_from_slice(&MARKER);
    }
    b
}

/// Drains every currently buffered frame of the reader.
fn drain(reader: &mut CSQReader) -> Vec<Vec<u8>> {
    let mut out = Vec::new();
    while let Some(f) = reader.next_raw_frame() {
        out.push(f);
    }
    out
}

#[test]
fn find_markers_locates_every_offset() {
    let b = block_with_markers(1000, &[0, 57, 500, 994]);
    let found = find_markers(&b);
    assert_eq!(found, vec![0, 57, 500, 994]);
}

#[test]
fn find_markers_in_empty_and_short_blocks() {
    assert_eq!(find_markers(&Vec::new()), Vec::<usize>::new());
    assert_eq!(find_markers(&MARKER[..5].to_vec()), Vec::<usize>::new());
    assert_eq!(find_markers(&MARKER.to_vec()), vec![0]);
}

#[test]
fn find_markers_ignores_truncated_marker_at_end() {
    let mut b = block_with_markers(100, &[10]);
    b.extend_from_slice(&MARKER[..4]);
    assert_eq!(find_markers(&b), vec![10]);
}

#[test]
fn zero_marker_block_signals_no_marker_found() {
    let mut reader = CSQReader::new();
    let b = block_with_markers(800, &[]);
    assert_eq!(reader.populate_list(&b), Err(SplitError::NoMarkerFound));
    assert!(reader.next_raw_frame().is_none());
    assert_eq!(reader.populate_list(&Vec::new()), Err(SplitError::NoMarkerFound));
}

#[test]
fn single_marker_block_signals_insufficient_markers() {
    let mut reader = CSQReader::new();
    let b = block_with_markers(800, &[200]);
    assert_eq!(reader.populate_list(&b), Err(SplitError::InsufficientMarkers));
    assert!(reader.next_raw_frame().is_none());
}

#[test]
fn errors_leave_the_leftover_unchanged() {
    let mut reader = CSQReader::new();
    let first = block_with_markers(600, &[100, 400]);
    assert!(reader.populate_list(&first).is_ok());
    let carried = reader.leftover.clone();
    assert_eq!(carried, first[400..].to_vec());

    let one = block_with_markers(300, &[50]);
    assert_eq!(reader.populate_list(&one), Err(SplitError::InsufficientMarkers));
    assert_eq!(reader.leftover, carried);

    let none = block_with_markers(300, &[]);
    assert_eq!(reader.populate_list(&none), Err(SplitError::NoMarkerFound));
    assert_eq!(reader.leftover, carried);
}

#[test]
fn two_marker_block_yields_one_frame_and_carries_tail() {
    let mut reader = CSQReader::new();
    let b = block_with_markers(1000, &[0, 500]);
    assert!(reader.populate_list(&b).is_ok());
    let frames = drain(&mut reader);
    assert_eq!(frames.len(), 1);
    assert_eq!(frames[0], b[0..500].to_vec());
    assert_eq!(reader.leftover, b[500..1000].to_vec());
}

#[test]
fn carried_tail_is_bounded_by_next_blocks_first_marker() {
    // A two-frame synthetic stream: markers at stream offsets 0, 500 and
    // 1000, read as a block of [0, 1000) and a block of [1000, 1500).
    let stream = block_with_markers(1500, &[0, 500, 1000, 1300]);
    let mut reader = CSQReader::new();

    assert!(reader.populate_list(&stream[0..1000].to_vec()).is_ok());
    let first = drain(&mut reader);
    assert_eq!(first.len(), 1);
    assert_eq!(first[0], stream[0..500].to_vec());
    assert_eq!(reader.leftover, stream[500..1000].to_vec());

    assert!(reader.populate_list(&stream[1000..1500].to_vec()).is_ok());
    let second = drain(&mut reader);
    assert_eq!(second.len(), 2);
    assert_eq!(second[0], stream[500..1000].to_vec());
    assert_eq!(second[1], stream[1000..1300].to_vec());
}

#[test]
fn reassembled_frame_is_the_same_at_any_cut_offset() {
    // One frame, bounded by markers at 100 and 600, is cut across two block
    // reads at different offsets; the reassembled bytes must be identical.
    let stream = block_with_markers(700, &[10, 100, 600, 650]);
    let mut outcomes = Vec::new();
    for cut in [150usize, 300, 599] {
        let mut reader = CSQReader::new();
        assert!(reader.populate_list(&stream[..cut].to_vec()).is_ok());
        let mut frames = drain(&mut reader);
        assert!(reader.populate_list(&stream[cut..].to_vec()).is_ok());
        frames.extend(drain(&mut reader));
        outcomes.push(frames);
    }
    assert_eq!(outcomes[0], outcomes[1]);
    assert_eq!(outcomes[1], outcomes[2]);
    assert_eq!(outcomes[0][1], stream[100..600].to_vec());
}

#[test]
fn stream_yields_every_frame_in_order() {
    // Five markers bound four frames; blocks of unequal size cut the stream
    // between markers.
    let stream = block_with_markers(2000, &[20, 300, 700, 1200, 1900]);
    let mut reader = CSQReader::new();
    let mut frames = Vec::new();
    for block in [&stream[..800], &stream[800..]] {
        assert!(reader.populate_list(&block.to_vec()).is_ok());
        frames.extend(drain(&mut reader));
    }
    assert_eq!(frames.len(), 4);
    assert_eq!(frames[0], stream[20..300].to_vec());
    assert_eq!(frames[1], stream[300..700].to_vec());
    assert_eq!(frames[2], stream[700..1200].to_vec());
    assert_eq!(frames[3], stream[1200..1900].to_vec());
    // the tail after the last marker is carried, not yielded
    assert!(reader.next_raw_frame().is_none());
    assert_eq!(reader.leftover, stream[1900..].to_vec());
}

#[test]
fn bytes_before_the_first_marker_of_a_fresh_stream_are_discarded() {
    let b = block_with_markers(900, &[250, 640]);
    let mut reader = CSQReader::new();
    assert!(reader.populate_list(&b).is_ok());
    let frames = drain(&mut reader);
    assert_eq!(frames.len(), 1);
    assert_eq!(frames[0], b[250..640].to_vec());
}

#[test]
fn collect_frames_partitions_a_whole_stream() {
    let stream = block_with_markers(2000, &[20, 300, 700, 1200, 1900]);
    let blocks = vec![stream[..800].to_vec(), stream[800..].to_vec()];
    let frames = collect_frames(&blocks).unwrap();
    assert_eq!(frames.len(), 4);
    assert_eq!(frames[0], stream[20..300].to_vec());
    assert_eq!(frames[1], stream[300..700].to_vec());
    assert_eq!(frames[2], stream[700..1200].to_vec());
    assert_eq!(frames[3], stream[1200..1900].to_vec());
}

#[test]
fn collect_frames_reports_the_first_unsplittable_block() {
    let good = block_with_markers(500, &[0, 200]);
    let lone = block_with_markers(500, &[100]);
    let bare = block_with_markers(500, &[]);
    assert_eq!(
        collect_frames(&vec![good.clone(), lone, good.clone()]),
        Err(SplitError::InsufficientMarkers)
    );
    assert_eq!(collect_frames(&vec![good.clone(), bare]), Err(SplitError::NoMarkerFound));
    assert!(collect_frames(&vec![good.clone(), good]).is_ok());
}

#[test]
fn needs_refill_tracks_buffered_frames() {
    let mut reader = CSQReader::new();
    assert!(reader.needs_refill());
    let b = block_with_markers(400, &[0, 100, 200]);
    assert!(reader.populate_list(&b).is_ok());
    assert!(!reader.needs_refill());
    assert!(reader.next_raw_frame().is_some());
    assert!(reader.next_raw_frame().is_some());
    assert!(reader.needs_refill());
    assert!(reader.next_raw_frame().is_none());
}
