use mirakc_core::chunk_stream::{chunk_all, ChunkStream, CHUNK_SIZE};

#[test]
fn chunk_all_emits_two_full_frames_and_a_short_tail() {
    // A source of exactly 2 * S + 7 bytes: two S-byte frames, then 7 bytes.
    let s: usize = 8;
    let input: Vec<u8> = (0..(2 * s + 7) as u8).collect();
    let frames = chunk_all(&input, s);
    assert_eq!(frames.len(), 3);
    assert_eq!(frames[0], input[0..8].to_vec());
    assert_eq!(frames[1], input[8..16].to_vec());
    assert_eq!(frames[2], input[16..23].to_vec());
    assert_eq!(frames[2].len(), 7);
}

#[test]
fn chunk_all_of_empty_input_is_empty() {
    let frames = chunk_all(&Vec::new(), CHUNK_SIZE);
    assert_eq!(frames.len(), 0);
}

#[test]
fn chunk_all_exact_multiple_has_no_short_frame() {
    let input: Vec<u8> = vec![7u8; 24];
    let frames = chunk_all(&input, 8);
    assert_eq!(frames.len(), 3);
    for f in &frames {
        assert_eq!(f.len(), 8);
    }
}

#[test]
fn incremental_feeding_emits_frames_as_they_complete() {
    let mut cs = ChunkStream::new(5);
    let out = cs.feed(&[1, 2, 3]);
    assert_eq!(out.len(), 0);
    let out = cs.feed(&[4, 5, 6, 7, 8, 9, 10, 11, 12]);
    assert_eq!(out.len(), 2);
    assert_eq!(out[0], vec![1, 2, 3, 4, 5]);
    assert_eq!(out[1], vec![6, 7, 8, 9, 10]);
    let tail = cs.finish();
    assert_eq!(tail, Some(vec![11, 12]));
}

#[test]
fn finish_after_exact_boundary_emits_nothing() {
    let mut cs = ChunkStream::new(4);
    let out = cs.feed(&[9, 9, 9, 9]);
    assert_eq!(out.len(), 1);
    assert_eq!(cs.finish(), None);
}

#[test]
fn round_trip_concatenation_restores_the_source() {
    let input: Vec<u8> = (0u16..1000).map(|i| (i % 251) as u8).collect();
    let frames = chunk_all(&input, 97);
    let mut joined: Vec<u8> = Vec::new();
    for f in &frames {
        joined.extend_from_slice(f);
    }
    assert_eq!(joined, input);
    for f in &frames[..frames.len() - 1] {
        assert_eq!(f.len(), 97);
    }
    assert!(!frames.last().unwrap().is_empty());
    assert!(frames.last().unwrap().len() <= 97);
}
