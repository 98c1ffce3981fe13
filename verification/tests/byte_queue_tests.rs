use bytes::Bytes;
use coalescence_proto::byte_queue::ByteQueue;

fn queue_of(chunks: &[&[u8]]) -> ByteQueue {
    let mut q = ByteQueue::new();
    for chunk in chunks {
        q.push(Bytes::from(chunk.to_vec()));
    }
    q
}

#[test]
fn new_queue_is_empty() {
    let q = ByteQueue::new();
    assert_eq!(q.len(), 0);
    assert!(q.is_empty());
    assert_eq!(q.first(), None);
}

#[test]
fn push_accumulates_length() {
    let q = queue_of(&[&[1], &[2, 3], &[4, 5, 6, 7]]);
    assert_eq!(q.len(), 7);
    assert!(!q.is_empty());
    assert_eq!(q.first(), Some(1));
}

#[test]
fn push_empty_chunk_is_noop() {
    let mut q = queue_of(&[&[1, 2]]);
    q.push(Bytes::new());
    assert_eq!(q.len(), 2);
    assert_eq!(q.peek(10), vec![1, 2]);
}

#[test]
fn fidelity_across_chunk_boundaries() {
    // the same bytes, chunked three different ways, read back identically
    let original: Vec<u8> = (0..40).collect();
    let chunkings: [&[&[u8]]; 3] = [
        &[&original],
        &[&original[..1], &original[1..7], &original[7..39], &original[39..]],
        &[
            &original[..13],
            &[],
            &original[13..14],
            &original[14..40],
        ],
    ];
    for chunks in chunkings {
        let mut q = queue_of(chunks);
        assert_eq!(q.len(), original.len());
        let mut read_back = Vec::new();
        while !q.is_empty() {
            let piece = q.read(5);
            assert!(!piece.is_empty());
            read_back.extend_from_slice(&piece);
        }
        assert_eq!(read_back, original);
    }
}

#[test]
fn read_exact_spans_chunks() {
    let mut q = queue_of(&[&[1, 2], &[3], &[4, 5]]);
    assert_eq!(q.read_exact(4), vec![1, 2, 3, 4]);
    assert_eq!(q.len(), 1);
    assert_eq!(q.first(), Some(5));
}

#[test]
fn read_stops_at_chunk_boundary() {
    let mut q = queue_of(&[&[1, 2], &[3, 4]]);
    // a single read copies from the front chunk only; callers loop
    let piece = q.read(10);
    assert_eq!(piece, vec![1, 2]);
    assert_eq!(q.len(), 2);
}

#[test]
fn peek_does_not_consume() {
    let mut q = queue_of(&[&[1, 2], &[3, 4, 5]]);
    assert_eq!(q.peek(4), vec![1, 2, 3, 4]);
    assert_eq!(q.peek(99), vec![1, 2, 3, 4, 5]);
    assert_eq!(q.len(), 5);
    // consuming exactly the peeked bytes afterwards returns them
    assert_eq!(q.read_exact(4), vec![1, 2, 3, 4]);
    assert_eq!(q.len(), 1);
}

#[test]
fn discard_within_front_chunk() {
    let mut q = queue_of(&[&[1, 2, 3], &[4]]);
    q.discard_bytes(2);
    assert_eq!(q.len(), 2);
    assert_eq!(q.peek(10), vec![3, 4]);
}

#[test]
fn discard_across_chunks() {
    let mut q = queue_of(&[&[1, 2], &[3, 4], &[5, 6]]);
    q.discard_bytes(3);
    assert_eq!(q.len(), 3);
    assert_eq!(q.peek(10), vec![4, 5, 6]);
}

#[test]
fn discard_more_than_buffered_clears() {
    let mut q = queue_of(&[&[1, 2], &[3]]);
    q.discard_bytes(100);
    assert!(q.is_empty());
    assert_eq!(q.first(), None);
}

#[test]
fn clear_drops_everything() {
    let mut q = queue_of(&[&[1, 2, 3]]);
    q.clear();
    assert!(q.is_empty());
    assert_eq!(q.peek(10), Vec::<u8>::new());
}

#[test]
fn with_capacity_starts_empty() {
    let q = ByteQueue::with_capacity(16);
    assert!(q.is_empty());
}
