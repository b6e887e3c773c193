use nq_server::stream::{large, BoundedStream, ChunkGenerator, CHUNK_SIZE, LARGE_TOTAL};

fn drain(s: &mut BoundedStream) -> Vec<usize> {
    let mut lens = Vec::new();
    while let Some(c) = s.next() {
        lens.push(c.expect("random source").len());
    }
    lens
}

#[test]
fn generator_makes_chunks_of_its_size() {
    let mut g = ChunkGenerator::new(16);
    assert_eq!(g.next_chunk().unwrap().len(), 16);
    assert_eq!(g.next_chunk().unwrap().len(), 16);
}

#[test]
fn last_chunk_is_partial() {
    let mut s = BoundedStream::new(10, 4);
    assert_eq!(s.remaining_chunks(), 3);
    assert_eq!(drain(&mut s), vec![4, 4, 2]);
    assert_eq!(s.remaining_bytes(), 0);
    assert_eq!(s.remaining_chunks(), 0);
    assert!(s.next().is_none());
}

#[test]
fn exact_multiple_has_full_chunks() {
    let mut s = BoundedStream::new(8, 4);
    assert_eq!(s.remaining_chunks(), 2);
    assert_eq!(drain(&mut s), vec![4, 4]);
}

#[test]
fn empty_stream_ends_at_once() {
    let mut s = BoundedStream::new(0, 4);
    assert_eq!(s.remaining_chunks(), 0);
    assert!(s.next().is_none());
    assert!(s.next().is_none());
}

#[test]
fn budget_counts_down_once_per_chunk() {
    let mut s = BoundedStream::new(CHUNK_SIZE as u64 * 3, CHUNK_SIZE);
    assert_eq!(s.remaining_chunks(), 3);
    s.next().unwrap().unwrap();
    assert_eq!(s.remaining_chunks(), 2);
    s.next().unwrap().unwrap();
    assert_eq!(s.remaining_chunks(), 1);
    s.next().unwrap().unwrap();
    assert_eq!(s.remaining_chunks(), 0);
    assert!(s.next().is_none());
}

#[test]
fn drained_bytes_equal_total() {
    let total: u64 = 1024 * 1024 + 5;
    let mut s = BoundedStream::new(total, CHUNK_SIZE);
    let lens = drain(&mut s);
    assert_eq!(lens.len(), 5);
    assert!(lens.iter().all(|&l| l <= CHUNK_SIZE));
    assert_eq!(lens.iter().map(|&l| l as u64).sum::<u64>(), total);
}

#[test]
fn large_is_eight_gib() {
    assert_eq!(LARGE_TOTAL, 8 * 4 * 1024 * 256 * 1024);
    assert_eq!(LARGE_TOTAL, 8589934592);
    assert_eq!(CHUNK_SIZE, 256 * 1024);
    let mut s = large();
    assert_eq!(s.remaining_bytes(), 8589934592);
    assert_eq!(s.remaining_chunks(), 32768);
    assert_eq!(s.remaining_chunks(), 8 * 4 * 1024);
    let c = s.next().unwrap().unwrap();
    assert_eq!(c.len(), 262144);
    assert!(c.iter().any(|&b| b != 0));
    assert_eq!(s.remaining_chunks(), 32767);
    assert_eq!(s.remaining_bytes(), 8589934592 - 262144);
}

#[test]
fn interleaved_streams_are_independent() {
    let mut a = BoundedStream::new(9, 2);
    let mut b = BoundedStream::new(7, 3);
    let mut la = Vec::new();
    let mut lb = Vec::new();
    loop {
        let x = a.next();
        let y = b.next();
        if x.is_none() && y.is_none() {
            break;
        }
        if let Some(c) = x {
            la.push(c.unwrap().len());
        }
        if let Some(c) = y {
            lb.push(c.unwrap().len());
        }
    }
    assert_eq!(la, vec![2, 2, 2, 2, 1]);
    assert_eq!(lb, vec![3, 3, 1]);
}
