use sequential_storage::queue::buffered::RamRing;

#[test]
fn push_peek_discard() {
    let mut ring: RamRing<64> = RamRing::new();
    assert!(ring.is_empty());

    ring.push(b"hello").unwrap();
    ring.push(b"world").unwrap();
    assert_eq!(ring.len(), 2);
    assert_eq!(ring.oldest_len(), Some(5));

    let mut buf = [0u8; 32];
    assert_eq!(ring.peek_into(&mut buf), Some(b"hello".as_ref()));
    assert_eq!(ring.len(), 2); // peek does not consume

    ring.discard_oldest();
    assert_eq!(ring.len(), 1);
    assert_eq!(ring.peek_into(&mut buf), Some(b"world".as_ref()));

    ring.discard_oldest();
    assert!(ring.is_empty());
    assert_eq!(ring.peek_into(&mut buf), None);
}

#[test]
fn wrap_around() {
    // Use a tight buffer: 2 items of 3 bytes each = 2*(2+3)=10 bytes
    let mut ring: RamRing<10> = RamRing::new();
    ring.push(b"abc").unwrap();
    ring.push(b"def").unwrap();
    // Full: no room for another
    assert!(ring.push(b"x").is_err());

    let mut buf = [0u8; 8];
    ring.discard_oldest();
    ring.push(b"ghi").unwrap(); // wraps around
    assert_eq!(ring.peek_into(&mut buf), Some(b"def".as_ref()));
    ring.discard_oldest();
    assert_eq!(ring.peek_into(&mut buf), Some(b"ghi".as_ref()));
}

#[test]
fn push_overwriting_evicts_oldest() {
    // 10-byte ring fits exactly 2 items of 3 bytes (2*(2+3)=10)
    let mut ring: RamRing<10> = RamRing::new();
    ring.push(b"aaa").unwrap();
    ring.push(b"bbb").unwrap();

    // Overwriting push evicts "aaa" to make room for "ccc"
    ring.push_overwriting(b"ccc").unwrap();
    assert_eq!(ring.len(), 2);

    let mut buf = [0u8; 8];
    assert_eq!(ring.peek_into(&mut buf), Some(b"bbb".as_ref()));
    ring.discard_oldest();
    assert_eq!(ring.peek_into(&mut buf), Some(b"ccc".as_ref()));
}

#[test]
fn ring_keeps_order_over_many_wraps() {
    let mut ring: RamRing<13> = RamRing::new();
    let mut expected: Vec<Vec<u8>> = Vec::new();
    for round in 0..200usize {
        let data: Vec<u8> = (0..(round % 5)).map(|k| (round * 7 + k) as u8).collect();
        if ring.push(&data).is_ok() {
            expected.push(data);
        } else {
            let needed = ring.bytes_used() + 2 + data.len();
            assert!(needed > 13);
            let mut buf = [0u8; 13];
            let oldest = expected.remove(0);
            assert_eq!(ring.oldest_len(), Some(oldest.len()));
            assert_eq!(ring.peek_into(&mut buf), Some(oldest.as_slice()));
            ring.discard_oldest();
        }
        assert_eq!(ring.len(), expected.len());
        let used: usize = expected.iter().map(|item| item.len() + 2).sum();
        assert_eq!(ring.bytes_used(), used);
    }
}
