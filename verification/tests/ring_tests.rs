use fluxnet::ring::{ConsumerRing, ProducerRing};

#[test]
fn test_producer_ring_basic_flow() {
    let mut ring: ProducerRing<u64> = ProducerRing::new(vec![0u64; 4]);

    // 1. Initial state: empty. producer = 0, consumer = 0. Available = 4.
    assert_eq!(ring.available(), 4);

    // 2. Reserve 2 slots.
    let idx = ring.reserve(2);
    assert!(idx.is_some());
    assert_eq!(idx.unwrap(), 0);

    // 3. Write data.
    ring.write_at(idx.unwrap(), 100);
    ring.write_at(idx.unwrap() + 1, 101);

    // 4. Submit; the producer index is published.
    ring.submit(idx.unwrap() + 2);
    assert_eq!(ring.producer_index(), 2);

    // 5. Fill the remaining 2.
    let idx2 = ring.reserve(2);
    assert!(idx2.is_some());
    assert_eq!(idx2.unwrap(), 2);

    ring.submit(idx2.unwrap() + 2);
    assert_eq!(ring.producer_index(), 4);

    // 6. Try to overfill: full (producer 4, consumer 0, size 4).
    let idx3 = ring.reserve(1);
    assert!(idx3.is_none());

    // The peer (kernel side) consumes what was published, in order.
    assert_eq!(ring.peer_pop(), Some(100));
    assert_eq!(ring.peer_pop(), Some(101));
}

#[test]
fn test_consumer_ring_basic_flow() {
    let mut ring: ConsumerRing<u64> = ConsumerRing::new(vec![0u64; 4]);

    // 1. Initially empty.
    assert_eq!(ring.peek(4), 0);

    // 2. The peer (kernel side) publishes 2 entries.
    assert!(ring.peer_push(0));
    assert!(ring.peer_push(0));

    // 3. Peek.
    let count = ring.peek(4);
    assert_eq!(count, 2);

    // 4. The consumer index starts at 0.
    let cons_idx = ring.consumer_idx();
    assert_eq!(cons_idx, 0);

    // 5. Release.
    ring.release(2);
    assert_eq!(ring.consumer_idx(), 2);

    // 6. Peek again: empty.
    assert_eq!(ring.peek(4), 0);
}

#[test]
fn test_ring_wrapping() {
    // Both indices start just below the 32-bit wrap.
    let mut ring: ProducerRing<u64> = ProducerRing::with_start(vec![0u64; 4], u32::MAX - 1);

    // 1. Reserve 2 slots: available is 4, the index is the raw producer.
    let idx = ring.reserve(2);
    assert!(idx.is_some());
    let start_idx = idx.unwrap();
    assert_eq!(start_idx, u32::MAX - 1);

    ring.write_at(start_idx, 10);
    ring.write_at(start_idx.wrapping_add(1), 11);

    // Submit (MAX-1 + 2) wraps to 0.
    let new_prod = start_idx.wrapping_add(2);
    ring.submit(new_prod);
    assert_eq!(ring.producer_index(), 0);

    // 2. The consumer side sees the same wrap: producer 0, consumer MAX-1,
    // so 2 entries are available.
    let mut cons_ring: ConsumerRing<u64> = ConsumerRing::with_start(vec![0u64; 4], u32::MAX - 1);
    assert!(cons_ring.peer_push(10));
    assert!(cons_ring.peer_push(11));

    let avail = cons_ring.peek(4);
    assert_eq!(avail, 2);
    assert_eq!(cons_ring.read_at(u32::MAX - 1), 10);
    assert_eq!(cons_ring.read_at(u32::MAX), 11);

    cons_ring.release(2);
    assert_eq!(cons_ring.consumer_idx(), 0);
}

#[test]
fn test_wrap_matches_zero_start() {
    // Two reservations of 2 each behave identically whether the indices
    // start at 2^32 - 2 or at 0.
    let starts = [0u32, u32::MAX - 1];
    let mut outcomes = Vec::new();
    for &s in starts.iter() {
        let mut ring: ProducerRing<u64> = ProducerRing::with_start(vec![0u64; 4], s);
        let first = ring.reserve(2).expect("first reservation fits");
        assert_eq!(first, s);
        ring.write_at(first, 1);
        ring.write_at(first.wrapping_add(1), 2);
        ring.submit(first.wrapping_add(2));
        let second = ring.reserve(2).expect("second reservation fits");
        assert_eq!(second, s.wrapping_add(2));
        ring.write_at(second, 3);
        ring.write_at(second.wrapping_add(1), 4);
        ring.submit(second.wrapping_add(2));
        assert!(ring.reserve(1).is_none());
        let drained = [
            ring.peer_pop(),
            ring.peer_pop(),
            ring.peer_pop(),
            ring.peer_pop(),
            ring.peer_pop(),
        ];
        outcomes.push(drained);
    }
    assert_eq!(outcomes[0], outcomes[1]);
    assert_eq!(outcomes[0], [Some(1), Some(2), Some(3), Some(4), None]);
}

#[test]
fn test_fifo_round_trip_order() {
    // Interleaved produce/consume: what goes in comes out in order.
    let mut ring: ProducerRing<u64> = ProducerRing::new(vec![0u64; 8]);
    let mut produced = Vec::new();
    let mut consumed = Vec::new();
    let mut next: u64 = 0;
    // A fixed irregular schedule of produce bursts and consume bursts,
    // always respecting capacity.
    let schedule = [(3usize, 1usize), (4, 2), (2, 4), (5, 3), (1, 5), (6, 6)];
    for &(p, c) in schedule.iter() {
        let p = p.min(ring.available() as usize);
        if let Some(mut idx) = ring.reserve(p as u32) {
            for _ in 0..p {
                ring.write_at(idx, next);
                produced.push(next);
                next += 1;
                idx = idx.wrapping_add(1);
            }
            ring.submit(idx);
        }
        for _ in 0..c {
            if let Some(v) = ring.peer_pop() {
                consumed.push(v);
            }
        }
    }
    while let Some(v) = ring.peer_pop() {
        consumed.push(v);
    }
    assert_eq!(produced, consumed);
}

#[test]
fn test_consumer_take_prefix_and_available() {
    let mut ring: ConsumerRing<u32> = ConsumerRing::new(vec![0u32; 8]);
    for v in [7u32, 8, 9] {
        assert!(ring.peer_push(v));
    }
    assert_eq!(ring.available(), 3);
    let seen = ring.take_prefix(2);
    assert_eq!(seen, vec![7, 8]);
    // Nothing consumed yet.
    assert_eq!(ring.available(), 3);
    ring.release(2);
    assert_eq!(ring.available(), 1);
    assert_eq!(ring.read_at(ring.consumer_idx()), 9);
}
