use disruptor::ringbuffer::RingBuffer;

#[test]
fn available_capacity() {
    let ring_buffer = RingBuffer::new(8, || 0);

    // Round 1:
    // Publisher has just published 7 and consumer has read 0.
    assert_eq!(1, ring_buffer.available_capacity(7, 0));
    // Consumer had read 0 and the publisher has just published 8.
    assert_eq!(0, ring_buffer.available_capacity(8, 0));
    // Producer has published 0 and consumer read 0.
    assert_eq!(8, ring_buffer.available_capacity(0, 0));
    // Publisher has just published 3 and consumer is (still) reading 0.
    assert_eq!(4, ring_buffer.available_capacity(3, -1));
    // Publisher has just published 7 and consumer is (still) reading 0.
    assert_eq!(0, ring_buffer.available_capacity(7, -1));
    // Publisher has just published 7 and consumer has read 0.
    assert_eq!(1, ring_buffer.available_capacity(7, 0));
    // Publisher has just released 5 and consumer has read 2.
    assert_eq!(5, ring_buffer.available_capacity(5, 2));
    // Publisher has just released 5 and consumer has read 3.
    assert_eq!(6, ring_buffer.available_capacity(5, 3));
    // Publisher has just released 5 and consumer has read 4.
    assert_eq!(7, ring_buffer.available_capacity(5, 4));
    // Publisher has just released 5 and consumer has read 5.
    assert_eq!(8, ring_buffer.available_capacity(5, 5));

    // Round 2:
    // Publisher has just published 11 and consumer has read 9.
    assert_eq!(6, ring_buffer.available_capacity(11, 9));
    // Publisher has just published 12 and consumer has read 12.
    assert_eq!(8, ring_buffer.available_capacity(12, 12));
    // Consumer has read 7 and the publisher has just published 15.
    assert_eq!(0, ring_buffer.available_capacity(15, 7));
}

#[test]
fn the_factory_fills_every_slot() {
    let mut next = 0;
    let ring_buffer = RingBuffer::new(4, || {
        next += 1;
        next
    });
    assert_eq!(4, ring_buffer.capacity());
    let events: Vec<i32> = (0..4).map(|sequence| *ring_buffer.get(sequence)).collect();
    assert_eq!(vec![1, 2, 3, 4], events);

    let single = RingBuffer::new(1, || 'a');
    assert_eq!(1, single.capacity());
    assert_eq!('a', *single.get(i64::MAX));
}

#[test]
fn a_slot_serves_a_sequence_of_every_round() {
    let ring_buffer = RingBuffer::new(8, || 0);
    for sequence in 0..8 {
        assert_eq!(sequence as usize, ring_buffer.slot_index(sequence));
        assert_eq!(sequence as usize, ring_buffer.slot_index(sequence + 8));
        assert_eq!(sequence as usize, ring_buffer.slot_index(sequence + 8_000));
        assert_eq!(sequence, ring_buffer.wrap_point(sequence + 8));
    }
    assert_eq!(7, ring_buffer.slot_index(i64::MAX));
    assert_eq!(-8, ring_buffer.wrap_point(0));
}

#[test]
fn what_was_written_is_read() {
    let mut ring_buffer = RingBuffer::new(4, || 0);
    for sequence in 0..9 {
        *ring_buffer.get_mut(sequence) = 10 * sequence;
    }
    // The last round and the one event after it are there, and nothing before them.
    assert_eq!(80, *ring_buffer.get(8));
    assert_eq!(70, *ring_buffer.get(7));
    assert_eq!(60, *ring_buffer.get(6));
    assert_eq!(50, *ring_buffer.get(5));
    assert_eq!(80, *ring_buffer.get(4));
}

#[test]
fn publishing_within_the_free_slots_spares_the_unread() {
    let ring_buffer = RingBuffer::new(8, || 0);
    let producer = 11;
    let highest_read = 9;
    let free = ring_buffer.available_capacity(producer, highest_read);
    assert_eq!(6, free);
    let unread: Vec<usize> = (highest_read + 1..=producer)
        .map(|sequence| ring_buffer.slot_index(sequence))
        .collect();
    for published in producer + 1..=producer + free {
        assert!(!unread.contains(&ring_buffer.slot_index(published)));
    }
    // One more would overwrite the oldest of them.
    assert_eq!(unread[0], ring_buffer.slot_index(producer + free + 1));
}
