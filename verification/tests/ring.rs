//! The message ring: round trips, FIFO order, the size boundaries, the
//! overwrite policy and its counters, and idempotent reads on empty.

use xshm::{
    RingBuffer, ShmError, MAX_MESSAGES, MAX_MESSAGE_SIZE, MESSAGE_HEADER_SIZE, MIN_MESSAGE_SIZE,
    RING_CAPACITY,
};

#[test]
fn write_then_read_roundtrip() {
    let mut ring = RingBuffer::new();
    let outcome = ring.write_message(b"ping").unwrap();
    assert_eq!(outcome.overwritten, 0);
    assert!(outcome.was_empty);
    let mut buffer: Vec<u8> = Vec::new();
    let len = ring.read_message(&mut buffer).unwrap();
    assert_eq!(len, 4);
    assert_eq!(buffer, b"ping".to_vec());
    assert!(ring.is_empty());
}

#[test]
fn fifo_order_of_many_messages() {
    let mut ring = RingBuffer::new();
    for i in 0..10u8 {
        let payload = vec![i, i + 1, i + 2];
        assert_eq!(ring.write_message(&payload).unwrap().overwritten, 0);
    }
    assert_eq!(ring.message_count(), 10);
    let mut buffer: Vec<u8> = Vec::new();
    for i in 0..10u8 {
        ring.read_message(&mut buffer).unwrap();
        assert_eq!(buffer, vec![i, i + 1, i + 2]);
    }
    assert!(ring.is_empty());
}

#[test]
fn write_below_minimum_rejected() {
    let mut ring = RingBuffer::new();
    let payload = vec![0u8; MIN_MESSAGE_SIZE - 1];
    assert_eq!(ring.write_message(&payload).unwrap_err(), ShmError::MessageTooSmall);
    assert!(ring.is_empty());
}

#[test]
fn write_above_maximum_rejected() {
    let mut ring = RingBuffer::new();
    let payload = vec![0u8; MAX_MESSAGE_SIZE + 1];
    assert_eq!(ring.write_message(&payload).unwrap_err(), ShmError::MessageTooLarge);
    assert!(ring.is_empty());
}

#[test]
fn write_larger_than_ring_rejected_on_empty_ring() {
    let mut ring = RingBuffer::new();
    let payload = vec![0u8; RING_CAPACITY - MESSAGE_HEADER_SIZE + 1];
    assert_eq!(ring.write_message(&payload).unwrap_err(), ShmError::MessageTooLarge);
    assert!(ring.is_empty());
}

#[test]
fn read_on_empty_reports_queue_empty_idempotently() {
    let mut ring = RingBuffer::new();
    let mut buffer: Vec<u8> = Vec::new();
    assert_eq!(ring.read_message(&mut buffer).unwrap_err(), ShmError::QueueEmpty);
    assert_eq!(ring.read_message(&mut buffer).unwrap_err(), ShmError::QueueEmpty);
    assert!(ring.is_empty());
    assert_eq!(ring.message_count(), 0);
    assert_eq!(ring.drop_count(), 0);
}

#[test]
fn filling_past_message_limit_overwrites_oldest() {
    let mut ring = RingBuffer::new();
    let payload = vec![7u8; 8 * 1024];
    let mut total_overwritten: u32 = 0;
    for i in 0..260u32 {
        let outcome = ring.write_message(&payload).unwrap();
        if i < MAX_MESSAGES {
            assert_eq!(outcome.overwritten, 0, "write {} should not overwrite", i);
        } else {
            assert!(outcome.overwritten >= 1, "write {} should overwrite", i);
        }
        total_overwritten += outcome.overwritten;
    }
    assert_eq!(total_overwritten, 260 - MAX_MESSAGES);
    assert_eq!(ring.drop_count(), total_overwritten);
    assert_eq!(ring.message_count(), MAX_MESSAGES);
}

#[test]
fn overwrite_by_bytes_drops_oldest_first() {
    let mut ring = RingBuffer::new();
    // Three payloads that almost fill the ring by bytes.
    let big = vec![1u8; 65_535];
    let fills = RING_CAPACITY / (MESSAGE_HEADER_SIZE + 65_535);
    for _ in 0..fills {
        assert_eq!(ring.write_message(&big).unwrap().overwritten, 0);
    }
    // The next large write no longer fits by bytes and must drop the oldest.
    let marked = vec![2u8; 65_535];
    let outcome = ring.write_message(&marked).unwrap();
    assert!(outcome.overwritten >= 1);
    assert_eq!(ring.drop_count(), outcome.overwritten);
    // The newest message is still delivered intact, after the survivors.
    let mut buffer: Vec<u8> = Vec::new();
    let mut last: Vec<u8> = Vec::new();
    while ring.read_message(&mut buffer).is_ok() {
        last = buffer.clone();
    }
    assert_eq!(last, marked);
}

#[test]
fn drop_count_never_decreases() {
    let mut ring = RingBuffer::new();
    let payload = vec![9u8; 1024];
    let mut previous: u32 = ring.drop_count();
    for _ in 0..300 {
        ring.write_message(&payload).unwrap();
        let now = ring.drop_count();
        assert!(now >= previous);
        previous = now;
    }
}

#[test]
fn counters_and_emptiness_agree() {
    let mut ring = RingBuffer::new();
    assert!(ring.is_empty());
    assert_eq!(ring.message_count(), 0);
    ring.write_message(b"ab").unwrap();
    assert!(!ring.is_empty());
    assert_eq!(ring.message_count(), 1);
    let mut buffer: Vec<u8> = Vec::new();
    ring.read_message(&mut buffer).unwrap();
    assert!(ring.is_empty());
    assert_eq!(ring.message_count(), 0);
}

#[test]
fn reset_clears_counters_and_stamps_generation() {
    let mut ring = RingBuffer::new();
    ring.write_message(b"abcd").unwrap();
    ring.write_message(b"efgh").unwrap();
    ring.reset(5);
    assert!(ring.is_empty());
    assert_eq!(ring.message_count(), 0);
    assert_eq!(ring.drop_count(), 0);
    assert_eq!(ring.connection_gen(), 5);
    let mut buffer: Vec<u8> = Vec::new();
    assert_eq!(ring.read_message(&mut buffer).unwrap_err(), ShmError::QueueEmpty);
}

#[test]
fn smallest_and_largest_payloads_roundtrip() {
    let mut ring = RingBuffer::new();
    let smallest = vec![3u8; MIN_MESSAGE_SIZE];
    let largest = vec![4u8; MAX_MESSAGE_SIZE];
    ring.write_message(&smallest).unwrap();
    ring.write_message(&largest).unwrap();
    let mut buffer: Vec<u8> = Vec::new();
    assert_eq!(ring.read_message(&mut buffer).unwrap(), MIN_MESSAGE_SIZE);
    assert_eq!(buffer, smallest);
    assert_eq!(ring.read_message(&mut buffer).unwrap(), MAX_MESSAGE_SIZE);
    assert_eq!(buffer, largest);
}

#[test]
fn wrap_around_keeps_messages_intact() {
    let mut ring = RingBuffer::new();
    // Alternate writes and reads so the cursors travel past the end of the
    // storage and the payload bytes wrap.
    let chunk = 60_000usize;
    let rounds = 2 * (RING_CAPACITY / chunk);
    let mut buffer: Vec<u8> = Vec::new();
    for i in 0..rounds {
        let payload = vec![(i % 251) as u8; chunk];
        assert_eq!(ring.write_message(&payload).unwrap().overwritten, 0);
        assert_eq!(ring.read_message(&mut buffer).unwrap(), chunk);
        assert_eq!(buffer, payload);
    }
    assert!(ring.is_empty());
}
