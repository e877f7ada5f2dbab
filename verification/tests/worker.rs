//! The worker building blocks: the bounded send queue with drop-oldest
//! semantics, the batch steps over a ring, and the counters.

use xshm::{
    map_spawn_error, process_receive_queue, recv_step, send_step, AutoEvent, AutoOptions,
    AutoStats, ChannelKind, RingBuffer, SendQueue, SendStep, ShmError,
};

#[test]
fn send_queue_is_fifo() {
    let mut queue = SendQueue::new();
    queue.push(b"one".to_vec());
    queue.push(b"two".to_vec());
    assert_eq!(queue.len(), 2);
    assert_eq!(queue.pop(), Some(b"one".to_vec()));
    queue.push_front(b"back".to_vec());
    assert_eq!(queue.pop(), Some(b"back".to_vec()));
    assert_eq!(queue.pop(), Some(b"two".to_vec()));
    assert_eq!(queue.pop(), None);
}

#[test]
fn bounded_enqueue_drops_oldest_when_full() {
    let mut queue = SendQueue::new();
    assert!(!queue.enqueue_bounded(b"a".to_vec(), 2));
    assert!(!queue.enqueue_bounded(b"b".to_vec(), 2));
    assert!(queue.enqueue_bounded(b"c".to_vec(), 2));
    assert_eq!(queue.len(), 2);
    assert_eq!(queue.pop(), Some(b"b".to_vec()));
    assert_eq!(queue.pop(), Some(b"c".to_vec()));
}

#[test]
fn send_step_moves_queue_into_ring() {
    let mut ring = RingBuffer::new();
    let mut queue = SendQueue::new();
    queue.push(b"hello".to_vec());

    match send_step(&mut ring, &mut queue) {
        SendStep::Wrote { overwritten, was_empty } => {
            assert_eq!(overwritten, 0);
            assert!(was_empty);
        }
        _ => panic!("expected a write"),
    }
    assert_eq!(queue.len(), 0);
    assert_eq!(ring.message_count(), 1);

    assert!(matches!(send_step(&mut ring, &mut queue), SendStep::Idle));
}

#[test]
fn send_step_keeps_failed_payload_queued() {
    let mut ring = RingBuffer::new();
    let mut queue = SendQueue::new();
    queue.push(b"x".to_vec());
    match send_step(&mut ring, &mut queue) {
        SendStep::Failed { err } => assert_eq!(err, ShmError::MessageTooSmall),
        _ => panic!("expected a failure"),
    }
    assert_eq!(queue.len(), 1);
    assert!(ring.is_empty());
}

#[test]
fn recv_step_hands_out_oldest() {
    let mut ring = RingBuffer::new();
    ring.write_message(b"first").unwrap();
    ring.write_message(b"second").unwrap();
    let mut buffer: Vec<u8> = Vec::new();
    assert_eq!(recv_step(&mut ring, &mut buffer), Some(5));
    assert_eq!(buffer, b"first".to_vec());
    assert_eq!(recv_step(&mut ring, &mut buffer), Some(6));
    assert_eq!(buffer, b"second".to_vec());
    assert_eq!(recv_step(&mut ring, &mut buffer), None);
}

#[test]
fn receive_batch_drains_in_order_up_to_limit() {
    let mut ring = RingBuffer::new();
    for i in 0..5u8 {
        ring.write_message(&[i, i]).unwrap();
    }
    let mut stats = AutoStats::new();
    let events = process_receive_queue(&mut ring, &mut stats, 3, ChannelKind::ClientToServer);
    assert_eq!(events.len(), 3);
    for (i, event) in events.iter().enumerate() {
        match event {
            AutoEvent::Message { direction, payload } => {
                assert_eq!(*direction, ChannelKind::ClientToServer);
                assert_eq!(payload, &vec![i as u8, i as u8]);
            }
            _ => panic!("expected a message event"),
        }
    }
    assert_eq!(ring.message_count(), 2);
    assert_eq!(stats.snapshot().received_messages, 3);

    let events = process_receive_queue(&mut ring, &mut stats, 3, ChannelKind::ClientToServer);
    assert_eq!(events.len(), 2);
    assert!(ring.is_empty());
    assert_eq!(stats.snapshot().received_messages, 5);
}

#[test]
fn default_options_match_documented_values() {
    let options = AutoOptions::default();
    assert_eq!(options.wait_timeout, 50);
    assert_eq!(options.reconnect_delay, 250);
    assert_eq!(options.connect_timeout, 2000);
    assert_eq!(options.max_send_queue, 256);
    assert_eq!(options.recv_batch, 32);
}

#[test]
fn spawn_errors_carry_code_and_context() {
    assert_eq!(
        map_spawn_error(Some(5), "spawn server worker"),
        ShmError::WindowsError { code: 5, context: "spawn server worker" }
    );
    assert_eq!(
        map_spawn_error(None, "spawn client worker"),
        ShmError::WindowsError { code: 0xFFFF_FFFF, context: "spawn client worker" }
    );
}
