//! Server and client endpoints on one shared segment: the handshake, the
//! message round trip, reconnection with a fresh generation, and the
//! attachment checks against magic and version.

use xshm::{
    ControlBlock, SharedClient, SharedServer, SharedView, ShmError, HANDSHAKE_IDLE,
    HANDSHAKE_SERVER_READY, SHARED_MAGIC, SHARED_VERSION,
};

/// Drive the handshake both endpoints perform once the events fired.
fn connect_pair(view: &mut SharedView) -> (SharedServer, SharedClient) {
    let mut server = SharedServer::new();
    SharedClient::hello(view).expect("hello");
    server.accept_client(view).expect("accept");
    let client = SharedClient::complete(view).expect("complete");
    (server, client)
}

#[test]
fn fresh_segment_is_stamped() {
    let view = SharedView::new();
    assert_eq!(view.control_block().magic, SHARED_MAGIC);
    assert_eq!(view.control_block().version, SHARED_VERSION);
    assert_eq!(view.control_block().generation, 1);
    assert_eq!(view.control_block().server_state, HANDSHAKE_IDLE);
    assert_eq!(view.control_block().client_state, HANDSHAKE_IDLE);
    assert_eq!(view.ring_a.connection_gen(), 1);
    assert_eq!(view.ring_b.connection_gen(), 1);
}

#[test]
fn server_client_roundtrip() {
    let mut view = SharedView::new();
    let (server, client) = connect_pair(&mut view);
    assert!(server.is_connected());
    assert!(client.is_connected());

    let outcome = server.send_to_client(&mut view, b"ping").unwrap();
    assert!(outcome.was_empty);
    assert_eq!(client.poll_server(&view).unwrap(), true);
    let mut buffer: Vec<u8> = Vec::new();
    assert_eq!(client.receive_from_server(&mut view, &mut buffer).unwrap(), 4);
    assert_eq!(buffer, b"ping".to_vec());

    client.send_to_server(&mut view, b"bye").unwrap();
    assert_eq!(server.poll_client(&view).unwrap(), true);
    assert_eq!(server.receive_from_client(&mut view, &mut buffer).unwrap(), 3);
    assert_eq!(buffer, b"bye".to_vec());
}

#[test]
fn handshake_resets_counters_and_generation() {
    let mut view = SharedView::new();
    let (_server, _client) = connect_pair(&mut view);
    let generation = view.control_block().generation;
    assert_eq!(generation, 2);
    assert_eq!(view.ring_a.connection_gen(), generation);
    assert_eq!(view.ring_b.connection_gen(), generation);
    assert_eq!(view.ring_a.message_count(), 0);
    assert_eq!(view.ring_b.message_count(), 0);
    assert_eq!(view.ring_a.drop_count(), 0);
    assert_eq!(view.ring_b.drop_count(), 0);
    assert_eq!(view.control_block().server_state, HANDSHAKE_SERVER_READY);
    assert_eq!(view.control_block().client_state, HANDSHAKE_SERVER_READY);
}

#[test]
fn second_accept_reports_already_connected() {
    let mut view = SharedView::new();
    let (mut server, _client) = connect_pair(&mut view);
    assert_eq!(server.accept_client(&mut view).unwrap_err(), ShmError::AlreadyConnected);
}

#[test]
fn accept_without_hello_fails_handshake() {
    let mut view = SharedView::new();
    let mut server = SharedServer::new();
    assert_eq!(server.accept_client(&mut view).unwrap_err(), ShmError::HandshakeFailed);
    assert!(!server.is_connected());
}

#[test]
fn operations_before_connection_report_not_connected() {
    let mut view = SharedView::new();
    let server = SharedServer::new();
    let mut buffer: Vec<u8> = Vec::new();
    assert_eq!(server.send_to_client(&mut view, b"hi").unwrap_err(), ShmError::NotConnected);
    assert_eq!(
        server.receive_from_client(&mut view, &mut buffer).unwrap_err(),
        ShmError::NotConnected
    );
    assert_eq!(server.poll_client(&view).unwrap_err(), ShmError::NotConnected);
}

#[test]
fn wrong_magic_is_rejected_as_corrupted() {
    let mut view = SharedView::new();
    view.control.magic = 0;
    assert_eq!(SharedClient::hello(&mut view).unwrap_err(), ShmError::Corrupted);
}

#[test]
fn wrong_version_fails_handshake() {
    let mut view = SharedView::new();
    view.control.version = SHARED_VERSION + 1;
    assert_eq!(SharedClient::hello(&mut view).unwrap_err(), ShmError::HandshakeFailed);
}

#[test]
fn complete_without_ready_server_rolls_back() {
    let mut view = SharedView::new();
    SharedClient::hello(&mut view).expect("hello");
    let err = SharedClient::complete(&mut view).unwrap_err();
    assert_eq!(err, ShmError::HandshakeFailed);
    assert_eq!(view.control_block().client_state, HANDSHAKE_IDLE);
    assert_eq!(view.ring_a.handshake_state(), HANDSHAKE_IDLE);
    assert_eq!(view.ring_b.handshake_state(), HANDSHAKE_IDLE);
}

#[test]
fn reconnect_gets_fresh_rings_and_generation() {
    let mut view = SharedView::new();

    // First client connects and leaves a message behind.
    let (mut server, mut client_a) = connect_pair(&mut view);
    client_a.send_to_server(&mut view, b"HELLO1").unwrap();
    let mut buffer: Vec<u8> = Vec::new();
    assert_eq!(server.receive_from_client(&mut view, &mut buffer).unwrap(), 6);
    assert_eq!(buffer, b"HELLO1".to_vec());
    client_a.send_to_server(&mut view, b"stale!").unwrap();
    let first_generation = view.control_block().generation;

    // The first client drops; the server notices and frees the endpoint.
    client_a.disconnect(&mut view);
    server.mark_disconnected(&mut view);
    assert!(!server.is_connected());

    // A second client performs a fresh handshake: the ring went through
    // zero, so nothing of the first client leaks.
    SharedClient::hello(&mut view).expect("hello");
    server.accept_client(&mut view).expect("accept");
    let client_b = SharedClient::complete(&mut view).expect("complete");
    assert_eq!(view.ring_b.message_count(), 0);
    assert_eq!(view.control_block().generation, first_generation.wrapping_add(1));

    client_b.send_to_server(&mut view, b"HELLO2").unwrap();
    assert_eq!(server.receive_from_client(&mut view, &mut buffer).unwrap(), 6);
    assert_eq!(buffer, b"HELLO2".to_vec());
    assert_eq!(view.ring_b.message_count(), 0);
}

#[test]
fn client_disconnect_signals_once() {
    let mut view = SharedView::new();
    let (_server, mut client) = connect_pair(&mut view);
    assert!(client.disconnect(&mut view));
    assert!(!client.is_connected());
    assert!(!client.disconnect(&mut view));
}

#[test]
fn space_event_decision_after_drain() {
    let mut view = SharedView::new();
    let (server, client) = connect_pair(&mut view);
    server.send_to_client(&mut view, b"one!").unwrap();
    server.send_to_client(&mut view, b"two!").unwrap();
    let mut buffer: Vec<u8> = Vec::new();
    client.receive_from_server(&mut view, &mut buffer).unwrap();
    assert!(!view.ring_a.is_empty());
    client.receive_from_server(&mut view, &mut buffer).unwrap();
    // The ring ran empty: this is the moment the reader signals space.
    assert!(view.ring_a.is_empty());
}

#[test]
fn magic_and_version_survive_every_operation() {
    let mut view = SharedView::new();
    let (mut server, mut client) = connect_pair(&mut view);
    server.send_to_client(&mut view, b"data").unwrap();
    let mut buffer: Vec<u8> = Vec::new();
    client.receive_from_server(&mut view, &mut buffer).unwrap();
    client.disconnect(&mut view);
    server.mark_disconnected(&mut view);
    assert_eq!(view.control_block().magic, SHARED_MAGIC);
    assert_eq!(view.control_block().version, SHARED_VERSION);
}

#[test]
fn control_block_reset_keeps_scratch() {
    let mut control = ControlBlock::default();
    control.reserved[0] = 17;
    control.server_state = HANDSHAKE_SERVER_READY;
    control.reset();
    assert_eq!(control.magic, SHARED_MAGIC);
    assert_eq!(control.version, SHARED_VERSION);
    assert_eq!(control.generation, 1);
    assert_eq!(control.server_state, HANDSHAKE_IDLE);
    assert_eq!(control.client_state, HANDSHAKE_IDLE);
    assert_eq!(control.reserved[0], 17);
}
