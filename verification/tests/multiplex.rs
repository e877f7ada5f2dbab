//! The two multiplexing layers: slot assignment through the lobby, the
//! no-free-slot sentinel, the dispatch registry with its exactly-once
//! disconnect gate, and the mixing behind private channel names.

use xshm::{
    handle_lobby_connect, mix64, read_assigned_slot, ClientEntry, ClientRegistration,
    ClientRegistry, ControlBlock, SlotTable, ShmError, HANDSHAKE_CLIENT_HELLO, HANDSHAKE_IDLE,
    RESERVED_SLOT_ID_INDEX, SLOT_ID_NO_SLOT,
};

#[test]
fn three_clients_get_distinct_slots_and_fourth_is_refused() {
    let mut slots = SlotTable::new(3);
    let mut control = ControlBlock::default();
    let mut assigned: Vec<u32> = Vec::new();

    for _ in 0..3 {
        // A client posts its hello at the lobby and the server answers with
        // a slot; the client then handshakes on that slot's own channel.
        control.client_state = HANDSHAKE_CLIENT_HELLO;
        let slot = handle_lobby_connect(&mut control, &slots).unwrap();
        assert_eq!(control.reserved[RESERVED_SLOT_ID_INDEX], slot);
        let got = read_assigned_slot(&mut control).unwrap();
        assert_eq!(got, slot);
        slots.mark_connected(slot);
        assigned.push(slot);
    }

    assert_eq!(assigned, vec![0, 1, 2]);
    assert_eq!(slots.client_count(), 3);

    // A fourth concurrent client finds every slot taken.
    control.client_state = HANDSHAKE_CLIENT_HELLO;
    let slot = handle_lobby_connect(&mut control, &slots).unwrap();
    assert_eq!(slot, SLOT_ID_NO_SLOT);
    assert_eq!(read_assigned_slot(&mut control).unwrap_err(), ShmError::NoFreeSlot);
}

#[test]
fn lobby_ignores_connect_without_hello() {
    let slots = SlotTable::new(2);
    let mut control = ControlBlock::default();
    assert_eq!(handle_lobby_connect(&mut control, &slots), None);
}

#[test]
fn lobby_resets_states_for_next_client() {
    let slots = SlotTable::new(2);
    let mut control = ControlBlock::default();
    control.client_state = HANDSHAKE_CLIENT_HELLO;
    handle_lobby_connect(&mut control, &slots).unwrap();
    assert_eq!(control.client_state, HANDSHAKE_IDLE);
    assert_eq!(control.server_state, HANDSHAKE_IDLE);
}

#[test]
fn freed_slot_is_reused() {
    let mut slots = SlotTable::new(2);
    slots.mark_connected(0);
    slots.mark_connected(1);
    assert_eq!(slots.find_free_slot(), None);
    assert!(slots.mark_disconnected(0));
    assert_eq!(slots.find_free_slot(), Some(0));
    assert!(slots.is_client_connected(1));
    assert!(!slots.is_client_connected(0));
    assert_eq!(slots.connected_clients(), vec![1]);
}

#[test]
fn slot_disconnect_reports_once() {
    let mut slots = SlotTable::new(1);
    slots.mark_connected(0);
    assert!(slots.mark_disconnected(0));
    assert!(!slots.mark_disconnected(0));
}

fn entry(pid: u32, channel: &str) -> ClientEntry {
    ClientEntry {
        info: ClientRegistration { pid, revision: 1, name: b"dc_test.exe".to_vec() },
        channel_name: channel.to_string(),
    }
}

#[test]
fn dispatch_disconnect_is_delivered_exactly_once() {
    let mut registry = ClientRegistry::new();
    let id = registry.allocate_id();
    registry.register(id, entry(99999, "D_0123456789abcdef"));
    assert!(registry.is_client_connected(id));

    // The server tears the client down and its channel worker also notices
    // the disconnect: only the first gate finds the entry.
    let mut notifications: u32 = 0;
    if registry.take_disconnect(id) {
        notifications += 1;
    }
    if registry.take_disconnect(id) {
        notifications += 1;
    }
    assert_eq!(notifications, 1);
    assert!(!registry.is_client_connected(id));
    assert_eq!(registry.client_count(), 0);
}

#[test]
fn registry_ids_count_upward() {
    let mut registry = ClientRegistry::new();
    assert_eq!(registry.allocate_id(), 1);
    assert_eq!(registry.allocate_id(), 2);
    assert_eq!(registry.allocate_id(), 3);
}

#[test]
fn registry_keeps_registration_data() {
    let mut registry = ClientRegistry::new();
    let id = registry.allocate_id();
    registry.register(id, entry(4242, "D_00000000000000ff"));
    let stored = registry.client_info(id).unwrap();
    assert_eq!(stored.info.pid, 4242);
    assert_eq!(stored.channel_name, "D_00000000000000ff".to_string());
    assert!(registry.client_info(id + 1).is_none());
}

#[test]
fn mix64_is_deterministic_and_spreads() {
    assert_eq!(mix64(0, 0), 0);
    assert_eq!(mix64(123456789, 1), 0xa92dd5ab2fc7d352);
    assert_eq!(mix64(123456789, 2), 0xa3b497fa9505373a);
    assert_ne!(mix64(123456789, 1), mix64(123456789, 2));
}
