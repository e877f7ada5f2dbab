//! Shared-memory message channel: a lock-free single-producer/single-consumer
//! ring of length-prefixed messages, the handshake that brings a server and a
//! client onto a shared segment, and the multiplexing layers above it.

use vstd::prelude::*;

mod auto;
mod client;
mod constants;
mod dispatch;
mod error;
mod layout;
mod multi;
mod naming;
mod protocol;
mod ring;
mod server;
mod shared;
mod win;

pub use constants::{
    EVENT_CONNECT_REQ_SUFFIX, EVENT_CONNECT_SUFFIX, EVENT_DATA_SUFFIX, EVENT_DISCONNECT_SUFFIX,
    EVENT_SPACE_SUFFIX, HANDSHAKE_CLIENT_HELLO, HANDSHAKE_IDLE, HANDSHAKE_SERVER_READY,
    MAX_MESSAGES, MAX_MESSAGE_SIZE, MESSAGE_HEADER_SIZE, MIN_MESSAGE_SIZE,
    RESERVED_SLOT_ID_INDEX, RING_CAPACITY, RING_MASK, SHARED_MAGIC, SHARED_VERSION,
    SLOT_ID_NO_SLOT,
};
pub use auto::{
    map_spawn_error, process_receive_queue, recv_step, send_step, AutoEvent, AutoHandler,
    AutoOptions, AutoStats, AutoStatsSnapshot, ChannelKind, SendQueue, SendStep,
};
pub use client::SharedClient;
pub use dispatch::{
    mix64, parse_registration_reply, ClientEntry, ClientRegistration, ClientRegistry,
    DispatchClientHandler, DispatchClientOptions, DispatchHandler, DispatchOptions,
};
pub use error::ShmError;
pub use layout::{shared_mapping_size, ControlBlock, CONTROL_BLOCK_SIZE, RING_HEADER_SIZE};
pub use multi::{
    handle_lobby_connect, read_assigned_slot, MultiClientHandler, MultiClientOptions,
    MultiHandler, MultiOptions, SlotTable, DEFAULT_MAX_CLIENTS,
};
pub use naming::{
    dispatch_channel_name, event_name, event_prefix, mapping_name, slot_channel_name,
    u32_to_decimal, u64_to_hex, Direction,
};
pub use protocol::{
    decode_request, decode_response, encode_request, encode_response, RegistrationRequest,
    RegistrationResponse, MAX_NAME_LEN, STATUS_OK, STATUS_REJECTED,
};
pub use ring::{RingBuffer, RingHeader, WriteOutcome};
pub use server::SharedServer;
pub use shared::SharedView;
pub use win::{duration_to_nt_timeout, is_timeout, nt_success, to_nt_path};
