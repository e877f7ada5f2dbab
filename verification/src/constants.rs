//! Tunable constants of the channel: segment identification, ring geometry,
//! message size bounds, handshake states and slot-multiplex sentinels.

use vstd::prelude::*;

verus! {

/// Magic value identifying a shared segment ("XSHM").
pub const SHARED_MAGIC: u32 = 0x5853_484d;

/// Current protocol version.
pub const SHARED_VERSION: u32 = 0x0001_0000;

/// Size of each ring buffer in bytes (a power of two).
pub const RING_CAPACITY: usize = 2 * 1024 * 1024;

/// Index mask for ring positions (capacity minus one).
pub const RING_MASK: u32 = 0x001F_FFFF;

/// Maximum number of queued messages in one ring.
pub const MAX_MESSAGES: u32 = 250;

/// Maximum payload size of a single message.
pub const MAX_MESSAGE_SIZE: usize = 65_535;

/// Minimum payload size of a single message.
pub const MIN_MESSAGE_SIZE: usize = 2;

/// Bytes of framing in front of each payload: u16 length plus u16 flags.
pub const MESSAGE_HEADER_SIZE: usize = 4;

/// Suffix of the event that announces data from one side to the other.
pub const EVENT_DATA_SUFFIX: &'static str = "DATA";

/// Suffix of the event that announces a drained ring.
pub const EVENT_SPACE_SUFFIX: &'static str = "SPACE";

/// Suffix of the event the server signals to acknowledge a connection.
pub const EVENT_CONNECT_SUFFIX: &'static str = "CONNECT";

/// Suffix of the event a client signals to request a connection.
pub const EVENT_CONNECT_REQ_SUFFIX: &'static str = "CONNECT_REQ";

/// Suffix of the event either side signals on teardown.
pub const EVENT_DISCONNECT_SUFFIX: &'static str = "DISCONNECT";

/// Handshake state: nobody is mid-handshake.
pub const HANDSHAKE_IDLE: u32 = 0;

/// Handshake state: a client has posted its hello.
pub const HANDSHAKE_CLIENT_HELLO: u32 = 1;

/// Handshake state: the server has accepted and both sides are ready.
pub const HANDSHAKE_SERVER_READY: u32 = 2;

/// Index in the control block's reserved area that carries the slot id
/// during the multi-client handshake.
pub const RESERVED_SLOT_ID_INDEX: usize = 0;

/// Sentinel slot id: no free slot was available.
pub const SLOT_ID_NO_SLOT: u32 = 0xFFFF_FFFF;

} // verus!
