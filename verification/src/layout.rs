//! Byte layout of the shared segment: the control block at the front, then
//! two ring headers, each followed by its ring storage.  Headers are padded
//! to a cache line, so their sizes are fixed at 64 bytes.

use vstd::prelude::*;

use crate::constants::{
    HANDSHAKE_IDLE, RING_CAPACITY, SHARED_MAGIC, SHARED_VERSION,
};

verus! {

/// Bytes the control block occupies in the segment (cache-line padded).
pub const CONTROL_BLOCK_SIZE: usize = 64;

/// Bytes each ring header occupies in the segment (cache-line padded).
pub const RING_HEADER_SIZE: usize = 64;

/// The control block at the front of the shared segment: identification,
/// handshake generation and the two sides' handshake states, plus a reserved
/// scratch area used for the slot handoff.
pub struct ControlBlock {
    pub magic: u32,
    pub version: u32,
    pub generation: u32,
    pub server_state: u32,
    pub client_state: u32,
    pub reserved: [u32; 11],
}

impl ControlBlock {
    /// A control block as the server stamps it at segment creation: correct
    /// magic and version, generation one, both sides idle.
    pub open spec fn is_reset(self) -> bool {
        &&& self.magic == SHARED_MAGIC
        &&& self.version == SHARED_VERSION
        &&& self.generation == 1
        &&& self.server_state == HANDSHAKE_IDLE
        &&& self.client_state == HANDSHAKE_IDLE
    }

    /// Stamp magic, version and generation one, and set both sides idle.
    /// The reserved scratch area is left as it is.
    pub fn reset(&mut self)
        ensures
            final(self).is_reset(),
            final(self).reserved == old(self).reserved,
    {
        self.magic = SHARED_MAGIC;
        self.version = SHARED_VERSION;
        self.generation = 1;
        self.server_state = HANDSHAKE_IDLE;
        self.client_state = HANDSHAKE_IDLE;
    }
}

impl Default for ControlBlock {
    /// A freshly stamped control block with a cleared scratch area.
    fn default() -> (r: ControlBlock)
        ensures
            r.is_reset(),
    {
        ControlBlock {
            magic: SHARED_MAGIC,
            version: SHARED_VERSION,
            generation: 1,
            server_state: HANDSHAKE_IDLE,
            client_state: HANDSHAKE_IDLE,
            reserved: [0, 0, 0, 0, 0, 0, 0, 0, 0, 0, 0],
        }
    }
}

/// Total size of the shared segment: control block, two ring headers and two
/// rings' storage.
pub fn shared_mapping_size() -> (r: usize)
    ensures
        r == CONTROL_BLOCK_SIZE + 2 * RING_HEADER_SIZE + 2 * RING_CAPACITY,
{
    CONTROL_BLOCK_SIZE + 2 * RING_HEADER_SIZE + 2 * RING_CAPACITY
}

} // verus!
