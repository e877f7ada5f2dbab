//! The server side of one ring pair: it owns the segment's lifecycle,
//! accepts a client's handshake, and transmits on ring A while receiving on
//! ring B.  Waiting on events and mapping memory happen outside; every
//! decision and every change to the segment is made here.

use vstd::prelude::*;

use crate::constants::{
    HANDSHAKE_CLIENT_HELLO, HANDSHAKE_IDLE, HANDSHAKE_SERVER_READY,
};
use crate::error::ShmError;
use crate::ring::{pos_add, read_spec, write_spec, RingHeader, WriteOutcome};
use crate::shared::SharedView;

verus! {

/// What a successful handshake leaves behind: both rings reset to the new
/// generation with zeroed counters and marked ready, and both sides' states
/// ready in the control block.
pub open spec fn handshake_done(view: SharedView, generation: u32) -> bool {
    &&& view.control.generation == generation
    &&& view.control.server_state == HANDSHAKE_SERVER_READY
    &&& view.control.client_state == HANDSHAKE_SERVER_READY
    &&& view.ring_a@.len() == 0
    &&& view.ring_b@.len() == 0
    &&& view.ring_a.spec_header().message_count == 0
    &&& view.ring_b.spec_header().message_count == 0
    &&& view.ring_a.spec_header().drop_count == 0
    &&& view.ring_b.spec_header().drop_count == 0
    &&& view.ring_a.spec_header().sequence == 0
    &&& view.ring_b.spec_header().sequence == 0
    &&& view.ring_a.spec_header().write_pos == 0
    &&& view.ring_a.spec_header().read_pos == 0
    &&& view.ring_b.spec_header().write_pos == 0
    &&& view.ring_b.spec_header().read_pos == 0
    &&& view.ring_a.spec_header().connection_gen == generation
    &&& view.ring_b.spec_header().connection_gen == generation
    &&& view.ring_a.spec_header().handshake_state == HANDSHAKE_SERVER_READY
    &&& view.ring_b.spec_header().handshake_state == HANDSHAKE_SERVER_READY
}

/// The server endpoint of one channel.  It transmits on ring A and receives
/// on ring B of the shared segment it was started with.
#[derive(Debug)]
pub struct SharedServer {
    connected: bool,
}

impl SharedServer {
    /// Whether a client handshake has completed and not been torn down.
    pub closed spec fn spec_connected(self) -> bool {
        self.connected
    }

    /// A fresh server endpoint; the segment it will serve is created
    /// separately with `SharedView::new`.
    pub fn new() -> (r: SharedServer)
        ensures
            !r.spec_connected(),
    {
        SharedServer { connected: false }
    }

    /// Whether the endpoint is currently connected.
    pub fn is_connected(&self) -> (r: bool)
        ensures
            r == self.spec_connected(),
    {
        self.connected
    }

    /// Complete a client's handshake: verify the hello, reset both rings
    /// under a bumped generation (reset first, then publish the generation),
    /// and mark both sides ready.  Succeeds exactly when the endpoint is
    /// free and a hello is posted; afterwards the caller signals the
    /// acknowledge event.
    pub fn accept_client(&mut self, view: &mut SharedView) -> (r: Result<(), ShmError>)
        requires
            old(view).wf(),
        ensures
            final(view).wf(),
            final(view).control.magic == old(view).control.magic,
            final(view).control.version == old(view).control.version,
            old(self).spec_connected() ==> {
                &&& r == Err::<(), ShmError>(ShmError::AlreadyConnected)
                &&& *final(self) == *old(self)
                &&& *final(view) == *old(view)
            },
            !old(self).spec_connected() && old(view).control.client_state
                != HANDSHAKE_CLIENT_HELLO ==> {
                &&& r == Err::<(), ShmError>(ShmError::HandshakeFailed)
                &&& *final(self) == *old(self)
                &&& *final(view) == *old(view)
            },
            !old(self).spec_connected() && old(view).control.client_state
                == HANDSHAKE_CLIENT_HELLO ==> {
                &&& r is Ok
                &&& final(self).spec_connected()
                &&& final(view).control.generation == pos_add(old(view).control.generation, 1)
                &&& handshake_done(*final(view), final(view).control.generation)
                &&& final(view).control.reserved == old(view).control.reserved
            },
    {
        if self.connected {
            return Err(ShmError::AlreadyConnected);
        }
        if view.control.client_state != HANDSHAKE_CLIENT_HELLO {
            return Err(ShmError::HandshakeFailed);
        }

        // Reset the rings first, then publish the new generation, so a
        // client that reads the new generation sees clean rings.
        let new_generation = view.control.generation.wrapping_add(1);
        proof {
            crate::ring::lemma_wrapping_add(view.control.generation, 1);
        }
        view.ring_a.reset(new_generation);
        view.ring_b.reset(new_generation);
        view.control.generation = new_generation;

        view.ring_a.set_handshake_state(HANDSHAKE_SERVER_READY);
        view.ring_b.set_handshake_state(HANDSHAKE_SERVER_READY);
        view.control.server_state = HANDSHAKE_SERVER_READY;
        view.control.client_state = HANDSHAKE_SERVER_READY;

        self.connected = true;
        Ok(())
    }

    /// Queue `payload` for the client on ring A.  Fails with `NotConnected`
    /// before a handshake; otherwise the ring's write contract applies and
    /// the rest of the segment does not move.  When the outcome reports
    /// `was_empty` the caller signals the data event.
    pub fn send_to_client(&self, view: &mut SharedView, payload: &[u8]) -> (r: Result<
        WriteOutcome,
        ShmError,
    >)
        requires
            old(view).wf(),
        ensures
            final(view).wf(),
            !self.spec_connected() ==> {
                &&& r == Err::<WriteOutcome, ShmError>(ShmError::NotConnected)
                &&& *final(view) == *old(view)
            },
            self.spec_connected() ==> {
                &&& write_spec(old(view).ring_a, final(view).ring_a, payload@, r)
                &&& final(view).ring_b == old(view).ring_b
                &&& final(view).control == old(view).control
            },
    {
        if !self.connected {
            return Err(ShmError::NotConnected);
        }
        view.ring_a.write_message(payload)
    }

    /// Take the oldest message the client queued on ring B into `buffer`.
    /// Fails with `NotConnected` before a handshake; otherwise the ring's
    /// read contract applies and the rest of the segment does not move.
    /// When the ring ran empty the caller signals the space event.
    pub fn receive_from_client(&self, view: &mut SharedView, buffer: &mut Vec<u8>) -> (r: Result<
        usize,
        ShmError,
    >)
        requires
            old(view).wf(),
        ensures
            final(view).wf(),
            !self.spec_connected() ==> {
                &&& r == Err::<usize, ShmError>(ShmError::NotConnected)
                &&& *final(view) == *old(view)
                &&& *final(buffer) == *old(buffer)
            },
            self.spec_connected() ==> {
                &&& read_spec(old(view).ring_b, final(view).ring_b, *old(buffer), *final(buffer), r)
                &&& final(view).ring_a == old(view).ring_a
                &&& final(view).control == old(view).control
            },
    {
        if !self.connected {
            return Err(ShmError::NotConnected);
        }
        view.ring_b.read_message(buffer)
    }

    /// The polling decision: whether a message from the client is already
    /// waiting on ring B.  When it reports `Ok(false)` the caller may block
    /// on the data event.
    pub fn poll_client(&self, view: &SharedView) -> (r: Result<bool, ShmError>)
        requires
            view.wf(),
        ensures
            !self.spec_connected() ==> r == Err::<bool, ShmError>(ShmError::NotConnected),
            self.spec_connected() ==> r == Ok::<bool, ShmError>(view.ring_b@.len() > 0),
    {
        if !self.connected {
            return Err(ShmError::NotConnected);
        }
        Ok(!view.ring_b.is_empty())
    }

    /// Tear the connection down so the next client can handshake afresh:
    /// both control-block states and both rings' handshake states go idle.
    /// Ring contents are left alone; the next accept resets them.
    pub fn mark_disconnected(&mut self, view: &mut SharedView)
        requires
            old(view).wf(),
        ensures
            final(view).wf(),
            !final(self).spec_connected(),
            final(view).control == (crate::layout::ControlBlock {
                server_state: HANDSHAKE_IDLE,
                client_state: HANDSHAKE_IDLE,
                ..old(view).control
            }),
            final(view).ring_a@ == old(view).ring_a@,
            final(view).ring_b@ == old(view).ring_b@,
            final(view).ring_a.spec_header() == (RingHeader {
                handshake_state: HANDSHAKE_IDLE,
                ..old(view).ring_a.spec_header()
            }),
            final(view).ring_b.spec_header() == (RingHeader {
                handshake_state: HANDSHAKE_IDLE,
                ..old(view).ring_b.spec_header()
            }),
            final(view).ring_a.spec_drop_total() == old(view).ring_a.spec_drop_total(),
            final(view).ring_b.spec_drop_total() == old(view).ring_b.spec_drop_total(),
    {
        self.connected = false;
        view.control.server_state = HANDSHAKE_IDLE;
        view.control.client_state = HANDSHAKE_IDLE;
        view.ring_a.set_handshake_state(HANDSHAKE_IDLE);
        view.ring_b.set_handshake_state(HANDSHAKE_IDLE);
    }
}

} // verus!
