//! The client side of one ring pair: it attaches to an existing segment,
//! posts its hello, completes the handshake once the server acknowledged,
//! and transmits on ring B while receiving on ring A.  Opening the mapping
//! and waiting on events happen outside; every check and every change to
//! the segment is made here.

use vstd::prelude::*;

use crate::constants::{
    HANDSHAKE_CLIENT_HELLO, HANDSHAKE_IDLE, HANDSHAKE_SERVER_READY, SHARED_MAGIC, SHARED_VERSION,
};
use crate::error::ShmError;
use crate::ring::{read_spec, write_spec, RingHeader, WriteOutcome};
use crate::shared::SharedView;

verus! {

/// The client endpoint of one channel.  It transmits on ring B and receives
/// on ring A of the segment it attached to.
#[derive(Debug)]
pub struct SharedClient {
    connected: bool,
}

impl SharedClient {
    /// Whether the handshake completed and the endpoint was not torn down.
    pub closed spec fn spec_connected(self) -> bool {
        self.connected
    }

    /// Whether the endpoint is currently connected.
    pub fn is_connected(&self) -> (r: bool)
        ensures
            r == self.spec_connected(),
    {
        self.connected
    }

    /// First half of connecting: validate the segment and post the hello.
    /// A wrong magic is a corrupted or foreign segment; a wrong version is a
    /// failed handshake; otherwise the hello goes into the control block and
    /// both ring headers, and the caller signals the request event.
    pub fn hello(view: &mut SharedView) -> (r: Result<(), ShmError>)
        requires
            old(view).wf(),
        ensures
            final(view).wf(),
            final(view).control.magic == old(view).control.magic,
            final(view).control.version == old(view).control.version,
            old(view).control.magic != SHARED_MAGIC ==> {
                &&& r == Err::<(), ShmError>(ShmError::Corrupted)
                &&& *final(view) == *old(view)
            },
            old(view).control.magic == SHARED_MAGIC && old(view).control.version
                != SHARED_VERSION ==> {
                &&& r == Err::<(), ShmError>(ShmError::HandshakeFailed)
                &&& *final(view) == *old(view)
            },
            old(view).control.magic == SHARED_MAGIC && old(view).control.version
                == SHARED_VERSION ==> {
                &&& r is Ok
                &&& final(view).control == (crate::layout::ControlBlock {
                    client_state: HANDSHAKE_CLIENT_HELLO,
                    ..old(view).control
                })
                &&& final(view).ring_a@ == old(view).ring_a@
                &&& final(view).ring_b@ == old(view).ring_b@
                &&& final(view).ring_a.spec_header() == (RingHeader {
                    handshake_state: HANDSHAKE_CLIENT_HELLO,
                    ..old(view).ring_a.spec_header()
                })
                &&& final(view).ring_b.spec_header() == (RingHeader {
                    handshake_state: HANDSHAKE_CLIENT_HELLO,
                    ..old(view).ring_b.spec_header()
                })
                &&& final(view).ring_a.spec_drop_total() == old(view).ring_a.spec_drop_total()
                &&& final(view).ring_b.spec_drop_total() == old(view).ring_b.spec_drop_total()
            },
    {
        if view.control.magic != SHARED_MAGIC {
            return Err(ShmError::Corrupted);
        }
        if view.control.version != SHARED_VERSION {
            return Err(ShmError::HandshakeFailed);
        }
        view.control.client_state = HANDSHAKE_CLIENT_HELLO;
        view.ring_a.set_handshake_state(HANDSHAKE_CLIENT_HELLO);
        view.ring_b.set_handshake_state(HANDSHAKE_CLIENT_HELLO);
        Ok(())
    }

    /// Roll a pending hello back to idle, as when the acknowledge never
    /// came: the control block's client state and both ring headers go idle
    /// and nothing else moves.
    pub fn abort(view: &mut SharedView)
        requires
            old(view).wf(),
        ensures
            final(view).wf(),
            final(view).control == (crate::layout::ControlBlock {
                client_state: HANDSHAKE_IDLE,
                ..old(view).control
            }),
            final(view).ring_a@ == old(view).ring_a@,
            final(view).ring_b@ == old(view).ring_b@,
            final(view).ring_a.spec_header() == (RingHeader {
                handshake_state: HANDSHAKE_IDLE,
                ..old(view).ring_a.spec_header()
            }),
            final(view).ring_b.spec_header() == (RingHeader {
                handshake_state: HANDSHAKE_IDLE,
                ..old(view).ring_b.spec_header()
            }),
            final(view).ring_a.spec_drop_total() == old(view).ring_a.spec_drop_total(),
            final(view).ring_b.spec_drop_total() == old(view).ring_b.spec_drop_total(),
    {
        view.control.client_state = HANDSHAKE_IDLE;
        view.ring_a.set_handshake_state(HANDSHAKE_IDLE);
        view.ring_b.set_handshake_state(HANDSHAKE_IDLE);
    }

    /// Second half of connecting, entered after the acknowledge event fired:
    /// if the server is not ready after all, everything rolls back to idle
    /// and the handshake failed; otherwise the endpoint copies the published
    /// generation into both ring headers, marks them ready, and is connected.
    pub fn complete(view: &mut SharedView) -> (r: Result<SharedClient, ShmError>)
        requires
            old(view).wf(),
        ensures
            final(view).wf(),
            final(view).control.magic == old(view).control.magic,
            final(view).control.version == old(view).control.version,
            old(view).control.server_state != HANDSHAKE_SERVER_READY ==> {
                &&& r == Err::<SharedClient, ShmError>(ShmError::HandshakeFailed)
                &&& final(view).control == (crate::layout::ControlBlock {
                    client_state: HANDSHAKE_IDLE,
                    ..old(view).control
                })
                &&& final(view).ring_a@ == old(view).ring_a@
                &&& final(view).ring_b@ == old(view).ring_b@
                &&& final(view).ring_a.spec_header() == (RingHeader {
                    handshake_state: HANDSHAKE_IDLE,
                    ..old(view).ring_a.spec_header()
                })
                &&& final(view).ring_b.spec_header() == (RingHeader {
                    handshake_state: HANDSHAKE_IDLE,
                    ..old(view).ring_b.spec_header()
                })
                &&& final(view).ring_a.spec_drop_total() == old(view).ring_a.spec_drop_total()
                &&& final(view).ring_b.spec_drop_total() == old(view).ring_b.spec_drop_total()
            },
            old(view).control.server_state == HANDSHAKE_SERVER_READY ==> {
                &&& r is Ok
                &&& r->Ok_0.spec_connected()
                &&& final(view).control == old(view).control
                &&& final(view).ring_a@ == old(view).ring_a@
                &&& final(view).ring_b@ == old(view).ring_b@
                &&& final(view).ring_a.spec_header() == (RingHeader {
                    connection_gen: old(view).control.generation,
                    handshake_state: HANDSHAKE_SERVER_READY,
                    ..old(view).ring_a.spec_header()
                })
                &&& final(view).ring_b.spec_header() == (RingHeader {
                    connection_gen: old(view).control.generation,
                    handshake_state: HANDSHAKE_SERVER_READY,
                    ..old(view).ring_b.spec_header()
                })
                &&& final(view).ring_a.spec_drop_total() == old(view).ring_a.spec_drop_total()
                &&& final(view).ring_b.spec_drop_total() == old(view).ring_b.spec_drop_total()
            },
    {
        if view.control.server_state != HANDSHAKE_SERVER_READY {
            Self::abort(view);
            return Err(ShmError::HandshakeFailed);
        }
        let generation = view.control.generation;
        view.ring_a.set_connection_gen(generation);
        view.ring_b.set_connection_gen(generation);
        view.ring_a.set_handshake_state(HANDSHAKE_SERVER_READY);
        view.ring_b.set_handshake_state(HANDSHAKE_SERVER_READY);
        Ok(SharedClient { connected: true })
    }

    /// Queue `payload` for the server on ring B.  Fails with `NotConnected`
    /// after a teardown; otherwise the ring's write contract applies and the
    /// rest of the segment does not move.  When the outcome reports
    /// `was_empty` the caller signals the data event.
    pub fn send_to_server(&self, view: &mut SharedView, payload: &[u8]) -> (r: Result<
        WriteOutcome,
        ShmError,
    >)
        requires
            old(view).wf(),
        ensures
            final(view).wf(),
            !self.spec_connected() ==> {
                &&& r == Err::<WriteOutcome, ShmError>(ShmError::NotConnected)
                &&& *final(view) == *old(view)
            },
            self.spec_connected() ==> {
                &&& write_spec(old(view).ring_b, final(view).ring_b, payload@, r)
                &&& final(view).ring_a == old(view).ring_a
                &&& final(view).control == old(view).control
            },
    {
        if !self.connected {
            return Err(ShmError::NotConnected);
        }
        view.ring_b.write_message(payload)
    }

    /// Take the oldest message the server queued on ring A into `buffer`.
    /// Fails with `NotConnected` after a teardown; otherwise the ring's
    /// read contract applies and the rest of the segment does not move.
    /// When the ring ran empty the caller signals the space event.
    pub fn receive_from_server(&self, view: &mut SharedView, buffer: &mut Vec<u8>) -> (r: Result<
        usize,
        ShmError,
    >)
        requires
            old(view).wf(),
        ensures
            final(view).wf(),
            !self.spec_connected() ==> {
                &&& r == Err::<usize, ShmError>(ShmError::NotConnected)
                &&& *final(view) == *old(view)
                &&& *final(buffer) == *old(buffer)
            },
            self.spec_connected() ==> {
                &&& read_spec(old(view).ring_a, final(view).ring_a, *old(buffer), *final(buffer), r)
                &&& final(view).ring_b == old(view).ring_b
                &&& final(view).control == old(view).control
            },
    {
        if !self.connected {
            return Err(ShmError::NotConnected);
        }
        view.ring_a.read_message(buffer)
    }

    /// The polling decision: whether a message from the server is already
    /// waiting on ring A.  When it reports `Ok(false)` the caller may block
    /// on the data event.
    pub fn poll_server(&self, view: &SharedView) -> (r: Result<bool, ShmError>)
        requires
            view.wf(),
        ensures
            !self.spec_connected() ==> r == Err::<bool, ShmError>(ShmError::NotConnected),
            self.spec_connected() ==> r == Ok::<bool, ShmError>(view.ring_a@.len() > 0),
    {
        if !self.connected {
            return Err(ShmError::NotConnected);
        }
        Ok(!view.ring_a.is_empty())
    }

    /// Forget the connection on this side only; the shared state is left to
    /// the server's teardown.
    pub fn mark_disconnected(&mut self)
        ensures
            !final(self).spec_connected(),
    {
        self.connected = false;
    }

    /// Clean teardown, as the endpoint's owner performs on drop: if still
    /// connected, the client state and both ring headers go idle (the caller
    /// then signals the disconnect event) and the endpoint is disconnected.
    pub fn disconnect(&mut self, view: &mut SharedView) -> (signalled: bool)
        requires
            old(view).wf(),
        ensures
            final(view).wf(),
            !final(self).spec_connected(),
            signalled == old(self).spec_connected(),
            !old(self).spec_connected() ==> *final(view) == *old(view),
            old(self).spec_connected() ==> {
                &&& final(view).control == (crate::layout::ControlBlock {
                    client_state: HANDSHAKE_IDLE,
                    ..old(view).control
                })
                &&& final(view).ring_a@ == old(view).ring_a@
                &&& final(view).ring_b@ == old(view).ring_b@
                &&& final(view).ring_a.spec_header() == (RingHeader {
                    handshake_state: HANDSHAKE_IDLE,
                    ..old(view).ring_a.spec_header()
                })
                &&& final(view).ring_b.spec_header() == (RingHeader {
                    handshake_state: HANDSHAKE_IDLE,
                    ..old(view).ring_b.spec_header()
                })
                &&& final(view).ring_a.spec_drop_total() == old(view).ring_a.spec_drop_total()
                &&& final(view).ring_b.spec_drop_total() == old(view).ring_b.spec_drop_total()
            },
    {
        if !self.connected {
            return false;
        }
        Self::abort(view);
        self.connected = false;
        true
    }
}

} // verus!
