//! The reactor around one endpoint: a bounded send queue with drop-oldest
//! semantics, counters, and the batch steps the worker loop takes.  The
//! thread, the events it blocks on and the handler callbacks live with the
//! caller; the queue discipline and every ring interaction are decided and
//! verified here, with the callbacks handed back as event values.

use vstd::prelude::*;

use crate::error::ShmError;
use crate::ring::{drops_needed, msg_total, valid_payload_len, RingBuffer};

verus! {

/// Which way a message travelled.
#[derive(Debug, Clone, Copy, PartialEq, Eq)]
pub enum ChannelKind {
    ServerToClient,
    ClientToServer,
}

/// The callback surface an auto worker's owner implements.  The worker loop
/// delivers the `AutoEvent`s the batch steps hand back through this
/// interface.
pub trait AutoHandler {
    fn on_connect(&self) {
    }

    fn on_disconnect(&self) {
    }

    fn on_message(&self, _direction: ChannelKind, _payload: &[u8]) {
    }

    fn on_overflow(&self, _direction: ChannelKind, _count: u32) {
    }

    fn on_space_available(&self, _direction: ChannelKind) {
    }

    fn on_error(&self, _err: ShmError) {
    }
}

/// Timing and sizing knobs of an auto worker.  Durations are milliseconds.
#[derive(Clone)]
pub struct AutoOptions {
    pub wait_timeout: u64,
    pub reconnect_delay: u64,
    pub connect_timeout: u64,
    pub max_send_queue: usize,
    pub recv_batch: usize,
}

impl Default for AutoOptions {
    /// The default knobs: 50 ms waits, 250 ms between reconnects, a 2 s
    /// connect timeout, 256 queued messages at most, 32 reads per batch.
    fn default() -> (r: AutoOptions)
        ensures
            r.wait_timeout == 50,
            r.reconnect_delay == 250,
            r.connect_timeout == 2000,
            r.max_send_queue == 256,
            r.recv_batch == 32,
    {
        AutoOptions {
            wait_timeout: 50,
            reconnect_delay: 250,
            connect_timeout: 2000,
            max_send_queue: 256,
            recv_batch: 32,
        }
    }
}

/// A point-in-time copy of a worker's counters.
#[derive(Default, Clone, Debug)]
pub struct AutoStatsSnapshot {
    pub sent_messages: u64,
    pub send_overflows: u64,
    pub received_messages: u64,
    pub receive_overflows: u64,
}

/// A worker's live counters.
#[derive(Default)]
pub struct AutoStats {
    pub sent_messages: u64,
    pub send_overflows: u64,
    pub received_messages: u64,
    pub receive_overflows: u64,
}

impl AutoStats {
    /// A fresh set of counters, all zero.
    pub fn new() -> (r: AutoStats)
        ensures
            r.sent_messages == 0,
            r.send_overflows == 0,
            r.received_messages == 0,
            r.receive_overflows == 0,
    {
        AutoStats { sent_messages: 0, send_overflows: 0, received_messages: 0, receive_overflows: 0 }
    }

    /// Copy the counters out.
    pub fn snapshot(&self) -> (r: AutoStatsSnapshot)
        ensures
            r.sent_messages == self.sent_messages,
            r.send_overflows == self.send_overflows,
            r.received_messages == self.received_messages,
            r.receive_overflows == self.receive_overflows,
    {
        AutoStatsSnapshot {
            sent_messages: self.sent_messages,
            send_overflows: self.send_overflows,
            received_messages: self.received_messages,
            receive_overflows: self.receive_overflows,
        }
    }
}

/// An event a batch step asks the worker to deliver to its handler.
pub enum AutoEvent {
    /// A message arrived; deliver its payload.
    Message { direction: ChannelKind, payload: Vec<u8> },
    /// A write had to overwrite this many queued messages.
    Overflow { direction: ChannelKind, count: u32 },
    /// An operation failed.
    Failure { err: ShmError },
}

/// The worker's outgoing queue: a FIFO of payloads waiting for ring space.
pub struct SendQueue {
    items: Vec<Vec<u8>>,
}

impl View for SendQueue {
    type V = Seq<Seq<u8>>;

    closed spec fn view(&self) -> Seq<Seq<u8>> {
        Seq::new(self.items@.len(), |i: int| self.items@[i]@)
    }
}

impl SendQueue {
    /// An empty queue.
    pub fn new() -> (r: SendQueue)
        ensures
            r@ =~= Seq::<Seq<u8>>::empty(),
    {
        SendQueue { items: Vec::new() }
    }

    /// How many payloads wait.
    pub fn len(&self) -> (r: usize)
        ensures
            r as int == self@.len(),
    {
        self.items.len()
    }

    /// Append a payload at the back.
    pub fn push(&mut self, data: Vec<u8>)
        ensures
            final(self)@ =~= old(self)@.push(data@),
    {
        self.items.push(data);
    }

    /// Take the oldest payload from the front, if any.
    pub fn pop(&mut self) -> (r: Option<Vec<u8>>)
        ensures
            old(self)@.len() == 0 ==> r is None && final(self)@ == old(self)@,
            old(self)@.len() > 0 ==> {
                &&& r is Some
                &&& r->0@ == old(self)@[0]
                &&& final(self)@ =~= old(self)@.drop_first()
            },
    {
        if self.items.len() == 0 {
            return None;
        }
        let item = self.items.remove(0);
        proof {
            assert(final(self)@ =~= old(self)@.drop_first());
        }
        Some(item)
    }

    /// Put a payload back at the front, as after a failed write.
    pub fn push_front(&mut self, data: Vec<u8>)
        ensures
            final(self)@ =~= seq![data@] + old(self)@,
    {
        self.items.insert(0, data);
    }

    /// The enqueue discipline of the worker's command drain: a full queue
    /// drops its oldest entry so enqueueing never blocks and never fails.
    pub fn enqueue_bounded(&mut self, data: Vec<u8>, max: usize) -> (dropped: bool)
        ensures
            dropped == (old(self)@.len() >= max as int && old(self)@.len() > 0),
            dropped ==> final(self)@ =~= old(self)@.drop_first().push(data@),
            !dropped ==> final(self)@ =~= old(self)@.push(data@),
    {
        let mut dropped = false;
        if self.items.len() >= max && self.items.len() > 0 {
            let _ = self.items.remove(0);
            dropped = true;
        }
        self.items.push(data);
        dropped
    }
}

/// One step of draining the send queue: pop the oldest payload and write it
/// to the transmit ring.  `Wrote` reports how many ring messages had to be
/// overwritten and whether the ring was empty; a failed write puts the
/// payload back in front and reports the error; an empty queue is `Idle`.
pub enum SendStep {
    Idle,
    Wrote { overwritten: u32, was_empty: bool },
    Failed { err: ShmError },
}

/// Pop one payload and write it to `ring`.  The queue loses its head
/// exactly when the write succeeded; a failed write leaves the queue as it
/// was and reports why; the ring moves exactly as its write contract says.
pub fn send_step(ring: &mut RingBuffer, queue: &mut SendQueue) -> (r: SendStep)
    requires
        old(ring).wf(),
    ensures
        final(ring).wf(),
        final(ring).spec_header().connection_gen == old(ring).spec_header().connection_gen,
        final(ring).spec_header().handshake_state == old(ring).spec_header().handshake_state,
        old(queue)@.len() == 0 ==> {
            &&& r is Idle
            &&& final(queue)@ == old(queue)@
            &&& *final(ring) == *old(ring)
        },
        old(queue)@.len() > 0 && valid_payload_len(old(queue)@[0].len() as int) ==> {
            &&& r is Wrote
            &&& r->Wrote_overwritten as int == drops_needed(old(ring)@, msg_total(old(queue)@[0]))
            &&& r->Wrote_was_empty == (old(ring)@.len() == r->Wrote_overwritten as int)
            &&& final(queue)@ == old(queue)@.drop_first()
            &&& final(ring)@ == old(ring)@.skip(r->Wrote_overwritten as int).push(old(queue)@[0])
            &&& final(ring).spec_drop_total() == old(ring).spec_drop_total()
                + r->Wrote_overwritten as int
        },
        old(queue)@.len() > 0 && !valid_payload_len(old(queue)@[0].len() as int) ==> {
            &&& r is Failed
            &&& final(queue)@ =~= old(queue)@
            &&& *final(ring) == *old(ring)
        },
{
    let popped = queue.pop();
    match popped {
        None => SendStep::Idle,
        Some(msg) => {
            let outcome = ring.write_message(msg.as_slice());
            match outcome {
                Ok(o) => SendStep::Wrote { overwritten: o.overwritten, was_empty: o.was_empty },
                Err(err) => {
                    queue.push_front(msg);
                    proof {
                        assert(seq![old(queue)@[0]] + old(queue)@.drop_first() =~= old(queue)@);
                    }
                    SendStep::Failed { err }
                },
            }
        },
    }
}

/// One step of draining the receive ring: read the oldest message into
/// `buffer`.  `Some(len)` delivers a message of that length, `None` is an
/// empty ring, and the ring moves exactly as its read contract says.
pub fn recv_step(ring: &mut RingBuffer, buffer: &mut Vec<u8>) -> (r: Option<usize>)
    requires
        old(ring).wf(),
    ensures
        final(ring).wf(),
        final(ring).spec_header().connection_gen == old(ring).spec_header().connection_gen,
        final(ring).spec_header().handshake_state == old(ring).spec_header().handshake_state,
        final(ring).spec_drop_total() == old(ring).spec_drop_total(),
        old(ring)@.len() == 0 ==> {
            &&& r is None
            &&& *final(ring) == *old(ring)
            &&& *final(buffer) == *old(buffer)
        },
        old(ring)@.len() > 0 ==> {
            &&& r == Some(old(ring)@[0].len() as usize)
            &&& final(buffer)@ == old(ring)@[0]
            &&& final(ring)@ == old(ring)@.drop_first()
        },
{
    let read = ring.read_message(buffer);
    match read {
        Ok(len) => Some(len),
        Err(_) => None,
    }
}

/// Drain up to `batch` messages from the receive ring into events for the
/// handler.  The ring loses exactly the messages the events carry, oldest
/// first and in order.
pub fn process_receive_queue(
    ring: &mut RingBuffer,
    stats: &mut AutoStats,
    batch: usize,
    direction: ChannelKind,
) -> (events: Vec<AutoEvent>)
    requires
        old(ring).wf(),
    ensures
        final(ring).wf(),
        final(ring).spec_header().connection_gen == old(ring).spec_header().connection_gen,
        final(ring).spec_header().handshake_state == old(ring).spec_header().handshake_state,
        final(ring).spec_drop_total() == old(ring).spec_drop_total(),
        events@.len() <= batch as int,
        events@.len() <= old(ring)@.len(),
        final(ring)@ == old(ring)@.skip(events@.len() as int),
        events@.len() < batch as int ==> final(ring)@.len() == 0,
        forall|i: int|
            0 <= i < events@.len() ==> (#[trigger] events@[i] matches AutoEvent::Message {
                direction: d,
                payload,
            } && d == direction && payload@ == old(ring)@[i]),
        final(stats).received_messages == vstd::wrapping::u64_specs::wrapping_add(
            old(stats).received_messages,
            events@.len() as u64,
        ),
        final(stats).sent_messages == old(stats).sent_messages,
        final(stats).send_overflows == old(stats).send_overflows,
        final(stats).receive_overflows == old(stats).receive_overflows,
{
    let mut events: Vec<AutoEvent> = Vec::new();
    let mut buffer: Vec<u8> = Vec::new();
    let mut taken: usize = 0;
    let mut drained = false;
    while taken < batch && !drained
        invariant
            old(ring).wf(),
            ring.wf(),
            taken as int == events@.len(),
            taken <= batch,
            events@.len() <= old(ring)@.len(),
            ring@ == old(ring)@.skip(events@.len() as int),
            ring.spec_header().connection_gen == old(ring).spec_header().connection_gen,
            ring.spec_header().handshake_state == old(ring).spec_header().handshake_state,
            ring.spec_drop_total() == old(ring).spec_drop_total(),
            drained ==> ring@.len() == 0,
            forall|i: int|
                0 <= i < events@.len() ==> (#[trigger] events@[i] matches AutoEvent::Message {
                    direction: d,
                    payload,
                } && d == direction && payload@ == old(ring)@[i]),
        decreases batch - taken + (if drained { 0int } else { 1int }),
    {
        let got = recv_step(ring, &mut buffer);
        match got {
            None => {
                drained = true;
            },
            Some(_len) => {
                let mut payload: Vec<u8> = Vec::new();
                let mut j: usize = 0;
                let blen = buffer.len();
                while j < blen
                    invariant
                        j <= blen,
                        blen == buffer@.len(),
                        payload@ == buffer@.take(j as int),
                    decreases blen - j,
                {
                    let b = buffer[j];
                    payload.push(b);
                    proof {
                        assert(buffer@.take(j as int).push(buffer@[j as int]) =~= buffer@.take(
                            j as int + 1,
                        ));
                    }
                    j = j + 1;
                }
                proof {
                    assert(payload@ =~= buffer@);
                    assert(old(ring)@.skip(taken as int).drop_first() =~= old(ring)@.skip(
                        taken as int + 1,
                    ));
                    assert(old(ring)@.skip(taken as int)[0] == old(ring)@[taken as int]);
                }
                events.push(AutoEvent::Message { direction, payload });
                taken = taken + 1;
            },
        }
    }
    stats.received_messages = stats.received_messages.wrapping_add(taken as u64);
    events
}

/// Map the error a failed thread spawn reported to the library's taxonomy;
/// a spawn that gave no error code is reported with an all-ones code.
pub fn map_spawn_error(code: Option<u32>, context: &'static str) -> (r: ShmError)
    ensures
        code is Some ==> r == (ShmError::WindowsError { code: code->0, context }),
        code is None ==> r == (ShmError::WindowsError { code: 0xFFFF_FFFF, context }),
{
    match code {
        Some(c) => ShmError::WindowsError { code: c, context },
        None => ShmError::WindowsError { code: 0xFFFF_FFFF, context },
    }
}

} // verus!
