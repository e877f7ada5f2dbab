//! The slot multiplexer: one server hosts up to `max_clients` fixed endpoint
//! pairs named `{base}_{slot}`, and a lobby on the base name whose only job
//! is to hand a connecting client a free slot number through the control
//! block's reserved scratch area.

use vstd::prelude::*;

use crate::constants::{
    HANDSHAKE_CLIENT_HELLO, HANDSHAKE_IDLE, HANDSHAKE_SERVER_READY, RESERVED_SLOT_ID_INDEX,
    SLOT_ID_NO_SLOT,
};
use crate::error::ShmError;
use crate::layout::ControlBlock;
use vstd::array::ArrayAdditionalExecFns;

verus! {

/// Default number of slots a multi-client server offers.
pub const DEFAULT_MAX_CLIENTS: u32 = 20;

/// The callback surface a multi-client server's owner implements.
pub trait MultiHandler {
    fn on_client_connect(&self, client_id: u32);

    fn on_client_disconnect(&self, client_id: u32);

    fn on_message(&self, client_id: u32, data: &[u8]);

    fn on_error(&self, _client_id: Option<u32>, _err: ShmError) {
    }
}

/// The callback surface a multi-client's owner implements.
pub trait MultiClientHandler {
    fn on_connect(&self, slot_id: u32);

    fn on_disconnect(&self);

    fn on_message(&self, data: &[u8]);

    fn on_error(&self, _err: ShmError) {
    }
}

/// Knobs of the multi-client server.  Durations are milliseconds.
#[derive(Clone)]
pub struct MultiOptions {
    pub max_clients: u32,
    pub poll_timeout: u64,
    pub recv_batch: usize,
}

impl Default for MultiOptions {
    /// The default knobs: twenty slots, 50 ms polls, 32 reads per batch.
    fn default() -> (r: MultiOptions)
        ensures
            r.max_clients == DEFAULT_MAX_CLIENTS,
            r.poll_timeout == 50,
            r.recv_batch == 32,
    {
        MultiOptions { max_clients: DEFAULT_MAX_CLIENTS, poll_timeout: 50, recv_batch: 32 }
    }
}

/// Knobs of the multi-client.  Durations are milliseconds.
#[derive(Clone)]
pub struct MultiClientOptions {
    pub lobby_timeout: u64,
    pub slot_timeout: u64,
    pub poll_timeout: u64,
    pub recv_batch: usize,
}

impl Default for MultiClientOptions {
    /// The default knobs: 5 s for lobby and slot, 50 ms polls, 32 reads per
    /// batch.
    fn default() -> (r: MultiClientOptions)
        ensures
            r.lobby_timeout == 5000,
            r.slot_timeout == 5000,
            r.poll_timeout == 50,
            r.recv_batch == 32,
    {
        MultiClientOptions { lobby_timeout: 5000, slot_timeout: 5000, poll_timeout: 50, recv_batch: 32 }
    }
}

/// The first free slot of a table, if any.
pub open spec fn spec_first_free(slots: Seq<bool>) -> Option<u32>
    decreases slots.len(),
{
    if slots.len() == 0 {
        None
    } else if !slots[0] {
        Some(0u32)
    } else {
        match spec_first_free(slots.drop_first()) {
            None => None,
            Some(i) => Some((i + 1) as u32),
        }
    }
}

/// The connection table of the slot multiplexer: which slots hold a client.
pub struct SlotTable {
    connected: Vec<bool>,
}

impl View for SlotTable {
    type V = Seq<bool>;

    closed spec fn view(&self) -> Seq<bool> {
        self.connected@
    }
}

impl SlotTable {
    /// A table of `max_clients` slots, all free.
    pub fn new(max_clients: u32) -> (r: SlotTable)
        ensures
            r@.len() == max_clients as int,
            forall|i: int| 0 <= i < max_clients as int ==> !r@[i],
    {
        let mut connected: Vec<bool> = Vec::new();
        let mut i: u32 = 0;
        while i < max_clients
            invariant
                i <= max_clients,
                connected@.len() == i as int,
                forall|k: int| 0 <= k < i as int ==> !connected@[k],
            decreases max_clients - i,
        {
            connected.push(false);
            i = i + 1;
        }
        SlotTable { connected }
    }

    /// How many slots the table has.
    pub fn capacity(&self) -> (r: usize)
        ensures
            r as int == self@.len(),
    {
        self.connected.len()
    }

    /// The lowest free slot, as the lobby scan finds it.
    pub fn find_free_slot(&self) -> (r: Option<u32>)
        requires
            self@.len() <= u32::MAX as int,
        ensures
            r == spec_first_free(self@),
    {
        let n = self.connected.len();
        let mut i: usize = 0;
        while i < n
            invariant
                i <= n,
                n == self@.len() <= u32::MAX as int,
                forall|k: int| 0 <= k < i as int ==> self@[k],
            decreases n - i,
        {
            if !self.connected[i] {
                proof {
                    lemma_first_free_at(self@, i as int);
                }
                return Some(i as u32);
            }
            i = i + 1;
        }
        proof {
            lemma_no_free_slot(self@);
        }
        None
    }

    /// Record that a client completed the slot's handshake.
    pub fn mark_connected(&mut self, slot: u32)
        requires
            (slot as int) < old(self)@.len(),
        ensures
            final(self)@ == old(self)@.update(slot as int, true),
    {
        self.connected.set(slot as usize, true);
    }

    /// Record that a slot's client is gone; reports whether it was there,
    /// so a disconnect is announced at most once.
    pub fn mark_disconnected(&mut self, slot: u32) -> (was_connected: bool)
        requires
            (slot as int) < old(self)@.len(),
        ensures
            was_connected == old(self)@[slot as int],
            final(self)@ == old(self)@.update(slot as int, false),
    {
        let was = self.connected[slot as usize];
        self.connected.set(slot as usize, false);
        was
    }

    /// Whether this slot holds a client.
    pub fn is_client_connected(&self, slot: u32) -> (r: bool)
        ensures
            r == ((slot as int) < self@.len() && self@[slot as int]),
    {
        if (slot as usize) < self.connected.len() {
            self.connected[slot as usize]
        } else {
            false
        }
    }

    /// How many slots hold a client.
    pub fn client_count(&self) -> (r: u32)
        requires
            self@.len() <= u32::MAX as int,
        ensures
            r as int == self@.filter(|c: bool| c).len(),
    {
        let n = self.connected.len();
        let mut count: u32 = 0;
        let mut i: usize = 0;
        while i < n
            invariant
                i <= n,
                n == self@.len() <= u32::MAX as int,
                count as int == self@.take(i as int).filter(|c: bool| c).len(),
            decreases n - i,
        {
            proof {
                assert(self@.take(i as int + 1).drop_last() =~= self@.take(i as int));
                assert(self@.take(i as int + 1).last() == self@[i as int]);
                reveal(Seq::filter);
                self@.take(i as int).filter_lemma(|c: bool| c);
            }
            if self.connected[i] {
                count = count + 1;
            }
            i = i + 1;
        }
        proof {
            assert(self@.take(n as int) =~= self@);
        }
        count
    }

    /// The slot numbers that hold a client, in ascending order: exactly the
    /// connected slots, each once, so their number is the client count.
    pub fn connected_clients(&self) -> (r: Vec<u32>)
        requires
            self@.len() <= u32::MAX as int,
        ensures
            forall|k: int|
                0 <= k < r@.len() ==> (((#[trigger] r@[k]) as int) < self@.len() && self@[
                    r@[k] as int
                ]),
            forall|i: int|
                0 <= i < self@.len() && self@[i] ==> exists|k: int|
                    0 <= k < r@.len() && (#[trigger] r@[k]) as int == i,
            forall|k1: int, k2: int|
                0 <= k1 < k2 < r@.len() ==> (#[trigger] r@[k1]) < (#[trigger] r@[k2]),
            r@.len() == self@.filter(|c: bool| c).len(),
    {
        let n = self.connected.len();
        let mut out: Vec<u32> = Vec::new();
        let mut i: usize = 0;
        while i < n
            invariant
                i <= n,
                n == self@.len() <= u32::MAX as int,
                forall|k: int|
                    0 <= k < out@.len() ==> (((#[trigger] out@[k]) as int) < self@.len()
                        && self@[out@[k] as int]),
                forall|j: int|
                    0 <= j < i as int && self@[j] ==> exists|k: int|
                        0 <= k < out@.len() && (#[trigger] out@[k]) as int == j,
                forall|k: int| 0 <= k < out@.len() ==> ((#[trigger] out@[k]) as int) < i as int,
                forall|k1: int, k2: int|
                    0 <= k1 < k2 < out@.len() ==> (#[trigger] out@[k1]) < (#[trigger] out@[k2]),
                out@.len() == self@.take(i as int).filter(|c: bool| c).len(),
            decreases n - i,
        {
            proof {
                assert(self@.take(i as int + 1).drop_last() =~= self@.take(i as int));
                assert(self@.take(i as int + 1).last() == self@[i as int]);
                reveal(Seq::filter);
                self@.take(i as int).filter_lemma(|c: bool| c);
            }
            if self.connected[i] {
                let ghost out_before = out@;
                out.push(i as u32);
                proof {
                    assert((out@[out@.len() - 1]) as int == i as int);
                    assert forall|j: int| 0 <= j < i as int + 1 && self@[j] implies exists|k: int|
                        0 <= k < out@.len() && (#[trigger] out@[k]) as int == j by {
                        if j < i as int {
                            let k0 = choose|k: int|
                                0 <= k < out_before.len() && (#[trigger] out_before[k]) as int == j;
                            assert(out@[k0] as int == j);
                        } else {
                            assert(out@[out@.len() - 1] as int == j);
                        }
                    }
                }
            }
            i = i + 1;
        }
        proof {
            assert(self@.take(n as int) =~= self@);
        }
        out
    }
}

/// The lobby's side of handing out a slot: if a hello is posted, the lowest
/// free slot (or the no-slot sentinel) goes into the reserved scratch word,
/// the acknowledge is armed, and the lobby states reset to idle for the next
/// client.  Reports the value handed out, or nothing if no hello was there.
pub fn handle_lobby_connect(control: &mut ControlBlock, slots: &SlotTable) -> (assigned: Option<
    u32,
>)
    requires
        slots@.len() <= u32::MAX as int,
    ensures
        final(control).magic == old(control).magic,
        final(control).version == old(control).version,
        final(control).generation == old(control).generation,
        old(control).client_state != HANDSHAKE_CLIENT_HELLO ==> {
            &&& assigned is None
            &&& *final(control) == *old(control)
        },
        old(control).client_state == HANDSHAKE_CLIENT_HELLO ==> {
            &&& assigned == Some(
                match spec_first_free(slots@) {
                    Some(slot) => slot,
                    None => SLOT_ID_NO_SLOT,
                },
            )
            &&& final(control).reserved@ == old(control).reserved@.update(
                RESERVED_SLOT_ID_INDEX as int,
                assigned->0,
            )
            &&& final(control).client_state == HANDSHAKE_IDLE
            &&& final(control).server_state == HANDSHAKE_IDLE
        },
{
    if control.client_state != HANDSHAKE_CLIENT_HELLO {
        return None;
    }
    let found = slots.find_free_slot();
    let slot_id = match found {
        Some(slot) => slot,
        None => SLOT_ID_NO_SLOT,
    };
    control.reserved.set(RESERVED_SLOT_ID_INDEX, slot_id);
    control.server_state = HANDSHAKE_SERVER_READY;
    control.client_state = HANDSHAKE_IDLE;
    control.server_state = HANDSHAKE_IDLE;
    Some(slot_id)
}

/// The client's side of the lobby handshake, after the acknowledge fired:
/// read the assigned slot from the reserved scratch word and reset the
/// client state.  The sentinel means every slot was taken.
pub fn read_assigned_slot(control: &mut ControlBlock) -> (r: Result<u32, ShmError>)
    ensures
        *final(control) == (ControlBlock { client_state: HANDSHAKE_IDLE, ..*old(control) }),
        old(control).reserved@[RESERVED_SLOT_ID_INDEX as int] == SLOT_ID_NO_SLOT ==> r == Err::<
            u32,
            ShmError,
        >(ShmError::NoFreeSlot),
        old(control).reserved@[RESERVED_SLOT_ID_INDEX as int] != SLOT_ID_NO_SLOT ==> r == Ok::<
            u32,
            ShmError,
        >(old(control).reserved@[RESERVED_SLOT_ID_INDEX as int]),
{
    let slot_id = control.reserved[RESERVED_SLOT_ID_INDEX];
    control.client_state = HANDSHAKE_IDLE;
    if slot_id == SLOT_ID_NO_SLOT {
        Err(ShmError::NoFreeSlot)
    } else {
        Ok(slot_id)
    }
}

/// The lobby's scan is right to stop at the first free slot: when every
/// earlier slot is taken and slot `i` is free, `i` is the slot handed out.
pub proof fn lemma_first_free_at(slots: Seq<bool>, i: int)
    requires
        slots.len() <= u32::MAX as int,
        0 <= i < slots.len(),
        forall|k: int| 0 <= k < i ==> slots[k],
        !slots[i],
    ensures
        spec_first_free(slots) == Some(i as u32),
    decreases i,
{
    if i > 0 {
        assert forall|k: int| 0 <= k < i - 1 implies slots.drop_first()[k] by {
            assert(slots[k + 1]);
        }
        lemma_first_free_at(slots.drop_first(), i - 1);
    }
}

/// Distinct connected clients sit in distinct slots: handing out the lowest
/// free slot never hands out one that is taken.
pub proof fn lemma_first_free_is_free(slots: Seq<bool>)
    requires
        slots.len() <= u32::MAX as int,
    ensures
        (spec_first_free(slots) matches Some(i) ==> (i as int) < slots.len() && !slots[i as int]),
    decreases slots.len(),
{
    if slots.len() > 0 && slots[0] {
        lemma_first_free_is_free(slots.drop_first());
    }
}

/// When every slot is taken, the lobby has no slot to hand out.
pub proof fn lemma_no_free_slot(slots: Seq<bool>)
    requires
        forall|i: int| 0 <= i < slots.len() ==> slots[i],
    ensures
        spec_first_free(slots) is None,
    decreases slots.len(),
{
    if slots.len() > 0 {
        lemma_no_free_slot(slots.drop_first());
    }
}

} // verus!
