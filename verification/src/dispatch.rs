//! The dispatch multiplexer: one lobby endpoint hands every registering
//! client a freshly named private channel.  The registry tracks the clients
//! by their ids and gates each disconnect so it is announced exactly once;
//! the channel names come from a mixed state word so two clients never
//! collide.  Threads, events and the per-client workers live with the
//! caller.

use std::collections::HashMap;

use vstd::prelude::*;

use crate::error::ShmError;
use crate::protocol::{u32_at, DISPATCH_MAGIC, DISPATCH_VERSION, MSG_TYPE_RESPONSE, STATUS_OK};
use crate::ring::pos_add;

verus! {

broadcast use vstd::std_specs::hash::group_hash_axioms;

/// What the server learned about a client while it registered.
#[derive(Debug, Clone)]
pub struct ClientRegistration {
    pub pid: u32,
    pub revision: u16,
    pub name: Vec<u8>,
}

/// The callback surface a dispatch server's owner implements.
pub trait DispatchHandler {
    fn on_client_connect(&self, client_id: u32, info: &ClientRegistration);

    fn on_client_disconnect(&self, client_id: u32);

    fn on_message(&self, client_id: u32, data: &[u8]);

    fn on_error(&self, _client_id: Option<u32>, _err: ShmError) {
    }
}

/// The callback surface a dispatch client's owner implements.
pub trait DispatchClientHandler {
    fn on_connect(&self, client_id: u32, channel_name: &str);

    fn on_disconnect(&self);

    fn on_message(&self, data: &[u8]);

    fn on_error(&self, _err: ShmError) {
    }
}

/// Knobs of the dispatch server.  Durations are milliseconds.
#[derive(Clone)]
pub struct DispatchOptions {
    pub lobby_timeout: u64,
    pub channel_connect_timeout: u64,
    pub poll_timeout: u64,
    pub recv_batch: usize,
}

impl Default for DispatchOptions {
    /// The default knobs: 5 s lobby reads, 30 s for the client to attach,
    /// 50 ms polls, 32 reads per batch.
    fn default() -> (r: DispatchOptions)
        ensures
            r.lobby_timeout == 5000,
            r.channel_connect_timeout == 30000,
            r.poll_timeout == 50,
            r.recv_batch == 32,
    {
        DispatchOptions {
            lobby_timeout: 5000,
            channel_connect_timeout: 30000,
            poll_timeout: 50,
            recv_batch: 32,
        }
    }
}

/// Knobs of the dispatch client.  Durations are milliseconds.
#[derive(Clone)]
pub struct DispatchClientOptions {
    pub lobby_timeout: u64,
    pub response_timeout: u64,
    pub channel_timeout: u64,
    pub poll_timeout: u64,
    pub recv_batch: usize,
    pub max_send_queue: usize,
}

impl Default for DispatchClientOptions {
    /// The default knobs: 5 s for the lobby and the reply, 10 s for the
    /// private channel, 50 ms polls, 32 reads per batch, 256 queued sends.
    fn default() -> (r: DispatchClientOptions)
        ensures
            r.lobby_timeout == 5000,
            r.response_timeout == 5000,
            r.channel_timeout == 10000,
            r.poll_timeout == 50,
            r.recv_batch == 32,
            r.max_send_queue == 256,
    {
        DispatchClientOptions {
            lobby_timeout: 5000,
            response_timeout: 5000,
            channel_timeout: 10000,
            poll_timeout: 50,
            recv_batch: 32,
            max_send_queue: 256,
        }
    }
}

/// The avalanche mix that turns the time and the id counter into the state
/// word a private channel is named after.
pub open spec fn spec_mix64(time_nanos: u64, counter: u64) -> u64 {
    let seeded = time_nanos ^ vstd::wrapping::u64_specs::wrapping_mul(
        counter,
        0x517cc1b727220a95,
    );
    let a = seeded ^ (seeded >> 17);
    let b = vstd::wrapping::u64_specs::wrapping_mul(a, 0xbf58476d1ce4e5b9);
    let c = b ^ (b >> 31);
    let d = vstd::wrapping::u64_specs::wrapping_mul(c, 0x94d049bb133111eb);
    d ^ (d >> 32)
}

/// Mix the entropy sources for a private channel name: the time seeds the
/// state, the counter decorrelates clients of the same instant, and the
/// xorshift-multiply rounds spread both over all sixty-four bits.
pub fn mix64(time_nanos: u64, counter: u64) -> (r: u64)
    ensures
        r == spec_mix64(time_nanos, counter),
{
    let seeded = time_nanos ^ counter.wrapping_mul(0x517cc1b727220a95);
    let mut state = seeded ^ (seeded >> 17);
    state = state.wrapping_mul(0xbf58476d1ce4e5b9);
    state = state ^ (state >> 31);
    state = state.wrapping_mul(0x94d049bb133111eb);
    state ^ (state >> 32)
}

/// One registered client: what it sent at registration and the private
/// channel it was assigned.
pub struct ClientEntry {
    pub info: ClientRegistration,
    pub channel_name: String,
}

/// The dispatch server's registry: every connected client by its id, and
/// the id the next client will get.  Ids count upward and are not reused
/// while the server lives.
pub struct ClientRegistry {
    clients: HashMap<u32, ClientEntry>,
    next_client_id: u32,
}

impl View for ClientRegistry {
    type V = Map<u32, ClientEntry>;

    closed spec fn view(&self) -> Map<u32, ClientEntry> {
        self.clients@
    }
}

impl ClientRegistry {
    /// The id the next registering client will receive.
    pub closed spec fn spec_next_id(self) -> u32 {
        self.next_client_id
    }

    /// An empty registry; the first client will get id one.
    pub fn new() -> (r: ClientRegistry)
        ensures
            r@ == Map::<u32, ClientEntry>::empty(),
            r.spec_next_id() == 1,
    {
        ClientRegistry { clients: HashMap::new(), next_client_id: 1 }
    }

    /// Hand out the next client id and step the counter.
    pub fn allocate_id(&mut self) -> (id: u32)
        ensures
            id == old(self).spec_next_id(),
            final(self).spec_next_id() == pos_add(old(self).spec_next_id(), 1),
            final(self)@ == old(self)@,
    {
        let id = self.next_client_id;
        self.next_client_id = self.next_client_id.wrapping_add(1);
        proof {
            crate::ring::lemma_wrapping_add(id, 1);
        }
        id
    }

    /// Record a client that attached to its private channel.
    pub fn register(&mut self, client_id: u32, entry: ClientEntry)
        ensures
            final(self)@ == old(self)@.insert(client_id, entry),
            final(self).spec_next_id() == old(self).spec_next_id(),
    {
        let _ = self.clients.insert(client_id, entry);
    }

    /// How many clients are connected.
    pub fn client_count(&self) -> (r: usize)
        ensures
            r == self@.len(),
    {
        self.clients.len()
    }

    /// Whether this client is connected.
    pub fn is_client_connected(&self, client_id: u32) -> (r: bool)
        ensures
            r == self@.contains_key(client_id),
    {
        self.clients.contains_key(&client_id)
    }

    /// The registration a client sent, if it is connected.
    pub fn client_info(&self, client_id: u32) -> (r: Option<&ClientEntry>)
        ensures
            self@.contains_key(client_id) ==> r is Some && *r->0 == self@[client_id],
            !self@.contains_key(client_id) ==> r is None,
    {
        self.clients.get(&client_id)
    }

    /// The disconnect gate: take the client out of the registry, reporting
    /// whether it was still there.  Whichever side announces the disconnect
    /// — the server tearing the client down or the channel noticing the
    /// client vanished — only the one that finds the entry reports true, so
    /// the owner hears of each disconnect exactly once.
    pub fn take_disconnect(&mut self, client_id: u32) -> (was_connected: bool)
        ensures
            was_connected == old(self)@.contains_key(client_id),
            final(self)@ == old(self)@.remove(client_id),
            final(self).spec_next_id() == old(self).spec_next_id(),
    {
        let removed = self.clients.remove(&client_id);
        match removed {
            Some(_) => true,
            None => {
                proof {
                    assert(old(self)@.remove(client_id) =~= old(self)@);
                }
                false
            },
        }
    }
}

/// The disconnect gate fires exactly once: once a client id has been taken
/// out of the registry, taking it again finds nothing, so a second
/// announcement never happens.
pub proof fn lemma_disconnect_exactly_once(clients: Map<u32, ClientEntry>, client_id: u32)
    ensures
        !clients.remove(client_id).contains_key(client_id),
{
}

/// The client's reading of the lobby reply: a decodable response whose
/// status reports success carries the assigned id and channel name; a
/// rejected status is a failed handshake; anything else is the decoder's
/// error.
pub fn parse_registration_reply(data: &[u8]) -> (r: Result<(u32, Vec<u8>), ShmError>)
    ensures
        data@.len() < 12 ==> r == Err::<(u32, Vec<u8>), ShmError>(ShmError::MessageTooSmall),
        data@.len() >= 12 ==> {
            let name_len = data@[11] as int;
            &&& (u32_at(data@, 0) != DISPATCH_MAGIC ==> r == Err::<(u32, Vec<u8>), ShmError>(
                ShmError::Corrupted,
            ))
            &&& (u32_at(data@, 0) == DISPATCH_MAGIC && data@[4] != DISPATCH_VERSION ==> r == Err::<
                (u32, Vec<u8>),
                ShmError,
            >(ShmError::HandshakeFailed))
            &&& (u32_at(data@, 0) == DISPATCH_MAGIC && data@[4] == DISPATCH_VERSION && data@[5]
                != MSG_TYPE_RESPONSE ==> r == Err::<(u32, Vec<u8>), ShmError>(
                ShmError::HandshakeFailed,
            ))
            &&& (u32_at(data@, 0) == DISPATCH_MAGIC && data@[4] == DISPATCH_VERSION && data@[5]
                == MSG_TYPE_RESPONSE && data@.len() < 12 + name_len ==> r == Err::<
                (u32, Vec<u8>),
                ShmError,
            >(ShmError::MessageTooSmall))
            &&& (u32_at(data@, 0) == DISPATCH_MAGIC && data@[4] == DISPATCH_VERSION && data@[5]
                == MSG_TYPE_RESPONSE && data@.len() >= 12 + name_len && data@[6] != STATUS_OK ==> r
                == Err::<(u32, Vec<u8>), ShmError>(ShmError::HandshakeFailed))
            &&& (u32_at(data@, 0) == DISPATCH_MAGIC && data@[4] == DISPATCH_VERSION && data@[5]
                == MSG_TYPE_RESPONSE && data@.len() >= 12 + name_len && data@[6] == STATUS_OK ==> {
                &&& r is Ok
                &&& r->Ok_0.0 == u32_at(data@, 7)
                &&& r->Ok_0.1@ == data@.subrange(12, 12 + name_len)
            })
        },
{
    let decoded = crate::protocol::decode_response(data);
    match decoded {
        Err(err) => Err(err),
        Ok(resp) => {
            if resp.status != STATUS_OK {
                return Err(ShmError::HandshakeFailed);
            }
            Ok((resp.client_id, resp.channel_name))
        },
    }
}

} // verus!
