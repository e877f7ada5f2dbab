//! The lock-free single-producer/single-consumer message ring.
//!
//! Messages are length-prefixed and stored consecutively (wrapping at the end
//! of storage).  `write_pos` and `read_pos` are monotonic u32 counters that
//! wrap at 2^32; since the capacity divides 2^32, the masked byte index stays
//! consistent across the wrap.  When the ring is full (by bytes or by message
//! count) the oldest message is discarded and counted, never a torn write.

use vstd::arithmetic::div_mod::{
    lemma_fundamental_div_mod, lemma_mod_bound, lemma_mod_multiples_vanish, lemma_small_mod,
};
use vstd::prelude::*;

use crate::constants::{
    MAX_MESSAGES, MAX_MESSAGE_SIZE, MESSAGE_HEADER_SIZE, MIN_MESSAGE_SIZE, RING_CAPACITY,
    RING_MASK,
};
use crate::error::ShmError;

verus! {

/// Ring position `pos` advanced by `n` bytes, wrapping at 2^32.
pub open spec fn pos_add(pos: u32, n: int) -> u32 {
    (((pos as int) + n) % 0x1_0000_0000) as u32
}

/// Number of bytes between the read and the write cursor, wrap-aware.
pub open spec fn used_of(write: u32, read: u32) -> int {
    ((write as int) - (read as int)) % 0x1_0000_0000
}

/// Storage index of the byte `off` places past position `pos`.
pub open spec fn ring_index(pos: u32, off: int) -> int {
    ((pos as int) + off) % (RING_CAPACITY as int)
}

/// Shifting an argument of `%` by the modulus' own multiples changes nothing.
proof fn lemma_mod_shift(x: int, a: int, m: int)
    requires
        0 < m,
    ensures
        ((x % m) + a) % m == (x + a) % m,
{
    lemma_fundamental_div_mod(x, m);
    assert(x + a == m * (x / m) + ((x % m) + a));
    lemma_mod_multiples_vanish(x / m, (x % m) + a, m);
}

/// A value reduced modulo 2^32 keeps its residue modulo the ring capacity,
/// because the capacity divides 2^32.
proof fn lemma_m32_mod_cap(x: int)
    ensures
        (x % 0x1_0000_0000) % (RING_CAPACITY as int) == x % (RING_CAPACITY as int),
{
    let c = RING_CAPACITY as int;
    lemma_fundamental_div_mod(x, 0x1_0000_0000);
    let q = x / 0x1_0000_0000;
    assert(x % 0x1_0000_0000 == x - 0x1_0000_0000 * q);
    assert(x - 0x1_0000_0000 * q == c * (-2048 * q) + x) by (nonlinear_arith)
        requires
            c == 0x0020_0000,
    ;
    lemma_mod_multiples_vanish(-2048 * q, x, c);
}

/// `wrapping_add` on u32 computes `pos_add`.
pub proof fn lemma_wrapping_add(x: u32, y: u32)
    ensures
        vstd::wrapping::u32_specs::wrapping_add(x, y) == pos_add(x, y as int),
{
    let s = x as int + y as int;
    if s <= u32::MAX as int {
        lemma_small_mod(s as nat, 0x1_0000_0000);
    } else {
        lemma_mod_multiples_vanish(1, s - 0x1_0000_0000, 0x1_0000_0000);
        lemma_small_mod((s - 0x1_0000_0000) as nat, 0x1_0000_0000);
    }
}

/// `wrapping_sub` on u32 computes `used_of`.
proof fn lemma_wrapping_sub(w: u32, r: u32)
    ensures
        vstd::wrapping::u32_specs::wrapping_sub(w, r) as int == used_of(w, r),
{
    let d = w as int - r as int;
    if d >= 0 {
        lemma_small_mod(d as nat, 0x1_0000_0000);
    } else {
        lemma_mod_multiples_vanish(1, d, 0x1_0000_0000);
        lemma_small_mod((d + 0x1_0000_0000) as nat, 0x1_0000_0000);
    }
}

/// The used-byte count is never negative and stays below 2^32.
proof fn lemma_used_bound(w: u32, r: u32)
    ensures
        0 <= used_of(w, r) < 0x1_0000_0000,
{
    lemma_mod_bound(w as int - r as int, 0x1_0000_0000);
}

/// Advancing the write cursor by `n` bytes grows the used count by `n`,
/// as long as the sum stays below 2^32.
proof fn lemma_used_add(w: u32, r: u32, n: int)
    requires
        0 <= n,
        used_of(w, r) + n < 0x1_0000_0000,
    ensures
        used_of(pos_add(w, n), r) == used_of(w, r) + n,
{
    let m = 0x1_0000_0000;
    lemma_mod_bound(w as int - r as int, m);
    lemma_mod_shift(w as int + n, -(r as int), m);
    assert(used_of(pos_add(w, n), r) == (w as int + n - r as int) % m);
    lemma_mod_shift(w as int - r as int, n, m);
    assert((w as int + n - r as int) % m == (used_of(w, r) + n) % m);
    lemma_small_mod((used_of(w, r) + n) as nat, m as nat);
}

/// Advancing the read cursor by `n` bytes shrinks the used count by `n`,
/// as long as `n` does not pass the write cursor.
proof fn lemma_used_sub_front(w: u32, r: u32, n: int)
    requires
        0 <= n <= used_of(w, r),
    ensures
        used_of(w, pos_add(r, n)) == used_of(w, r) - n,
{
    let m = 0x1_0000_0000;
    lemma_mod_bound(w as int - r as int, m);
    let q = (r as int + n) % m;
    lemma_fundamental_div_mod(r as int + n, m);
    let d = (r as int + n) / m;
    assert(w as int - q == (w as int - r as int - n) + m * d);
    lemma_mod_multiples_vanish(d, w as int - r as int - n, m);
    assert((w as int - q) % m == (w as int - r as int - n) % m);
    lemma_mod_shift(w as int - r as int, -n, m);
    lemma_small_mod((used_of(w, r) - n) as nat, m as nat);
}

/// The ring is empty exactly when the two cursors coincide.
proof fn lemma_used_zero(w: u32, r: u32)
    ensures
        (used_of(w, r) == 0) <==> (w == r),
{
    let m = 0x1_0000_0000;
    let d = w as int - r as int;
    if d >= 0 {
        lemma_small_mod(d as nat, m as nat);
    } else {
        lemma_mod_multiples_vanish(1, d, m);
        lemma_small_mod((d + m) as nat, m as nat);
    }
}

/// Reading an offset through an advanced position is reading a larger offset
/// through the original position.
proof fn lemma_index_add(pos: u32, a: int, b: int)
    ensures
        ring_index(pos_add(pos, a), b) == ring_index(pos, a + b),
{
    let c = RING_CAPACITY as int;
    lemma_m32_mod_cap(pos as int + a);
    lemma_mod_shift((pos as int + a) % 0x1_0000_0000, b, c);
    lemma_mod_shift(pos as int + a, b, c);
    assert(((pos as int + a) % 0x1_0000_0000 + b) % c == (pos as int + a + b) % c);
}

/// Two distinct offsets within one capacity's span index distinct bytes.
proof fn lemma_index_distinct(pos: u32, i: int, j: int)
    requires
        0 <= i < j,
        j - i < RING_CAPACITY as int,
    ensures
        ring_index(pos, i) != ring_index(pos, j),
{
    let c = RING_CAPACITY as int;
    if ring_index(pos, i) == ring_index(pos, j) {
        lemma_fundamental_div_mod(pos as int + i, c);
        lemma_fundamental_div_mod(pos as int + j, c);
        let qi = (pos as int + i) / c;
        let qj = (pos as int + j) / c;
        assert(j - i == c * qj - c * qi);
        assert(false) by (nonlinear_arith)
            requires
                j - i == c * qj - c * qi,
                0 < j - i < c,
        ;
    }
}

/// Every ring index lies inside the storage.
proof fn lemma_index_bound(pos: u32, off: int)
    ensures
        0 <= ring_index(pos, off) < RING_CAPACITY as int,
{
    lemma_mod_bound(pos as int + off, RING_CAPACITY as int);
}

/// The masked position is the ring index of the position itself.
proof fn lemma_mask(pos: u32)
    ensures
        (pos & RING_MASK) as int == ring_index(pos, 0),
{
    assert(pos & 0x001F_FFFF == pos % 0x0020_0000) by (bit_vector);
}

/// Advancing a position by nothing leaves it in place.
proof fn lemma_pos_add_zero(p: u32)
    ensures
        pos_add(p, 0) == p,
{
    lemma_small_mod(p as nat, 0x1_0000_0000);
}

/// Advancing a position twice is advancing it once by the summed offsets.
proof fn lemma_pos_add_assoc(p: u32, a: int, b: int)
    ensures
        pos_add(pos_add(p, a), b) == pos_add(p, a + b),
{
    lemma_mod_shift(p as int + a, b, 0x1_0000_0000);
    lemma_mod_bound(p as int + a, 0x1_0000_0000);
    lemma_mod_bound(p as int + a + b, 0x1_0000_0000);
}

/// Total bytes one message occupies in the ring: framing plus payload.
pub open spec fn msg_total(m: Seq<u8>) -> int {
    MESSAGE_HEADER_SIZE as int + m.len()
}

/// A payload length the ring accepts.
pub open spec fn valid_payload_len(len: int) -> bool {
    MIN_MESSAGE_SIZE as int <= len <= MAX_MESSAGE_SIZE as int
}

/// The framed message `m` is stored in `s` starting at ring position `pos`:
/// its little-endian length in the first two bytes, then the two reserved
/// flag bytes written as zero, then the payload, wrapping at the end of
/// storage.
pub open spec fn msg_stored_at(s: Seq<u8>, pos: u32, m: Seq<u8>) -> bool {
    &&& valid_payload_len(m.len() as int)
    &&& s[ring_index(pos, 0)] == (m.len() % 256) as u8
    &&& s[ring_index(pos, 1)] == ((m.len() / 256) % 256) as u8
    &&& s[ring_index(pos, 2)] == 0u8
    &&& s[ring_index(pos, 3)] == 0u8
    &&& forall|i: int|
        0 <= i < m.len() ==> s[ring_index(pos, MESSAGE_HEADER_SIZE as int + i)] == m[i]
}

/// Total bytes the queued messages occupy together.
pub open spec fn msgs_total(msgs: Seq<Seq<u8>>) -> int
    decreases msgs.len(),
{
    if msgs.len() == 0 {
        0
    } else {
        msg_total(msgs[0]) + msgs_total(msgs.drop_first())
    }
}

/// The queued messages are stored back to back from ring position `pos`.
pub open spec fn msgs_stored_from(s: Seq<u8>, pos: u32, msgs: Seq<Seq<u8>>) -> bool
    decreases msgs.len(),
{
    msgs.len() == 0 || {
        &&& msg_stored_at(s, pos, msgs[0])
        &&& msgs_stored_from(s, pos_add(pos, msg_total(msgs[0])), msgs.drop_first())
    }
}

/// Each queued message costs at least its framing.
proof fn lemma_msgs_total_bounds(msgs: Seq<Seq<u8>>)
    ensures
        msgs_total(msgs) >= MESSAGE_HEADER_SIZE as int * msgs.len(),
        msgs_total(msgs) >= 0,
    decreases msgs.len(),
{
    if msgs.len() > 0 {
        lemma_msgs_total_bounds(msgs.drop_first());
    }
}

/// Appending one message adds exactly its footprint to the total.
proof fn lemma_msgs_total_push(msgs: Seq<Seq<u8>>, m: Seq<u8>)
    ensures
        msgs_total(msgs.push(m)) == msgs_total(msgs) + msg_total(m),
    decreases msgs.len(),
{
    if msgs.len() == 0 {
        assert(msgs.push(m)[0] == m);
        assert(msgs.push(m).drop_first() =~= Seq::<Seq<u8>>::empty());
        assert(msgs_total(msgs.push(m).drop_first()) == 0);
        assert(msgs_total(msgs.push(m)) == msg_total(m) + msgs_total(msgs.push(m).drop_first()));
    } else {
        assert(msgs.push(m)[0] == msgs[0]);
        assert(msgs.push(m).drop_first() =~= msgs.drop_first().push(m));
        lemma_msgs_total_push(msgs.drop_first(), m);
        assert(msgs_total(msgs.push(m)) == msg_total(msgs[0]) + msgs_total(
            msgs.push(m).drop_first(),
        ));
    }
}

/// Taking one more message into a prefix adds exactly its footprint.
proof fn lemma_msgs_total_take_one(msgs: Seq<Seq<u8>>, k: int)
    requires
        0 <= k < msgs.len(),
    ensures
        msgs_total(msgs.take(k + 1)) == msgs_total(msgs.take(k)) + msg_total(msgs[k]),
{
    assert(msgs.take(k + 1) =~= msgs.take(k).push(msgs[k]));
    lemma_msgs_total_push(msgs.take(k), msgs[k]);
}

/// Stored messages only depend on the bytes of their own footprint: a storage
/// that agrees there stores the same messages.
proof fn lemma_stored_agree(s1: Seq<u8>, s2: Seq<u8>, pos: u32, msgs: Seq<Seq<u8>>)
    requires
        msgs_total(msgs) <= RING_CAPACITY as int,
        msgs_stored_from(s1, pos, msgs),
        forall|o: int| 0 <= o < msgs_total(msgs) ==> s2[ring_index(pos, o)] == s1[ring_index(pos, o)],
    ensures
        msgs_stored_from(s2, pos, msgs),
    decreases msgs.len(),
{
    if msgs.len() > 0 {
        let m = msgs[0];
        let t0 = msg_total(m);
        lemma_msgs_total_bounds(msgs.drop_first());
        assert(t0 <= msgs_total(msgs));
        assert(s2[ring_index(pos, 0)] == s1[ring_index(pos, 0)]);
        assert(s2[ring_index(pos, 1)] == s1[ring_index(pos, 1)]);
        assert(s2[ring_index(pos, 2)] == s1[ring_index(pos, 2)]);
        assert(s2[ring_index(pos, 3)] == s1[ring_index(pos, 3)]);
        assert forall|i: int| 0 <= i < m.len() implies s2[ring_index(
            pos,
            MESSAGE_HEADER_SIZE as int + i,
        )] == m[i] by {
            assert(s2[ring_index(pos, MESSAGE_HEADER_SIZE as int + i)] == s1[ring_index(
                pos,
                MESSAGE_HEADER_SIZE as int + i,
            )]);
        }
        assert(msg_stored_at(s2, pos, m));
        let pos2 = pos_add(pos, t0);
        assert forall|o: int| 0 <= o < msgs_total(msgs.drop_first()) implies s2[ring_index(
            pos2,
            o,
        )] == s1[ring_index(pos2, o)] by {
            lemma_index_add(pos, t0, o);
            assert(ring_index(pos2, o) == ring_index(pos, t0 + o));
        }
        lemma_stored_agree(s1, s2, pos2, msgs.drop_first());
    }
}

/// A message stored right after the queued ones extends the queue.
proof fn lemma_stored_snoc(s: Seq<u8>, pos: u32, msgs: Seq<Seq<u8>>, m: Seq<u8>)
    requires
        msgs_stored_from(s, pos, msgs),
        msg_stored_at(s, pos_add(pos, msgs_total(msgs)), m),
    ensures
        msgs_stored_from(s, pos, msgs.push(m)),
    decreases msgs.len(),
{
    if msgs.len() == 0 {
        assert(pos_add(pos, 0) == pos) by {
            lemma_small_mod(pos as nat, 0x1_0000_0000);
        }
        assert(msgs.push(m)[0] == m);
        assert(msg_stored_at(s, pos, msgs.push(m)[0]));
        assert(msgs.push(m).drop_first() =~= Seq::<Seq<u8>>::empty());
        assert(msgs_stored_from(s, pos_add(pos, msg_total(m)), msgs.push(m).drop_first()));
    } else {
        let t0 = msg_total(msgs[0]);
        let pos2 = pos_add(pos, t0);
        lemma_pos_add_assoc(pos, t0, msgs_total(msgs.drop_first()));
        assert(pos_add(pos2, msgs_total(msgs.drop_first())) == pos_add(pos, msgs_total(msgs)));
        lemma_stored_snoc(s, pos2, msgs.drop_first(), m);
        assert(msgs.push(m).drop_first() =~= msgs.drop_first().push(m));
        assert(msgs.push(m)[0] == msgs[0]);
        assert(msg_stored_at(s, pos, msgs.push(m)[0]));
        assert(msgs_stored_from(s, pos_add(pos, msg_total(msgs.push(m)[0])), msgs.push(m).drop_first()));
    }
}

/// Offsets one capacity apart index the same byte.
proof fn lemma_index_wrap(pos: u32, off: int)
    ensures
        ring_index(pos, off + RING_CAPACITY as int) == ring_index(pos, off),
{
    lemma_mod_multiples_vanish(1, pos as int + off, RING_CAPACITY as int);
}

/// The write cursor is the read cursor advanced by the used byte count.
proof fn lemma_write_from_used(w: u32, r: u32)
    ensures
        w == pos_add(r, used_of(w, r)),
{
    let m = 0x1_0000_0000;
    lemma_fundamental_div_mod(w as int - r as int, m);
    let q = (w as int - r as int) / m;
    assert(r as int + used_of(w, r) == w as int - m * q);
    assert(w as int - m * q == m * (-q) + w as int);
    lemma_mod_multiples_vanish(-q, w as int, m);
    lemma_small_mod(w as nat, m as nat);
}

/// A sixteen-bit length is recovered exactly from its two little-endian bytes.
proof fn lemma_len_bytes(len: int)
    requires
        0 <= len < 0x1_0000,
    ensures
        (len % 256) + 256 * ((len / 256) % 256) == len,
{
    lemma_fundamental_div_mod(len, 256);
    assert(len / 256 < 256) by (nonlinear_arith)
        requires
            0 <= len < 0x1_0000,
    ;
    assert(len / 256 >= 0) by (nonlinear_arith)
        requires
            len >= 0,
    ;
    lemma_small_mod((len / 256) as nat, 256);
}

/// The ring accepts a message of `need` bytes without discarding: there is a
/// message slot left and the bytes fit behind the queued ones.
pub open spec fn fits(msgs: Seq<Seq<u8>>, need: int) -> bool {
    msgs.len() < MAX_MESSAGES as int && msgs_total(msgs) + need <= RING_CAPACITY as int
}

/// How many oldest messages must leave before `need` bytes fit.
pub open spec fn drops_needed(msgs: Seq<Seq<u8>>, need: int) -> int
    decreases msgs.len(),
{
    if msgs.len() == 0 {
        0
    } else if fits(msgs, need) {
        0
    } else {
        1 + drops_needed(msgs.drop_first(), need)
    }
}

/// What one `write_message` call reports back.
#[derive(Debug, Clone, Copy)]
pub struct WriteOutcome {
    /// How many queued messages were discarded to make room.
    pub overwritten: u32,
    /// Whether the ring was empty just before this message was stored.
    pub was_empty: bool,
}

/// What one `write_message` call does: errors leave the ring untouched and
/// name the offending size; an accepted payload discards exactly the oldest
/// messages that had to go, appends the payload, and counts the drops.
pub open spec fn write_spec(
    pre: RingBuffer,
    post: RingBuffer,
    payload: Seq<u8>,
    r: Result<WriteOutcome, ShmError>,
) -> bool {
    &&& post.wf()
    &&& post.spec_header().connection_gen == pre.spec_header().connection_gen
    &&& post.spec_header().handshake_state == pre.spec_header().handshake_state
    &&& payload.len() < MIN_MESSAGE_SIZE ==> r == Err::<WriteOutcome, ShmError>(
        ShmError::MessageTooSmall,
    ) && post == pre
    &&& payload.len() > MAX_MESSAGE_SIZE ==> r == Err::<WriteOutcome, ShmError>(
        ShmError::MessageTooLarge,
    ) && post == pre
    &&& (r is Ok) == valid_payload_len(payload.len() as int)
    &&& r is Ok ==> {
        let outcome = r->Ok_0;
        &&& outcome.overwritten as int == drops_needed(pre@, msg_total(payload))
        &&& outcome.overwritten as int <= pre@.len()
        &&& post@ == pre@.skip(outcome.overwritten as int).push(payload)
        &&& post.spec_drop_total() == pre.spec_drop_total() + outcome.overwritten as int
        &&& outcome.was_empty == (pre@.len() == outcome.overwritten as int)
        &&& post.spec_header().write_pos == pos_add(pre.spec_header().write_pos, msg_total(payload))
        &&& post.spec_header().read_pos == pos_add(
            pre.spec_header().read_pos,
            msgs_total(pre@.take(outcome.overwritten as int)),
        )
        &&& msg_stored_at(post.spec_storage(), pre.spec_header().write_pos, payload)
    }
}

/// What one `read_message` call does: an empty ring reports `QueueEmpty` and
/// changes nothing; otherwise the oldest payload moves into the caller's
/// buffer and leaves the queue.
pub open spec fn read_spec(
    pre: RingBuffer,
    post: RingBuffer,
    out_pre: Vec<u8>,
    out_post: Vec<u8>,
    r: Result<usize, ShmError>,
) -> bool {
    &&& post.wf()
    &&& post.spec_header().connection_gen == pre.spec_header().connection_gen
    &&& post.spec_header().handshake_state == pre.spec_header().handshake_state
    &&& post.spec_drop_total() == pre.spec_drop_total()
    &&& pre@.len() == 0 ==> {
        &&& r == Err::<usize, ShmError>(ShmError::QueueEmpty)
        &&& post == pre
        &&& out_post == out_pre
    }
    &&& pre@.len() > 0 ==> {
        &&& r == Ok::<usize, ShmError>(pre@[0].len() as usize)
        &&& out_post@ == pre@[0]
        &&& post@ == pre@.drop_first()
        &&& post.spec_header().write_pos == pre.spec_header().write_pos
        &&& post.spec_header().read_pos == pos_add(pre.spec_header().read_pos, msg_total(pre@[0]))
        &&& post.spec_header().message_count as int == pre@.len() - 1
    }
}

/// The per-ring header: cursors, counters and handshake state, as they live
/// at the front of each ring's region in the shared segment.
pub struct RingHeader {
    pub write_pos: u32,
    pub read_pos: u32,
    pub message_count: u32,
    pub drop_count: u32,
    pub sequence: u32,
    pub connection_gen: u32,
    pub handshake_state: u32,
}

impl RingHeader {
    /// All counters and cursors of a freshly reset header are zero and its
    /// generation is the given one.
    pub open spec fn is_reset(self, generation: u32) -> bool {
        &&& self.write_pos == 0
        &&& self.read_pos == 0
        &&& self.message_count == 0
        &&& self.drop_count == 0
        &&& self.sequence == 0
        &&& self.connection_gen == generation
        &&& self.handshake_state == crate::constants::HANDSHAKE_IDLE
    }

    /// Zero every counter and cursor and stamp the new generation.
    pub fn reset(&mut self, generation: u32)
        ensures
            final(self).is_reset(generation),
    {
        self.write_pos = 0;
        self.read_pos = 0;
        self.message_count = 0;
        self.drop_count = 0;
        self.sequence = 0;
        self.connection_gen = generation;
        self.handshake_state = crate::constants::HANDSHAKE_IDLE;
    }
}

/// One message ring: its header, its storage bytes, and (in ghost state) the
/// queued payloads it currently holds, oldest first.
pub struct RingBuffer {
    header: RingHeader,
    storage: Vec<u8>,
    messages: Ghost<Seq<Seq<u8>>>,
    drops: Ghost<nat>,
}

impl View for RingBuffer {
    type V = Seq<Seq<u8>>;

    closed spec fn view(&self) -> Seq<Seq<u8>> {
        self.messages@
    }
}

impl RingBuffer {
    /// Well-formedness: counters agree with the queued payloads, the used
    /// byte span fits the capacity, and every queued payload is stored,
    /// framed, behind the read cursor.
    pub closed spec fn wf(self) -> bool {
        &&& self.storage@.len() == RING_CAPACITY as int
        &&& self.messages@.len() == self.header.message_count as int
        &&& self.header.message_count <= MAX_MESSAGES
        &&& msgs_total(self.messages@) == used_of(self.header.write_pos, self.header.read_pos)
        &&& msgs_total(self.messages@) <= RING_CAPACITY as int
        &&& msgs_stored_from(self.storage@, self.header.read_pos, self.messages@)
        &&& self.header.drop_count as int == self.drops@ % 0x1_0000_0000
    }

    /// The ring's header as ghost state.
    pub closed spec fn spec_header(self) -> RingHeader {
        self.header
    }

    /// Total messages ever discarded to make room, without wrap-around.
    pub closed spec fn spec_drop_total(self) -> nat {
        self.drops@
    }

    /// The stored bytes as ghost state.
    pub closed spec fn spec_storage(self) -> Seq<u8> {
        self.storage@
    }

    /// A fresh ring: zeroed storage, zeroed header, nothing queued.
    pub fn new() -> (r: RingBuffer)
        ensures
            r.wf(),
            r@ =~= Seq::<Seq<u8>>::empty(),
            r.spec_header().is_reset(0),
            r.spec_drop_total() == 0,
    {
        let mut storage: Vec<u8> = Vec::new();
        while storage.len() < RING_CAPACITY
            invariant
                storage@.len() <= RING_CAPACITY as int,
            decreases RING_CAPACITY as int - storage@.len(),
        {
            storage.push(0);
        }
        RingBuffer {
            header: RingHeader {
                write_pos: 0,
                read_pos: 0,
                message_count: 0,
                drop_count: 0,
                sequence: 0,
                connection_gen: 0,
                handshake_state: crate::constants::HANDSHAKE_IDLE,
            },
            storage,
            messages: Ghost(Seq::empty()),
            drops: Ghost(0),
        }
    }

    /// Ring capacity in bytes.
    pub fn capacity(&self) -> (r: u32)
        ensures
            r as int == RING_CAPACITY as int,
    {
        RING_CAPACITY as u32
    }

    /// Zero the header for a new connection generation; queued messages are
    /// gone after a reset.
    pub fn reset(&mut self, generation: u32)
        requires
            old(self).wf(),
        ensures
            final(self).wf(),
            final(self)@ =~= Seq::<Seq<u8>>::empty(),
            final(self).spec_header().is_reset(generation),
            final(self).spec_drop_total() == 0,
    {
        self.header.reset(generation);
        proof {
            self.messages@ = Seq::empty();
            self.drops@ = 0;
        }
    }

    /// How many messages are queued right now.
    pub fn message_count(&self) -> (r: u32)
        requires
            self.wf(),
        ensures
            r as int == self@.len(),
    {
        self.header.message_count
    }

    /// The drop counter: total discarded messages, truncated to 32 bits.
    pub fn drop_count(&self) -> (r: u32)
        requires
            self.wf(),
        ensures
            r as int == self.spec_drop_total() % 0x1_0000_0000,
    {
        self.header.drop_count
    }

    /// Whether no message is queued.
    pub fn is_empty(&self) -> (r: bool)
        requires
            self.wf(),
        ensures
            r == (self@.len() == 0),
    {
        self.header.message_count == 0
    }

    /// The connection generation stamped into this ring's header.
    pub fn connection_gen(&self) -> (r: u32)
        ensures
            r == self.spec_header().connection_gen,
    {
        self.header.connection_gen
    }

    /// The handshake state word of this ring's header.
    pub fn handshake_state(&self) -> (r: u32)
        ensures
            r == self.spec_header().handshake_state,
    {
        self.header.handshake_state
    }

    /// Overwrite the handshake state word; nothing else moves.
    pub fn set_handshake_state(&mut self, state: u32)
        requires
            old(self).wf(),
        ensures
            final(self).wf(),
            final(self)@ == old(self)@,
            final(self).spec_drop_total() == old(self).spec_drop_total(),
            final(self).spec_header() == (RingHeader {
                handshake_state: state,
                ..old(self).spec_header()
            }),
    {
        self.header.handshake_state = state;
    }

    /// Overwrite the connection generation word; nothing else moves.
    pub fn set_connection_gen(&mut self, generation: u32)
        requires
            old(self).wf(),
        ensures
            final(self).wf(),
            final(self)@ == old(self)@,
            final(self).spec_drop_total() == old(self).spec_drop_total(),
            final(self).spec_header() == (RingHeader {
                connection_gen: generation,
                ..old(self).spec_header()
            }),
    {
        self.header.connection_gen = generation;
    }

    /// Storage index of a ring position.
    fn mask_index(&self, pos: u32) -> (r: usize)
        ensures
            r as int == ring_index(pos, 0),
            r < RING_CAPACITY,
    {
        proof {
            lemma_mask(pos);
            lemma_index_bound(pos, 0);
        }
        (pos & RING_MASK) as usize
    }

    /// Free bytes between the cursors, from the capacity downward.
    fn available_bytes(&self, write: u32, read: u32) -> (r: i64)
        ensures
            r == RING_CAPACITY as int - used_of(write, read),
    {
        proof {
            lemma_wrapping_sub(write, read);
            lemma_used_bound(write, read);
        }
        RING_CAPACITY as i64 - write.wrapping_sub(read) as i64
    }

    /// Whether a message of `total` bytes cannot be stored without discarding.
    fn needs_discard(&self, total: u32) -> (r: bool)
        requires
            self.wf(),
        ensures
            r == !fits(self@, total as int),
    {
        let write = self.header.write_pos;
        let read = self.header.read_pos;
        let available = self.available_bytes(write, read);
        available < total as i64 || self.header.message_count >= MAX_MESSAGES
    }

    /// Copy `data` into storage starting at ring position `start`, wrapping
    /// at the end; bytes outside the written window stay as they were.
    fn copy_into_wrapped(&mut self, start: u32, data: &[u8])
        requires
            old(self).storage@.len() == RING_CAPACITY as int,
            data@.len() <= RING_CAPACITY as int,
        ensures
            final(self).header == old(self).header,
            final(self).messages == old(self).messages,
            final(self).drops == old(self).drops,
            final(self).storage@.len() == RING_CAPACITY as int,
            forall|i: int|
                0 <= i < data@.len() ==> final(self).storage@[ring_index(start, i)] == data@[i],
            forall|o: int|
                data@.len() <= o < RING_CAPACITY as int ==> final(self).storage@[ring_index(
                    start,
                    o,
                )] == old(self).storage@[ring_index(start, o)],
    {
        let ghost orig = self.storage@;
        let mut i: usize = 0;
        while i < data.len()
            invariant
                i <= data@.len() <= RING_CAPACITY as int,
                self.header == old(self).header,
                self.messages == old(self).messages,
                self.drops == old(self).drops,
                self.storage@.len() == RING_CAPACITY as int,
                orig == old(self).storage@,
                forall|k: int| 0 <= k < i ==> self.storage@[ring_index(start, k)] == data@[k],
                forall|o: int|
                    i <= o < RING_CAPACITY as int ==> self.storage@[ring_index(start, o)]
                        == orig[ring_index(start, o)],
            decreases data@.len() - i,
        {
            let idx = self.mask_index(start.wrapping_add(i as u32));
            proof {
                lemma_wrapping_add(start, i as u32);
                lemma_index_add(start, i as int, 0);
                assert(idx as int == ring_index(start, i as int));
            }
            let ghost before = self.storage@;
            let b = data[i];
            self.storage[idx] = b;
            proof {
                assert forall|k: int| 0 <= k < i + 1 implies self.storage@[ring_index(start, k)]
                    == data@[k] by {
                    if k < i {
                        lemma_index_distinct(start, k, i as int);
                        assert(self.storage@[ring_index(start, k)] == before[ring_index(start, k)]);
                    }
                }
                assert forall|o: int| i + 1 <= o < RING_CAPACITY as int implies self.storage@[
                    ring_index(start, o)
                ] == orig[ring_index(start, o)] by {
                    lemma_index_distinct(start, i as int, o);
                    assert(self.storage@[ring_index(start, o)] == before[ring_index(start, o)]);
                }
            }
            i = i + 1;
        }
    }

    /// Copy `len` bytes out of storage from ring position `start` into `out`,
    /// replacing its contents.
    fn copy_from_wrapped(&self, start: u32, len: usize, out: &mut Vec<u8>)
        requires
            self.storage@.len() == RING_CAPACITY as int,
            len <= RING_CAPACITY,
        ensures
            final(out)@.len() == len as int,
            forall|i: int| 0 <= i < len ==> final(out)@[i] == self.storage@[ring_index(start, i)],
    {
        out.clear();
        let mut i: usize = 0;
        while i < len
            invariant
                i <= len <= RING_CAPACITY,
                self.storage@.len() == RING_CAPACITY as int,
                out@.len() == i as int,
                forall|k: int| 0 <= k < i ==> out@[k] == self.storage@[ring_index(start, k)],
            decreases len - i,
        {
            let idx = self.mask_index(start.wrapping_add(i as u32));
            proof {
                lemma_wrapping_add(start, i as u32);
                lemma_index_add(start, i as int, 0);
            }
            let b = self.storage[idx];
            out.push(b);
            i = i + 1;
        }
    }

    /// Read the stored sixteen-bit length at ring position `pos`.
    fn read_len_at(&self, pos: u32) -> (r: u16)
        requires
            self.storage@.len() == RING_CAPACITY as int,
        ensures
            r as int == self.storage@[ring_index(pos, 0)] as int + 256 * (self.storage@[ring_index(
                pos,
                1,
            )] as int),
    {
        let i0 = self.mask_index(pos);
        let i1 = self.mask_index(pos.wrapping_add(1));
        proof {
            lemma_wrapping_add(pos, 1);
            lemma_index_add(pos, 1, 0);
        }
        let b0 = self.storage[i0];
        let b1 = self.storage[i1];
        b0 as u16 + (b1 as u16) * 256
    }

    /// Drop the oldest queued message: advance the read cursor past it and
    /// count the drop.  Fails only on an empty ring.
    fn discard_oldest(&mut self) -> (r: Result<(), ShmError>)
        requires
            old(self).wf(),
        ensures
            final(self).wf(),
            old(self)@.len() == 0 ==> r == Err::<(), ShmError>(ShmError::QueueEmpty)
                && *final(self) == *old(self),
            old(self)@.len() > 0 ==> {
                &&& r is Ok
                &&& final(self)@ == old(self)@.drop_first()
                &&& final(self).spec_drop_total() == old(self).spec_drop_total() + 1
                &&& final(self).spec_header().write_pos == old(self).spec_header().write_pos
                &&& final(self).spec_header().read_pos == pos_add(
                    old(self).spec_header().read_pos,
                    msg_total(old(self)@[0]),
                )
                &&& final(self).spec_header().sequence == old(self).spec_header().sequence
                &&& final(self).spec_header().connection_gen == old(
                    self,
                ).spec_header().connection_gen
                &&& final(self).spec_header().handshake_state == old(
                    self,
                ).spec_header().handshake_state
            },
    {
        let read = self.header.read_pos;
        let write = self.header.write_pos;
        if read == write {
            proof {
                lemma_used_zero(write, read);
                assert(used_of(write, read) == 0);
                lemma_msgs_total_bounds(self.messages@);
                if self.messages@.len() > 0 {
                    assert(msgs_total(self.messages@) >= MESSAGE_HEADER_SIZE as int);
                }
            }
            return Err(ShmError::QueueEmpty);
        }
        proof {
            lemma_used_zero(write, read);
            assert(self.messages@.len() > 0);
        }
        let ghost msgs = self.messages@;
        let ghost m0 = msgs[0];
        let msg_len = self.read_len_at(read) as usize;
        proof {
            lemma_len_bytes(m0.len() as int);
            assert(msg_len as int == m0.len());
        }
        let total = MESSAGE_HEADER_SIZE + msg_len;
        let new_read = read.wrapping_add(total as u32);
        proof {
            lemma_wrapping_add(read, total as u32);
            lemma_msgs_total_bounds(msgs.drop_first());
            assert(msg_total(m0) <= used_of(write, read));
            lemma_used_sub_front(write, read, total as int);
        }
        self.header.read_pos = new_read;
        self.header.message_count = self.header.message_count - 1;
        let new_drop_count = self.header.drop_count.wrapping_add(1);
        proof {
            lemma_wrapping_add(self.header.drop_count, 1);
            lemma_mod_shift(self.drops@ as int, 1, 0x1_0000_0000);
        }
        self.header.drop_count = new_drop_count;
        proof {
            self.messages@ = msgs.drop_first();
            self.drops@ = self.drops@ + 1;
            lemma_mod_bound(self.drops@ as int, 0x1_0000_0000);
        }
        Ok(())
    }

    /// Store `payload` as the newest message.  Payloads outside the accepted
    /// size range are rejected; otherwise just enough oldest messages are
    /// discarded (counted in the outcome and in the drop counter) and the
    /// payload is appended.  The cursors, the storage and the ghost queue all
    /// move together, so the ring stays well formed.
    pub fn write_message(&mut self, payload: &[u8]) -> (r: Result<WriteOutcome, ShmError>)
        requires
            old(self).wf(),
        ensures
            write_spec(*old(self), *final(self), payload@, r),
    {
        if payload.len() < MIN_MESSAGE_SIZE {
            return Err(ShmError::MessageTooSmall);
        }
        if payload.len() > MAX_MESSAGE_SIZE {
            return Err(ShmError::MessageTooLarge);
        }
        let total_required = (MESSAGE_HEADER_SIZE + payload.len()) as u32;
        if total_required > self.capacity() {
            return Err(ShmError::MessageTooLarge);
        }
        let ghost orig_msgs = self.messages@;
        let ghost need = msg_total(payload@);
        let mut overwritten: u32 = 0;
        proof {
            assert(orig_msgs.take(0) =~= Seq::<Seq<u8>>::empty());
            lemma_pos_add_zero(self.header.read_pos);
        }

        while self.needs_discard(total_required)
            invariant
                self.wf(),
                payload@.len() == total_required - MESSAGE_HEADER_SIZE,
                MIN_MESSAGE_SIZE as int <= payload@.len() <= MAX_MESSAGE_SIZE as int,
                need == total_required as int,
                overwritten as int <= orig_msgs.len(),
                orig_msgs.len() <= MAX_MESSAGES as int,
                self@ == orig_msgs.skip(overwritten as int),
                self.spec_drop_total() == old(self).spec_drop_total() + overwritten as int,
                self.spec_header().write_pos == old(self).spec_header().write_pos,
                self.spec_header().read_pos == pos_add(
                    old(self).spec_header().read_pos,
                    msgs_total(orig_msgs.take(overwritten as int)),
                ),
                self.spec_header().sequence == old(self).spec_header().sequence,
                self.spec_header().connection_gen == old(self).spec_header().connection_gen,
                self.spec_header().handshake_state == old(self).spec_header().handshake_state,
                drops_needed(orig_msgs, need) == overwritten as int + drops_needed(self@, need),
                old(self)@ == orig_msgs,
            decreases self@.len(),
        {
            if self.message_count() == 0 {
                proof {
                    assert(msgs_total(self@) == 0);
                    assert(!fits(self@, need));
                    assert(false);
                }
                return Err(ShmError::MessageTooLarge);
            }
            let ghost before = self@;
            let _ = self.discard_oldest();
            proof {
                assert(before.len() > 0);
                assert(!fits(before, need));
                assert(drops_needed(before, need) == 1 + drops_needed(before.drop_first(), need));
                assert(orig_msgs.skip(overwritten as int).drop_first() =~= orig_msgs.skip(
                    overwritten as int + 1,
                ));
                assert(before[0] == orig_msgs[overwritten as int]);
                lemma_pos_add_assoc(
                    old(self).spec_header().read_pos,
                    msgs_total(orig_msgs.take(overwritten as int)),
                    msg_total(orig_msgs[overwritten as int]),
                );
                lemma_msgs_total_take_one(orig_msgs, overwritten as int);
            }
            overwritten = overwritten + 1;
        }

        let ghost msgs = self.messages@;
        let ghost s1 = self.storage@;
        let write = self.header.write_pos;
        let read = self.header.read_pos;
        let ghost used = used_of(write, read);
        proof {
            assert(fits(msgs, need));
            lemma_write_from_used(write, read);
        }

        let mut frame: Vec<u8> = Vec::new();
        frame.push((payload.len() % 256) as u8);
        frame.push(((payload.len() / 256) % 256) as u8);
        frame.push(0);
        frame.push(0);
        self.copy_into_wrapped(write, frame.as_slice());
        let ghost s2 = self.storage@;
        let payload_start = write.wrapping_add(MESSAGE_HEADER_SIZE as u32);
        proof {
            lemma_wrapping_add(write, MESSAGE_HEADER_SIZE as u32);
        }
        self.copy_into_wrapped(payload_start, payload);
        let ghost s3 = self.storage@;

        proof {
            let cap = RING_CAPACITY as int;
            let hdr = MESSAGE_HEADER_SIZE as int;
            let plen = payload@.len() as int;
            // The new message is stored at the write cursor.
            assert forall|i: int| 0 <= i < plen implies s3[ring_index(write, hdr + i)]
                == payload@[i] by {
                lemma_index_add(write, hdr, i);
            }
            assert(s3[ring_index(payload_start, cap - hdr)] == s2[ring_index(
                payload_start,
                cap - hdr,
            )]);
            assert(s3[ring_index(payload_start, cap - hdr + 1)] == s2[ring_index(
                payload_start,
                cap - hdr + 1,
            )]);
            assert(s3[ring_index(payload_start, cap - hdr + 2)] == s2[ring_index(
                payload_start,
                cap - hdr + 2,
            )]);
            assert(s3[ring_index(payload_start, cap - hdr + 3)] == s2[ring_index(
                payload_start,
                cap - hdr + 3,
            )]);
            lemma_index_add(write, hdr, cap - hdr);
            lemma_index_add(write, hdr, cap - hdr + 1);
            lemma_index_add(write, hdr, cap - hdr + 2);
            lemma_index_add(write, hdr, cap - hdr + 3);
            lemma_index_wrap(write, 0);
            lemma_index_wrap(write, 1);
            lemma_index_wrap(write, 2);
            lemma_index_wrap(write, 3);
            assert(s3[ring_index(write, 0)] == s2[ring_index(write, 0)]);
            assert(s3[ring_index(write, 1)] == s2[ring_index(write, 1)]);
            assert(s3[ring_index(write, 2)] == s2[ring_index(write, 2)]);
            assert(s3[ring_index(write, 3)] == s2[ring_index(write, 3)]);
            assert(s2[ring_index(write, 0)] == frame@[0]);
            assert(s2[ring_index(write, 1)] == frame@[1]);
            assert(s2[ring_index(write, 2)] == frame@[2]);
            assert(s2[ring_index(write, 3)] == frame@[3]);
            lemma_len_bytes(plen);
            assert(msg_stored_at(s3, write, payload@));

            // The queued messages keep their bytes under both copies.
            assert forall|o: int| 0 <= o < msgs_total(msgs) implies s3[ring_index(read, o)] == s1[
                ring_index(read, o)
            ] by {
                lemma_index_add(read, used, o - used + cap);
                lemma_index_wrap(read, o);
                assert(ring_index(write, o - used + cap) == ring_index(read, o));
                assert(hdr <= o - used + cap < cap);
                assert(s2[ring_index(read, o)] == s1[ring_index(read, o)]);
                lemma_index_add(write, hdr, o - used - hdr + cap);
                assert(ring_index(payload_start, o - used - hdr + cap) == ring_index(
                    write,
                    o - used + cap,
                ));
                assert(plen <= o - used - hdr + cap < cap);
                assert(s3[ring_index(read, o)] == s2[ring_index(read, o)]);
            }
            lemma_stored_agree(s1, s3, read, msgs);
            lemma_stored_snoc(s3, read, msgs, payload@);
            lemma_msgs_total_push(msgs, payload@);
        }

        let prev_count = self.header.message_count;
        self.header.message_count = prev_count + 1;
        let new_write = write.wrapping_add(total_required);
        proof {
            lemma_wrapping_add(write, total_required);
            lemma_used_add(write, read, need);
        }
        self.header.write_pos = new_write;
        if prev_count == 0 {
            self.header.sequence = self.header.sequence.wrapping_add(1);
        }
        proof {
            self.messages@ = msgs.push(payload@);
            assert(orig_msgs.skip(overwritten as int).push(payload@) == self.messages@);
        }
        Ok(WriteOutcome { overwritten, was_empty: prev_count == 0 })
    }

    /// Hand out the oldest queued message: its bytes replace `out`'s contents
    /// and its length is returned.  On an empty ring nothing changes and
    /// `QueueEmpty` is reported, so repeated reads on an empty ring are
    /// idempotent.
    pub fn read_message(&mut self, out: &mut Vec<u8>) -> (r: Result<usize, ShmError>)
        requires
            old(self).wf(),
        ensures
            read_spec(*old(self), *final(self), *old(out), *final(out), r),
    {
        if self.header.message_count == 0 {
            return Err(ShmError::QueueEmpty);
        }
        let ghost msgs = self.messages@;
        let ghost m0 = msgs[0];
        let read = self.header.read_pos;
        let msg_len = self.read_len_at(read) as usize;
        proof {
            lemma_len_bytes(m0.len() as int);
            assert(msg_len as int == m0.len());
        }
        if msg_len < MIN_MESSAGE_SIZE || msg_len > MAX_MESSAGE_SIZE {
            proof {
                assert(false);
            }
            return Err(ShmError::Corrupted);
        }
        let payload_start = read.wrapping_add(MESSAGE_HEADER_SIZE as u32);
        proof {
            lemma_wrapping_add(read, MESSAGE_HEADER_SIZE as u32);
        }
        self.copy_from_wrapped(payload_start, msg_len, out);
        proof {
            assert forall|i: int| 0 <= i < m0.len() implies out@[i] == m0[i] by {
                lemma_index_add(read, MESSAGE_HEADER_SIZE as int, i);
                assert(ring_index(payload_start, i) == ring_index(
                    read,
                    MESSAGE_HEADER_SIZE as int + i,
                ));
            }
            assert(out@ =~= m0);
        }
        let total = MESSAGE_HEADER_SIZE + msg_len;
        let new_read = read.wrapping_add(total as u32);
        proof {
            lemma_wrapping_add(read, total as u32);
            lemma_msgs_total_bounds(msgs.drop_first());
            assert(msg_total(m0) <= used_of(self.header.write_pos, read));
            lemma_used_sub_front(self.header.write_pos, read, total as int);
        }
        self.header.read_pos = new_read;
        let prev_count = self.header.message_count;
        self.header.message_count = prev_count - 1;
        if prev_count <= 1 {
            self.header.sequence = self.header.sequence.wrapping_add(1);
        }
        proof {
            self.messages@ = msgs.drop_first();
        }
        Ok(msg_len)
    }
}

/// The used byte count of a well-formed ring lies between zero and the
/// capacity, and is exactly the bytes its queued messages occupy.
pub proof fn lemma_used_bytes_bounded(rb: RingBuffer)
    requires
        rb.wf(),
    ensures
        0 <= used_of(rb.spec_header().write_pos, rb.spec_header().read_pos)
            <= RING_CAPACITY as int,
        used_of(rb.spec_header().write_pos, rb.spec_header().read_pos) == msgs_total(rb@),
{
    lemma_msgs_total_bounds(rb@);
}

/// The message count of a well-formed ring counts its queue and never
/// exceeds the limit.
pub proof fn lemma_message_count_bounded(rb: RingBuffer)
    requires
        rb.wf(),
    ensures
        rb.spec_header().message_count as int == rb@.len(),
        rb.spec_header().message_count <= MAX_MESSAGES,
{
}

/// The ring is empty exactly when its count is zero, exactly when its two
/// cursors coincide.
pub proof fn lemma_empty_iff(rb: RingBuffer)
    requires
        rb.wf(),
    ensures
        (rb@.len() == 0) <==> (rb.spec_header().message_count == 0),
        (rb.spec_header().message_count == 0) <==> (rb.spec_header().read_pos
            == rb.spec_header().write_pos),
{
    lemma_msgs_total_bounds(rb@);
    lemma_used_zero(rb.spec_header().write_pos, rb.spec_header().read_pos);
    if rb@.len() > 0 {
        assert(msgs_total(rb@) >= MESSAGE_HEADER_SIZE as int * rb@.len());
    }
}

/// The oldest queued message of a well-formed ring is stored at the read
/// cursor with a length inside the accepted range.
pub proof fn lemma_head_length_valid(rb: RingBuffer)
    requires
        rb.wf(),
        rb@.len() > 0,
    ensures
        valid_payload_len(rb@[0].len() as int),
        msg_stored_at(rb.spec_storage(), rb.spec_header().read_pos, rb@[0]),
{
}

/// The drop counter is monotone: a write grows the total by exactly the
/// messages it overwrote, and never shrinks it.  (A read leaves the total
/// unchanged, as `read_spec` states directly.)
pub proof fn lemma_drop_total_monotonic(
    pre: RingBuffer,
    post: RingBuffer,
    payload: Seq<u8>,
    r: Result<WriteOutcome, ShmError>,
)
    requires
        write_spec(pre, post, payload, r),
    ensures
        post.spec_drop_total() >= pre.spec_drop_total(),
{
}

/// A message that fits — a message slot free and enough bytes available —
/// is written without discarding anything.
pub proof fn lemma_fit_writes_without_overwrite(msgs: Seq<Seq<u8>>, need: int)
    requires
        fits(msgs, need),
    ensures
        drops_needed(msgs, need) == 0,
        msgs.skip(0) == msgs,
{
    assert(msgs.skip(0) =~= msgs);
}

/// Round trip: a write of `payload` onto an empty ring makes the queue
/// exactly `[payload]`, so the read that follows hands out `payload` itself
/// and leaves the ring empty again.
pub proof fn lemma_write_read_roundtrip(payload: Seq<u8>)
    ensures
        Seq::<Seq<u8>>::empty().push(payload)[0] == payload,
        Seq::<Seq<u8>>::empty().push(payload).drop_first() == Seq::<Seq<u8>>::empty(),
{
    assert(Seq::<Seq<u8>>::empty().push(payload).drop_first() =~= Seq::<Seq<u8>>::empty());
}

/// The queue that a sequence of writes without overwrite builds, one
/// appended payload at a time, as `write_spec` states each step.
pub open spec fn queued_in_order(written: Seq<Seq<u8>>) -> Seq<Seq<u8>>
    decreases written.len(),
{
    if written.len() == 0 {
        Seq::empty()
    } else {
        queued_in_order(written.drop_last()).push(written.last())
    }
}

/// FIFO order, the general law: payloads written in order onto an empty
/// ring without overwrite queue up as exactly the written sequence, and
/// once `taken` of them have been read — each read taking the head, as
/// `read_spec` states — the next read hands out `written[taken]` and leaves
/// the later ones queued in order.  So `n` writes followed by `n` reads
/// return the payloads in exactly the order they were written.
pub proof fn lemma_fifo_order(written: Seq<Seq<u8>>, taken: int)
    requires
        0 <= taken < written.len(),
    ensures
        queued_in_order(written) == written,
        written.skip(taken)[0] == written[taken],
        written.skip(taken).drop_first() == written.skip(taken + 1),
{
    lemma_queued_in_order(written);
    assert(written.skip(taken).drop_first() =~= written.skip(taken + 1));
}

/// Appending payloads one by one builds exactly the appended sequence.
proof fn lemma_queued_in_order(written: Seq<Seq<u8>>)
    ensures
        queued_in_order(written) == written,
    decreases written.len(),
{
    if written.len() == 0 {
        assert(queued_in_order(written) =~= written);
    } else {
        lemma_queued_in_order(written.drop_last());
        assert(written.drop_last().push(written.last()) =~= written);
    }
}

} // verus!
