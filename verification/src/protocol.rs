//! The binary registration protocol spoken over the dispatch lobby ring:
//! a client sends a `RegistrationRequest`, the server answers with a
//! `RegistrationResponse` carrying the private channel it assigned.
//! Everything is little-endian; names are raw bytes, at most 64 of them.

use vstd::arithmetic::div_mod::{
    lemma_div_denominator, lemma_div_pos_is_pos, lemma_fundamental_div_mod, lemma_small_mod,
};
use vstd::prelude::*;

use crate::error::ShmError;

verus! {

/// Magic in front of every lobby frame ("DISP").
pub const DISPATCH_MAGIC: u32 = 0x5053_4944;

/// Version byte of the lobby protocol.
pub const DISPATCH_VERSION: u8 = 1;

/// Frame type byte of a registration request.
pub const MSG_TYPE_REQUEST: u8 = 1;

/// Frame type byte of a registration response.
pub const MSG_TYPE_RESPONSE: u8 = 2;

/// Longest name carried in either frame.
pub const MAX_NAME_LEN: usize = 64;

/// Response status: the server accepted the registration.
pub const STATUS_OK: u8 = 0;

/// Response status: the server rejected the registration.
pub const STATUS_REJECTED: u8 = 1;

/// What a client sends while registering at the lobby.
#[derive(Debug, Clone)]
pub struct RegistrationRequest {
    pub pid: u32,
    pub bits: u8,
    pub revision: u16,
    pub name: Vec<u8>,
}

/// What the server answers after processing a registration.
#[derive(Debug, Clone)]
pub struct RegistrationResponse {
    pub status: u8,
    pub client_id: u32,
    pub channel_name: Vec<u8>,
}

/// The four little-endian bytes of a 32-bit value.
pub open spec fn le32(x: u32) -> Seq<u8> {
    seq![
        (x as int % 256) as u8,
        (x as int / 256 % 256) as u8,
        (x as int / 0x1_0000 % 256) as u8,
        (x as int / 0x100_0000 % 256) as u8,
    ]
}

/// The two little-endian bytes of a 16-bit value.
pub open spec fn le16(x: u16) -> Seq<u8> {
    seq![(x as int % 256) as u8, (x as int / 256 % 256) as u8]
}

/// The 32-bit value stored little-endian at offset `i`.
pub open spec fn u32_at(data: Seq<u8>, i: int) -> u32 {
    (data[i] as int + 256 * data[i + 1] as int + 0x1_0000 * data[i + 2] as int + 0x100_0000 * data[
        i + 3
    ] as int) as u32
}

/// The 16-bit value stored little-endian at offset `i`.
pub open spec fn u16_at(data: Seq<u8>, i: int) -> u16 {
    (data[i] as int + 256 * data[i + 1] as int) as u16
}

/// A name as it goes on the wire: clipped to the longest allowed length.
pub open spec fn clipped(name: Seq<u8>) -> Seq<u8> {
    if name.len() <= MAX_NAME_LEN as int {
        name
    } else {
        name.take(MAX_NAME_LEN as int)
    }
}

/// The encoded form of a registration request.
pub open spec fn spec_encode_request(req: RegistrationRequest) -> Seq<u8> {
    le32(DISPATCH_MAGIC) + seq![DISPATCH_VERSION, MSG_TYPE_REQUEST] + le32(req.pid)
        + seq![req.bits] + le16(req.revision) + seq![clipped(req.name@).len() as u8] + clipped(
        req.name@,
    )
}

/// The encoded form of a registration response.
pub open spec fn spec_encode_response(resp: RegistrationResponse) -> Seq<u8> {
    le32(DISPATCH_MAGIC) + seq![DISPATCH_VERSION, MSG_TYPE_RESPONSE, resp.status] + le32(
        resp.client_id,
    ) + seq![clipped(resp.channel_name@).len() as u8] + clipped(resp.channel_name@)
}

/// Push the four little-endian bytes of `x` onto `buf`.
fn push_le32(buf: &mut Vec<u8>, x: u32)
    ensures
        final(buf)@ == old(buf)@ + le32(x),
{
    let ghost orig = buf@;
    buf.push((x % 256) as u8);
    buf.push((x / 256 % 256) as u8);
    buf.push((x / 0x1_0000 % 256) as u8);
    buf.push((x / 0x100_0000 % 256) as u8);
    proof {
        assert(buf@ =~= orig + le32(x));
    }
}

/// Push the two little-endian bytes of `x` onto `buf`.
fn push_le16(buf: &mut Vec<u8>, x: u16)
    ensures
        final(buf)@ == old(buf)@ + le16(x),
{
    let ghost orig = buf@;
    buf.push((x % 256) as u8);
    buf.push((x / 256 % 256) as u8);
    proof {
        assert(buf@ =~= orig + le16(x));
    }
}

/// Push the first `n` bytes of `name` onto `buf`.
fn push_bytes(buf: &mut Vec<u8>, name: &[u8], n: usize)
    requires
        n <= name@.len(),
    ensures
        final(buf)@ == old(buf)@ + name@.take(n as int),
{
    let ghost orig = buf@;
    let mut i: usize = 0;
    while i < n
        invariant
            i <= n <= name@.len(),
            buf@ == orig + name@.take(i as int),
        decreases n - i,
    {
        let b = name[i];
        buf.push(b);
        proof {
            assert(orig + name@.take(i as int) + seq![name@[i as int]] =~= orig + name@.take(
                i as int + 1,
            ));
        }
        i = i + 1;
    }
}

/// Encode a registration request into bytes, clipping the name to the
/// longest allowed length.
pub fn encode_request(req: &RegistrationRequest) -> (r: Vec<u8>)
    ensures
        r@ == spec_encode_request(*req),
{
    let name_len = if req.name.len() < MAX_NAME_LEN {
        req.name.len()
    } else {
        MAX_NAME_LEN
    };
    let mut buf: Vec<u8> = Vec::new();
    push_le32(&mut buf, DISPATCH_MAGIC);
    buf.push(DISPATCH_VERSION);
    buf.push(MSG_TYPE_REQUEST);
    push_le32(&mut buf, req.pid);
    buf.push(req.bits);
    push_le16(&mut buf, req.revision);
    buf.push(name_len as u8);
    push_bytes(&mut buf, req.name.as_slice(), name_len);
    proof {
        assert(clipped(req.name@) =~= req.name@.take(name_len as int));
        assert(buf@ =~= spec_encode_request(*req));
    }
    buf
}

/// Encode a registration response into bytes, clipping the channel name to
/// the longest allowed length.
pub fn encode_response(resp: &RegistrationResponse) -> (r: Vec<u8>)
    ensures
        r@ == spec_encode_response(*resp),
{
    let name_len = if resp.channel_name.len() < MAX_NAME_LEN {
        resp.channel_name.len()
    } else {
        MAX_NAME_LEN
    };
    let mut buf: Vec<u8> = Vec::new();
    push_le32(&mut buf, DISPATCH_MAGIC);
    buf.push(DISPATCH_VERSION);
    buf.push(MSG_TYPE_RESPONSE);
    buf.push(resp.status);
    push_le32(&mut buf, resp.client_id);
    buf.push(name_len as u8);
    push_bytes(&mut buf, resp.channel_name.as_slice(), name_len);
    proof {
        assert(clipped(resp.channel_name@) =~= resp.channel_name@.take(name_len as int));
        assert(buf@ =~= spec_encode_response(*resp));
    }
    buf
}

/// Read the 32-bit little-endian value at offset `i`.
fn read_u32_at(data: &[u8], i: usize) -> (r: u32)
    requires
        i + 4 <= data@.len(),
    ensures
        r == u32_at(data@, i as int),
{
    let b0 = data[i] as u32;
    let b1 = data[i + 1] as u32;
    let b2 = data[i + 2] as u32;
    let b3 = data[i + 3] as u32;
    b0 + 256 * b1 + 0x1_0000 * b2 + 0x100_0000 * b3
}

/// Read the 16-bit little-endian value at offset `i`.
fn read_u16_at(data: &[u8], i: usize) -> (r: u16)
    requires
        i + 2 <= data@.len(),
    ensures
        r == u16_at(data@, i as int),
{
    let b0 = data[i] as u16;
    let b1 = data[i + 1] as u16;
    b0 + 256 * b1
}

/// Copy `data[from .. from + n]` into a fresh vector.
fn copy_range(data: &[u8], from: usize, n: usize) -> (r: Vec<u8>)
    requires
        from + n <= data@.len(),
    ensures
        r@ == data@.subrange(from as int, from as int + n as int),
{
    let dlen = data.len();
    let mut out: Vec<u8> = Vec::new();
    let mut i: usize = 0;
    while i < n
        invariant
            i <= n,
            from + n <= dlen,
            dlen == data@.len(),
            out@ == data@.subrange(from as int, from as int + i as int),
        decreases n - i,
    {
        let b = data[from + i];
        out.push(b);
        proof {
            assert(data@.subrange(from as int, from as int + i as int) + seq![
                data@[from as int + i as int],
            ] =~= data@.subrange(from as int, from as int + i as int + 1));
        }
        i = i + 1;
    }
    out
}

/// Decode a registration request.  Each error names what was wrong: a frame
/// too short for its fixed part or its name, a wrong magic, or a wrong
/// version or frame type.
pub fn decode_request(data: &[u8]) -> (r: Result<RegistrationRequest, ShmError>)
    ensures
        data@.len() < 14 ==> r == Err::<RegistrationRequest, ShmError>(ShmError::MessageTooSmall),
        data@.len() >= 14 ==> {
            let name_len = data@[13] as int;
            &&& (u32_at(data@, 0) != DISPATCH_MAGIC ==> r == Err::<RegistrationRequest, ShmError>(
                ShmError::Corrupted,
            ))
            &&& (u32_at(data@, 0) == DISPATCH_MAGIC && data@[4] != DISPATCH_VERSION ==> r == Err::<
                RegistrationRequest,
                ShmError,
            >(ShmError::HandshakeFailed))
            &&& (u32_at(data@, 0) == DISPATCH_MAGIC && data@[4] == DISPATCH_VERSION && data@[5]
                != MSG_TYPE_REQUEST ==> r == Err::<RegistrationRequest, ShmError>(
                ShmError::HandshakeFailed,
            ))
            &&& (u32_at(data@, 0) == DISPATCH_MAGIC && data@[4] == DISPATCH_VERSION && data@[5]
                == MSG_TYPE_REQUEST && data@.len() < 14 + name_len ==> r == Err::<
                RegistrationRequest,
                ShmError,
            >(ShmError::MessageTooSmall))
            &&& (u32_at(data@, 0) == DISPATCH_MAGIC && data@[4] == DISPATCH_VERSION && data@[5]
                == MSG_TYPE_REQUEST && data@.len() >= 14 + name_len ==> {
                &&& r is Ok
                &&& r->Ok_0.pid == u32_at(data@, 6)
                &&& r->Ok_0.bits == data@[10]
                &&& r->Ok_0.revision == u16_at(data@, 11)
                &&& r->Ok_0.name@ == data@.subrange(14, 14 + name_len)
            })
        },
{
    if data.len() < 14 {
        return Err(ShmError::MessageTooSmall);
    }
    let magic = read_u32_at(data, 0);
    if magic != DISPATCH_MAGIC {
        return Err(ShmError::Corrupted);
    }
    if data[4] != DISPATCH_VERSION {
        return Err(ShmError::HandshakeFailed);
    }
    if data[5] != MSG_TYPE_REQUEST {
        return Err(ShmError::HandshakeFailed);
    }
    let pid = read_u32_at(data, 6);
    let bits = data[10];
    let revision = read_u16_at(data, 11);
    let name_len = data[13] as usize;
    if data.len() < 14 + name_len {
        return Err(ShmError::MessageTooSmall);
    }
    let name = copy_range(data, 14, name_len);
    Ok(RegistrationRequest { pid, bits, revision, name })
}

/// Decode a registration response, with the same error taxonomy as the
/// request decoder.
pub fn decode_response(data: &[u8]) -> (r: Result<RegistrationResponse, ShmError>)
    ensures
        data@.len() < 12 ==> r == Err::<RegistrationResponse, ShmError>(ShmError::MessageTooSmall),
        data@.len() >= 12 ==> {
            let name_len = data@[11] as int;
            &&& (u32_at(data@, 0) != DISPATCH_MAGIC ==> r == Err::<RegistrationResponse, ShmError>(
                ShmError::Corrupted,
            ))
            &&& (u32_at(data@, 0) == DISPATCH_MAGIC && data@[4] != DISPATCH_VERSION ==> r == Err::<
                RegistrationResponse,
                ShmError,
            >(ShmError::HandshakeFailed))
            &&& (u32_at(data@, 0) == DISPATCH_MAGIC && data@[4] == DISPATCH_VERSION && data@[5]
                != MSG_TYPE_RESPONSE ==> r == Err::<RegistrationResponse, ShmError>(
                ShmError::HandshakeFailed,
            ))
            &&& (u32_at(data@, 0) == DISPATCH_MAGIC && data@[4] == DISPATCH_VERSION && data@[5]
                == MSG_TYPE_RESPONSE && data@.len() < 12 + name_len ==> r == Err::<
                RegistrationResponse,
                ShmError,
            >(ShmError::MessageTooSmall))
            &&& (u32_at(data@, 0) == DISPATCH_MAGIC && data@[4] == DISPATCH_VERSION && data@[5]
                == MSG_TYPE_RESPONSE && data@.len() >= 12 + name_len ==> {
                &&& r is Ok
                &&& r->Ok_0.status == data@[6]
                &&& r->Ok_0.client_id == u32_at(data@, 7)
                &&& r->Ok_0.channel_name@ == data@.subrange(12, 12 + name_len)
            })
        },
{
    if data.len() < 12 {
        return Err(ShmError::MessageTooSmall);
    }
    let magic = read_u32_at(data, 0);
    if magic != DISPATCH_MAGIC {
        return Err(ShmError::Corrupted);
    }
    if data[4] != DISPATCH_VERSION {
        return Err(ShmError::HandshakeFailed);
    }
    if data[5] != MSG_TYPE_RESPONSE {
        return Err(ShmError::HandshakeFailed);
    }
    let status = data[6];
    let client_id = read_u32_at(data, 7);
    let name_len = data[11] as usize;
    if data.len() < 12 + name_len {
        return Err(ShmError::MessageTooSmall);
    }
    let channel_name = copy_range(data, 12, name_len);
    Ok(RegistrationResponse { status, client_id, channel_name })
}

/// The little-endian bytes of a 32-bit value decode back to it.
proof fn lemma_le32_roundtrip(x: u32)
    ensures
        u32_at(le32(x), 0) == x,
{
    let v = x as int;
    lemma_fundamental_div_mod(v, 256);
    lemma_fundamental_div_mod(v / 256, 256);
    lemma_fundamental_div_mod(v / 0x1_0000, 256);
    lemma_div_denominator(v, 256, 256);
    lemma_div_denominator(v, 0x1_0000, 256);
    lemma_div_pos_is_pos(v, 256);
    lemma_div_pos_is_pos(v / 256, 256);
    lemma_div_pos_is_pos(v / 0x1_0000, 256);
    assert(v / 0x100_0000 < 256) by (nonlinear_arith)
        requires
            0 <= v < 0x1_0000_0000,
    ;
    lemma_small_mod((v / 0x100_0000) as nat, 256);
}

/// The little-endian bytes of a 16-bit value decode back to it.
proof fn lemma_le16_roundtrip(x: u16)
    ensures
        u16_at(le16(x), 0) == x,
{
    let v = x as int;
    lemma_fundamental_div_mod(v, 256);
    lemma_div_pos_is_pos(v, 256);
    assert(v / 256 < 256) by (nonlinear_arith)
        requires
            0 <= v < 0x1_0000,
    ;
    lemma_small_mod((v / 256) as nat, 256);
}

/// Round trip of the request frame: decoding an encoded request recovers
/// every field, with the name clipped to the longest allowed length.
pub proof fn lemma_request_roundtrip(req: RegistrationRequest)
    ensures
        spec_encode_request(req).len() == 14 + clipped(req.name@).len(),
        u32_at(spec_encode_request(req), 0) == DISPATCH_MAGIC,
        spec_encode_request(req)[4] == DISPATCH_VERSION,
        spec_encode_request(req)[5] == MSG_TYPE_REQUEST,
        u32_at(spec_encode_request(req), 6) == req.pid,
        spec_encode_request(req)[10] == req.bits,
        u16_at(spec_encode_request(req), 11) == req.revision,
        spec_encode_request(req)[13] as int == clipped(req.name@).len(),
        spec_encode_request(req).subrange(14, 14 + clipped(req.name@).len() as int) == clipped(
            req.name@,
        ),
{
    let e = spec_encode_request(req);
    lemma_le32_roundtrip(DISPATCH_MAGIC);
    lemma_le32_roundtrip(req.pid);
    lemma_le16_roundtrip(req.revision);
    assert(e[0] == le32(DISPATCH_MAGIC)[0]);
    assert(e[1] == le32(DISPATCH_MAGIC)[1]);
    assert(e[2] == le32(DISPATCH_MAGIC)[2]);
    assert(e[3] == le32(DISPATCH_MAGIC)[3]);
    assert(e[6] == le32(req.pid)[0]);
    assert(e[7] == le32(req.pid)[1]);
    assert(e[8] == le32(req.pid)[2]);
    assert(e[9] == le32(req.pid)[3]);
    assert(e[11] == le16(req.revision)[0]);
    assert(e[12] == le16(req.revision)[1]);
    assert(e.subrange(14, 14 + clipped(req.name@).len() as int) =~= clipped(req.name@));
}

/// Round trip of the response frame: decoding an encoded response recovers
/// every field, with the channel name clipped to the longest allowed length.
pub proof fn lemma_response_roundtrip(resp: RegistrationResponse)
    ensures
        spec_encode_response(resp).len() == 12 + clipped(resp.channel_name@).len(),
        u32_at(spec_encode_response(resp), 0) == DISPATCH_MAGIC,
        spec_encode_response(resp)[4] == DISPATCH_VERSION,
        spec_encode_response(resp)[5] == MSG_TYPE_RESPONSE,
        spec_encode_response(resp)[6] == resp.status,
        u32_at(spec_encode_response(resp), 7) == resp.client_id,
        spec_encode_response(resp)[11] as int == clipped(resp.channel_name@).len(),
        spec_encode_response(resp).subrange(12, 12 + clipped(resp.channel_name@).len() as int)
            == clipped(resp.channel_name@),
{
    let e = spec_encode_response(resp);
    lemma_le32_roundtrip(DISPATCH_MAGIC);
    lemma_le32_roundtrip(resp.client_id);
    assert(e[0] == le32(DISPATCH_MAGIC)[0]);
    assert(e[1] == le32(DISPATCH_MAGIC)[1]);
    assert(e[2] == le32(DISPATCH_MAGIC)[2]);
    assert(e[3] == le32(DISPATCH_MAGIC)[3]);
    assert(e[7] == le32(resp.client_id)[0]);
    assert(e[8] == le32(resp.client_id)[1]);
    assert(e[9] == le32(resp.client_id)[2]);
    assert(e[10] == le32(resp.client_id)[3]);
    assert(e.subrange(12, 12 + clipped(resp.channel_name@).len() as int) =~= clipped(
        resp.channel_name@,
    ));
}

} // verus!
