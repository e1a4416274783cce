//! Message framing: a 30-byte header followed by the payload, with a CRC-32
//! of the payload in the header.
//!
//! Header layout (big-endian): type code (1), flags (1), sequence number
//! (4), session id (16), payload length (4), payload checksum (4).
//! Turning payload bytes into message records is left to the caller.

use vstd::prelude::*;
use crate::messages::{
    MessageHeader, MessageType, MAX_PAYLOAD_SIZE, spec_message_code, spec_message_type_of,
    lemma_message_code_roundtrip,
};

verus! {

/// One step of the bitwise CRC-32 register (reflected polynomial
/// 0xEDB88320).
pub open spec fn crc_shift(c: u32) -> u32 {
    if c & 1u32 == 1u32 {
        (c >> 1u32) ^ 0xEDB8_8320u32
    } else {
        c >> 1u32
    }
}

/// The CRC-32 register after taking in one byte.
pub open spec fn crc_byte(c: u32, b: u8) -> u32 {
    crc_shift(crc_shift(crc_shift(crc_shift(crc_shift(crc_shift(crc_shift(crc_shift(c ^ (b as u32)))))))))
}

/// The CRC-32 register after taking in `data`, starting from `c`.
pub open spec fn crc_register(c: u32, data: Seq<u8>) -> u32
    decreases data.len(),
{
    if data.len() == 0 {
        c
    } else {
        crc_byte(crc_register(c, data.drop_last()), data.last())
    }
}

/// The CRC-32 (IEEE) checksum of a byte sequence: the register starts with
/// all bits set, takes in each byte in turn, and is inverted at the end.
pub open spec fn crc32(data: Seq<u8>) -> u32 {
    crc_register(0xFFFF_FFFFu32, data) ^ 0xFFFF_FFFFu32
}

/// Computes the CRC-32 checksum of `data`.
///
/// Trusted: calls `crc32fast::hash`, which computes the standard CRC-32
/// (IEEE 802.3: reflected polynomial 0xEDB88320, register started at all
/// ones and inverted at the end) with tables or SIMD; the contract states
/// that checksum bit by bit.
#[verifier::external_body]
fn crc32_checksum(data: &[u8]) -> (r: u32)
    ensures
        r == crc32(data@),
{
    crc32fast::hash(data)
}

/// Why a frame could not be decoded or encoded.
#[derive(Debug, Clone, Copy, PartialEq, Eq, Structural)]
pub enum CodecError {
    /// The type byte is not a known message type.
    InvalidMessageType,
    /// The payload length exceeds `MAX_PAYLOAD_SIZE`.
    PayloadTooLarge,
    /// The payload does not match the checksum in its header.
    ChecksumMismatch,
    /// The message type has no decoder (metadata messages).
    Unsupported,
}

/// Big-endian bytes of a `u32`.
pub open spec fn be32(v: u32) -> Seq<u8> {
    seq![(v >> 24u32) as u8, (v >> 16u32) as u8, (v >> 8u32) as u8, v as u8]
}

/// Big-endian bytes of a `u64`.
pub open spec fn be64(v: u64) -> Seq<u8> {
    seq![
        (v >> 56u64) as u8,
        (v >> 48u64) as u8,
        (v >> 40u64) as u8,
        (v >> 32u64) as u8,
        (v >> 24u64) as u8,
        (v >> 16u64) as u8,
        (v >> 8u64) as u8,
        v as u8,
    ]
}

/// Big-endian bytes of a `u128`.
pub open spec fn be128(v: u128) -> Seq<u8> {
    be64((v >> 64u128) as u64) + be64(v as u64)
}

/// The `u32` whose big-endian bytes start at `s[off]`.
pub open spec fn read_be32(s: Seq<u8>, off: int) -> u32 {
    ((s[off] as u32) << 24u32) | ((s[off + 1] as u32) << 16u32) | ((s[off + 2] as u32) << 8u32) | (
    s[off + 3] as u32)
}

/// The `u64` whose big-endian bytes start at `s[off]`.
pub open spec fn read_be64(s: Seq<u8>, off: int) -> u64 {
    ((s[off] as u64) << 56u64) | ((s[off + 1] as u64) << 48u64) | ((s[off + 2] as u64) << 40u64) | ((
    s[off + 3] as u64) << 32u64) | ((s[off + 4] as u64) << 24u64) | ((s[off + 5] as u64) << 16u64)
        | ((s[off + 6] as u64) << 8u64) | (s[off + 7] as u64)
}

/// The `u128` whose big-endian bytes start at `s[off]`.
pub open spec fn read_be128(s: Seq<u8>, off: int) -> u128 {
    ((read_be64(s, off) as u128) << 64u128) | (read_be64(s, off + 8) as u128)
}

/// The 30 header bytes of `h`.
pub open spec fn header_bytes(h: MessageHeader) -> Seq<u8> {
    seq![spec_message_code(h.message_type), h.flags] + be32(h.sequence_number) + be128(h.session_id)
        + be32(h.payload_length) + be32(h.checksum)
}

/// Reads a header from the first 30 bytes of `s`.
pub open spec fn parse_header(s: Seq<u8>) -> Result<MessageHeader, CodecError>
    recommends
        s.len() >= 30,
{
    match spec_message_type_of(s[0]) {
        None => Err(CodecError::InvalidMessageType),
        Some(t) => {
            let len = read_be32(s, 22);
            if len > MAX_PAYLOAD_SIZE {
                Err(CodecError::PayloadTooLarge)
            } else {
                Ok(
                    MessageHeader {
                        message_type: t,
                        flags: s[1],
                        sequence_number: read_be32(s, 2),
                        session_id: read_be128(s, 6),
                        payload_length: len,
                        checksum: read_be32(s, 26),
                    },
                )
            }
        },
    }
}

/// What one decoding step finds at the front of a buffer.
pub enum Decoded {
    /// More bytes are needed; nothing was consumed.
    Incomplete,
    /// A whole frame: its header and payload.
    Frame(MessageHeader, Seq<u8>),
    /// A decoding error.
    Failed(CodecError),
}

/// One decoding step on `src`: what is found, and what is left in the
/// buffer afterwards.
///
/// Fewer than 30 bytes, or a header whose payload has not fully arrived,
/// give `Incomplete` and consume nothing. A bad header gives its error and
/// consumes nothing. Otherwise the frame is consumed; its payload must
/// match the checksum, and a metadata frame is refused as unsupported.
pub open spec fn spec_decode(src: Seq<u8>) -> (Decoded, Seq<u8>) {
    if src.len() < 30 {
        (Decoded::Incomplete, src)
    } else {
        match parse_header(src) {
            Err(e) => (Decoded::Failed(e), src),
            Ok(h) => {
                let total = 30 + h.payload_length;
                if src.len() < total {
                    (Decoded::Incomplete, src)
                } else {
                    let payload = src.subrange(30, total);
                    let rest = src.subrange(total, src.len() as int);
                    if crc32(payload) != h.checksum {
                        (Decoded::Failed(CodecError::ChecksumMismatch), rest)
                    } else if h.message_type == MessageType::Metadata {
                        (Decoded::Failed(CodecError::Unsupported), rest)
                    } else {
                        (Decoded::Frame(h, payload), rest)
                    }
                }
            },
        }
    }
}

/// A decoded frame: its header and its payload bytes.
#[derive(Debug)]
pub struct Frame {
    pub header: MessageHeader,
    pub payload: Vec<u8>,
}

/// Whether an executable decoding result is the one `spec_decode` gives.
pub open spec fn decode_matches(r: Result<Option<Frame>, CodecError>, d: Decoded) -> bool {
    match (r, d) {
        (Ok(None), Decoded::Incomplete) => true,
        (Ok(Some(f)), Decoded::Frame(h, p)) => f.header == h && f.payload@ == p,
        (Err(e), Decoded::Failed(e2)) => e == e2,
        _ => false,
    }
}

proof fn lemma_be32_roundtrip(v: u32)
    ensures
        read_be32(be32(v), 0) == v,
{
    let b = be32(v);
    let b0 = b[0];
    let b1 = b[1];
    let b2 = b[2];
    let b3 = b[3];
    assert(b0 == (v >> 24u32) as u8 && b1 == (v >> 16u32) as u8 && b2 == (v >> 8u32) as u8 && b3
        == v as u8);
    assert(((b0 as u32) << 24u32) | ((b1 as u32) << 16u32) | ((b2 as u32) << 8u32) | (b3 as u32)
        == v) by (bit_vector)
        requires
            b0 == (v >> 24u32) as u8 && b1 == (v >> 16u32) as u8 && b2 == (v >> 8u32) as u8 && b3
                == v as u8,
    ;
}

proof fn lemma_be64_roundtrip(v: u64)
    ensures
        read_be64(be64(v), 0) == v,
{
    let b = be64(v);
    let (b0, b1, b2, b3, b4, b5, b6, b7) = (b[0], b[1], b[2], b[3], b[4], b[5], b[6], b[7]);
    assert(((b0 as u64) << 56u64) | ((b1 as u64) << 48u64) | ((b2 as u64) << 40u64) | ((b3 as u64)
        << 32u64) | ((b4 as u64) << 24u64) | ((b5 as u64) << 16u64) | ((b6 as u64) << 8u64) | (
    b7 as u64) == v) by (bit_vector)
        requires
            b0 == (v >> 56u64) as u8,
            b1 == (v >> 48u64) as u8,
            b2 == (v >> 40u64) as u8,
            b3 == (v >> 32u64) as u8,
            b4 == (v >> 24u64) as u8,
            b5 == (v >> 16u64) as u8,
            b6 == (v >> 8u64) as u8,
            b7 == v as u8,
    ;
}

proof fn lemma_be128_roundtrip(v: u128)
    ensures
        read_be128(be128(v), 0) == v,
{
    let hi = (v >> 64u128) as u64;
    let lo = v as u64;
    let b = be128(v);
    lemma_be64_roundtrip(hi);
    lemma_be64_roundtrip(lo);
    assert(b.subrange(0, 8) =~= be64(hi));
    assert(b.subrange(8, 16) =~= be64(lo));
    assert(read_be64(b, 0) == read_be64(be64(hi), 0));
    assert(read_be64(b, 8) == read_be64(be64(lo), 0)) by {
        let l = be64(lo);
        assert(forall|i: int| 0 <= i < 8 ==> b[8 + i] == l[i]);
    }
    assert(((hi as u128) << 64u128) | (lo as u128) == v) by (bit_vector)
        requires
            hi == (v >> 64u128) as u64,
            lo == v as u64,
    ;
}

/// Reading a header back from its bytes, followed by anything, gives the
/// header, provided its type code and payload length are valid.
pub proof fn lemma_header_roundtrip(h: MessageHeader, rest: Seq<u8>)
    requires
        h.payload_length <= MAX_PAYLOAD_SIZE,
    ensures
        (header_bytes(h) + rest).len() == 30 + rest.len(),
        parse_header(header_bytes(h) + rest) == Ok::<MessageHeader, CodecError>(h),
{
    let s = header_bytes(h) + rest;
    lemma_message_code_roundtrip(h.message_type, 0);
    lemma_be32_roundtrip(h.sequence_number);
    lemma_be128_roundtrip(h.session_id);
    lemma_be32_roundtrip(h.payload_length);
    lemma_be32_roundtrip(h.checksum);
    let a = be32(h.sequence_number);
    let m = be128(h.session_id);
    let l = be32(h.payload_length);
    let c = be32(h.checksum);
    assert(s.len() == 30 + rest.len());
    assert(forall|i: int| 0 <= i < 4 ==> s[2 + i] == a[i]);
    assert(forall|i: int| 0 <= i < 16 ==> s[6 + i] == m[i]);
    assert(forall|i: int| 0 <= i < 4 ==> s[22 + i] == l[i]);
    assert(forall|i: int| 0 <= i < 4 ==> s[26 + i] == c[i]);
    assert(read_be32(s, 2) == read_be32(a, 0));
    assert(read_be32(s, 22) == read_be32(l, 0));
    assert(read_be32(s, 26) == read_be32(c, 0));
    assert(read_be64(s, 6) == read_be64(m, 0));
    assert(read_be64(s, 14) == read_be64(m, 8));
    assert(read_be128(s, 6) == read_be128(m, 0));
}

/// Framing round-trips: decoding what the encoder writes for a payload,
/// whatever bytes follow it, gives back the header and the payload and
/// leaves exactly the following bytes; only metadata frames are refused.
pub proof fn lemma_frame_roundtrip(h: MessageHeader, payload: Seq<u8>, rest: Seq<u8>)
    requires
        h.payload_length == payload.len(),
        h.payload_length <= MAX_PAYLOAD_SIZE,
        h.checksum == crc32(payload),
        h.message_type != MessageType::Metadata,
    ensures
        spec_decode(header_bytes(h) + payload + rest) == (Decoded::Frame(h, payload), rest),
{
    let s = header_bytes(h) + payload + rest;
    lemma_header_roundtrip(h, payload + rest);
    assert(header_bytes(h) + payload + rest =~= header_bytes(h) + (payload + rest));
    assert(s.subrange(30, 30 + payload.len() as int) =~= payload);
    assert(s.subrange(30 + payload.len() as int, s.len() as int) =~= rest);
}

/// A corrupted checksum never decodes as a frame.
pub proof fn lemma_checksum_mismatch_rejected(h: MessageHeader, payload: Seq<u8>, rest: Seq<u8>)
    requires
        h.payload_length == payload.len(),
        h.payload_length <= MAX_PAYLOAD_SIZE,
        h.checksum != crc32(payload),
    ensures
        spec_decode(header_bytes(h) + payload + rest) == (
            Decoded::Failed(CodecError::ChecksumMismatch),
            rest,
        ),
{
    let s = header_bytes(h) + payload + rest;
    lemma_header_roundtrip(h, payload + rest);
    assert(header_bytes(h) + payload + rest =~= header_bytes(h) + (payload + rest));
    assert(s.subrange(30, 30 + payload.len() as int) =~= payload);
    assert(s.subrange(30 + payload.len() as int, s.len() as int) =~= rest);
}

fn push_be32(out: &mut Vec<u8>, v: u32)
    ensures
        final(out)@ == old(out)@ + be32(v),
{
    out.push((v >> 24u32) as u8);
    out.push((v >> 16u32) as u8);
    out.push((v >> 8u32) as u8);
    out.push(v as u8);
    assert(final(out)@ =~= old(out)@ + be32(v));
}

fn push_be64(out: &mut Vec<u8>, v: u64)
    ensures
        final(out)@ == old(out)@ + be64(v),
{
    out.push((v >> 56u64) as u8);
    out.push((v >> 48u64) as u8);
    out.push((v >> 40u64) as u8);
    out.push((v >> 32u64) as u8);
    out.push((v >> 24u64) as u8);
    out.push((v >> 16u64) as u8);
    out.push((v >> 8u64) as u8);
    out.push(v as u8);
    assert(final(out)@ =~= old(out)@ + be64(v));
}

fn get_be32(s: &Vec<u8>, off: usize) -> (r: u32)
    requires
        off + 4 <= s.len(),
    ensures
        r == read_be32(s@, off as int),
{
    ((s[off] as u32) << 24u32) | ((s[off + 1] as u32) << 16u32) | ((s[off + 2] as u32) << 8u32) | (
    s[off + 3] as u32)
}

fn get_be64(s: &Vec<u8>, off: usize) -> (r: u64)
    requires
        off + 8 <= s.len(),
    ensures
        r == read_be64(s@, off as int),
{
    ((s[off] as u64) << 56u64) | ((s[off + 1] as u64) << 48u64) | ((s[off + 2] as u64) << 40u64) | ((
    s[off + 3] as u64) << 32u64) | ((s[off + 4] as u64) << 24u64) | ((s[off + 5] as u64) << 16u64)
        | ((s[off + 6] as u64) << 8u64) | (s[off + 7] as u64)
}

/// Appends the bytes of `data` to `out`.
pub(crate) fn append_bytes(out: &mut Vec<u8>, data: &[u8])
    ensures
        final(out)@ == old(out)@ + data@,
{
    let mut i: usize = 0;
    while i < data.len()
        invariant
            i <= data@.len(),
            out@ == old(out)@ + data@.take(i as int),
        decreases data@.len() - i,
    {
        out.push(data[i]);
        assert(data@.take(i + 1) =~= data@.take(i as int).push(data@[i as int]));
        i = i + 1;
    }
    assert(data@.take(data@.len() as int) =~= data@);
}

/// QLTP message codec for framing.
pub struct QltpCodec {
    session_id: u128,
    sequence_number: u32,
}

impl QltpCodec {
    /// A codec for one session; its sequence numbers start at 0.
    pub fn new(session_id: u128) -> (c: Self)
        ensures
            c.session_id() == session_id,
            c.sequence_number() == 0,
    {
        QltpCodec { session_id, sequence_number: 0 }
    }

    /// The session the codec stamps on frames.
    pub closed spec fn session_id(&self) -> u128 {
        self.session_id
    }

    /// The sequence number of the next frame it encodes.
    pub closed spec fn sequence_number(&self) -> u32 {
        self.sequence_number
    }

    /// Checksum of a payload.
    pub fn calculate_checksum(data: &[u8]) -> (r: u32)
        ensures
            r == crc32(data@),
    {
        crc32_checksum(data)
    }

    /// The 30 header bytes for the next frame, stamped with the current
    /// sequence number, which then advances (wrapping).
    pub fn encode_header(&mut self, message_type: MessageType, payload_length: u32, checksum: u32) -> (buf: Vec<u8>)
        ensures
            buf@ == header_bytes(
                MessageHeader {
                    message_type,
                    flags: 0,
                    sequence_number: old(self).sequence_number(),
                    session_id: old(self).session_id(),
                    payload_length,
                    checksum,
                },
            ),
            final(self).session_id() == old(self).session_id(),
            final(self).sequence_number() == old(self).sequence_number().wrapping_add(1),
    {
        let mut buf: Vec<u8> = Vec::with_capacity(30);
        buf.push(message_type.to_u8());
        buf.push(0u8);
        push_be32(&mut buf, self.sequence_number);
        self.sequence_number = self.sequence_number.wrapping_add(1);
        push_be64(&mut buf, (self.session_id >> 64u128) as u64);
        push_be64(&mut buf, self.session_id as u64);
        push_be32(&mut buf, payload_length);
        push_be32(&mut buf, checksum);
        proof {
            let h = MessageHeader {
                message_type,
                flags: 0,
                sequence_number: old(self).sequence_number(),
                session_id: old(self).session_id(),
                payload_length,
                checksum,
            };
            assert(buf@ =~= header_bytes(h));
        }
        buf
    }

    /// Reads the header at the front of `src`.
    pub fn decode_header(src: &Vec<u8>) -> (r: Result<MessageHeader, CodecError>)
        requires
            src@.len() >= 30,
        ensures
            r == parse_header(src@),
    {
        let message_type = match MessageType::from_u8(src[0]) {
            None => return Err(CodecError::InvalidMessageType),
            Some(t) => t,
        };
        let flags = src[1];
        let sequence_number = get_be32(src, 2);
        let hi = get_be64(src, 6);
        let lo = get_be64(src, 14);
        let session_id = ((hi as u128) << 64u128) | (lo as u128);
        let payload_length = get_be32(src, 22);
        let checksum = get_be32(src, 26);
        if payload_length > MAX_PAYLOAD_SIZE {
            return Err(CodecError::PayloadTooLarge);
        }
        Ok(MessageHeader { message_type, flags, sequence_number, session_id, payload_length, checksum })
    }

    /// Decodes one frame from the front of `src`, consuming what
    /// `spec_decode` says is consumed.
    pub fn decode(&mut self, src: &mut Vec<u8>) -> (r: Result<Option<Frame>, CodecError>)
        ensures
            decode_matches(r, spec_decode(old(src)@).0),
            final(src)@ == spec_decode(old(src)@).1,
            final(self).session_id() == old(self).session_id(),
            final(self).sequence_number() == old(self).sequence_number(),
    {
        if src.len() < 30 {
            return Ok(None);
        }
        let header = match Self::decode_header(src) {
            Err(e) => return Err(e),
            Ok(h) => h,
        };
        let total = 30 + header.payload_length as usize;
        if src.len() < total {
            return Ok(None);
        }
        let mut tail = src.split_off(30);
        let rest = tail.split_off(header.payload_length as usize);
        let payload = tail;
        *src = rest;
        let ghost old_src = old(src)@;
        assert(payload@ =~= old_src.subrange(30, total as int));
        assert(src@ =~= old_src.subrange(total as int, old_src.len() as int));
        let calculated = crc32_checksum(payload.as_slice());
        if calculated != header.checksum {
            return Err(CodecError::ChecksumMismatch);
        }
        match header.message_type {
            MessageType::Metadata => Err(CodecError::Unsupported),
            _ => Ok(Some(Frame { header, payload })),
        }
    }

    /// Frames `payload` as a message of the given type and appends the frame
    /// to `dst`. A payload over `MAX_PAYLOAD_SIZE` is refused, and then
    /// neither `dst` nor the sequence number changes.
    pub fn encode(&mut self, message_type: MessageType, payload: &[u8], dst: &mut Vec<u8>) -> (r: Result<(), CodecError>)
        ensures
            final(self).session_id() == old(self).session_id(),
            payload@.len() > MAX_PAYLOAD_SIZE ==> {
                &&& r == Err::<(), CodecError>(CodecError::PayloadTooLarge)
                &&& final(dst)@ == old(dst)@
                &&& final(self).sequence_number() == old(self).sequence_number()
            },
            payload@.len() <= MAX_PAYLOAD_SIZE ==> {
                &&& r is Ok
                &&& final(dst)@ == old(dst)@ + header_bytes(
                    MessageHeader {
                        message_type,
                        flags: 0,
                        sequence_number: old(self).sequence_number(),
                        session_id: old(self).session_id(),
                        payload_length: payload@.len() as u32,
                        checksum: crc32(payload@),
                    },
                ) + payload@
                &&& final(self).sequence_number() == old(self).sequence_number().wrapping_add(1)
            },
    {
        if payload.len() > MAX_PAYLOAD_SIZE as usize {
            return Err(CodecError::PayloadTooLarge);
        }
        let checksum = crc32_checksum(payload);
        let header = self.encode_header(message_type, payload.len() as u32, checksum);
        append_bytes(dst, header.as_slice());
        append_bytes(dst, payload);
        Ok(())
    }
}

} // verus!
