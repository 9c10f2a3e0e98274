//! # Codec — Frame Encoder / Decoder
//!
//! Frames [`Message`]s into bytes for transmission and parses incoming byte
//! streams back into [`Message`]s.
//!
//! ## Frame structure
//! ```text
//! [0xAA] [TYPE] [LEN] [PAYLOAD × LEN bytes] [CRC8] [0x55]
//!   1B     1B    1B       0–250 B              1B     1B
//! ```
//!
//! CRC8 (CRC-8/SMBUS) is computed over TYPE + LEN + PAYLOAD.

use vstd::prelude::*;

use super::messages::{
    lemma_message_round_trip, lemma_payload_len_bound,
    spec_decode, spec_payload, spec_type_id, Message, MessageError, FRAME_END, FRAME_START,
    MAX_PAYLOAD_LEN,
};

verus! {

// ─── CRC ─────────────────────────────────────────────────────────────────────

/// One bit step of CRC-8 with polynomial 0x07 (MSB first): shift left and
/// xor in the polynomial when the bit shifted out was set.
pub open spec fn crc8_bit_step(c: u8) -> u8 {
    if c >= 0x80 {
        (((c as int) * 2 - 256) as u8) ^ 0x07u8
    } else {
        ((c as int) * 2) as u8
    }
}

/// `n` bit steps of CRC-8.
pub open spec fn crc8_bit_steps(c: u8, n: nat) -> u8
    decreases n,
{
    if n == 0 {
        c
    } else {
        crc8_bit_steps(crc8_bit_step(c), (n - 1) as nat)
    }
}

/// CRC-8/SMBUS of a byte sequence: polynomial 0x07, initial value 0x00,
/// no reflection, no final xor. Each byte is xored into the register, which
/// is then stepped eight times.
pub open spec fn spec_crc8(data: Seq<u8>) -> u8
    decreases data.len(),
{
    if data.len() == 0 {
        0
    } else {
        crc8_bit_steps(spec_crc8(data.drop_last()) ^ data.last(), 8)
    }
}

/// Calls `crc::Crc::<u8>::checksum` with the `crc::CRC_8_SMBUS` algorithm.
/// Trusted: the crate's table-driven computation with CRC_8_SMBUS (width 8,
/// poly 0x07, init 0, refin/refout false, xorout 0) equals the bitwise
/// definition `spec_crc8`.
#[verifier::external_body]
fn crc8_smbus_checksum(data: &[u8]) -> (c: u8)
    ensures
        c == spec_crc8(data@),
{
    crc::Crc::<u8>::new(&crc::CRC_8_SMBUS).checksum(data)
}

/// Compute CRC8 (CRC-8/SMBUS) over a byte slice.
pub fn crc8(data: &[u8]) -> (c: u8)
    ensures
        c == spec_crc8(data@),
{
    crc8_smbus_checksum(data)
}

// ─── Errors and results ─────────────────────────────────────────────────────

/// Errors that can occur during codec operations.
#[derive(Debug, Clone, PartialEq, Eq, Structural)]
pub enum CodecError {
    /// The payload is longer than `MAX_PAYLOAD_LEN`.
    PayloadTooLong(usize),
    /// The frame was intact but its payload did not parse.
    MessageError(MessageError),
    /// The frame is incomplete — more bytes are needed.
    Incomplete,
    /// No START byte was found in the buffer.
    NoStartByte,
    /// The CRC byte does not match the frame's contents.
    CrcMismatch { expected: u8, got: u8 },
    /// The byte where the END marker belongs is not 0x55.
    MissingEndByte,
}

/// Result of attempting to decode from a buffer.
#[derive(Debug, Clone, PartialEq, Eq, Structural)]
pub enum DecodeResult {
    /// A complete frame was decoded; `bytes_consumed` is the frame's length.
    Complete { message: Message, bytes_consumed: usize },
    /// Not enough bytes yet; the caller should feed more data and retry.
    Incomplete,
    /// A framing error occurred; `skip` bytes of the frame were discarded.
    Error { error: CodecError, skip: usize },
}

// ─── Encode ──────────────────────────────────────────────────────────────────

/// The bytes covered by the CRC of a frame: TYPE, LEN, PAYLOAD.
pub open spec fn spec_frame_body(type_byte: u8, payload: Seq<u8>) -> Seq<u8> {
    seq![type_byte, payload.len() as u8] + payload
}

/// The complete wire frame of a message:
/// START | TYPE | LEN | PAYLOAD | CRC8(TYPE LEN PAYLOAD) | END.
pub open spec fn spec_frame(m: Message) -> Seq<u8> {
    let body = spec_frame_body(spec_type_id(m), spec_payload(m));
    seq![FRAME_START] + body + seq![spec_crc8(body), FRAME_END]
}

/// Encode a [`Message`] into a complete wire frame.
///
/// Fails with `PayloadTooLong` exactly when the payload exceeds
/// `MAX_PAYLOAD_LEN`, which no message does (see `lemma_encode_never_fails`).
pub fn encode(msg: &Message) -> (r: Result<Vec<u8>, CodecError>)
    ensures
        match r {
            Ok(frame) => spec_payload(*msg).len() <= MAX_PAYLOAD_LEN && frame@ == spec_frame(*msg),
            Err(e) => spec_payload(*msg).len() > MAX_PAYLOAD_LEN && e == CodecError::PayloadTooLong(
                spec_payload(*msg).len() as usize,
            ),
        },
{
    let payload = msg.encode_payload();
    let type_byte = msg.type_id();

    if payload.len() > MAX_PAYLOAD_LEN {
        return Err(CodecError::PayloadTooLong(payload.len()));
    }
    let len_byte = payload.len() as u8;

    let mut crc_input: Vec<u8> = Vec::new();
    crc_input.push(type_byte);
    crc_input.push(len_byte);
    append_bytes(&mut crc_input, &payload);
    assert(crc_input@ =~= spec_frame_body(spec_type_id(*msg), spec_payload(*msg)));
    let checksum = crc8(crc_input.as_slice());

    let mut frame: Vec<u8> = Vec::new();
    frame.push(FRAME_START);
    append_bytes(&mut frame, &crc_input);
    frame.push(checksum);
    frame.push(FRAME_END);
    assert(frame@ =~= spec_frame(*msg));
    Ok(frame)
}

/// Appends all bytes of `src` to `dst`.
fn append_bytes(dst: &mut Vec<u8>, src: &Vec<u8>)
    ensures
        final(dst)@ == old(dst)@ + src@,
{
    let n = src.len();
    let mut i: usize = 0;
    while i < n
        invariant
            n == src@.len(),
            i <= n,
            dst@ == old(dst)@ + src@.subrange(0, i as int),
        decreases n - i,
    {
        dst.push(src[i]);
        i = i + 1;
        assert(src@.subrange(0, i as int) =~= src@.subrange(0, (i - 1) as int).push(src@[i - 1]));
    }
    assert(src@.subrange(0, n as int) =~= src@);
}

/// Copies `v[start..end]` into a new vector.
fn copy_range(v: &Vec<u8>, start: usize, end: usize) -> (r: Vec<u8>)
    requires
        start <= end <= v@.len(),
    ensures
        r@ == v@.subrange(start as int, end as int),
{
    let mut r: Vec<u8> = Vec::new();
    let mut i: usize = start;
    while i < end
        invariant
            start <= i <= end,
            end <= v@.len(),
            r@ == v@.subrange(start as int, i as int),
        decreases end - i,
    {
        r.push(v[i]);
        i = i + 1;
        assert(v@.subrange(start as int, i as int) =~= v@.subrange(start as int, (i - 1) as int).push(
            v@[i - 1],
        ));
    }
    r
}

// ─── Decode ──────────────────────────────────────────────────────────────────

/// Number of bytes before the first START byte; the whole length when the
/// sequence holds no START byte.
pub open spec fn start_offset(s: Seq<u8>) -> nat
    decreases s.len(),
{
    if s.len() == 0 {
        0
    } else if s[0] == FRAME_START {
        0
    } else {
        1 + start_offset(s.drop_first())
    }
}

/// Outcome of one decode step on a buffer that begins with a START byte:
/// the result, and the buffer left afterwards.
pub open spec fn spec_decode_aligned(b: Seq<u8>) -> (DecodeResult, Seq<u8>) {
    if b.len() < 5 {
        (DecodeResult::Incomplete, b)
    } else {
        let len = b[2] as int;
        let total = len + 5;
        if b.len() < total {
            (DecodeResult::Incomplete, b)
        } else if b[4 + len] != FRAME_END {
            (DecodeResult::Error { error: CodecError::MissingEndByte, skip: 1 }, b.skip(1))
        } else {
            let expected = spec_crc8(b.subrange(1, 3 + len));
            let got = b[3 + len];
            if got != expected {
                (
                    DecodeResult::Error { error: CodecError::CrcMismatch { expected, got }, skip: 1 },
                    b.skip(1),
                )
            } else {
                match spec_decode(b[1], b.subrange(3, 3 + len)) {
                    Ok(message) => (
                        DecodeResult::Complete { message, bytes_consumed: total as usize },
                        b.skip(total),
                    ),
                    Err(e) => (
                        DecodeResult::Error {
                            error: CodecError::MessageError(e),
                            skip: total as usize,
                        },
                        b.skip(total),
                    ),
                }
            }
        }
    }
}

/// Outcome of one decode step on a receive buffer: the result (`None` when
/// the buffer is empty) and the buffer left afterwards.
///
/// Bytes before the first START byte are discarded; with no START byte the
/// whole buffer is discarded and `NoStartByte` reported.
pub open spec fn spec_decode_one(buf: Seq<u8>) -> (Option<DecodeResult>, Seq<u8>) {
    if buf.len() == 0 {
        (None, buf)
    } else {
        let off = start_offset(buf);
        if off == buf.len() {
            (Some(DecodeResult::Error { error: CodecError::NoStartByte, skip: 0 }), Seq::empty())
        } else {
            let (res, rest) = spec_decode_aligned(buf.skip(off as int));
            (Some(res), rest)
        }
    }
}

proof fn lemma_start_offset_bound(s: Seq<u8>)
    ensures
        start_offset(s) <= s.len(),
        start_offset(s) < s.len() ==> s[start_offset(s) as int] == FRAME_START,
        forall|j: int| 0 <= j < start_offset(s) ==> s[j] != FRAME_START,
    decreases s.len(),
{
    if s.len() > 0 && s[0] != FRAME_START {
        lemma_start_offset_bound(s.drop_first());
        assert forall|j: int| 0 <= j < start_offset(s) implies s[j] != FRAME_START by {
            if j > 0 {
                assert(s[j] == s.drop_first()[j - 1]);
            }
        }
    }
}

proof fn lemma_start_offset_is(s: Seq<u8>, i: int)
    requires
        0 <= i <= s.len(),
        forall|j: int| 0 <= j < i ==> s[j] != FRAME_START,
        i == s.len() || s[i] == FRAME_START,
    ensures
        start_offset(s) == i,
    decreases i,
{
    if i > 0 {
        let t = s.drop_first();
        assert forall|j: int| 0 <= j < i - 1 implies t[j] != FRAME_START by {
            assert(t[j] == s[j + 1]);
        }
        if i - 1 < t.len() {
            assert(t[i - 1] == s[i]);
        }
        lemma_start_offset_is(t, i - 1);
    }
}

/// A frame is five bytes longer than its message's payload.
pub proof fn lemma_frame_len(m: Message)
    ensures
        spec_frame(m).len() == spec_payload(m).len() + 5,
        spec_frame(m).len() <= 9,
{
    lemma_payload_len_bound(m);
}

/// A buffer that starts with the frame of `m` decodes to `m`: the whole
/// frame is consumed and exactly the bytes after it remain.
pub proof fn lemma_decode_frame(m: Message, rest: Seq<u8>)
    ensures
        spec_decode_one(spec_frame(m) + rest) == (
            Some(
                DecodeResult::Complete {
                    message: m,
                    bytes_consumed: spec_frame(m).len() as usize,
                },
            ),
            rest,
        ),
{
    lemma_payload_len_bound(m);
    lemma_message_round_trip(m);
    let p = spec_payload(m);
    let body = spec_frame_body(spec_type_id(m), p);
    let f = spec_frame(m);
    let b = f + rest;
    let len = p.len() as int;
    assert(b[0] == FRAME_START);
    assert(start_offset(b) == 0);
    assert(b.skip(0) =~= b);
    assert(b[2] == p.len() as u8);
    assert(b[2] as int == len);
    assert(b[4 + len] == FRAME_END);
    assert(b.subrange(1, 3 + len) =~= body);
    assert(b[3 + len] == spec_crc8(body));
    assert(b[1] == spec_type_id(m));
    assert(b.subrange(3, 3 + len) =~= p);
    assert(b.skip(len + 5) =~= rest);
}

/// Bytes before a frame that hold no START byte are skipped: the frame
/// after them still decodes to its message.
pub proof fn lemma_decode_after_noise(noise: Seq<u8>, m: Message, rest: Seq<u8>)
    requires
        forall|i: int| 0 <= i < noise.len() ==> noise[i] != FRAME_START,
    ensures
        spec_decode_one(noise + spec_frame(m) + rest) == (
            Some(
                DecodeResult::Complete {
                    message: m,
                    bytes_consumed: spec_frame(m).len() as usize,
                },
            ),
            rest,
        ),
{
    let f = spec_frame(m);
    let b = noise + f + rest;
    assert forall|j: int| 0 <= j < noise.len() implies b[j] != FRAME_START by {
        assert(b[j] == noise[j]);
    }
    assert(b[noise.len() as int] == FRAME_START);
    lemma_start_offset_is(b, noise.len() as int);
    assert(b.skip(noise.len() as int) =~= f + rest);
    lemma_decode_frame(m, rest);
    assert((f + rest)[0] == FRAME_START);
    assert(start_offset(f + rest) == 0);
    assert((f + rest).skip(0) =~= f + rest);
}

/// A non-empty proper prefix of a frame is reported `Incomplete` and kept
/// in full, waiting for the rest of the frame.
pub proof fn lemma_partial_frame_incomplete(m: Message, k: int)
    requires
        0 < k < spec_frame(m).len(),
    ensures
        spec_decode_one(spec_frame(m).take(k)) == (
            Some(DecodeResult::Incomplete),
            spec_frame(m).take(k),
        ),
{
    lemma_payload_len_bound(m);
    let f = spec_frame(m);
    let b = f.take(k);
    assert(b[0] == FRAME_START);
    assert(start_offset(b) == 0);
    assert(b.skip(0) =~= b);
    if b.len() >= 5 {
        assert(b[2] == f[2]);
        assert(f[2] == spec_payload(m).len() as u8);
    }
}

/// A frame whose CRC byte was changed to a wrong value is rejected with
/// `CrcMismatch`, reporting the correct and the received CRC; only its START
/// byte is discarded, so every byte after it remains.
pub proof fn lemma_decode_corrupt_crc(m: Message, bad: u8, rest: Seq<u8>)
    requires
        bad != spec_crc8(spec_frame_body(spec_type_id(m), spec_payload(m))),
    ensures
        spec_decode_one(spec_frame(m).update(spec_frame(m).len() - 2, bad) + rest) == (
            Some(
                DecodeResult::Error {
                    error: CodecError::CrcMismatch {
                        expected: spec_crc8(spec_frame_body(spec_type_id(m), spec_payload(m))),
                        got: bad,
                    },
                    skip: 1,
                },
            ),
            (spec_frame(m).update(spec_frame(m).len() - 2, bad) + rest).skip(1),
        ),
{
    lemma_payload_len_bound(m);
    let p = spec_payload(m);
    let body = spec_frame_body(spec_type_id(m), p);
    let f = spec_frame(m);
    let g = f.update(f.len() - 2, bad);
    let b = g + rest;
    let len = p.len() as int;
    assert(b[0] == FRAME_START);
    assert(start_offset(b) == 0);
    assert(b.skip(0) =~= b);
    assert(b[2] as int == len);
    assert(b[4 + len] == FRAME_END);
    assert(b.subrange(1, 3 + len) =~= body);
    assert(b[3 + len] == bad);
}

/// Each decode step makes progress: it returns `None` exactly on an empty
/// buffer; what remains is always a suffix of the buffer; an error always
/// discards at least one byte, a decoded message discards its whole frame,
/// and `Incomplete` discards only bytes before the START byte.
pub proof fn lemma_decode_progress(buf: Seq<u8>)
    ensures
        spec_decode_one(buf).0 is None <==> buf.len() == 0,
        spec_decode_one(buf).1.len() <= buf.len(),
        spec_decode_one(buf).1 =~= buf.skip(buf.len() - spec_decode_one(buf).1.len()),
        spec_decode_one(buf).0 matches Some(DecodeResult::Error { .. }) ==> spec_decode_one(
            buf,
        ).1.len() < buf.len(),
        spec_decode_one(buf).0 matches Some(DecodeResult::Complete { bytes_consumed, .. })
            ==> spec_decode_one(buf).1.len() + bytes_consumed <= buf.len(),
        spec_decode_one(buf).0 matches Some(DecodeResult::Incomplete) ==> spec_decode_one(
            buf,
        ).1 =~= buf.skip(start_offset(buf) as int),
{
    lemma_start_offset_bound(buf);
    if buf.len() > 0 {
        let off = start_offset(buf) as int;
        if off < buf.len() {
            let b = buf.skip(off);
            if b.len() >= 5 {
                let total = b[2] as int + 5;
                if b.len() >= total {
                    assert(b.skip(1) =~= buf.skip(off + 1));
                    assert(b.skip(total) =~= buf.skip(off + total));
                }
            }
        }
    }
}

/// Discards framing errors until a message is decoded or no further decode
/// step can succeed: the message found (if any) and the buffer left.
pub open spec fn spec_poll(buf: Seq<u8>) -> (Option<Message>, Seq<u8>)
    decreases buf.len(),
{
    let (r, rest) = spec_decode_one(buf);
    match r {
        Some(DecodeResult::Complete { message, .. }) => (Some(message), rest),
        Some(DecodeResult::Error { .. }) => {
            proof {
                lemma_decode_progress(buf);
            }
            spec_poll(rest)
        },
        _ => (None, rest),
    }
}

/// Polling a buffer that starts with a frame returns its message and
/// leaves the bytes after it.
pub proof fn lemma_poll_frame(m: Message, rest: Seq<u8>)
    ensures
        spec_poll(spec_frame(m) + rest) == (Some(m), rest),
{
    lemma_decode_frame(m, rest);
}

/// Polling skips a frame with a corrupted CRC and returns the message of
/// the frame after it, provided no byte of the corrupted frame after its
/// START is itself a START byte (such a byte would be tried as the start of
/// a frame first).
pub proof fn lemma_poll_skips_corrupt_frame(m1: Message, bad: u8, m2: Message, rest: Seq<u8>)
    requires
        bad != spec_crc8(spec_frame_body(spec_type_id(m1), spec_payload(m1))),
        forall|i: int|
            1 <= i < spec_frame(m1).len() ==> #[trigger] spec_frame(m1).update(
                spec_frame(m1).len() - 2,
                bad,
            )[i] != FRAME_START,
    ensures
        spec_poll(spec_frame(m1).update(spec_frame(m1).len() - 2, bad) + (spec_frame(m2) + rest))
            == (Some(m2), rest),
{
    let corrupt = spec_frame(m1).update(spec_frame(m1).len() - 2, bad);
    let buf = corrupt + (spec_frame(m2) + rest);
    lemma_decode_corrupt_crc(m1, bad, spec_frame(m2) + rest);
    lemma_decode_progress(buf);
    let noise = corrupt.skip(1);
    assert forall|i: int| 0 <= i < noise.len() implies noise[i] != FRAME_START by {
        assert(noise[i] == corrupt[i + 1]);
    }
    assert(buf.skip(1) =~= noise + spec_frame(m2) + rest);
    lemma_decode_after_noise(noise, m2, rest);
    let next = noise + spec_frame(m2) + rest;
    assert(spec_decode_one(buf).1 == next);
    assert(spec_poll(next) == (Some(m2), rest));
    assert(spec_poll(buf) == spec_poll(next));
}

/// Polling moves past every decode error, whatever its kind: when the
/// decode step reports an error, polling the buffer gives exactly what
/// polling the buffer left by that step gives.
pub proof fn lemma_poll_continues_after_error(buf: Seq<u8>)
    ensures
        spec_decode_one(buf).0 matches Some(DecodeResult::Error { .. }) ==> spec_poll(buf)
            == spec_poll(spec_decode_one(buf).1),
        spec_decode_one(buf).0 matches Some(DecodeResult::Complete { message, .. }) ==> spec_poll(
            buf,
        ) == (Some(message), spec_decode_one(buf).1),
        (spec_decode_one(buf).0 is None || spec_decode_one(buf).0 == Some(
            DecodeResult::Incomplete,
        )) ==> spec_poll(buf) == (None::<Message>, spec_decode_one(buf).1),
{
}

/// A frame cut off just before its END byte is skipped by polling: when no
/// byte of the cut frame after its START is itself a START byte, polling the
/// cut frame followed by a complete frame returns the complete frame's
/// message and leaves the bytes after it.
pub proof fn lemma_poll_skips_truncated_frame(m1: Message, m2: Message, rest: Seq<u8>)
    requires
        forall|i: int| 1 <= i < spec_frame(m1).len() - 1 ==> #[trigger] spec_frame(m1)[i]
            != FRAME_START,
    ensures
        spec_poll(spec_frame(m1).drop_last() + (spec_frame(m2) + rest)) == (Some(m2), rest),
{
    lemma_payload_len_bound(m1);
    lemma_payload_len_bound(m2);
    let t = spec_frame(m1).drop_last();
    let after = spec_frame(m2) + rest;
    let buf = t + after;
    let len = spec_payload(m1).len() as int;
    assert(buf[0] == FRAME_START);
    assert(start_offset(buf) == 0);
    assert(buf.skip(0) =~= buf);
    assert(buf[2] == spec_frame(m1)[2]);
    assert(buf[2] as int == len);
    assert(t.len() == len + 4);
    assert(buf[4 + len] == after[0]);
    assert(after[0] == FRAME_START);
    assert(spec_decode_one(buf) == (
        Some(DecodeResult::Error { error: CodecError::MissingEndByte, skip: 1 }),
        buf.skip(1),
    ));
    let noise = t.skip(1);
    assert forall|i: int| 0 <= i < noise.len() implies noise[i] != FRAME_START by {
        assert(noise[i] == spec_frame(m1)[i + 1]);
    }
    assert(buf.skip(1) =~= noise + spec_frame(m2) + rest);
    lemma_decode_after_noise(noise, m2, rest);
    lemma_decode_progress(buf);
    let next = noise + spec_frame(m2) + rest;
    assert(spec_poll(next) == (Some(m2), rest));
    assert(spec_poll(buf) == spec_poll(next));
}

/// Codec with an internal receive buffer for accumulating partial frames.
#[derive(Debug)]
pub struct Codec {
    buf: Vec<u8>,
}

impl View for Codec {
    type V = Seq<u8>;

    /// The bytes currently buffered.
    closed spec fn view(&self) -> Seq<u8> {
        self.buf@
    }
}

impl Default for Codec {
    fn default() -> (c: Self)
        ensures
            c@ == Seq::<u8>::empty(),
    {
        Codec::new()
    }
}

impl Codec {
    /// Creates a new empty codec buffer.
    pub fn new() -> (c: Self)
        ensures
            c@ == Seq::<u8>::empty(),
    {
        Codec { buf: Vec::new() }
    }

    /// Appends newly received bytes to the internal buffer.
    pub fn feed(&mut self, data: &[u8])
        ensures
            final(self)@ == old(self)@ + data@,
    {
        let n = data.len();
        let mut i: usize = 0;
        while i < n
            invariant
                n == data@.len(),
                i <= n,
                self.buf@ == old(self).buf@ + data@.subrange(0, i as int),
            decreases n - i,
        {
            self.buf.push(data[i]);
            i = i + 1;
            assert(data@.subrange(0, i as int) =~= data@.subrange(0, (i - 1) as int).push(
                data@[i - 1],
            ));
        }
        assert(data@.subrange(0, n as int) =~= data@);
    }

    /// Discards the first `k` buffered bytes.
    fn discard_front(&mut self, k: usize)
        requires
            k <= old(self)@.len(),
        ensures
            final(self)@ == old(self)@.skip(k as int),
    {
        let tail = self.buf.split_off(k);
        self.buf = tail;
    }

    /// Attempts to decode one message from the buffer.
    ///
    /// Returns `None` exactly when the buffer is empty. Bytes before the
    /// first START byte are discarded. On a framing error (missing END byte,
    /// CRC mismatch) the bytes up to and including the bad frame's START
    /// byte are discarded, so a real frame that begins inside the bad one is
    /// still found. A frame that is intact but whose payload does not parse
    /// is discarded whole. The result and the buffer left are those of
    /// `spec_decode_one`.
    pub fn decode_one(&mut self) -> (r: Option<DecodeResult>)
        ensures
            (r, final(self)@) == spec_decode_one(old(self)@),
    {
        if self.buf.len() == 0 {
            return None;
        }
        let ghost b0 = self.buf@;

        let n = self.buf.len();
        let mut start_pos: usize = 0;
        while start_pos < n && self.buf[start_pos] != FRAME_START
            invariant
                n == self.buf@.len(),
                self.buf@ == b0,
                start_pos <= n,
                forall|j: int| 0 <= j < start_pos ==> b0[j] != FRAME_START,
            decreases n - start_pos,
        {
            start_pos = start_pos + 1;
        }
        proof {
            lemma_start_offset_is(b0, start_pos as int);
        }

        if start_pos == n {
            self.buf.clear();
            return Some(DecodeResult::Error { error: CodecError::NoStartByte, skip: 0 });
        }

        if start_pos > 0 {
            self.discard_front(start_pos);
        }
        assert(self.buf@ =~= b0.skip(start_pos as int));

        if self.buf.len() < 5 {
            return Some(DecodeResult::Incomplete);
        }

        let len = self.buf[2] as usize;
        let frame_total = len + 5;

        if self.buf.len() < frame_total {
            return Some(DecodeResult::Incomplete);
        }

        let type_byte = self.buf[1];
        let received_crc = self.buf[3 + len];
        let end_byte = self.buf[4 + len];

        if end_byte != FRAME_END {
            self.discard_front(1);
            return Some(DecodeResult::Error { error: CodecError::MissingEndByte, skip: 1 });
        }

        let crc_input = copy_range(&self.buf, 1, 3 + len);
        let expected_crc = crc8(crc_input.as_slice());

        if received_crc != expected_crc {
            self.discard_front(1);
            return Some(
                DecodeResult::Error {
                    error: CodecError::CrcMismatch { expected: expected_crc, got: received_crc },
                    skip: 1,
                },
            );
        }

        let payload = copy_range(&self.buf, 3, 3 + len);
        self.discard_front(frame_total);

        match Message::decode(type_byte, payload.as_slice()) {
            Ok(message) => Some(DecodeResult::Complete { message, bytes_consumed: frame_total }),
            Err(e) => Some(
                DecodeResult::Error { error: CodecError::MessageError(e), skip: frame_total },
            ),
        }
    }

    /// Decodes messages until one is complete, skipping frames with errors
    /// (their bytes are discarded, as `decode_one` does); returns `None` once
    /// the buffer is empty or holds only an incomplete frame.
    pub fn poll_message(&mut self) -> (r: Option<Message>)
        ensures
            (r, final(self)@) == spec_poll(old(self)@),
        decreases old(self)@.len(),
    {
        let ghost before = self@;
        let res = self.decode_one();
        proof {
            lemma_decode_progress(before);
        }
        match res {
            Some(DecodeResult::Complete { message, .. }) => Some(message),
            Some(DecodeResult::Error { .. }) => self.poll_message(),
            _ => None,
        }
    }

    /// Returns the number of bytes currently in the internal buffer.
    pub fn buffered_len(&self) -> (n: usize)
        ensures
            n == self@.len(),
    {
        self.buf.len()
    }

    /// Clears the internal buffer (e.g. on reconnect).
    pub fn reset(&mut self)
        ensures
            final(self)@ == Seq::<u8>::empty(),
    {
        self.buf.clear();
    }
}

} // verus!
