//! A length-prefixed frame codec.
//!
//! A frame is a head of one to four bytes and then the payload. The two low bits of the first byte
//! give the number of head bytes less one; the remaining bits of the head, lowest byte first, give
//! the payload's length.
use crate::buffer;
use crate::buffer::{
    buffer_advance, buffer_byte, buffer_extend, buffer_len, buffer_put, buffer_put_u16_le,
    buffer_put_u32_le, buffer_put_u8, buffer_reserve, buffer_split_to, frozen_len,
};
use bytes::{Bytes, BytesMut};
use vstd::prelude::*;

verus! {

/// The longest payload that a head can announce.
pub const MAX_FRAME_LEN: usize = 0x3FFF_FFFF;

/// Why the codec refused a frame.
#[derive(Debug, Clone, Copy, PartialEq, Eq)]
pub enum CodecError {
    /// The head announces a payload above the limit that was set.
    TooBigPacket,
    /// The payload is longer than a head can announce.
    Overflow,
}

#[derive(Debug, Clone, Copy)]
pub enum DecodeState {
    /// The next byte is the first of a head.
    Head,
    /// A head has been read; this many payload bytes follow.
    Data(usize),
}

#[derive(Debug, Clone, Copy)]
pub struct BytesCodec {
    pub state: DecodeState,
    pub raw: bool,
    pub max_packet_length: usize,
}

/// The number of head bytes of a frame with a payload of `n` bytes.
pub open spec fn head_len(n: nat) -> nat {
    if n <= 0x3F {
        1
    } else if n <= 0x3FFF {
        2
    } else if n <= 0x3F_FFFF {
        3
    } else {
        4
    }
}

/// The `width` lowest bytes of `value`, lowest first.
pub open spec fn le_bytes(value: nat, width: nat) -> Seq<u8>
    decreases width,
{
    if width == 0 {
        seq![]
    } else {
        seq![(value % 256) as u8] + le_bytes(value / 256, (width - 1) as nat)
    }
}

/// The number whose bytes, lowest first, are `bytes`.
pub open spec fn le_value(bytes: Seq<u8>) -> nat
    decreases bytes.len(),
{
    if bytes.len() == 0 {
        0
    } else {
        bytes[0] as nat + 256 * le_value(bytes.drop_first())
    }
}

/// The head of a frame with a payload of `n` bytes.
pub open spec fn frame_head(n: nat) -> Seq<u8> {
    le_bytes((4 * n + (head_len(n) - 1)) as nat, head_len(n))
}

/// The frame that carries `payload`.
pub open spec fn frame(payload: Seq<u8>) -> Seq<u8> {
    frame_head(payload.len()) + payload
}

/// The number of head bytes that the first byte announces.
pub open spec fn announced_head_len(first: u8) -> nat {
    (first % 4 + 1) as nat
}

/// The payload length that a head which stands whole at the front of `src` announces.
pub open spec fn announced_len(src: Seq<u8>) -> nat {
    le_value(src.take(announced_head_len(src[0]) as int)) / 4
}

/// Whether a whole head stands at the front of `src`.
pub open spec fn has_head(src: Seq<u8>) -> bool {
    src.len() > 0 && src.len() >= announced_head_len(src[0])
}

/// What a call of `decode` leaves behind and returns.
pub struct Decoded {
    pub codec: BytesCodec,
    pub rest: Seq<u8>,
    pub result: Result<Option<Seq<u8>>, CodecError>,
}

/// Decoding `src` once a head has announced `n` payload bytes.
pub open spec fn decode_payload(codec: BytesCodec, n: usize, src: Seq<u8>) -> Decoded {
    if src.len() < n {
        Decoded {
            codec: BytesCodec { state: DecodeState::Data(n), ..codec },
            rest: src,
            result: Ok(None),
        }
    } else {
        Decoded {
            codec: BytesCodec { state: DecodeState::Head, ..codec },
            rest: src.skip(n as int),
            result: Ok(Some(src.take(n as int))),
        }
    }
}

/// Decoding `src`: the next frame's payload if it is all there, and what has been consumed.
pub open spec fn decoded(codec: BytesCodec, src: Seq<u8>) -> Decoded {
    if codec.raw {
        if src.len() == 0 {
            Decoded { codec, rest: src, result: Ok(None) }
        } else {
            Decoded { codec, rest: seq![], result: Ok(Some(src)) }
        }
    } else {
        match codec.state {
            DecodeState::Data(n) => decode_payload(codec, n, src),
            DecodeState::Head => if !has_head(src) {
                Decoded { codec, rest: src, result: Ok(None) }
            } else if announced_len(src) > codec.max_packet_length {
                Decoded { codec, rest: src, result: Err(CodecError::TooBigPacket) }
            } else {
                decode_payload(
                    codec,
                    announced_len(src) as usize,
                    src.skip(announced_head_len(src[0]) as int),
                )
            },
        }
    }
}

/// The payloads that `n` calls of `decode` return, up to the first call that returns none.
pub open spec fn drained(codec: BytesCodec, src: Seq<u8>, n: nat) -> Seq<Seq<u8>>
    decreases n,
{
    if n == 0 {
        seq![]
    } else {
        let step = decoded(codec, src);
        match step.result {
            Ok(Some(payload)) => seq![payload] + drained(
                step.codec,
                step.rest,
                (n - 1) as nat,
            ),
            _ => seq![],
        }
    }
}

/// The frames of `payloads`, one after another.
pub open spec fn frames(payloads: Seq<Seq<u8>>) -> Seq<u8>
    decreases payloads.len(),
{
    if payloads.len() == 0 {
        seq![]
    } else {
        frame(payloads[0]) + frames(payloads.drop_first())
    }
}

/// What `encode` appends to the buffer for `payload`, or `None` when it refuses it.
pub open spec fn encoded(codec: BytesCodec, payload: Seq<u8>) -> Option<Seq<u8>> {
    if codec.raw {
        Some(payload)
    } else if payload.len() <= MAX_FRAME_LEN {
        Some(frame(payload))
    } else {
        None
    }
}

/// The payload that a decoded buffer holds, where one came out.
pub open spec fn payload_view(result: Result<Option<BytesMut>, CodecError>) -> Result<
    Option<Seq<u8>>,
    CodecError,
> {
    match result {
        Ok(Some(payload)) => Ok(Some(buffer::held(payload))),
        Ok(None) => Ok(None),
        Err(e) => Err(e),
    }
}

impl BytesCodec {
    /// A framing codec that accepts every length.
    pub fn new() -> (codec: Self)
        ensures
            codec == (BytesCodec {
                state: DecodeState::Head,
                raw: false,
                max_packet_length: usize::MAX,
            }),
    {
        Self { state: DecodeState::Head, raw: false, max_packet_length: usize::MAX }
    }

    /// Switches to passing bytes through unframed.
    pub fn set_raw(&mut self)
        ensures
            *final(self) == (BytesCodec { raw: true, ..*old(self) }),
    {
        self.raw = true;
    }

    /// Sets the longest payload that `decode` accepts.
    pub fn set_max_packet_length(&mut self, n: usize)
        ensures
            *final(self) == (BytesCodec { max_packet_length: n, ..*old(self) }),
    {
        self.max_packet_length = n;
    }

    /// Reads a head off the front of `src` and returns the length it announces.
    fn decode_head(&mut self, src: &mut BytesMut) -> (result: Result<Option<usize>, CodecError>)
        ensures
            *final(self) == *old(self),
            match result {
                Ok(None) => {
                    &&& !has_head(buffer::held(*old(src)))
                    &&& buffer::held(*final(src)) == buffer::held(*old(src))
                },
                Ok(Some(n)) => {
                    &&& has_head(buffer::held(*old(src)))
                    &&& n == announced_len(buffer::held(*old(src)))
                    &&& n <= old(self).max_packet_length
                    &&& buffer::held(*final(src)) == buffer::held(*old(src)).skip(
                        announced_head_len(buffer::held(*old(src))[0]) as int,
                    )
                },
                Err(e) => {
                    &&& e == CodecError::TooBigPacket
                    &&& has_head(buffer::held(*old(src)))
                    &&& announced_len(buffer::held(*old(src))) > old(self).max_packet_length
                    &&& buffer::held(*final(src)) == buffer::held(*old(src))
                },
            },
    {
        let ghost bytes = buffer::held(*src);
        let len: usize = buffer_len(src);
        if len == 0 {
            return Ok(None);
        }
        let first: u8 = buffer_byte(src, 0);
        assert(first & 0x3 == first % 4) by (bit_vector);
        let head_len: usize = ((first & 0x3) + 1) as usize;
        if len < head_len {
            return Ok(None);
        }
        let mut n: usize = first as usize;
        let ghost head = bytes.take(head_len as int);
        proof {
            lemma_le_value_unrolled(head);
        }
        if head_len > 1 {
            let b: u8 = buffer_byte(src, 1);
            proof {
                lemma_or_shifted_8(n, b);
            }
            n |= (b as usize) << 8;
        }
        if head_len > 2 {
            let b: u8 = buffer_byte(src, 2);
            proof {
                lemma_or_shifted_16(n, b);
            }
            n |= (b as usize) << 16;
        }
        if head_len > 3 {
            let b: u8 = buffer_byte(src, 3);
            proof {
                lemma_or_shifted_24(n, b);
            }
            n |= (b as usize) << 24;
        }
        assert(n == le_value(head));
        assert(n >> 2 == n / 4) by (bit_vector);
        n >>= 2;
        if n > self.max_packet_length {
            return Err(CodecError::TooBigPacket);
        }
        buffer_advance(src, head_len);
        // Room is made ahead of need, where an allocation can hold that much at all.
        if n <= isize::MAX as usize - buffer_len(src) {
            buffer_reserve(src, n);
        }
        Ok(Some(n))
    }

    /// Takes `n` payload bytes off the front of `src`, if they are there.
    fn decode_data(&self, n: usize, src: &mut BytesMut) -> (result: Option<BytesMut>)
        ensures
            match result {
                None => {
                    &&& buffer::held(*old(src)).len() < n
                    &&& buffer::held(*final(src)) == buffer::held(*old(src))
                },
                Some(data) => {
                    &&& buffer::held(*old(src)).len() >= n
                    &&& buffer::held(data) == buffer::held(*old(src)).take(n as int)
                    &&& buffer::held(*final(src)) == buffer::held(*old(src)).skip(n as int)
                },
            },
    {
        if buffer_len(src) < n {
            return None;
        }
        Some(buffer_split_to(src, n))
    }

    /// Takes the next payload out of `src`. `Ok(None)` means that more bytes are needed; what has
    /// been read of the head is remembered.
    pub fn decode(&mut self, src: &mut BytesMut) -> (result: Result<Option<BytesMut>, CodecError>)
        ensures
            *final(self) == decoded(*old(self), buffer::held(*old(src))).codec,
            buffer::held(*final(src)) == decoded(*old(self), buffer::held(*old(src))).rest,
            payload_view(result) == decoded(*old(self), buffer::held(*old(src))).result,
    {
        let ghost bytes = buffer::held(*src);
        if self.raw {
            let len: usize = buffer_len(src);
            if len > 0 {
                let data = buffer_split_to(src, len);
                assert(bytes.take(len as int) =~= bytes);
                assert(bytes.skip(len as int) =~= seq![]);
                return Ok(Some(data));
            } else {
                return Ok(None);
            }
        }
        let n: usize = match self.state {
            DecodeState::Head => match self.decode_head(src) {
                Err(e) => return Err(e),
                Ok(None) => return Ok(None),
                Ok(Some(n)) => {
                    self.state = DecodeState::Data(n);
                    n
                },
            },
            DecodeState::Data(n) => n,
        };
        match self.decode_data(n, src) {
            Some(data) => {
                self.state = DecodeState::Head;
                Ok(Some(data))
            },
            None => Ok(None),
        }
    }

    /// The same as `decode`: bytes that remain at the end of a stream are no error.
    pub fn decode_eof(&mut self, buf: &mut BytesMut) -> (result: Result<
        Option<BytesMut>,
        CodecError,
    >)
        ensures
            *final(self) == decoded(*old(self), buffer::held(*old(buf))).codec,
            buffer::held(*final(buf)) == decoded(*old(self), buffer::held(*old(buf))).rest,
            payload_view(result) == decoded(*old(self), buffer::held(*old(buf))).result,
    {
        self.decode(buf)
    }

    /// Appends the frame of `data` to `buf`.
    pub fn encode(&mut self, data: Bytes, buf: &mut BytesMut) -> (result: Result<(), CodecError>)
        requires
            encoded(*old(self), buffer::frozen(data)) matches Some(out) ==> buffer::held(
                *old(buf),
            ).len() + out.len() <= isize::MAX,
        ensures
            *final(self) == *old(self),
            match encoded(*old(self), buffer::frozen(data)) {
                Some(out) => {
                    &&& result == Ok::<(), CodecError>(())
                    &&& buffer::held(*final(buf)) == buffer::held(*old(buf)) + out
                },
                None => {
                    &&& result == Err::<(), CodecError>(CodecError::Overflow)
                    &&& buffer::held(*final(buf)) == buffer::held(*old(buf))
                },
            },
    {
        let ghost before = buffer::held(*buf);
        let ghost payload = buffer::frozen(data);
        let len: usize = frozen_len(&data);
        if self.raw {
            buffer_reserve(buf, len);
            buffer_put(buf, data);
            return Ok(());
        }
        proof {
            if len <= MAX_FRAME_LEN {
                lemma_frame_head_unrolled(len as nat);
            }
        }
        if len <= 0x3F {
            assert(len << 2 == 4 * len) by (bit_vector)
                requires
                    len <= 0x3F,
            ;
            buffer_put_u8(buf, (len << 2) as u8);
        } else if len <= 0x3FFF {
            assert(len << 2 == 4 * len) by (bit_vector)
                requires
                    len <= 0x3FFF,
            ;
            let shifted: u16 = (len << 2) as u16;
            assert(shifted | 0x1 == shifted + 1) by (bit_vector)
                requires
                    shifted % 4 == 0,
            ;
            buffer_put_u16_le(buf, shifted | 0x1);
        } else if len <= 0x3F_FFFF {
            assert(len << 2 == 4 * len) by (bit_vector)
                requires
                    len <= 0x3F_FFFF,
            ;
            let shifted: u32 = (len << 2) as u32;
            assert(shifted | 0x2 == shifted + 2) by (bit_vector)
                requires
                    shifted % 4 == 0,
            ;
            let h: u32 = shifted | 0x2;
            assert(h & 0xFFFF == h % 0x1_0000 && h >> 16 == h / 0x1_0000) by (bit_vector);
            buffer_put_u16_le(buf, (h & 0xFFFF) as u16);
            buffer_put_u8(buf, (h >> 16) as u8);
        } else if len <= 0x3FFF_FFFF {
            assert(len << 2 == 4 * len) by (bit_vector)
                requires
                    len <= 0x3FFF_FFFF,
            ;
            let shifted: u32 = (len << 2) as u32;
            assert(shifted | 0x3 == shifted + 3) by (bit_vector)
                requires
                    shifted % 4 == 0,
            ;
            buffer_put_u32_le(buf, shifted | 0x3);
        } else {
            return Err(CodecError::Overflow);
        }
        assert(buffer::held(*buf) =~= before + frame_head(payload.len()));
        buffer_extend(buf, data);
        assert(buffer::held(*buf) =~= before + frame(payload));
        Ok(())
    }
}

impl Default for BytesCodec {
    fn default() -> (codec: Self)
        ensures
            codec == (BytesCodec {
                state: DecodeState::Head,
                raw: false,
                max_packet_length: usize::MAX,
            }),
    {
        Self::new()
    }
}

proof fn lemma_or_shifted_8(n: usize, b: u8)
    requires
        n < 0x100,
    ensures
        n | ((b as usize) << 8) == n + 0x100 * b,
        n | ((b as usize) << 8) < 0x1_0000,
{
    assert(n | ((b as usize) << 8) == n + 0x100 * b && n | ((b as usize) << 8) < 0x1_0000)
        by (bit_vector)
        requires
            n < 0x100,
    ;
}

proof fn lemma_or_shifted_16(n: usize, b: u8)
    requires
        n < 0x1_0000,
    ensures
        n | ((b as usize) << 16) == n + 0x1_0000 * b,
        n | ((b as usize) << 16) < 0x100_0000,
{
    assert(n | ((b as usize) << 16) == n + 0x1_0000 * b && n | ((b as usize) << 16) < 0x100_0000)
        by (bit_vector)
        requires
            n < 0x1_0000,
    ;
}

proof fn lemma_or_shifted_24(n: usize, b: u8)
    requires
        n < 0x100_0000,
    ensures
        n | ((b as usize) << 24) == n + 0x100_0000 * b,
{
    assert(n | ((b as usize) << 24) == n + 0x100_0000 * b) by (bit_vector)
        requires
            n < 0x100_0000,
    ;
}

/// The number in a head of one to four bytes, byte by byte.
proof fn lemma_le_value_unrolled(head: Seq<u8>)
    requires
        1 <= head.len() <= 4,
    ensures
        le_value(head) == head[0] + (if head.len() > 1 {
            0x100 * head[1]
        } else {
            0
        }) + (if head.len() > 2 {
            0x1_0000 * head[2]
        } else {
            0
        }) + (if head.len() > 3 {
            0x100_0000 * head[3]
        } else {
            0
        }),
{
    reveal_with_fuel(le_value, 5);
    if head.len() > 1 {
        assert(head.drop_first()[0] == head[1]);
    }
    if head.len() > 2 {
        assert(head.drop_first().drop_first()[0] == head[2]);
    }
    if head.len() > 3 {
        assert(head.drop_first().drop_first().drop_first()[0] == head[3]);
    }
}

/// The head of a frame, byte by byte.
proof fn lemma_frame_head_unrolled(n: nat)
    requires
        n <= MAX_FRAME_LEN,
    ensures
        n <= 0x3F ==> frame_head(n) =~= seq![(4 * n) as u8],
        0x3F < n <= 0x3FFF ==> frame_head(n) =~= seq![
            ((4 * n + 1) % 256) as u8,
            ((4 * n + 1) / 256) as u8,
        ],
        0x3FFF < n <= 0x3F_FFFF ==> frame_head(n) =~= seq![
            ((4 * n + 2) % 0x1_0000 % 256) as u8,
            ((4 * n + 2) % 0x1_0000 / 256) as u8,
            ((4 * n + 2) / 0x1_0000) as u8,
        ],
        0x3F_FFFF < n ==> frame_head(n) =~= seq![
            ((4 * n + 3) % 0x100) as u8,
            ((4 * n + 3) / 0x100 % 0x100) as u8,
            ((4 * n + 3) / 0x1_0000 % 0x100) as u8,
            ((4 * n + 3) / 0x100_0000) as u8,
        ],
        frame_head(n).len() == head_len(n),
{
    reveal_with_fuel(le_bytes, 5);
}

/// Whether `width` bytes can hold `value`.
spec fn fits(value: nat, width: nat) -> bool
    decreases width,
{
    if width == 0 {
        value == 0
    } else {
        fits(value / 256, (width - 1) as nat)
    }
}

/// A number is the number of its bytes.
proof fn lemma_le_value_of_bytes(value: nat, width: nat)
    requires
        fits(value, width),
    ensures
        le_value(le_bytes(value, width)) == value,
        le_bytes(value, width).len() == width,
    decreases width,
{
    if width > 0 {
        let rest = le_bytes(value / 256, (width - 1) as nat);
        lemma_le_value_of_bytes(value / 256, (width - 1) as nat);
        assert(le_bytes(value, width).drop_first() =~= rest);
    }
}

/// A whole head at the front of a stream is read back: its width and the length it announces.
proof fn lemma_head_read_back(n: nat, tail: Seq<u8>)
    requires
        n <= MAX_FRAME_LEN,
    ensures
        has_head(frame_head(n) + tail),
        announced_head_len((frame_head(n) + tail)[0]) == head_len(n),
        announced_len(frame_head(n) + tail) == n,
        (frame_head(n) + tail).skip(head_len(n) as int) == tail,
{
    let src = frame_head(n) + tail;
    let head = frame_head(n);
    let value = (4 * n + (head_len(n) - 1)) as nat;
    reveal_with_fuel(fits, 5);
    lemma_le_value_of_bytes(value, head_len(n));
    assert(src[0] == head[0] == (value % 256) as u8);
    assert(head[0] % 4 == head_len(n) - 1);
    assert(src.take(head_len(n) as int) =~= head);
    assert(src.skip(head_len(n) as int) =~= tail);
}

/// A head cut short is not taken for a whole one.
proof fn lemma_cut_head(n: nat, k: nat)
    requires
        n <= MAX_FRAME_LEN,
        k < head_len(n),
    ensures
        !has_head(frame_head(n).take(k as int)),
{
    lemma_frame_head_unrolled(n);
    if k > 0 {
        assert(frame_head(n).take(k as int)[0] == frame_head(n)[0]);
        assert(frame_head(n)[0] % 4 == head_len(n) - 1);
    }
}

/// Decoding inverts encoding: a frame at the front of the buffer comes out as the payload that
/// was encoded, the codec is ready for the next frame, and what follows the frame is left alone.
pub proof fn law_decode_inverts_encode(codec: BytesCodec, payload: Seq<u8>, rest: Seq<u8>)
    requires
        !codec.raw,
        codec.state is Head,
        payload.len() <= MAX_FRAME_LEN,
        payload.len() <= codec.max_packet_length,
    ensures
        encoded(codec, payload) == Some(frame(payload)),
        decoded(codec, frame(payload) + rest) == (Decoded {
            codec,
            rest,
            result: Ok(Some(payload)),
        }),
{
    let n = payload.len();
    assert(frame(payload) + rest =~= frame_head(n) + (payload + rest));
    lemma_head_read_back(n, payload + rest);
    assert((payload + rest).take(n as int) =~= payload);
    assert((payload + rest).skip(n as int) =~= rest);
}

/// A frame that has arrived only in part yields nothing yet, and no error.
pub proof fn law_partial_frame_waits(codec: BytesCodec, payload: Seq<u8>, arrived: nat)
    requires
        !codec.raw,
        codec.state is Head,
        payload.len() <= MAX_FRAME_LEN,
        payload.len() <= codec.max_packet_length,
        arrived < frame(payload).len(),
    ensures
        decoded(codec, frame(payload).take(arrived as int)).result == Ok::<
            Option<Seq<u8>>,
            CodecError,
        >(None),
{
    let n = payload.len();
    lemma_frame_head_unrolled(n);
    if arrived < head_len(n) {
        lemma_cut_head(n, arrived);
        assert(frame(payload).take(arrived as int) =~= frame_head(n).take(arrived as int));
    } else {
        let part = payload.take(arrived - head_len(n));
        lemma_head_read_back(n, part);
        assert(frame(payload).take(arrived as int) =~= frame_head(n) + part);
    }
}

/// How a stream is cut into pieces does not matter: where a call finds too little to return
/// anything, the next call, after more bytes have arrived, does what one call on all the bytes
/// together would have done.
pub proof fn law_decode_resumes(codec: BytesCodec, src: Seq<u8>, more: Seq<u8>)
    requires
        decoded(codec, src).result == Ok::<Option<Seq<u8>>, CodecError>(None),
    ensures
        decoded(decoded(codec, src).codec, decoded(codec, src).rest + more) == decoded(
            codec,
            src + more,
        ),
{
    if !codec.raw && codec.state is Head && has_head(src) {
        let k = announced_head_len(src[0]) as int;
        assert((src + more)[0] == src[0]);
        assert((src + more).take(k) =~= src.take(k));
        assert((src + more).skip(k) =~= src.skip(k) + more);
    }
}

/// Frames that were written one after another come out in that order, each with its payload.
pub proof fn law_frames_come_out_in_order(
    codec: BytesCodec,
    payloads: Seq<Seq<u8>>,
    rest: Seq<u8>,
)
    requires
        !codec.raw,
        codec.state is Head,
        forall|i: int|
            0 <= i < payloads.len() ==> #[trigger] payloads[i].len() <= MAX_FRAME_LEN
                && payloads[i].len() <= codec.max_packet_length,
    ensures
        drained(codec, frames(payloads) + rest, payloads.len()) == payloads,
    decreases payloads.len(),
{
    if payloads.len() > 0 {
        let tail = payloads.drop_first();
        assert(frames(payloads) + rest =~= frame(payloads[0]) + (frames(tail) + rest));
        law_decode_inverts_encode(codec, payloads[0], frames(tail) + rest);
        assert forall|i: int| 0 <= i < tail.len() implies #[trigger] tail[i].len() <= MAX_FRAME_LEN
            && tail[i].len() <= codec.max_packet_length by {
            assert(tail[i] == payloads[i + 1]);
        }
        law_frames_come_out_in_order(codec, tail, rest);
        assert(drained(codec, frames(payloads) + rest, payloads.len()) =~= seq![payloads[0]]
            + tail);
        assert(seq![payloads[0]] + tail =~= payloads);
    }
}

/// A frame above the limit is refused as soon as its head has arrived, and nothing of it is
/// consumed.
pub proof fn law_too_big_frame_is_refused(codec: BytesCodec, n: nat, arrived: Seq<u8>)
    requires
        !codec.raw,
        codec.state is Head,
        codec.max_packet_length < n <= MAX_FRAME_LEN,
    ensures
        decoded(codec, frame_head(n) + arrived) == (Decoded {
            codec,
            rest: frame_head(n) + arrived,
            result: Err(CodecError::TooBigPacket),
        }),
{
    lemma_head_read_back(n, arrived);
}

/// In raw mode what is encoded is what is decoded, without a head.
pub proof fn law_raw_passes_bytes_through(codec: BytesCodec, payload: Seq<u8>)
    requires
        codec.raw,
        payload.len() > 0,
    ensures
        encoded(codec, payload) == Some(payload),
        decoded(codec, payload) == (Decoded {
            codec,
            rest: seq![],
            result: Ok(Some(payload)),
        }),
{
}

/// Writing is apart from reading: two codecs that agree on raw mode encode alike, whatever they have
/// read so far and whatever limit they have for what they read.
pub proof fn law_encoding_is_apart_from_decoding(a: BytesCodec, b: BytesCodec, payload: Seq<u8>)
    requires
        a.raw == b.raw,
    ensures
        encoded(a, payload) == encoded(b, payload),
{
}

/// Outside raw mode, whatever else holds of the codec, the payload is written whole behind a head
/// of the fewest bytes that can announce its length; one that no head can announce is refused.
pub proof fn law_payload_follows_its_head(codec: BytesCodec, payload: Seq<u8>)
    requires
        !codec.raw,
    ensures
        payload.len() > 0x3FFF_FFFF <==> encoded(codec, payload) is None,
        payload.len() <= 0x3F ==> (encoded(codec, payload) matches Some(out) && {
            &&& out.len() == 1 + payload.len()
            &&& out.skip(1) == payload
            &&& out[0] == 4 * payload.len()
        }),
        0x3F < payload.len() <= 0x3FFF ==> (encoded(codec, payload) matches Some(out) && {
            &&& out.len() == 2 + payload.len()
            &&& out.skip(2) == payload
            &&& out[0] + 0x100 * out[1] == 4 * payload.len() + 1
        }),
        0x3FFF < payload.len() <= 0x3F_FFFF ==> (encoded(codec, payload) matches Some(out) && {
            &&& out.len() == 3 + payload.len()
            &&& out.skip(3) == payload
            &&& out[0] + 0x100 * out[1] + 0x1_0000 * out[2] == 4 * payload.len() + 2
        }),
        0x3F_FFFF < payload.len() <= 0x3FFF_FFFF ==> (encoded(codec, payload) matches Some(out)
            && {
            &&& out.len() == 4 + payload.len()
            &&& out.skip(4) == payload
            &&& out[0] + 0x100 * out[1] + 0x1_0000 * out[2] + 0x100_0000 * out[3] == 4
                * payload.len() + 3
        }),
{
    let n = payload.len();
    if n <= 0x3FFF_FFFF {
        lemma_frame_head_unrolled(n);
        let out = frame(payload);
        let k = head_len(n) as int;
        assert(out.skip(k) =~= payload);
        assert(out.take(k) =~= frame_head(n));
        assert(forall|i: int| 0 <= i < k ==> out[i] == frame_head(n)[i]);
    }
}

/// In raw mode the payload itself is written, however long it is and whatever was read so far.
pub proof fn law_raw_payload_is_written_bare(codec: BytesCodec, payload: Seq<u8>)
    requires
        codec.raw,
    ensures
        encoded(codec, payload) == Some(payload),
{
}

/// In raw mode all that has arrived is handed out, whatever was read before, and nothing where
/// nothing has arrived.
pub proof fn law_raw_bytes_are_handed_out(codec: BytesCodec, src: Seq<u8>)
    requires
        codec.raw,
    ensures
        decoded(codec, src).codec == codec,
        decoded(codec, src).rest.len() == 0,
        decoded(codec, src).result == (if src.len() == 0 {
            Ok::<Option<Seq<u8>>, CodecError>(None)
        } else {
            Ok(Some(src))
        }),
{
}

/// A head is read by its own bytes: the two low bits of the first say how many there are, and the
/// rest of them what follows. As long as the head is not whole nothing happens; a length above the
/// limit is refused and left where it is; otherwise the head is taken off, and the payload with it
/// once it is whole.
pub proof fn law_head_says_what_follows(codec: BytesCodec, src: Seq<u8>, k: int, n: int)
    requires
        !codec.raw,
        codec.state is Head,
        src.len() > 0,
        k == src[0] % 4 + 1,
        n == (src[0] + (if k > 1 {
            0x100 * src[1]
        } else {
            0
        }) + (if k > 2 {
            0x1_0000 * src[2]
        } else {
            0
        }) + (if k > 3 {
            0x100_0000 * src[3]
        } else {
            0
        })) / 4,
    ensures
        src.len() < k ==> decoded(codec, src) == (Decoded { codec, rest: src, result: Ok(None) }),
        src.len() >= k && n > codec.max_packet_length ==> decoded(codec, src) == (Decoded {
            codec,
            rest: src,
            result: Err(CodecError::TooBigPacket),
        }),
        src.len() >= k && n <= codec.max_packet_length && src.len() < k + n ==> {
            &&& decoded(codec, src).result == Ok::<Option<Seq<u8>>, CodecError>(None)
            &&& decoded(codec, src).rest == src.skip(k)
            &&& decoded(codec, src).codec.state == DecodeState::Data(n as usize)
        },
        src.len() >= k + n && n <= codec.max_packet_length ==> {
            &&& decoded(codec, src).result == Ok::<Option<Seq<u8>>, CodecError>(
                Some(src.subrange(k, k + n)),
            )
            &&& decoded(codec, src).rest == src.skip(k + n)
            &&& decoded(codec, src).codec.state is Head
        },
        decoded(codec, src).codec.raw == codec.raw,
        decoded(codec, src).codec.max_packet_length == codec.max_packet_length,
{
    if src.len() >= k {
        let head = src.take(k);
        lemma_le_value_unrolled(head);
        assert(head[0] == src[0]);
        assert(k > 1 ==> head[1] == src[1]);
        assert(k > 2 ==> head[2] == src[2]);
        assert(k > 3 ==> head[3] == src[3]);
        assert(announced_len(src) == n);
        if src.len() >= k + n {
            assert(src.skip(k).take(n) =~= src.subrange(k, k + n));
            assert(src.skip(k).skip(n) =~= src.skip(k + n));
        }
    }
}

/// Once a head was read, as many bytes as it announced are the payload, whatever the limit is by
/// now; until they have all arrived nothing happens. Where no bytes are left, a head is waited for.
pub proof fn law_announced_bytes_are_the_payload(codec: BytesCodec, src: Seq<u8>, n: usize)
    requires
        !codec.raw,
    ensures
        codec.state is Head && src.len() == 0 ==> decoded(codec, src) == (Decoded {
            codec,
            rest: src,
            result: Ok(None),
        }),
        codec.state == DecodeState::Data(n) && src.len() < n ==> decoded(codec, src) == (Decoded {
            codec,
            rest: src,
            result: Ok(None),
        }),
        codec.state == DecodeState::Data(n) && src.len() >= n ==> {
            &&& decoded(codec, src).result == Ok::<Option<Seq<u8>>, CodecError>(
                Some(src.subrange(0, n as int)),
            )
            &&& decoded(codec, src).rest == src.skip(n as int)
            &&& decoded(codec, src).codec.state is Head
            &&& decoded(codec, src).codec.raw == codec.raw
            &&& decoded(codec, src).codec.max_packet_length == codec.max_packet_length
        },
{
    if src.len() >= n {
        assert(src.take(n as int) =~= src.subrange(0, n as int));
    }
}

} // verus!
