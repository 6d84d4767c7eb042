//! The byte buffers of the `bytes` crate, as the frame codec uses them.
//!
//! Verus does not look inside `BytesMut` and `Bytes`. What such a value holds is given by
//! [`held`] and [`frozen`]; the functions below say what each method of the crate
//! does to those bytes. None of this is proved here.
//!
//! A method that makes a buffer grow panics, as a `Vec` does, where the allocation would outgrow
//! what the machine can address. The crate counts into that allocation what was taken from the
//! front of the buffer and is not yet given back, and the room by which it grows ahead of need; the
//! conditions below count the bytes that the buffer holds.
use bytes::{Buf, BufMut, Bytes, BytesMut};
use vstd::prelude::*;

verus! {

/// `bytes::BytesMut`, an opaque growable buffer.
#[verifier::external_type_specification]
#[verifier::external_body]
pub struct ExBytesMut(bytes::BytesMut);

/// `bytes::Bytes`, an opaque immutable byte string.
#[verifier::external_type_specification]
#[verifier::external_body]
pub struct ExBytes(bytes::Bytes);

/// The bytes between the start and the end of a `BytesMut`.
pub uninterp spec fn held(buffer: BytesMut) -> Seq<u8>;

/// The bytes of a `Bytes`.
pub uninterp spec fn frozen(data: Bytes) -> Seq<u8>;

/// `BytesMut::len`: the number of bytes in the buffer, which never exceeds what an allocation can
/// hold.
#[verifier::external_body]
pub(crate) fn buffer_len(buffer: &BytesMut) -> (n: usize)
    ensures
        n == held(*buffer).len(),
        n <= isize::MAX,
{
    buffer.len()
}

/// Indexing a `BytesMut`, which dereferences to its bytes.
#[verifier::external_body]
pub(crate) fn buffer_byte(buffer: &BytesMut, i: usize) -> (b: u8)
    requires
        i < held(*buffer).len(),
    ensures
        b == held(*buffer)[i as int],
{
    buffer[i]
}

/// `Buf::advance` of `BytesMut`: drops the first `n` bytes. It panics when there are fewer.
#[verifier::external_body]
pub(crate) fn buffer_advance(buffer: &mut BytesMut, n: usize)
    requires
        n <= held(*old(buffer)).len(),
    ensures
        held(*final(buffer)) == held(*old(buffer)).skip(n as int),
{
    buffer.advance(n)
}

/// `BytesMut::reserve`: makes room for more bytes and leaves those that are there. It panics when
/// the room asked for is more than an allocation can hold.
#[verifier::external_body]
pub(crate) fn buffer_reserve(buffer: &mut BytesMut, additional: usize)
    requires
        held(*old(buffer)).len() + additional <= isize::MAX,
    ensures
        held(*final(buffer)) == held(*old(buffer)),
{
    buffer.reserve(additional)
}

/// `BytesMut::split_to`: takes the first `at` bytes out of the buffer and returns them. It panics
/// when there are fewer.
#[verifier::external_body]
pub(crate) fn buffer_split_to(buffer: &mut BytesMut, at: usize) -> (front: BytesMut)
    requires
        at <= held(*old(buffer)).len(),
    ensures
        held(front) == held(*old(buffer)).take(at as int),
        held(*final(buffer)) == held(*old(buffer)).skip(at as int),
{
    buffer.split_to(at)
}

/// `BufMut::put_u8` of `BytesMut`: appends one byte.
#[verifier::external_body]
pub(crate) fn buffer_put_u8(buffer: &mut BytesMut, n: u8)
    requires
        held(*old(buffer)).len() + 1 <= isize::MAX,
    ensures
        held(*final(buffer)) == held(*old(buffer)).push(n),
{
    buffer.put_u8(n)
}

/// `BufMut::put_u16_le` of `BytesMut`: appends the low byte, then the high byte.
#[verifier::external_body]
pub(crate) fn buffer_put_u16_le(buffer: &mut BytesMut, n: u16)
    requires
        held(*old(buffer)).len() + 2 <= isize::MAX,
    ensures
        held(*final(buffer)) == held(*old(buffer)) + seq![
            (n % 256) as u8,
            (n / 256) as u8,
        ],
{
    buffer.put_u16_le(n)
}

/// `BufMut::put_u32_le` of `BytesMut`: appends the four bytes, lowest first.
#[verifier::external_body]
pub(crate) fn buffer_put_u32_le(buffer: &mut BytesMut, n: u32)
    requires
        held(*old(buffer)).len() + 4 <= isize::MAX,
    ensures
        held(*final(buffer)) == held(*old(buffer)) + seq![
            (n % 0x100) as u8,
            (n / 0x100 % 0x100) as u8,
            (n / 0x1_0000 % 0x100) as u8,
            (n / 0x100_0000) as u8,
        ],
{
    buffer.put_u32_le(n)
}

/// `BufMut::put` of `BytesMut`, given a `Bytes`: appends its bytes.
#[verifier::external_body]
pub(crate) fn buffer_put(buffer: &mut BytesMut, data: Bytes)
    requires
        held(*old(buffer)).len() + frozen(data).len() <= isize::MAX,
    ensures
        held(*final(buffer)) == held(*old(buffer)) + frozen(data),
{
    buffer.put(data)
}

/// `Extend<u8>::extend` of `BytesMut`, given a `Bytes`: appends its bytes one by one.
#[verifier::external_body]
pub(crate) fn buffer_extend(buffer: &mut BytesMut, data: Bytes)
    requires
        held(*old(buffer)).len() + frozen(data).len() <= isize::MAX,
    ensures
        held(*final(buffer)) == held(*old(buffer)) + frozen(data),
{
    buffer.extend(data)
}

/// `Bytes::len`: the number of bytes.
#[verifier::external_body]
pub(crate) fn frozen_len(data: &Bytes) -> (n: usize)
    ensures
        n == frozen(*data).len(),
        n <= isize::MAX,
{
    data.len()
}

} // verus!
