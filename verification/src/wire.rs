//! Byte buffers, held in `bytes::BytesMut`.
use bytes::{BufMut, BytesMut};
use vstd::prelude::*;

verus! {

/// The growable buffer of the crate `bytes`.
#[verifier::external_type_specification]
#[verifier::external_body]
pub struct ExBytesMut(bytes::BytesMut);

/// The bytes that a buffer holds, from the first written on.
pub uninterp spec fn held(b: BytesMut) -> Seq<u8>;

/// The four bytes of a 32-bit number, the most significant first.
pub open spec fn be32(n: i32) -> Seq<u8> {
    let u: int = if n < 0 {
        n + 0x1_0000_0000
    } else {
        n as int
    };
    seq![
        (u / 0x100_0000) as u8,
        (u / 0x1_0000 % 0x100) as u8,
        (u / 0x100 % 0x100) as u8,
        (u % 0x100) as u8,
    ]
}

/// `BytesMut::new`: a buffer that holds nothing.
#[verifier::external_body]
pub(crate) fn new_buffer() -> (b: BytesMut)
    ensures
        held(b) == Seq::<u8>::empty(),
{
    BytesMut::new()
}

/// `BufMut::put_u8` on a `BytesMut`: one byte is appended.
#[verifier::external_body]
pub(crate) fn put_byte(b: &mut BytesMut, byte: u8)
    ensures
        held(*final(b)) == held(*old(b)).push(byte),
{
    b.put_u8(byte);
}

/// `BufMut::put_i32` on a `BytesMut`: the four bytes of the number are
/// appended in network order.
#[verifier::external_body]
pub(crate) fn put_number(b: &mut BytesMut, n: i32)
    ensures
        held(*final(b)) == held(*old(b)) + be32(n),
{
    b.put_i32(n);
}

/// `BufMut::put_slice` on a `BytesMut`: all the bytes are appended in order.
#[verifier::external_body]
pub(crate) fn put_bytes(b: &mut BytesMut, bytes: &[u8])
    ensures
        held(*final(b)) == held(*old(b)) + bytes@,
{
    b.put_slice(bytes);
}

/// `BytesMut::len`: the number of bytes held.
#[verifier::external_body]
pub(crate) fn buffer_len(b: &BytesMut) -> (n: usize)
    ensures
        n == held(*b).len(),
{
    b.len()
}

/// `BytesMut::clear`: nothing is held afterwards.
#[verifier::external_body]
pub(crate) fn clear_buffer(b: &mut BytesMut)
    ensures
        held(*final(b)) == Seq::<u8>::empty(),
{
    b.clear();
}

} // verus!
