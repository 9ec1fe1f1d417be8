//! Byte buffers of the `bytes` crate.
//!
//! [`Bytes`] is an immutable, cheaply shared run of bytes and [`BytesMut`] the
//! growable buffer it is made from. Both are taken from the `bytes` crate as
//! they are; this module says what each operation does to their contents.

use bytes::{Buf, BufMut, Bytes, BytesMut};
use vstd::prelude::*;

verus! {

/// The shared, immutable buffer type of the `bytes` crate.
#[verifier::external_type_specification]
#[verifier::external_body]
pub struct ExBytes(bytes::Bytes);

/// The growable buffer type of the `bytes` crate.
#[verifier::external_type_specification]
#[verifier::external_body]
pub struct ExBytesMut(bytes::BytesMut);

/// The bytes that a shared buffer holds.
pub uninterp spec fn shared(b: Bytes) -> Seq<u8>;

/// The bytes that a growable buffer holds.
pub uninterp spec fn growing(b: BytesMut) -> Seq<u8>;

/// The two bytes of `x`, most significant first.
pub open spec fn be16(x: u16) -> Seq<u8> {
    seq![(x / 256) as u8, (x % 256) as u8]
}

/// The four bytes of `x`, most significant first.
pub open spec fn be32(x: u32) -> Seq<u8> {
    seq![
        (x / 16777216) as u8,
        (x / 65536 % 256) as u8,
        (x / 256 % 256) as u8,
        (x % 256) as u8,
    ]
}

/// The number that two bytes denote, most significant first.
pub open spec fn from_be16(hi: u8, lo: u8) -> u16 {
    (hi * 256 + lo) as u16
}

/// The number that four bytes denote, most significant first.
pub open spec fn from_be32(a: u8, b: u8, c: u8, d: u8) -> u32 {
    (a * 16777216 + b * 65536 + c * 256 + d) as u32
}

/// Reading back the two bytes of a number gives the number.
pub proof fn be16_round_trip(x: u16)
    ensures
        from_be16(be16(x)[0], be16(x)[1]) == x,
{
}

/// Reading back the four bytes of a number gives the number.
pub proof fn be32_round_trip(x: u32)
    ensures
        from_be32(be32(x)[0], be32(x)[1], be32(x)[2], be32(x)[3]) == x,
{
}

/// `Bytes::clone` is a second handle on the same bytes.
pub assume_specification[ <Bytes as Clone>::clone ](b: &Bytes) -> (r: Bytes)
    ensures
        shared(r) == shared(*b),
;

/// `Bytes::len` is the number of bytes held, which is at most `isize::MAX` as
/// for every allocation.
#[verifier::external_body]
pub(crate) fn shared_len(b: &Bytes) -> (n: usize)
    ensures
        n == shared(*b).len(),
        n <= isize::MAX,
{
    b.len()
}

/// `Bytes` dereferences to a slice of the bytes held.
#[verifier::external_body]
pub(crate) fn shared_slice(b: &Bytes) -> (s: &[u8])
    ensures
        s@ == shared(*b),
{
    b
}

/// `Bytes::copy_from_slice` holds a copy of the slice.
#[verifier::external_body]
pub(crate) fn shared_copy(data: &[u8]) -> (b: Bytes)
    ensures
        shared(b) == data@,
{
    Bytes::copy_from_slice(data)
}

/// `Bytes::from` takes over the bytes of a vector.
#[verifier::external_body]
pub(crate) fn shared_from_vec(data: Vec<u8>) -> (b: Bytes)
    ensures
        shared(b) == data@,
{
    Bytes::from(data)
}

/// `BytesMut::new` holds nothing.
#[verifier::external_body]
pub(crate) fn growing_new() -> (b: BytesMut)
    ensures
        growing(b) == Seq::<u8>::empty(),
{
    BytesMut::new()
}

/// `BytesMut::with_capacity` holds nothing either. It panics when asked for
/// more than an allocation can hold.
#[verifier::external_body]
pub(crate) fn growing_with_capacity(capacity: usize) -> (b: BytesMut)
    requires
        capacity <= isize::MAX,
    ensures
        growing(b) == Seq::<u8>::empty(),
{
    BytesMut::with_capacity(capacity)
}

/// `BytesMut::len` is the number of bytes held, which is at most `isize::MAX`
/// as for every allocation.
#[verifier::external_body]
pub(crate) fn growing_len(b: &BytesMut) -> (n: usize)
    ensures
        n == growing(*b).len(),
        n <= isize::MAX,
{
    b.len()
}

/// `BytesMut` dereferences to a slice of the bytes held.
#[verifier::external_body]
pub(crate) fn growing_slice(b: &BytesMut) -> (s: &[u8])
    ensures
        s@ == growing(*b),
{
    b
}

/// `BytesMut::extend_from_slice` appends the slice.
#[verifier::external_body]
pub(crate) fn growing_extend(b: &mut BytesMut, data: &[u8])
    requires
        growing(*old(b)).len() + data@.len() <= isize::MAX,
    ensures
        growing(*final(b)) == growing(*old(b)) + data@,
{
    b.extend_from_slice(data)
}

/// `BufMut::put_slice` appends the slice.
#[verifier::external_body]
pub(crate) fn put_slice(b: &mut BytesMut, data: &[u8])
    requires
        growing(*old(b)).len() + data@.len() <= isize::MAX,
    ensures
        growing(*final(b)) == growing(*old(b)) + data@,
{
    b.put_slice(data)
}

/// `BufMut::put_u8` appends one byte.
#[verifier::external_body]
pub(crate) fn put_u8(b: &mut BytesMut, x: u8)
    requires
        growing(*old(b)).len() + 1 <= isize::MAX,
    ensures
        growing(*final(b)) == growing(*old(b)) + seq![x],
{
    b.put_u8(x)
}

/// `BufMut::put_u16` appends a number in big-endian byte order.
#[verifier::external_body]
pub(crate) fn put_u16(b: &mut BytesMut, x: u16)
    requires
        growing(*old(b)).len() + 2 <= isize::MAX,
    ensures
        growing(*final(b)) == growing(*old(b)) + be16(x),
{
    b.put_u16(x)
}

/// `BufMut::put_u32` appends a number in big-endian byte order.
#[verifier::external_body]
pub(crate) fn put_u32(b: &mut BytesMut, x: u32)
    requires
        growing(*old(b)).len() + 4 <= isize::MAX,
    ensures
        growing(*final(b)) == growing(*old(b)) + be32(x),
{
    b.put_u32(x)
}

/// `Buf::advance` drops bytes from the front. It panics past the end.
#[verifier::external_body]
pub(crate) fn growing_advance(b: &mut BytesMut, n: usize)
    requires
        n <= growing(*old(b)).len(),
    ensures
        growing(*final(b)) == growing(*old(b)).skip(n as int),
{
    b.advance(n)
}

/// `BytesMut::split_to` takes bytes from the front. It panics past the end.
#[verifier::external_body]
pub(crate) fn growing_split_to(b: &mut BytesMut, n: usize) -> (head: BytesMut)
    requires
        n <= growing(*old(b)).len(),
    ensures
        growing(head) == growing(*old(b)).take(n as int),
        growing(*final(b)) == growing(*old(b)).skip(n as int),
{
    b.split_to(n)
}

/// `BytesMut::split` takes everything and leaves the buffer empty.
#[verifier::external_body]
pub(crate) fn growing_split(b: &mut BytesMut) -> (all: BytesMut)
    ensures
        growing(all) == growing(*old(b)),
        growing(*final(b)) == Seq::<u8>::empty(),
{
    b.split()
}

/// `BytesMut::clear` drops everything.
#[verifier::external_body]
pub(crate) fn growing_clear(b: &mut BytesMut)
    ensures
        growing(*final(b)) == Seq::<u8>::empty(),
{
    b.clear()
}

/// `BytesMut::freeze` turns the buffer into a shared one with the same bytes.
#[verifier::external_body]
pub(crate) fn freeze(b: BytesMut) -> (r: Bytes)
    ensures
        shared(r) == growing(b),
{
    b.freeze()
}

/// `Buf::get_u8` on a slice reads one byte and moves the slice past it. It
/// panics at the end.
#[verifier::external_body]
pub(crate) fn get_u8(cursor: &mut &[u8]) -> (x: u8)
    requires
        old(cursor)@.len() >= 1,
    ensures
        x == old(cursor)@[0],
        final(cursor)@ == old(cursor)@.skip(1),
{
    cursor.get_u8()
}

/// `Buf::get_u16` on a slice reads a big-endian number and moves the slice past
/// it. It panics when too few bytes are left.
#[verifier::external_body]
pub(crate) fn get_u16(cursor: &mut &[u8]) -> (x: u16)
    requires
        old(cursor)@.len() >= 2,
    ensures
        x == from_be16(old(cursor)@[0], old(cursor)@[1]),
        final(cursor)@ == old(cursor)@.skip(2),
{
    cursor.get_u16()
}

/// `Buf::get_u32` on a slice reads a big-endian number and moves the slice past
/// it. It panics when too few bytes are left.
#[verifier::external_body]
pub(crate) fn get_u32(cursor: &mut &[u8]) -> (x: u32)
    requires
        old(cursor)@.len() >= 4,
    ensures
        x == from_be32(old(cursor)@[0], old(cursor)@[1], old(cursor)@[2], old(cursor)@[3]),
        final(cursor)@ == old(cursor)@.skip(4),
{
    cursor.get_u32()
}

/// The bytes of a number weigh by their place, the first the most.
pub proof fn be_bytes_weigh_by_place(n: u16, m: u32)
    ensures
        be16(n).len() == 2,
        n == 0x100 * be16(n)[0] + be16(n)[1],
        be32(m).len() == 4,
        m == 0x1000000 * be32(m)[0] + 0x10000 * be32(m)[1] + 0x100 * be32(m)[2] + be32(m)[3],
{
    be16_round_trip(n);
    be32_round_trip(m);
}

/// A number read from bytes weighs them by their place, the first the most.
pub proof fn be_values_weigh_by_place(a: u8, b: u8, c: u8, d: u8, e: u8, f: u8)
    ensures
        from_be16(a, b) == 0x100 * a + b,
        from_be32(c, d, e, f) == 0x1000000 * c + 0x10000 * d + 0x100 * e + f,
{
}

} // verus!
