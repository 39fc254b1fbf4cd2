//! Trusted view of the `bytes` crate buffers used by the wire layer.
//!
//! `Bytes` and `BytesMut` are opaque to Verus; their contents are named by
//! `bytes_contents` and `bytes_mut_contents`, and every method the library
//! calls is reached through a wrapper whose contract states what the
//! `bytes` source does to those contents.

use bytes::{Buf, BufMut, Bytes, BytesMut};
use std::io;
use vstd::prelude::*;

verus! {

#[verifier::external_type_specification]
#[verifier::external_body]
pub struct ExBytes(Bytes);

#[verifier::external_type_specification]
#[verifier::external_body]
pub struct ExBytesMut(BytesMut);

#[verifier::external_type_specification]
#[verifier::external_body]
pub struct ExIoError(io::Error);

/// `io::Error::new(ErrorKind::UnexpectedEof, msg)`: the error a reader
/// returns when its input ends too early. What the error holds is not stated.
#[verifier::external_body]
pub(crate) fn unexpected_eof(msg: &str) -> (e: io::Error) {
    io::Error::new(io::ErrorKind::UnexpectedEof, msg.to_string())
}

/// The bytes a `Bytes` handle currently refers to, from its cursor to its end.
pub uninterp spec fn bytes_contents(b: Bytes) -> Seq<u8>;

/// The bytes a `BytesMut` buffer currently holds.
pub uninterp spec fn bytes_mut_contents(b: BytesMut) -> Seq<u8>;

/// Big-endian value of the first two bytes of `s`.
pub open spec fn be_u16(s: Seq<u8>) -> u16 {
    ((s[0] as int) * 0x100 + (s[1] as int)) as u16
}

/// Little-endian value of the first two bytes of `s`.
pub open spec fn le_u16(s: Seq<u8>) -> u16 {
    ((s[1] as int) * 0x100 + (s[0] as int)) as u16
}

/// Big-endian value of the first four bytes of `s`.
pub open spec fn be_u32(s: Seq<u8>) -> u32 {
    ((s[0] as int) * 0x1000000 + (s[1] as int) * 0x10000 + (s[2] as int) * 0x100 + (s[3] as int)) as u32
}

/// Little-endian value of the first four bytes of `s`.
pub open spec fn le_u32(s: Seq<u8>) -> u32 {
    ((s[3] as int) * 0x1000000 + (s[2] as int) * 0x10000 + (s[1] as int) * 0x100 + (s[0] as int)) as u32
}

/// Big-endian value of the first eight bytes of `s`.
pub open spec fn be_u64(s: Seq<u8>) -> u64 {
    ((be_u32(s) as int) * 0x100000000 + (be_u32(s.subrange(4, 8)) as int)) as u64
}

/// Little-endian value of the first eight bytes of `s`.
pub open spec fn le_u64(s: Seq<u8>) -> u64 {
    ((le_u32(s.subrange(4, 8)) as int) * 0x100000000 + (le_u32(s) as int)) as u64
}

/// The two bytes of `v`, most significant first.
pub open spec fn u16_be_bytes(v: u16) -> Seq<u8> {
    seq![(v / 0x100) as u8, (v % 0x100) as u8]
}

/// The four bytes of `v`, most significant first.
pub open spec fn u32_be_bytes(v: u32) -> Seq<u8> {
    seq![(v / 0x1000000) as u8, ((v / 0x10000) % 0x100) as u8, ((v / 0x100) % 0x100) as u8, (v % 0x100) as u8]
}

/// A run of `n` copies of `val`.
pub open spec fn repeat_byte(val: u8, n: nat) -> Seq<u8> {
    Seq::new(n, |i: int| val)
}

// ---- Bytes ----------------------------------------------------------------

/// `Bytes::clone`: a second handle over the same contents.
pub assume_specification[ <Bytes as Clone>::clone ](b: &Bytes) -> (r: Bytes)
    ensures
        bytes_contents(r) == bytes_contents(*b),
;

/// `Bytes::len`: the number of bytes the handle refers to. A `Bytes` refers
/// to one allocation or static slice, which Rust bounds by `isize::MAX`.
#[verifier::external_body]
pub(crate) fn bytes_len(b: &Bytes) -> (r: usize)
    ensures
        r == bytes_contents(*b).len(),
        r <= isize::MAX,
{
    b.len()
}

/// `Bytes` dereferenced to `[u8]`: a slice holding exactly its contents.
#[verifier::external_body]
pub(crate) fn bytes_as_slice(b: &Bytes) -> (r: &[u8])
    ensures
        r@ == bytes_contents(*b),
{
    b
}

/// `Bytes::split_to`: the handle keeps `[at, len)` and `[0, at)` is returned.
/// Panics when `at > len`, which `requires` rules out.
#[verifier::external_body]
pub(crate) fn bytes_split_to(b: &mut Bytes, at: usize) -> (r: Bytes)
    requires
        at <= bytes_contents(*old(b)).len(),
    ensures
        bytes_contents(r) == bytes_contents(*old(b)).take(at as int),
        bytes_contents(*final(b)) == bytes_contents(*old(b)).skip(at as int),
{
    b.split_to(at)
}

/// `Bytes::split_off`: the handle keeps `[0, at)` and `[at, len)` is returned.
/// Panics when `at > len`, which `requires` rules out.
#[verifier::external_body]
pub(crate) fn bytes_split_off(b: &mut Bytes, at: usize) -> (r: Bytes)
    requires
        at <= bytes_contents(*old(b)).len(),
    ensures
        bytes_contents(r) == bytes_contents(*old(b)).skip(at as int),
        bytes_contents(*final(b)) == bytes_contents(*old(b)).take(at as int),
{
    b.split_off(at)
}

/// `Buf::advance` on `Bytes`: drops the first `n` bytes. Panics when `n`
/// exceeds the length, which `requires` rules out.
#[verifier::external_body]
pub(crate) fn bytes_advance(b: &mut Bytes, n: usize)
    requires
        n <= bytes_contents(*old(b)).len(),
    ensures
        bytes_contents(*final(b)) == bytes_contents(*old(b)).skip(n as int),
{
    b.advance(n)
}

/// `Buf::copy_to_slice` on `Bytes`: fills `dst` with the next `dst.len()`
/// bytes and advances past them. Panics when fewer bytes remain, which
/// `requires` rules out.
#[verifier::external_body]
pub(crate) fn bytes_copy_to_slice(b: &mut Bytes, dst: &mut [u8])
    requires
        old(dst)@.len() <= bytes_contents(*old(b)).len(),
    ensures
        final(dst)@ == bytes_contents(*old(b)).take(old(dst)@.len() as int),
        bytes_contents(*final(b)) == bytes_contents(*old(b)).skip(old(dst)@.len() as int),
{
    b.copy_to_slice(dst)
}

/// `Buf::get_u8` on `Bytes`: the first byte, consumed.
#[verifier::external_body]
pub(crate) fn bytes_get_u8(b: &mut Bytes) -> (r: u8)
    requires
        bytes_contents(*old(b)).len() >= 1,
    ensures
        r == bytes_contents(*old(b))[0],
        bytes_contents(*final(b)) == bytes_contents(*old(b)).skip(1),
{
    b.get_u8()
}

/// `Buf::get_i8` on `Bytes`: the first byte as a signed value, consumed.
#[verifier::external_body]
pub(crate) fn bytes_get_i8(b: &mut Bytes) -> (r: i8)
    requires
        bytes_contents(*old(b)).len() >= 1,
    ensures
        r == bytes_contents(*old(b))[0] as i8,
        bytes_contents(*final(b)) == bytes_contents(*old(b)).skip(1),
{
    b.get_i8()
}

/// `Buf::get_u16` on `Bytes`: two bytes, big-endian, consumed.
#[verifier::external_body]
pub(crate) fn bytes_get_u16(b: &mut Bytes) -> (r: u16)
    requires
        bytes_contents(*old(b)).len() >= 2,
    ensures
        r == be_u16(bytes_contents(*old(b))),
        bytes_contents(*final(b)) == bytes_contents(*old(b)).skip(2),
{
    b.get_u16()
}

/// `Buf::get_u16_le` on `Bytes`: two bytes, little-endian, consumed.
#[verifier::external_body]
pub(crate) fn bytes_get_u16_le(b: &mut Bytes) -> (r: u16)
    requires
        bytes_contents(*old(b)).len() >= 2,
    ensures
        r == le_u16(bytes_contents(*old(b))),
        bytes_contents(*final(b)) == bytes_contents(*old(b)).skip(2),
{
    b.get_u16_le()
}

/// `Buf::get_i16` on `Bytes`: two bytes, big-endian two's complement, consumed.
#[verifier::external_body]
pub(crate) fn bytes_get_i16(b: &mut Bytes) -> (r: i16)
    requires
        bytes_contents(*old(b)).len() >= 2,
    ensures
        r == be_u16(bytes_contents(*old(b))) as i16,
        bytes_contents(*final(b)) == bytes_contents(*old(b)).skip(2),
{
    b.get_i16()
}

/// `Buf::get_i16_le` on `Bytes`: two bytes, little-endian two's complement, consumed.
#[verifier::external_body]
pub(crate) fn bytes_get_i16_le(b: &mut Bytes) -> (r: i16)
    requires
        bytes_contents(*old(b)).len() >= 2,
    ensures
        r == le_u16(bytes_contents(*old(b))) as i16,
        bytes_contents(*final(b)) == bytes_contents(*old(b)).skip(2),
{
    b.get_i16_le()
}

/// `Buf::get_u32` on `Bytes`: four bytes, big-endian, consumed.
#[verifier::external_body]
pub(crate) fn bytes_get_u32(b: &mut Bytes) -> (r: u32)
    requires
        bytes_contents(*old(b)).len() >= 4,
    ensures
        r == be_u32(bytes_contents(*old(b))),
        bytes_contents(*final(b)) == bytes_contents(*old(b)).skip(4),
{
    b.get_u32()
}

/// `Buf::get_u32_le` on `Bytes`: four bytes, little-endian, consumed.
#[verifier::external_body]
pub(crate) fn bytes_get_u32_le(b: &mut Bytes) -> (r: u32)
    requires
        bytes_contents(*old(b)).len() >= 4,
    ensures
        r == le_u32(bytes_contents(*old(b))),
        bytes_contents(*final(b)) == bytes_contents(*old(b)).skip(4),
{
    b.get_u32_le()
}

/// `Buf::get_i32` on `Bytes`: four bytes, big-endian two's complement, consumed.
#[verifier::external_body]
pub(crate) fn bytes_get_i32(b: &mut Bytes) -> (r: i32)
    requires
        bytes_contents(*old(b)).len() >= 4,
    ensures
        r == be_u32(bytes_contents(*old(b))) as i32,
        bytes_contents(*final(b)) == bytes_contents(*old(b)).skip(4),
{
    b.get_i32()
}

/// `Buf::get_i32_le` on `Bytes`: four bytes, little-endian two's complement, consumed.
#[verifier::external_body]
pub(crate) fn bytes_get_i32_le(b: &mut Bytes) -> (r: i32)
    requires
        bytes_contents(*old(b)).len() >= 4,
    ensures
        r == le_u32(bytes_contents(*old(b))) as i32,
        bytes_contents(*final(b)) == bytes_contents(*old(b)).skip(4),
{
    b.get_i32_le()
}

/// `Buf::get_u64` on `Bytes`: eight bytes, big-endian, consumed.
#[verifier::external_body]
pub(crate) fn bytes_get_u64(b: &mut Bytes) -> (r: u64)
    requires
        bytes_contents(*old(b)).len() >= 8,
    ensures
        r == be_u64(bytes_contents(*old(b))),
        bytes_contents(*final(b)) == bytes_contents(*old(b)).skip(8),
{
    b.get_u64()
}

/// `Buf::get_u64_le` on `Bytes`: eight bytes, little-endian, consumed.
#[verifier::external_body]
pub(crate) fn bytes_get_u64_le(b: &mut Bytes) -> (r: u64)
    requires
        bytes_contents(*old(b)).len() >= 8,
    ensures
        r == le_u64(bytes_contents(*old(b))),
        bytes_contents(*final(b)) == bytes_contents(*old(b)).skip(8),
{
    b.get_u64_le()
}

// ---- BytesMut -------------------------------------------------------------

/// `BytesMut::with_capacity`: an empty buffer.
#[verifier::external_body]
pub(crate) fn bytes_mut_with_capacity(capacity: usize) -> (r: BytesMut)
    ensures
        bytes_mut_contents(r) == Seq::<u8>::empty(),
{
    BytesMut::with_capacity(capacity)
}

/// `BytesMut::from(&[u8])`: a buffer holding a copy of the slice.
#[verifier::external_body]
pub(crate) fn bytes_mut_from_slice(s: &[u8]) -> (r: BytesMut)
    ensures
        bytes_mut_contents(r) == s@,
{
    BytesMut::from(s)
}

/// `BytesMut::len`.
#[verifier::external_body]
pub(crate) fn bytes_mut_len(b: &BytesMut) -> (r: usize)
    ensures
        r == bytes_mut_contents(*b).len(),
{
    b.len()
}

/// `BytesMut` dereferenced to `[u8]`.
#[verifier::external_body]
pub(crate) fn bytes_mut_as_slice(b: &BytesMut) -> (r: &[u8])
    ensures
        r@ == bytes_mut_contents(*b),
{
    b
}

/// Writing one byte through `IndexMut` on `BytesMut`. Panics out of bounds,
/// which `requires` rules out.
#[verifier::external_body]
pub(crate) fn bytes_mut_set(b: &mut BytesMut, i: usize, v: u8)
    requires
        i < bytes_mut_contents(*old(b)).len(),
    ensures
        bytes_mut_contents(*final(b)) == bytes_mut_contents(*old(b)).update(i as int, v),
{
    b[i] = v;
}

/// `BufMut::put_u8` on `BytesMut`: appends one byte. The buffer panics when
/// its length would overflow `usize`, which `requires` rules out.
#[verifier::external_body]
pub(crate) fn bytes_mut_put_u8(b: &mut BytesMut, v: u8)
    requires
        bytes_mut_contents(*old(b)).len() + 1 <= usize::MAX,
    ensures
        bytes_mut_contents(*final(b)) == bytes_mut_contents(*old(b)).push(v),
{
    b.put_u8(v)
}

/// `BufMut::put_u16` on `BytesMut`: appends two bytes, big-endian.
#[verifier::external_body]
pub(crate) fn bytes_mut_put_u16(b: &mut BytesMut, v: u16)
    requires
        bytes_mut_contents(*old(b)).len() + 2 <= usize::MAX,
    ensures
        bytes_mut_contents(*final(b)) == bytes_mut_contents(*old(b)) + u16_be_bytes(v),
{
    b.put_u16(v)
}

/// `BufMut::put_u32` on `BytesMut`: appends four bytes, big-endian.
#[verifier::external_body]
pub(crate) fn bytes_mut_put_u32(b: &mut BytesMut, v: u32)
    requires
        bytes_mut_contents(*old(b)).len() + 4 <= usize::MAX,
    ensures
        bytes_mut_contents(*final(b)) == bytes_mut_contents(*old(b)) + u32_be_bytes(v),
{
    b.put_u32(v)
}

/// `BufMut::put_bytes` on `BytesMut`: appends `n` copies of `v`.
#[verifier::external_body]
pub(crate) fn bytes_mut_put_bytes(b: &mut BytesMut, v: u8, n: usize)
    requires
        bytes_mut_contents(*old(b)).len() + n <= usize::MAX,
    ensures
        bytes_mut_contents(*final(b)) == bytes_mut_contents(*old(b)) + repeat_byte(v, n as nat),
{
    b.put_bytes(v, n)
}

/// `BytesMut::extend_from_slice`: appends the slice.
#[verifier::external_body]
pub(crate) fn bytes_mut_extend_from_slice(b: &mut BytesMut, s: &[u8])
    requires
        bytes_mut_contents(*old(b)).len() + s@.len() <= usize::MAX,
    ensures
        bytes_mut_contents(*final(b)) == bytes_mut_contents(*old(b)) + s@,
{
    b.extend_from_slice(s)
}

/// `BytesMut::freeze`: an immutable `Bytes` over the same contents.
#[verifier::external_body]
pub(crate) fn bytes_mut_freeze(b: BytesMut) -> (r: Bytes)
    ensures
        bytes_contents(r) == bytes_mut_contents(b),
{
    b.freeze()
}

} // verus!
