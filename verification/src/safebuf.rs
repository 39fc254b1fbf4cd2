//! Bounds-checked reads over `Bytes` for untrusted network data.
//!
//! Every consuming read checks that enough bytes remain before it advances
//! the cursor; on underflow it returns an `UnexpectedEof` error and leaves
//! the buffer as it was, so a truncated packet never panics the reader.

use crate::buffers::{
    unexpected_eof,
    be_u16, be_u32, be_u64, bytes_advance, bytes_as_slice, bytes_contents, bytes_copy_to_slice,
    bytes_get_i16, bytes_get_i16_le, bytes_get_i32, bytes_get_i32_le, bytes_get_i8, bytes_get_u16,
    bytes_get_u16_le, bytes_get_u32, bytes_get_u32_le, bytes_get_u64, bytes_get_u64_le, bytes_get_u8,
    bytes_len, bytes_split_to, le_u16, le_u32, le_u64,
};
use crate::text::{push_nat_decimal, spec_nat_decimal, string_push_str};
use bytes::Bytes;
use std::io;
use vstd::prelude::*;

verus! {

/// A bounds-checked reader over `Bytes`.
#[derive(Debug, Clone)]
pub struct SafeBuf {
    inner: Bytes,
}

impl View for SafeBuf {
    type V = Seq<u8>;

    /// The bytes that are still to be read.
    closed spec fn view(&self) -> Seq<u8> {
        bytes_contents(self.inner)
    }
}

/// The message of an underflow: how many bytes a read needed and how many
/// were left.
pub open spec fn spec_underflow_message(needed: nat, remaining: nat) -> Seq<char> {
    "buffer underflow: needed "@ + spec_nat_decimal(needed) + " bytes, "@ + spec_nat_decimal(remaining)
        + " remaining"@
}

/// The text of the underflow message for `needed` and `remaining`.
pub fn underflow_message(needed: usize, remaining: usize) -> (r: String)
    ensures
        r@ == spec_underflow_message(needed as nat, remaining as nat),
{
    let mut msg = String::new();
    string_push_str(&mut msg, "buffer underflow: needed ");
    push_nat_decimal(&mut msg, needed as u64);
    string_push_str(&mut msg, " bytes, ");
    push_nat_decimal(&mut msg, remaining as u64);
    string_push_str(&mut msg, " remaining");
    msg
}

/// The `UnexpectedEof` error for a read that needed `needed` bytes when
/// `remaining` were left, carrying the underflow message.
fn eof(needed: usize, remaining: usize) -> io::Error {
    let msg = underflow_message(needed, remaining);
    unexpected_eof(msg.as_str())
}

impl SafeBuf {
    /// Wrap an existing `Bytes` for safe reading.
    pub fn new(buf: Bytes) -> (r: Self)
        ensures
            r@ == bytes_contents(buf),
    {
        SafeBuf { inner: buf }
    }

    /// Number of bytes remaining before the cursor.
    pub fn remaining(&self) -> (r: usize)
        ensures
            r == self@.len(),
    {
        bytes_len(&self.inner)
    }

    /// Length of the unread part of the buffer.
    pub fn len(&self) -> (r: usize)
        ensures
            r == self@.len(),
    {
        bytes_len(&self.inner)
    }

    /// Whether nothing is left to read.
    pub fn is_empty(&self) -> (r: bool)
        ensures
            r == (self@.len() == 0),
    {
        bytes_len(&self.inner) == 0
    }

    /// The unread bytes as a slice (does not advance).
    pub fn as_bytes(&self) -> (r: &[u8])
        ensures
            r@ == self@,
    {
        bytes_as_slice(&self.inner)
    }

    /// Consume and return the inner `Bytes`.
    pub fn into_inner(self) -> (r: Bytes)
        ensures
            bytes_contents(r) == self@,
    {
        self.inner
    }

    /// `Ok` exactly when at least `n` bytes remain.
    fn require(&self, n: usize) -> (r: io::Result<()>)
        ensures
            r is Ok <==> self@.len() >= n,
    {
        let remaining = bytes_len(&self.inner);
        if remaining >= n {
            Ok(())
        } else {
            Err(eof(n, remaining))
        }
    }

    /// Read one unsigned byte.
    pub fn read_u8(&mut self) -> (r: io::Result<u8>)
        ensures
            old(self)@.len() >= 1 ==> (r matches Ok(v) && v == old(self)@[0] && final(self)@ == old(self)@.skip(1)),
            old(self)@.len() < 1 ==> r is Err && final(self)@ == old(self)@,
    {
        self.require(1)?;
        Ok(bytes_get_u8(&mut self.inner))
    }

    /// Read one signed byte.
    pub fn read_i8(&mut self) -> (r: io::Result<i8>)
        ensures
            old(self)@.len() >= 1 ==> (r matches Ok(v) && v == old(self)@[0] as i8 && final(self)@ == old(self)@.skip(1)),
            old(self)@.len() < 1 ==> r is Err && final(self)@ == old(self)@,
    {
        self.require(1)?;
        Ok(bytes_get_i8(&mut self.inner))
    }

    /// Read a big-endian u16.
    pub fn read_u16(&mut self) -> (r: io::Result<u16>)
        ensures
            old(self)@.len() >= 2 ==> (r matches Ok(v) && v == be_u16(old(self)@) && final(self)@ == old(self)@.skip(2)),
            old(self)@.len() < 2 ==> r is Err && final(self)@ == old(self)@,
    {
        self.require(2)?;
        Ok(bytes_get_u16(&mut self.inner))
    }

    /// Read a little-endian u16.
    pub fn read_u16_le(&mut self) -> (r: io::Result<u16>)
        ensures
            old(self)@.len() >= 2 ==> (r matches Ok(v) && v == le_u16(old(self)@) && final(self)@ == old(self)@.skip(2)),
            old(self)@.len() < 2 ==> r is Err && final(self)@ == old(self)@,
    {
        self.require(2)?;
        Ok(bytes_get_u16_le(&mut self.inner))
    }

    /// Read a big-endian i16.
    pub fn read_i16(&mut self) -> (r: io::Result<i16>)
        ensures
            old(self)@.len() >= 2 ==> (r matches Ok(v) && v == be_u16(old(self)@) as i16 && final(self)@ == old(self)@.skip(2)),
            old(self)@.len() < 2 ==> r is Err && final(self)@ == old(self)@,
    {
        self.require(2)?;
        Ok(bytes_get_i16(&mut self.inner))
    }

    /// Read a little-endian i16.
    pub fn read_i16_le(&mut self) -> (r: io::Result<i16>)
        ensures
            old(self)@.len() >= 2 ==> (r matches Ok(v) && v == le_u16(old(self)@) as i16 && final(self)@ == old(self)@.skip(2)),
            old(self)@.len() < 2 ==> r is Err && final(self)@ == old(self)@,
    {
        self.require(2)?;
        Ok(bytes_get_i16_le(&mut self.inner))
    }

    /// Read a big-endian u32.
    pub fn read_u32(&mut self) -> (r: io::Result<u32>)
        ensures
            old(self)@.len() >= 4 ==> (r matches Ok(v) && v == be_u32(old(self)@) && final(self)@ == old(self)@.skip(4)),
            old(self)@.len() < 4 ==> r is Err && final(self)@ == old(self)@,
    {
        self.require(4)?;
        Ok(bytes_get_u32(&mut self.inner))
    }

    /// Read a little-endian u32.
    pub fn read_u32_le(&mut self) -> (r: io::Result<u32>)
        ensures
            old(self)@.len() >= 4 ==> (r matches Ok(v) && v == le_u32(old(self)@) && final(self)@ == old(self)@.skip(4)),
            old(self)@.len() < 4 ==> r is Err && final(self)@ == old(self)@,
    {
        self.require(4)?;
        Ok(bytes_get_u32_le(&mut self.inner))
    }

    /// Read a big-endian i32.
    pub fn read_i32(&mut self) -> (r: io::Result<i32>)
        ensures
            old(self)@.len() >= 4 ==> (r matches Ok(v) && v == be_u32(old(self)@) as i32 && final(self)@ == old(self)@.skip(4)),
            old(self)@.len() < 4 ==> r is Err && final(self)@ == old(self)@,
    {
        self.require(4)?;
        Ok(bytes_get_i32(&mut self.inner))
    }

    /// Read a little-endian i32.
    pub fn read_i32_le(&mut self) -> (r: io::Result<i32>)
        ensures
            old(self)@.len() >= 4 ==> (r matches Ok(v) && v == le_u32(old(self)@) as i32 && final(self)@ == old(self)@.skip(4)),
            old(self)@.len() < 4 ==> r is Err && final(self)@ == old(self)@,
    {
        self.require(4)?;
        Ok(bytes_get_i32_le(&mut self.inner))
    }

    /// Read a big-endian u64.
    pub fn read_u64(&mut self) -> (r: io::Result<u64>)
        ensures
            old(self)@.len() >= 8 ==> (r matches Ok(v) && v == be_u64(old(self)@) && final(self)@ == old(self)@.skip(8)),
            old(self)@.len() < 8 ==> r is Err && final(self)@ == old(self)@,
    {
        self.require(8)?;
        Ok(bytes_get_u64(&mut self.inner))
    }

    /// Read a little-endian u64.
    pub fn read_u64_le(&mut self) -> (r: io::Result<u64>)
        ensures
            old(self)@.len() >= 8 ==> (r matches Ok(v) && v == le_u64(old(self)@) && final(self)@ == old(self)@.skip(8)),
            old(self)@.len() < 8 ==> r is Err && final(self)@ == old(self)@,
    {
        self.require(8)?;
        Ok(bytes_get_u64_le(&mut self.inner))
    }

    /// Read a big-endian `f32`, as its IEEE-754 bit pattern.
    pub fn read_f32(&mut self) -> (r: io::Result<u32>)
        ensures
            old(self)@.len() >= 4 ==> (r matches Ok(v) && v == be_u32(old(self)@) && final(self)@ == old(self)@.skip(4)),
            old(self)@.len() < 4 ==> r is Err && final(self)@ == old(self)@,
    {
        self.read_u32()
    }

    /// Read a little-endian `f32`, as its IEEE-754 bit pattern.
    pub fn read_f32_le(&mut self) -> (r: io::Result<u32>)
        ensures
            old(self)@.len() >= 4 ==> (r matches Ok(v) && v == le_u32(old(self)@) && final(self)@ == old(self)@.skip(4)),
            old(self)@.len() < 4 ==> r is Err && final(self)@ == old(self)@,
    {
        self.read_u32_le()
    }

    /// Read a big-endian `f64`, as its IEEE-754 bit pattern.
    pub fn read_f64(&mut self) -> (r: io::Result<u64>)
        ensures
            old(self)@.len() >= 8 ==> (r matches Ok(v) && v == be_u64(old(self)@) && final(self)@ == old(self)@.skip(8)),
            old(self)@.len() < 8 ==> r is Err && final(self)@ == old(self)@,
    {
        self.read_u64()
    }

    /// Read a little-endian `f64`, as its IEEE-754 bit pattern.
    pub fn read_f64_le(&mut self) -> (r: io::Result<u64>)
        ensures
            old(self)@.len() >= 8 ==> (r matches Ok(v) && v == le_u64(old(self)@) && final(self)@ == old(self)@.skip(8)),
            old(self)@.len() < 8 ==> r is Err && final(self)@ == old(self)@,
    {
        self.read_u64_le()
    }

    /// Copy exactly `dst.len()` bytes into `dst`, advancing the cursor.
    pub fn read_bytes_into(&mut self, dst: &mut [u8]) -> (r: io::Result<()>)
        ensures
            old(self)@.len() >= old(dst)@.len() ==> r is Ok
                && final(dst)@ == old(self)@.take(old(dst)@.len() as int)
                && final(self)@ == old(self)@.skip(old(dst)@.len() as int),
            old(self)@.len() < old(dst)@.len() ==> r is Err && final(self)@ == old(self)@
                && final(dst)@ == old(dst)@,
    {
        self.require(dst.len())?;
        bytes_copy_to_slice(&mut self.inner, dst);
        Ok(())
    }

    /// Read `n` bytes as an owned `Vec<u8>`.
    pub fn read_vec(&mut self, n: usize) -> (r: io::Result<Vec<u8>>)
        ensures
            old(self)@.len() >= n ==> (r matches Ok(v) && v@ == old(self)@.take(n as int)
                && final(self)@ == old(self)@.skip(n as int)),
            old(self)@.len() < n ==> r is Err && final(self)@ == old(self)@,
    {
        self.require(n)?;
        let mut v: Vec<u8> = vec![0u8; n];
        bytes_copy_to_slice(&mut self.inner, v.as_mut_slice());
        Ok(v)
    }

    /// Read a fixed-size array.
    pub fn read_array<const N: usize>(&mut self) -> (r: io::Result<[u8; N]>)
        ensures
            old(self)@.len() >= N ==> (r matches Ok(a) && a@ == old(self)@.take(N as int)
                && final(self)@ == old(self)@.skip(N as int)),
            old(self)@.len() < N ==> r is Err && final(self)@ == old(self)@,
    {
        self.require(N)?;
        let mut arr: [u8; N] = [0u8; N];
        bytes_copy_to_slice(&mut self.inner, &mut arr);
        Ok(arr)
    }

    /// Read a string whose length is given by a 1-byte prefix.
    pub fn read_string_u8(&mut self) -> (r: io::Result<Vec<u8>>)
        ensures
            old(self)@.len() >= 1 && old(self)@.len() >= 1 + old(self)@[0] ==> (r matches Ok(v)
                && v@ == old(self)@.subrange(1, 1 + old(self)@[0])
                && final(self)@ == old(self)@.skip(1 + old(self)@[0])),
            old(self)@.len() < 1 ==> r is Err && final(self)@ == old(self)@,
            old(self)@.len() >= 1 && old(self)@.len() < 1 + old(self)@[0] ==> r is Err
                && final(self)@ == old(self)@.skip(1),
    {
        let len = self.read_u8()? as usize;
        self.read_vec(len)
    }

    /// Read a string whose length is given by a 2-byte little-endian prefix.
    pub fn read_string_u16_le(&mut self) -> (r: io::Result<Vec<u8>>)
        ensures
            old(self)@.len() >= 2 && old(self)@.len() >= 2 + le_u16(old(self)@) ==> (r matches Ok(v)
                && v@ == old(self)@.subrange(2, 2 + le_u16(old(self)@))
                && final(self)@ == old(self)@.skip(2 + le_u16(old(self)@))),
            old(self)@.len() < 2 ==> r is Err && final(self)@ == old(self)@,
            old(self)@.len() >= 2 && old(self)@.len() < 2 + le_u16(old(self)@) ==> r is Err
                && final(self)@ == old(self)@.skip(2),
    {
        let len = self.read_u16_le()? as usize;
        self.read_vec(len)
    }

    /// Read a fixed-size NUL-padded byte buffer (common in LLUDP).
    pub fn read_fixed_bytes<const N: usize>(&mut self) -> (r: io::Result<[u8; N]>)
        ensures
            old(self)@.len() >= N ==> (r matches Ok(a) && a@ == old(self)@.take(N as int)
                && final(self)@ == old(self)@.skip(N as int)),
            old(self)@.len() < N ==> r is Err && final(self)@ == old(self)@,
    {
        self.read_array()
    }

    /// Skip `n` bytes without reading them.
    pub fn skip(&mut self, n: usize) -> (r: io::Result<()>)
        ensures
            old(self)@.len() >= n ==> r is Ok && final(self)@ == old(self)@.skip(n as int),
            old(self)@.len() < n ==> r is Err && final(self)@ == old(self)@,
    {
        self.require(n)?;
        bytes_advance(&mut self.inner, n);
        Ok(())
    }

    /// The byte at `offset` from the cursor, without advancing. The error for
    /// an offset past the end reports `offset + 1` bytes needed, so `offset`
    /// must leave room for that count.
    pub fn peek_at(&self, offset: usize) -> (r: io::Result<u8>)
        requires
            offset < usize::MAX,
        ensures
            offset < self@.len() ==> (r matches Ok(v) && v == self@[offset as int]),
            offset >= self@.len() ==> r is Err,
    {
        let remaining = bytes_len(&self.inner);
        if offset < remaining {
            let s = bytes_as_slice(&self.inner);
            Ok(s[offset])
        } else {
            Err(eof(offset + 1, remaining))
        }
    }

    /// Take the first `n` bytes as a `Bytes` (zero-copy split), advancing.
    pub fn take(&mut self, n: usize) -> (r: io::Result<Bytes>)
        ensures
            old(self)@.len() >= n ==> (r matches Ok(b) && bytes_contents(b) == old(self)@.take(n as int)
                && final(self)@ == old(self)@.skip(n as int)),
            old(self)@.len() < n ==> r is Err && final(self)@ == old(self)@,
    {
        self.require(n)?;
        Ok(bytes_split_to(&mut self.inner, n))
    }
}

} // verus!
