//! The LLUDP packet header: flags, sequence number, message number in one of
//! three frequency encodings, and the list of acknowledgements that may be
//! appended at the end of a packet.

use crate::buffers::{
    be_u16, be_u32, bytes_advance, bytes_as_slice, bytes_contents, bytes_len, bytes_mut_contents,
    bytes_mut_put_u16, bytes_mut_put_u32, bytes_mut_put_u8, bytes_split_off, u16_be_bytes,
    u32_be_bytes, unexpected_eof,
};
use bytes::{Bytes, BytesMut};
use std::io;
use vstd::prelude::*;

verus! {

/// How a message number is encoded: Low (`FF FF` + 2 bytes), Medium
/// (`FF` + 1 byte) or High (1 byte).
#[derive(Debug, Clone, Copy, PartialEq, Eq, Structural)]
pub enum PacketFrequency {
    Low,
    Medium,
    High,
}

/// An LLUDP packet header.
#[derive(Debug, Clone, PartialEq, Eq)]
pub struct Header {
    pub reliable: bool,
    pub resent: bool,
    pub zerocoded: bool,
    pub appended_acks: bool,
    pub sequence: u32,
    pub id: u16,
    pub frequency: PacketFrequency,
    pub acks: Vec<u32>,
}

impl Default for Header {
    fn default() -> (h: Self)
        ensures
            !h.reliable && !h.resent && !h.zerocoded && !h.appended_acks,
            h.sequence == 0 && h.id == 0,
            h.frequency == PacketFrequency::Low,
            h.acks@ == Seq::<u32>::empty(),
    {
        Header {
            reliable: false,
            resent: false,
            zerocoded: false,
            appended_acks: false,
            sequence: 0,
            id: 0,
            frequency: PacketFrequency::Low,
            acks: Vec::new(),
        }
    }
}

pub const MSG_RELIABLE: u8 = 0x40;
pub const MSG_RESENT: u8 = 0x20;
pub const MSG_ZEROCODED: u8 = 0x80;
pub const MSG_APPENDED_ACKS: u8 = 0x10;

/// The flags byte of a header.
pub open spec fn spec_flags(reliable: bool, resent: bool, zerocoded: bool, appended_acks: bool) -> u8 {
    (if reliable { MSG_RELIABLE } else { 0u8 }) | (if resent { MSG_RESENT } else { 0u8 }) | (
    if zerocoded { MSG_ZEROCODED } else { 0u8 }) | (if appended_acks { MSG_APPENDED_ACKS } else { 0u8 })
}

/// The bytes `serialize` writes: flags, big-endian sequence, a zero byte,
/// then the message number in its frequency's encoding.
pub open spec fn spec_header_bytes(h: Header) -> Seq<u8> {
    seq![spec_flags(h.reliable, h.resent, h.zerocoded, h.appended_acks)] + u32_be_bytes(h.sequence)
        + seq![0u8] + match h.frequency {
        PacketFrequency::Low => seq![0xFFu8, 0xFFu8] + u16_be_bytes(h.id),
        PacketFrequency::Medium => seq![0xFFu8, h.id as u8],
        PacketFrequency::High => seq![h.id as u8],
    }
}

/// The big-endian bytes of each acknowledgement, in order.
pub open spec fn spec_ack_list_bytes(acks: Seq<u32>) -> Seq<u8>
    decreases acks.len(),
{
    if acks.len() == 0 {
        Seq::<u8>::empty()
    } else {
        spec_ack_list_bytes(acks.drop_last()) + u32_be_bytes(acks.last())
    }
}

/// The bytes `write_acks` appends: the acknowledgements and their count,
/// when the header carries a non-empty list it marks as appended.
pub open spec fn spec_acks_bytes(h: Header) -> Seq<u8> {
    if h.appended_acks && h.acks@.len() > 0 {
        spec_ack_list_bytes(h.acks@) + seq![h.acks@.len() as u8]
    } else {
        Seq::<u8>::empty()
    }
}

/// Where the message number ends in a packet, or `None` when the packet is
/// too short to hold it.
pub open spec fn spec_id_end(s: Seq<u8>) -> Option<int> {
    if s.len() < 7 {
        None
    } else if s[6] == 0xFF {
        if s.len() < 8 {
            None
        } else if s[7] == 0xFF {
            if s.len() < 10 {
                None
            } else {
                Some(10)
            }
        } else {
            Some(8)
        }
    } else {
        Some(7)
    }
}

/// Whether the packet after the message number ends in an appended
/// acknowledgement list that fits: its last byte is the count of the
/// four-byte acknowledgements before it.
pub open spec fn spec_has_ack_list(appended: bool, rest: Seq<u8>) -> bool {
    appended && rest.len() > 0 && rest.len() >= rest.last() as int * 4 + 1
}

/// The acknowledgements stored at the end of `rest`.
pub open spec fn spec_ack_list(rest: Seq<u8>) -> Seq<u32> {
    let count = rest.last() as int;
    let start = rest.len() - (count * 4 + 1);
    Seq::new(count as nat, |i: int| be_u32(rest.subrange(start + 4 * i, start + 4 * i + 4)))
}

/// `h` is the header that `deserialize` reads from `s`, and `body` is what
/// is left of `s` once the header and the appended acknowledgements are
/// taken off.
pub open spec fn spec_header_parsed(s: Seq<u8>, h: Header, body: Seq<u8>) -> bool {
    &&& spec_id_end(s) is Some
    &&& h.reliable == (s[0] & MSG_RELIABLE != 0)
    &&& h.resent == (s[0] & MSG_RESENT != 0)
    &&& h.zerocoded == (s[0] & MSG_ZEROCODED != 0)
    &&& h.appended_acks == (s[0] & MSG_APPENDED_ACKS != 0)
    &&& h.sequence == be_u32(s.skip(1))
    &&& (if s[6] != 0xFF {
        h.frequency == PacketFrequency::High && h.id == s[6] as u16
    } else if s[7] != 0xFF {
        h.frequency == PacketFrequency::Medium && h.id == s[7] as u16
    } else {
        h.frequency == PacketFrequency::Low && h.id == be_u16(s.skip(8))
    })
    &&& ({
        let rest = s.skip(spec_id_end(s)->0);
        if spec_has_ack_list(h.appended_acks, rest) {
            &&& h.acks@ == spec_ack_list(rest)
            &&& body == rest.take(rest.len() - (rest.last() as int * 4 + 1))
        } else {
            &&& h.acks@ == Seq::<u32>::empty()
            &&& body == rest
        }
    })
}

/// A header that survives a serialize / deserialize round trip: a one-byte
/// message number is below `0xFF`, and the acknowledgement list is present
/// (with at most 255 entries) exactly when the header marks it appended.
pub open spec fn spec_header_round_trips(h: Header) -> bool {
    &&& (h.frequency == PacketFrequency::Medium ==> h.id < 0xFF)
    &&& (h.frequency == PacketFrequency::High ==> h.id < 0xFF)
    &&& (h.appended_acks ==> 0 < h.acks@.len() <= 255)
    &&& (!h.appended_acks ==> h.acks@.len() == 0)
}

impl Header {
    /// Write the fixed header (flags, sequence, padding byte, message number).
    pub fn serialize(&self, buf: &mut BytesMut)
        requires
            bytes_mut_contents(*old(buf)).len() + 10 <= usize::MAX,
        ensures
            bytes_mut_contents(*final(buf)) == bytes_mut_contents(*old(buf)) + spec_header_bytes(*self),
    {
        let f1: u8 = if self.reliable { MSG_RELIABLE } else { 0 };
        let f2: u8 = if self.resent { MSG_RESENT } else { 0 };
        let f3: u8 = if self.zerocoded { MSG_ZEROCODED } else { 0 };
        let f4: u8 = if self.appended_acks { MSG_APPENDED_ACKS } else { 0 };
        let flags: u8 = f1 | f2 | f3 | f4;
        let ghost start = bytes_mut_contents(*buf);
        bytes_mut_put_u8(buf, flags);
        bytes_mut_put_u32(buf, self.sequence);
        bytes_mut_put_u8(buf, 0);
        let ghost fixed = bytes_mut_contents(*buf);
        assert(fixed =~= start + (seq![flags] + u32_be_bytes(self.sequence) + seq![0u8]));
        match self.frequency {
            PacketFrequency::Low => {
                bytes_mut_put_u8(buf, 0xFF);
                bytes_mut_put_u8(buf, 0xFF);
                bytes_mut_put_u16(buf, self.id);
                assert(bytes_mut_contents(*buf) =~= fixed + (seq![0xFFu8, 0xFFu8] + u16_be_bytes(self.id)));
            },
            PacketFrequency::Medium => {
                bytes_mut_put_u8(buf, 0xFF);
                bytes_mut_put_u8(buf, self.id as u8);
                assert(bytes_mut_contents(*buf) =~= fixed + seq![0xFFu8, self.id as u8]);
            },
            PacketFrequency::High => {
                bytes_mut_put_u8(buf, self.id as u8);
                assert(bytes_mut_contents(*buf) =~= fixed + seq![self.id as u8]);
            },
        }
        assert(bytes_mut_contents(*buf) =~= start + spec_header_bytes(*self));
    }

    /// Append the acknowledgement list and its count, when the header marks
    /// it appended and it is not empty.
    pub fn write_acks(&self, buf: &mut BytesMut)
        requires
            bytes_mut_contents(*old(buf)).len() + 4 * self.acks@.len() + 1 <= usize::MAX,
        ensures
            bytes_mut_contents(*final(buf)) == bytes_mut_contents(*old(buf)) + spec_acks_bytes(*self),
    {
        if self.appended_acks && self.acks.len() > 0 {
            let ghost start = bytes_mut_contents(*buf);
            let mut i: usize = 0;
            while i < self.acks.len()
                invariant
                    i <= self.acks@.len(),
                    start.len() + 4 * self.acks@.len() + 1 <= usize::MAX,
                    bytes_mut_contents(*buf) == start + spec_ack_list_bytes(self.acks@.take(i as int)),
                    spec_ack_list_bytes(self.acks@.take(i as int)).len() == 4 * i,
                decreases self.acks@.len() - i,
            {
                let ack = self.acks[i];
                bytes_mut_put_u32(buf, ack);
                assert(self.acks@.take(i + 1).drop_last() =~= self.acks@.take(i as int));
                assert(bytes_mut_contents(*buf) =~= start + spec_ack_list_bytes(self.acks@.take(i + 1)));
                i = i + 1;
            }
            assert(self.acks@.take(self.acks@.len() as int) =~= self.acks@);
            bytes_mut_put_u8(buf, self.acks.len() as u8);
            assert(bytes_mut_contents(*buf) =~= start + spec_acks_bytes(*self));
        } else {
            assert(bytes_mut_contents(*buf) =~= bytes_mut_contents(*buf) + Seq::<u8>::empty());
        }
    }

    /// Read a header from the front of `buf`, and the appended
    /// acknowledgements from its end. On success `buf` is left holding the
    /// message body; on error it is unchanged.
    pub fn deserialize(buf: &mut Bytes) -> (r: Result<Self, io::Error>)
        ensures
            r is Ok <==> spec_id_end(bytes_contents(*old(buf))) is Some,
            r matches Ok(h) ==> spec_header_parsed(bytes_contents(*old(buf)), h, bytes_contents(*final(buf))),
            r is Err ==> bytes_contents(*final(buf)) == bytes_contents(*old(buf)),
    {
        let ghost s0 = bytes_contents(*buf);
        let len = bytes_len(buf);
        if len < 6 {
            return Err(unexpected_eof("Packet too short"));
        }
        let s = bytes_as_slice(buf);
        let flags = s[0];
        let reliable = (flags & MSG_RELIABLE) != 0;
        let resent = (flags & MSG_RESENT) != 0;
        let zerocoded = (flags & MSG_ZEROCODED) != 0;
        let appended_acks = (flags & MSG_APPENDED_ACKS) != 0;
        let sequence: u32 = (s[1] as u32) * 0x1000000 + (s[2] as u32) * 0x10000 + (s[3] as u32) * 0x100 + (s[4] as u32);
        assert(sequence == be_u32(s0.skip(1)));
        let mut pos: usize = 6;
        if len < pos + 1 {
            return Err(unexpected_eof("Packet too short for ID"));
        }
        let (frequency, id) = if s[pos] == 0xFF {
            if len < pos + 2 {
                return Err(unexpected_eof("Packet too short for Medium ID"));
            }
            if s[pos + 1] == 0xFF {
                if len < pos + 4 {
                    return Err(unexpected_eof("Packet too short for Low ID"));
                }
                let id: u16 = (s[pos + 2] as u16) * 0x100 + (s[pos + 3] as u16);
                assert(id == be_u16(s0.skip(8)));
                pos = pos + 4;
                (PacketFrequency::Low, id)
            } else {
                let id = s[pos + 1] as u16;
                pos = pos + 2;
                (PacketFrequency::Medium, id)
            }
        } else {
            let id = s[pos] as u16;
            pos = pos + 1;
            (PacketFrequency::High, id)
        };
        assert(spec_id_end(s0) == Some(pos as int));
        bytes_advance(buf, pos);
        let ghost rest = bytes_contents(*buf);
        let mut acks: Vec<u32> = Vec::new();
        let blen = bytes_len(buf);
        if appended_acks && blen > 0 {
            let count = bytes_as_slice(buf)[blen - 1] as usize;
            let acks_size = count * 4 + 1;
            if blen >= acks_size {
                let split_idx = blen - acks_size;
                let acks_buf = bytes_split_off(buf, split_idx);
                let a = bytes_as_slice(&acks_buf);
                assert(a@ =~= rest.skip(split_idx as int));
                let mut i: usize = 0;
                while i < count
                    invariant
                        i <= count,
                        count <= 255,
                        a@.len() == count * 4 + 1,
                        a@ == rest.skip(split_idx as int),
                        split_idx == rest.len() - (count * 4 + 1),
                        acks@.len() == i,
                        forall|j: int| 0 <= j < i ==> acks@[j] == be_u32(rest.subrange(split_idx + 4 * j, split_idx + 4 * j + 4)),
                    decreases count - i,
                {
                    let start = i * 4;
                    let ack: u32 = (a[start] as u32) * 0x1000000 + (a[start + 1] as u32) * 0x10000 + (a[start + 2] as u32) * 0x100 + (a[start + 3] as u32);
                    assert(rest.subrange(split_idx + 4 * i, split_idx + 4 * i + 4) =~= a@.subrange(start as int, start + 4));
                    acks.push(ack);
                    i = i + 1;
                }
                assert(acks@ =~= spec_ack_list(rest));
            }
        }
        Ok(Header { reliable, resent, zerocoded, appended_acks, sequence, id, frequency, acks })
    }
}

/// The four big-endian bytes of `v` read back as `v`.
pub(crate) proof fn lemma_be_u32_of_bytes(v: u32)
    ensures
        be_u32(u32_be_bytes(v)) == v,
{
    let b = u32_be_bytes(v);
    let a0 = (v / 0x1000000) as u8;
    let a1 = ((v / 0x10000) % 0x100) as u8;
    let a2 = ((v / 0x100) % 0x100) as u8;
    let a3 = (v % 0x100) as u8;
    assert(b[0] == a0 && b[1] == a1 && b[2] == a2 && b[3] == a3);
    let q1 = v / 0x100;
    let q2 = v / 0x10000;
    assert(q2 == q1 / 0x100);
    assert(v / 0x1000000 == q2 / 0x100);
    assert(v as int == q1 * 0x100 + (v % 0x100));
    assert(q1 as int == q2 * 0x100 + (q1 % 0x100));
    assert(q2 as int == (v / 0x1000000) * 0x100 + (q2 % 0x100));
    assert((a0 as int) * 0x1000000 + (a1 as int) * 0x10000 + (a2 as int) * 0x100 + (a3 as int) == v as int);
}

/// The two big-endian bytes of `v` read back as `v`.
proof fn lemma_be_u16_of_bytes(v: u16)
    ensures
        be_u16(u16_be_bytes(v)) == v,
{
    let b = u16_be_bytes(v);
    let a0 = (v / 0x100) as u8;
    let a1 = (v % 0x100) as u8;
    assert(b[0] == a0 && b[1] == a1);
    assert((a0 as int) * 0x100 + (a1 as int) == v as int);
}

/// Each flag bit of the flags byte reads back as the flag that set it.
proof fn lemma_flags_bits(reliable: bool, resent: bool, zerocoded: bool, appended_acks: bool)
    ensures
        (spec_flags(reliable, resent, zerocoded, appended_acks) & MSG_RELIABLE != 0) == reliable,
        (spec_flags(reliable, resent, zerocoded, appended_acks) & MSG_RESENT != 0) == resent,
        (spec_flags(reliable, resent, zerocoded, appended_acks) & MSG_ZEROCODED != 0) == zerocoded,
        (spec_flags(reliable, resent, zerocoded, appended_acks) & MSG_APPENDED_ACKS != 0) == appended_acks,
{
    let f1: u8 = if reliable { 0x40u8 } else { 0u8 };
    let f2: u8 = if resent { 0x20u8 } else { 0u8 };
    let f3: u8 = if zerocoded { 0x80u8 } else { 0u8 };
    let f4: u8 = if appended_acks { 0x10u8 } else { 0u8 };
    assert(((f1 | f2 | f3 | f4) & 0x40u8 != 0u8) == (f1 != 0u8) && ((f1 | f2 | f3 | f4) & 0x20u8 != 0u8) == (f2 != 0u8)
        && ((f1 | f2 | f3 | f4) & 0x80u8 != 0u8) == (f3 != 0u8) && ((f1 | f2 | f3 | f4) & 0x10u8 != 0u8) == (f4 != 0u8)) by (bit_vector)
        requires
            f1 == 0x40u8 || f1 == 0u8,
            f2 == 0x20u8 || f2 == 0u8,
            f3 == 0x80u8 || f3 == 0u8,
            f4 == 0x10u8 || f4 == 0u8,
    ;
}

/// The acknowledgement bytes hold four bytes per acknowledgement, in order.
proof fn lemma_ack_list_bytes(acks: Seq<u32>)
    ensures
        spec_ack_list_bytes(acks).len() == 4 * acks.len(),
        forall|i: int| 0 <= i < acks.len() ==> #[trigger] spec_ack_list_bytes(acks).subrange(4 * i, 4 * i + 4) == u32_be_bytes(acks[i]),
    decreases acks.len(),
{
    if acks.len() > 0 {
        let prev = acks.drop_last();
        lemma_ack_list_bytes(prev);
        let b = spec_ack_list_bytes(acks);
        let pb = spec_ack_list_bytes(prev);
        assert forall|i: int| 0 <= i < acks.len() implies #[trigger] spec_ack_list_bytes(acks).subrange(4 * i, 4 * i + 4) == u32_be_bytes(acks[i]) by {
            if i < acks.len() - 1 {
                assert(b.subrange(4 * i, 4 * i + 4) =~= pb.subrange(4 * i, 4 * i + 4));
            } else {
                assert(b.subrange(4 * i, 4 * i + 4) =~= u32_be_bytes(acks.last()));
            }
        }
    }
}

/// Header round trip: the bytes `serialize` writes, followed by any body and
/// by the bytes `write_acks` appends, are read back by `deserialize` as the
/// same header, leaving exactly the body.
pub proof fn lemma_header_round_trip(h: Header, body: Seq<u8>)
    requires
        spec_header_round_trips(h),
    ensures
        spec_id_end(spec_header_bytes(h) + body + spec_acks_bytes(h)) is Some,
        spec_header_parsed(spec_header_bytes(h) + body + spec_acks_bytes(h), h, body),
{
    let hb = spec_header_bytes(h);
    let ab = spec_acks_bytes(h);
    let s = hb + body + ab;
    lemma_flags_bits(h.reliable, h.resent, h.zerocoded, h.appended_acks);
    lemma_be_u32_of_bytes(h.sequence);
    lemma_be_u16_of_bytes(h.id);
    assert(s.skip(1).take(4) =~= u32_be_bytes(h.sequence));
    assert(be_u32(s.skip(1)) == be_u32(u32_be_bytes(h.sequence)));
    let end = hb.len() as int;
    match h.frequency {
        PacketFrequency::Low => {
            assert(s.skip(8).take(2) =~= u16_be_bytes(h.id));
            assert(be_u16(s.skip(8)) == be_u16(u16_be_bytes(h.id)));
        },
        PacketFrequency::Medium => {
            assert(h.id as u8 as u16 == h.id);
        },
        PacketFrequency::High => {
            assert(h.id as u8 as u16 == h.id);
        },
    }
    assert(spec_id_end(s) == Some(end));
    let rest = s.skip(end);
    assert(rest =~= body + ab);
    if h.appended_acks {
        let n = h.acks@.len();
        lemma_ack_list_bytes(h.acks@);
        let lb = spec_ack_list_bytes(h.acks@);
        assert(rest.last() == n as u8);
        assert(rest.last() as int == n);
        let start = rest.len() - (n * 4 + 1);
        assert(start == body.len());
        assert forall|i: int| 0 <= i < n implies rest.subrange(start + 4 * i, start + 4 * i + 4) == u32_be_bytes(h.acks@[i]) by {
            assert(rest.subrange(start + 4 * i, start + 4 * i + 4) =~= lb.subrange(4 * i, 4 * i + 4));
        }
        assert forall|i: int| 0 <= i < n implies #[trigger] spec_ack_list(rest)[i] == h.acks@[i] by {
            lemma_be_u32_of_bytes(h.acks@[i]);
        }
        assert(spec_ack_list(rest) =~= h.acks@);
        assert(rest.take(rest.len() - (rest.last() as int * 4 + 1)) =~= body);
        assert(spec_has_ack_list(h.appended_acks, rest));
    } else {
        assert(rest =~= body);
    }
    assert(spec_id_end(s) is Some);
    assert(s.skip(spec_id_end(s)->0) == rest);
    assert(if spec_has_ack_list(h.appended_acks, rest) {
            &&& h.acks@ == spec_ack_list(rest)
            &&& body == rest.take(rest.len() - (rest.last() as int * 4 + 1))
        } else {
            &&& h.acks@ == Seq::<u32>::empty()
            &&& body == rest
        });
    assert(h.reliable == (s[0] & MSG_RELIABLE != 0));
    assert(h.resent == (s[0] & MSG_RESENT != 0));
    assert(h.zerocoded == (s[0] & MSG_ZEROCODED != 0));
    assert(h.appended_acks == (s[0] & MSG_APPENDED_ACKS != 0));
    assert(h.sequence == be_u32(s.skip(1)));
    assert(if s[6] != 0xFF {
        h.frequency == PacketFrequency::High && h.id == s[6] as u16
    } else if s[7] != 0xFF {
        h.frequency == PacketFrequency::Medium && h.id == s[7] as u16
    } else {
        h.frequency == PacketFrequency::Low && h.id == be_u16(s.skip(8))
    });
}

} // verus!
