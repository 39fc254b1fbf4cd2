//! Reading a received datagram as a packet: the zero-coded part expanded,
//! the header read, and the body of the messages the client acts on
//! decoded; any other message keeps only its header.

use crate::buffers::{
    bytes_as_slice, bytes_contents, bytes_len, bytes_mut_contents, bytes_mut_extend_from_slice, bytes_mut_freeze,
    bytes_mut_from_slice, bytes_split_to, le_u32,
};
use crate::header::{spec_header_parsed, spec_id_end, Header, PacketFrequency};
use crate::messages::PacketAckPacket;
use crate::packets::{RegionHandshakePacket, StartPingCheckPacket, WrappedPacket};
use crate::safebuf::SafeBuf;
use crate::uuid::UUID;
use crate::zerocoding::{expand_zerocoded, lemma_expand_len, spec_expand, LLUDP_PACKET_HEADER_SIZE, LL_ZERO_CODE_FLAG};
use bytes::Bytes;
use std::io;
use vstd::prelude::*;

verus! {

/// The packet with its zero-coded part expanded: everything after the six
/// header bytes, when the header is flagged zero-coded; `None` when that
/// part is not a valid zero coding.
pub open spec fn spec_unzero(s: Seq<u8>) -> Option<Seq<u8>> {
    if s.len() > LLUDP_PACKET_HEADER_SIZE && s[0] & LL_ZERO_CODE_FLAG != 0 {
        match spec_expand(s.skip(LLUDP_PACKET_HEADER_SIZE as int)) {
            Some(e) => Some(s.take(LLUDP_PACKET_HEADER_SIZE as int) + e),
            None => None,
        }
    } else {
        Some(s)
    }
}

/// The acknowledged sequence numbers of a `PacketAck` body: a count byte,
/// then that many little-endian `u32`.
pub open spec fn spec_ack_ids(b: Seq<u8>) -> Option<Seq<u32>> {
    if b.len() >= 1 && b.len() >= 1 + 4 * b[0] {
        Some(Seq::new(b[0] as nat, |i: int| le_u32(b.skip(1 + 4 * i))))
    } else {
        None
    }
}

/// The ping number and oldest unacknowledged sequence number of a
/// `StartPingCheck` body.
pub open spec fn spec_ping(b: Seq<u8>) -> Option<(u8, u32)> {
    if b.len() >= 5 {
        Some((b[0], le_u32(b.skip(1))))
    } else {
        None
    }
}

/// The bytes of `RegionInfo` after its name: owner, estate manager flag,
/// water height, billable factor, cache identifier, four terrain bases,
/// four terrain details, four start heights and four height ranges.
pub const REGION_INFO_AFTER_NAME: usize = 201;

/// The region's name and identifier in a `RegionHandshake` body: the name
/// (a `Variable 1` after the region flags and access byte) and the
/// identifier that opens `RegionInfo2`.
pub open spec fn spec_handshake(b: Seq<u8>) -> Option<(Seq<u8>, Seq<u8>)> {
    if b.len() >= 6 && b.len() >= 6 + b[5] + REGION_INFO_AFTER_NAME + 16 {
        let n = b[5] as int;
        let id_at = 6 + n + REGION_INFO_AFTER_NAME;
        Some((b.subrange(6, 6 + n), b.subrange(id_at, id_at + 16)))
    } else {
        None
    }
}

/// Whether `w` is the packet made of header `h` and body `body`: the
/// messages the client acts on with their decoded fields, any other
/// message as its header.
pub open spec fn spec_wrapped_of(w: WrappedPacket, h: Header, body: Seq<u8>) -> bool {
    if h.frequency == PacketFrequency::Low && h.id == 65531 {
        w matches WrappedPacket::PacketAck(p) && p.header == h && spec_ack_ids(body) == Some(p.packets@)
    } else if h.frequency == PacketFrequency::High && h.id == 1 {
        w matches WrappedPacket::StartPingCheck(p) && p.header == h && spec_ping(body) == Some(
            (p.ping_i_d, p.oldest_unacked),
        )
    } else if h.frequency == PacketFrequency::Low && h.id == 148 {
        w matches WrappedPacket::RegionHandshake(p) && p.header == h && spec_handshake(body) == Some(
            (p.sim_name@, p.region_i_d.0@),
        )
    } else {
        w == WrappedPacket::Other(h)
    }
}

/// Whether the body of a message the client decodes is too short for it.
pub open spec fn spec_body_fails(h: Header, body: Seq<u8>) -> bool {
    if h.frequency == PacketFrequency::Low && h.id == 65531 {
        spec_ack_ids(body) is None
    } else if h.frequency == PacketFrequency::High && h.id == 1 {
        spec_ping(body) is None
    } else if h.frequency == PacketFrequency::Low && h.id == 148 {
        spec_handshake(body) is None
    } else {
        false
    }
}

/// Expands the zero-coded part of a packet.
fn unzero(data: &Bytes) -> (r: Result<Bytes, io::Error>)
    requires
        bytes_contents(*data).len() * 128 <= usize::MAX,
    ensures
        match spec_unzero(bytes_contents(*data)) {
            Some(p) => r matches Ok(b) && bytes_contents(b) == p,
            None => r is Err,
        },
{
    let ghost s = bytes_contents(*data);
    let len = bytes_len(data);
    if len > LLUDP_PACKET_HEADER_SIZE && bytes_as_slice(data)[0] & LL_ZERO_CODE_FLAG != 0 {
        let mut rest = data.clone();
        let head = bytes_split_to(&mut rest, LLUDP_PACKET_HEADER_SIZE);
        let expanded = match expand_zerocoded(&mut rest) {
            Ok(e) => e,
            Err(e) => {
                return Err(e);
            },
        };
        proof {
            lemma_expand_len(s.skip(LLUDP_PACKET_HEADER_SIZE as int));
        }
        let mut out = bytes_mut_from_slice(bytes_as_slice(&head));
        bytes_mut_extend_from_slice(&mut out, bytes_as_slice(&expanded));
        assert(bytes_mut_contents(out) == s.take(LLUDP_PACKET_HEADER_SIZE as int) + spec_expand(
            s.skip(LLUDP_PACKET_HEADER_SIZE as int),
        )->0);
        Ok(bytes_mut_freeze(out))
    } else {
        Ok(data.clone())
    }
}

fn decode_acks(header: Header, body: Bytes) -> (r: Result<WrappedPacket, io::Error>)
    ensures
        match spec_ack_ids(bytes_contents(body)) {
            Some(ids) => r matches Ok(w) && w matches WrappedPacket::PacketAck(p) && p.header == header
                && p.packets@ == ids,
            None => r is Err,
        },
{
    let ghost b = bytes_contents(body);
    let mut buf = SafeBuf::new(body);
    let count = match buf.read_u8() {
        Ok(c) => c,
        Err(e) => {
            return Err(e);
        },
    };
    let mut packets: Vec<u32> = Vec::new();
    let mut i: u8 = 0;
    while i < count
        invariant
            i <= count,
            b == bytes_contents(body),
            b.len() >= 1 && count == b[0],
            1 + 4 * i <= b.len(),
            buf@ == b.skip(1 + 4 * i),
            packets@.len() == i,
            forall|j: int| 0 <= j < i ==> packets@[j] == le_u32(#[trigger] b.skip(1 + 4 * j)),
        decreases count - i,
    {
        let v = match buf.read_u32_le() {
            Ok(v) => v,
            Err(e) => {
                proof {
                    assert(buf@.len() < 4);
                    assert(b.skip(1 + 4 * i).len() == b.len() - (1 + 4 * i));
                    assert(i + 1 <= count);
                    assert(b.len() < 1 + 4 * (i + 1));
                    assert(b.len() < 1 + 4 * b[0]);
                    assert(spec_ack_ids(b) is None);
                }
                return Err(e);
            },
        };
        assert(b.skip(1 + 4 * i).skip(4) =~= b.skip(1 + 4 * (i + 1)));
        packets.push(v);
        i = i + 1;
    }
    proof {
        assert(b.skip(1 + 4 * count).len() >= 0);
        assert(b.len() >= 1 + 4 * b[0]);
        assert(packets@ =~= Seq::new(b[0] as nat, |j: int| le_u32(b.skip(1 + 4 * j))));
    }
    Ok(WrappedPacket::PacketAck(PacketAckPacket { header, packets }))
}

fn decode_ping(header: Header, body: Bytes) -> (r: Result<WrappedPacket, io::Error>)
    ensures
        match spec_ping(bytes_contents(body)) {
            Some((id, oldest)) => r matches Ok(w) && w matches WrappedPacket::StartPingCheck(p) && p.header == header
                && p.ping_i_d == id && p.oldest_unacked == oldest,
            None => r is Err,
        },
{
    let ghost b = bytes_contents(body);
    let mut buf = SafeBuf::new(body);
    let ping_i_d = match buf.read_u8() {
        Ok(v) => v,
        Err(e) => {
            return Err(e);
        },
    };
    let oldest_unacked = match buf.read_u32_le() {
        Ok(v) => v,
        Err(e) => {
            return Err(e);
        },
    };
    Ok(WrappedPacket::StartPingCheck(StartPingCheckPacket { header, ping_i_d, oldest_unacked }))
}

fn decode_handshake(header: Header, body: Bytes) -> (r: Result<WrappedPacket, io::Error>)
    ensures
        match spec_handshake(bytes_contents(body)) {
            Some((name, id)) => r matches Ok(w) && w matches WrappedPacket::RegionHandshake(p) && p.header == header
                && p.sim_name@ == name && p.region_i_d.0@ == id,
            None => r is Err,
        },
{
    let ghost b = bytes_contents(body);
    let mut buf = SafeBuf::new(body);
    match buf.skip(5) {
        Ok(_) => {},
        Err(e) => {
            return Err(e);
        },
    }
    let sim_name = match buf.read_string_u8() {
        Ok(v) => v,
        Err(e) => {
            return Err(e);
        },
    };
    match buf.skip(REGION_INFO_AFTER_NAME) {
        Ok(_) => {},
        Err(e) => {
            return Err(e);
        },
    }
    let id = match buf.read_array::<16>() {
        Ok(a) => a,
        Err(e) => {
            return Err(e);
        },
    };
    proof {
        assert(b.skip(5)[0] == b[5]);
    }
    Ok(WrappedPacket::RegionHandshake(RegionHandshakePacket { header, sim_name, region_i_d: UUID(id) }))
}

/// Reads a received datagram as a packet. Fails when the zero-coded part
/// is not a valid zero coding, when the header cannot be read, or when the
/// body of a message the client decodes is too short; otherwise the packet
/// is made of the header and the body that `Header::deserialize` leaves.
pub fn decode_packet(data: &Bytes) -> (r: Result<WrappedPacket, io::Error>)
    requires
        bytes_contents(*data).len() * 128 <= usize::MAX,
    ensures
        spec_unzero(bytes_contents(*data)) is None ==> r is Err,
        spec_unzero(bytes_contents(*data)) matches Some(p) ==> {
            &&& spec_id_end(p) is None ==> r is Err
            &&& r is Ok ==> exists|h: Header, body: Seq<u8>| spec_header_parsed(p, h, body) && spec_wrapped_of(r->Ok_0, h, body)
            &&& (spec_id_end(p) is Some && r is Err) ==> exists|h: Header, body: Seq<u8>| spec_header_parsed(p, h, body)
                && spec_body_fails(h, body)
        },
{
    let mut packet = match unzero(data) {
        Ok(p) => p,
        Err(e) => {
            return Err(e);
        },
    };
    let ghost p = bytes_contents(packet);
    let header = match Header::deserialize(&mut packet) {
        Ok(h) => h,
        Err(e) => {
            return Err(e);
        },
    };
    let ghost h = header;
    let ghost body = bytes_contents(packet);
    assert(spec_header_parsed(p, h, body));
    let r = if header.frequency == PacketFrequency::Low && header.id == 65531 {
        decode_acks(header, packet)
    } else if header.frequency == PacketFrequency::High && header.id == 1 {
        decode_ping(header, packet)
    } else if header.frequency == PacketFrequency::Low && header.id == 148 {
        decode_handshake(header, packet)
    } else {
        Ok(WrappedPacket::Other(header))
    };
    proof {
        if r is Ok {
            assert(spec_wrapped_of(r->Ok_0, h, body));
        } else {
            assert(spec_body_fails(h, body));
        }
    }
    r
}

} // verus!
