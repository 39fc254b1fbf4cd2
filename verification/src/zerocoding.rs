//! LLUDP zero-coding: runs of zero bytes after the fixed packet header are
//! written as `0x00, count`, and expanded back on receipt.

use crate::buffers::{
    bytes_contents, bytes_get_u8, bytes_len, bytes_mut_as_slice, bytes_mut_contents,
    bytes_mut_extend_from_slice, bytes_mut_freeze, bytes_mut_from_slice, bytes_mut_len,
    bytes_mut_put_bytes, bytes_mut_put_u8, bytes_mut_set, bytes_mut_with_capacity, repeat_byte, unexpected_eof,
};
use bytes::{Bytes, BytesMut};
use std::io;
use vstd::prelude::*;

verus! {

/// The first six bytes are the LLUDP packet header and must remain unencoded.
pub const LLUDP_PACKET_HEADER_SIZE: usize = 6;

/// The header bit that marks a zero-coded packet.
pub const LL_ZERO_CODE_FLAG: u8 = 0x80;

/// Zero-run decoding: `0x00, n` stands for `n` zero bytes and any other byte
/// stands for itself. `None` when the input ends in a lone `0x00`.
pub open spec fn spec_expand(s: Seq<u8>) -> Option<Seq<u8>>
    decreases s.len(),
{
    if s.len() == 0 {
        Some(Seq::<u8>::empty())
    } else if s[0] == 0 {
        if s.len() < 2 {
            None
        } else {
            match spec_expand(s.skip(2)) {
                Some(r) => Some(repeat_byte(0, s[1] as nat) + r),
                None => None,
            }
        }
    } else {
        match spec_expand(s.skip(1)) {
            Some(r) => Some(seq![s[0]] + r),
            None => None,
        }
    }
}

/// An expansion is at most 128 times as long as its coding: a pair of
/// bytes stands for at most 255 zeros.
pub(crate) proof fn lemma_expand_len(s: Seq<u8>)
    ensures
        spec_expand(s) matches Some(e) ==> e.len() <= 128 * s.len(),
    decreases s.len(),
{
    if s.len() > 0 {
        if s[0] == 0 {
            if s.len() >= 2 {
                lemma_expand_len(s.skip(2));
            }
        } else {
            lemma_expand_len(s.skip(1));
        }
    }
}

/// Zero-run encoding of `s` when a run of `zc` zeros is still open (its
/// `0x00` marker already written, its count not yet): a run is closed by a
/// non-zero byte, by the end of input, or when it reaches 255 zeros.
pub open spec fn spec_encode_run(s: Seq<u8>, zc: u8) -> Seq<u8>
    decreases s.len(),
{
    if s.len() == 0 {
        if zc != 0 {
            seq![zc]
        } else {
            Seq::<u8>::empty()
        }
    } else if s[0] == 0 {
        if zc == 0 {
            seq![0u8] + spec_encode_run(s.skip(1), 1)
        } else if zc == 254 {
            seq![255u8] + spec_encode_run(s.skip(1), 0)
        } else {
            spec_encode_run(s.skip(1), (zc + 1) as u8)
        }
    } else {
        (if zc != 0 {
            seq![zc]
        } else {
            Seq::<u8>::empty()
        }) + seq![s[0]] + spec_encode_run(s.skip(1), 0)
    }
}

/// The header followed by the zero-run encoding of the body.
pub open spec fn spec_zero_encoded_form(data: Seq<u8>) -> Seq<u8> {
    data.take(LLUDP_PACKET_HEADER_SIZE as int) + spec_encode_run(
        data.skip(LLUDP_PACKET_HEADER_SIZE as int),
        0,
    )
}

/// What `zero_encode` sends: the encoded form with the zero-code flag set
/// when that is shorter than the packet, and the packet itself otherwise.
pub open spec fn spec_zero_encode(data: Seq<u8>) -> Seq<u8> {
    if data.len() <= LLUDP_PACKET_HEADER_SIZE {
        data
    } else {
        let e = spec_zero_encoded_form(data);
        if e.len() < data.len() {
            e.update(0, e[0] | LL_ZERO_CODE_FLAG)
        } else {
            data
        }
    }
}

/// Expands a zero-coded packet body, consuming all of `data`.
///
/// The decoded body can be up to 128 times longer than the input, and it
/// must fit in memory.
pub fn expand_zerocoded(data: &mut Bytes) -> (r: Result<Bytes, io::Error>)
    requires
        bytes_contents(*old(data)).len() * 128 <= usize::MAX,
    ensures
        bytes_contents(*final(data)) == Seq::<u8>::empty(),
        match spec_expand(bytes_contents(*old(data))) {
            Some(v) => (r matches Ok(b) && bytes_contents(b) == v),
            None => r is Err,
        },
{
    let ghost orig = bytes_contents(*data);
    let mut output = bytes_mut_with_capacity(bytes_len(data) * 2);
    while bytes_len(data) > 0
        invariant
            orig == bytes_contents(*old(data)),
            orig.len() * 128 <= usize::MAX,
            bytes_contents(*data).len() <= orig.len(),
            bytes_mut_contents(output).len() <= 128 * (orig.len() - bytes_contents(*data).len()),
            spec_expand(orig) == match spec_expand(bytes_contents(*data)) {
                Some(r) => Some(bytes_mut_contents(output) + r),
                None => None,
            },
        decreases bytes_contents(*data).len(),
    {
        let ghost cur = bytes_contents(*data);
        let byte = bytes_get_u8(data);
        if byte == 0x00 {
            if bytes_len(data) == 0 {
                assert(spec_expand(cur) is None);
                return Err(unexpected_eof("ZeroCoding: missing count byte"));
            }
            let count = bytes_get_u8(data);
            assert(cur.skip(1).skip(1) =~= cur.skip(2));
            let ghost before = bytes_mut_contents(output);
            bytes_mut_put_bytes(&mut output, 0x00, count as usize);
            proof {
                match spec_expand(cur.skip(2)) {
                    Some(r) => {
                        assert(before + (repeat_byte(0, count as nat) + r) =~= bytes_mut_contents(output) + r);
                    },
                    None => {},
                }
            }
        } else {
            let ghost before = bytes_mut_contents(output);
            bytes_mut_put_u8(&mut output, byte);
            proof {
                match spec_expand(cur.skip(1)) {
                    Some(r) => {
                        assert(before + (seq![byte] + r) =~= bytes_mut_contents(output) + r);
                    },
                    None => {},
                }
            }
        }
    }
    assert(bytes_mut_contents(output) + Seq::<u8>::empty() =~= bytes_mut_contents(output));
    Ok(bytes_mut_freeze(output))
}

/// Applies LLUDP zero coding when it makes the message smaller: runs of zero
/// bytes after the fixed header become `0x00, count` and the zero-code flag
/// is set in the first byte; otherwise the packet is returned unchanged.
///
/// A slice is at most `isize::MAX` bytes long.
pub fn zero_encode(data: &[u8]) -> (r: BytesMut)
    requires
        data@.len() <= isize::MAX,
    ensures
        bytes_mut_contents(r) == spec_zero_encode(data@),
{
    if data.len() <= LLUDP_PACKET_HEADER_SIZE {
        return bytes_mut_from_slice(data);
    }
    let mut encoded = bytes_mut_with_capacity(data.len());
    let (head, _) = data.split_at(LLUDP_PACKET_HEADER_SIZE);
    bytes_mut_extend_from_slice(&mut encoded, head);
    let ghost target = spec_zero_encoded_form(data@);
    let mut zero_count: u8 = 0;
    let mut i: usize = LLUDP_PACKET_HEADER_SIZE;
    assert(bytes_mut_contents(encoded) + spec_encode_run(data@.skip(i as int), zero_count) =~= target);
    while i < data.len()
        invariant
            LLUDP_PACKET_HEADER_SIZE <= i <= data@.len(),
            data@.len() <= isize::MAX,
            zero_count <= 254,
            bytes_mut_contents(encoded).len() + (if zero_count != 0 { 1int } else { 0int }) <= 2 * i,
            bytes_mut_contents(encoded) + spec_encode_run(data@.skip(i as int), zero_count) == target,
        decreases data@.len() - i,
    {
        let ghost before = bytes_mut_contents(encoded);
        let ghost zc0 = zero_count;
        let byte = data[i];
        assert(data@.skip(i as int).skip(1) =~= data@.skip(i + 1));
        if byte == 0 {
            if zero_count == 0 {
                bytes_mut_put_u8(&mut encoded, 0);
                zero_count = 1;
                assert(before + (seq![0u8] + spec_encode_run(data@.skip(i + 1), 1)) =~= bytes_mut_contents(encoded) + spec_encode_run(data@.skip(i + 1), 1));
            } else if zero_count == 254 {
                bytes_mut_put_u8(&mut encoded, 255);
                zero_count = 0;
                assert(before + (seq![255u8] + spec_encode_run(data@.skip(i + 1), 0)) =~= bytes_mut_contents(encoded) + spec_encode_run(data@.skip(i + 1), 0));
            } else {
                zero_count = zero_count + 1;
            }
        } else {
            if zero_count != 0 {
                bytes_mut_put_u8(&mut encoded, zero_count);
                zero_count = 0;
            }
            bytes_mut_put_u8(&mut encoded, byte);
            assert(before + ((if zc0 != 0 { seq![zc0] } else { Seq::<u8>::empty() }) + seq![byte] + spec_encode_run(data@.skip(i + 1), 0)) =~= bytes_mut_contents(encoded) + spec_encode_run(data@.skip(i + 1), 0));
        }
        i = i + 1;
    }
    if zero_count != 0 {
        bytes_mut_put_u8(&mut encoded, zero_count);
    }
    assert(bytes_mut_contents(encoded) =~= target);
    if bytes_mut_len(&encoded) < data.len() {
        let first = bytes_mut_as_slice(&encoded)[0];
        bytes_mut_set(&mut encoded, 0, first | LL_ZERO_CODE_FLAG);
        encoded
    } else {
        bytes_mut_from_slice(data)
    }
}

/// Expanding `0x00` followed by the encoding of `s` with an open run of `zc`
/// zeros gives those zeros followed by `s`.
proof fn lemma_expand_open_run(s: Seq<u8>, zc: u8)
    requires
        1 <= zc <= 254,
    ensures
        spec_expand(seq![0u8] + spec_encode_run(s, zc)) == Some(repeat_byte(0, zc as nat) + s),
    decreases s.len(),
{
    let e = seq![0u8] + spec_encode_run(s, zc);
    if s.len() == 0 {
        assert(e =~= seq![0u8, zc]);
        assert(e.skip(2) =~= Seq::<u8>::empty());
        assert(spec_expand(e.skip(2)) == Some(Seq::<u8>::empty()));
        assert(repeat_byte(0, zc as nat) + Seq::<u8>::empty() =~= repeat_byte(0, zc as nat) + s);
        assert(spec_expand(e) == Some(repeat_byte(0, zc as nat) + s));
    } else if s[0] == 0 {
        let rest = s.skip(1);
        if zc == 254 {
            lemma_expand_encoded(rest);
            assert(e =~= seq![0u8, 255u8] + spec_encode_run(rest, 0));
            assert(e.skip(2) =~= spec_encode_run(rest, 0));
            assert(repeat_byte(0, 255) + rest =~= repeat_byte(0, zc as nat) + s);
            assert(spec_expand(e) == Some(repeat_byte(0, zc as nat) + s));
        } else {
            lemma_expand_open_run(rest, (zc + 1) as u8);
            assert(e =~= seq![0u8] + spec_encode_run(rest, (zc + 1) as u8));
            assert(repeat_byte(0, (zc + 1) as nat) + rest =~= repeat_byte(0, zc as nat) + s);
            assert(spec_expand(e) == Some(repeat_byte(0, zc as nat) + s));
        }
    } else {
        let rest = s.skip(1);
        lemma_expand_encoded(rest);
        let t = seq![s[0]] + spec_encode_run(rest, 0);
        assert(e =~= seq![0u8, zc] + t);
        assert(e.skip(2) =~= t);
        assert(t.skip(1) =~= spec_encode_run(rest, 0));
        assert(spec_expand(t) == Some(seq![s[0]] + rest));
        assert(seq![s[0]] + rest =~= s);
        assert(spec_expand(e) == Some(repeat_byte(0, zc as nat) + s));
    }
}

/// Expansion undoes the encoding of a body that starts with no open run.
proof fn lemma_expand_encoded(s: Seq<u8>)
    ensures
        spec_expand(spec_encode_run(s, 0)) == Some(s),
    decreases s.len(),
{
    if s.len() == 0 {
    } else if s[0] == 0 {
        let rest = s.skip(1);
        lemma_expand_open_run(rest, 1);
        assert(repeat_byte(0, 1) + rest =~= s);
    } else {
        let rest = s.skip(1);
        lemma_expand_encoded(rest);
        let e = spec_encode_run(s, 0);
        assert(e =~= seq![s[0]] + spec_encode_run(rest, 0));
        assert(e.skip(1) =~= spec_encode_run(rest, 0));
        assert(seq![s[0]] + rest =~= s);
    }
}

/// Zero-coding round trip: whenever `zero_encode` encodes a packet (the result
/// is shorter than the packet), expanding the body after the header gives the
/// original body back, and the header keeps every byte but the zero-code flag.
pub proof fn lemma_zero_coding_round_trip(data: Seq<u8>)
    requires
        spec_zero_encode(data).len() < data.len(),
    ensures
        spec_expand(spec_zero_encode(data).skip(LLUDP_PACKET_HEADER_SIZE as int)) == Some(
            data.skip(LLUDP_PACKET_HEADER_SIZE as int),
        ),
        spec_zero_encode(data)[0] == data[0] | LL_ZERO_CODE_FLAG,
        forall|i: int| 1 <= i < LLUDP_PACKET_HEADER_SIZE ==> spec_zero_encode(data)[i] == data[i],
{
    let body = data.skip(LLUDP_PACKET_HEADER_SIZE as int);
    lemma_expand_encoded(body);
    let e = spec_zero_encoded_form(data);
    assert(e.update(0, e[0] | LL_ZERO_CODE_FLAG).skip(LLUDP_PACKET_HEADER_SIZE as int) =~= spec_encode_run(body, 0));
}

} // verus!
