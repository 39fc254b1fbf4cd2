//! Binary LLSD: each value is a one-byte tag followed by its payload.
//! Integers, reals, lengths and counts are big-endian; a date is the
//! little-endian double of its seconds since the epoch.

use crate::buffers::{be_u32, be_u64, le_u64, u32_be_bytes};
use crate::osd::{chrono_instant_valid, lemma_first_index, spec_first_index, spec_key_index, spec_keys, spec_map_insert, lemma_entry_decreases, LlsdDate, OSD, OsdMap, OsdModel, MIN_DATE_SECS};
use crate::realbits::{
    f64_bits_as_i64, micros_to_seconds_bits, spec_f64_as_i64, spec_f64_exp, spec_f64_frac, spec_f64_neg,
    spec_f64_trunc_magnitude, spec_micros_to_seconds_bits,
};
use vstd::arithmetic::power2::{lemma2_to64, lemma2_to64_rest, pow2};
use crate::text::{push_nat_decimal, spec_nat_decimal, string_from_utf8, string_push, string_push_str};
use crate::uuid::{spec_hex_digit, spec_hex_lower, UUID};
use vstd::prelude::*;
use vstd::utf8::{decode_utf8, encode_utf8, valid_utf8};

verus! {

/// The header that may precede a binary LLSD document.
pub const BINARY_HEADER: [u8; 16] = [
    0x3c, 0x3f, 0x6c, 0x6c, 0x73, 0x64, 0x2f, 0x62, 0x69, 0x6e, 0x61, 0x72, 0x79, 0x3f, 0x3e, 0x0a,
];

/// The eight bytes of `v`, most significant first.
pub open spec fn u64_be_bytes(v: u64) -> Seq<u8> {
    u32_be_bytes((v / 0x100000000) as u32) + u32_be_bytes((v % 0x100000000) as u32)
}

/// The eight bytes of `v`, least significant first.
pub open spec fn u64_le_bytes(v: u64) -> Seq<u8> {
    u64_be_bytes(v).reverse()
}

/// A length or count as written: cast to `i32`, then big-endian.
pub open spec fn spec_count_bytes(n: nat) -> Seq<u8> {
    u32_be_bytes((n as i32) as u32)
}

/// Microseconds since the epoch of a date, as `DateTime::timestamp_micros`
/// computes them.
pub open spec fn spec_date_micros(secs: i64, nanos: u32) -> int {
    secs * 1000000 + nanos / 1000
}

/// The binary encoding of a value, without the document header.
pub open spec fn spec_binary(m: OsdModel) -> Seq<u8>
    decreases m,
{
    match m {
        OsdModel::Undef => seq![0x21u8],
        OsdModel::Boolean(b) => if b { seq![0x31u8] } else { seq![0x30u8] },
        OsdModel::Integer(v) => seq![0x69u8] + u32_be_bytes(v as u32),
        OsdModel::Real(bits) => seq![0x72u8] + u64_be_bytes(bits),
        OsdModel::UUID(u) => seq![0x75u8] + u,
        OsdModel::String(s) => seq![0x73u8] + spec_count_bytes(encode_utf8(s).len()) + encode_utf8(s),
        OsdModel::Uri(s) => seq![0x6cu8] + spec_count_bytes(encode_utf8(s).len()) + encode_utf8(s),
        OsdModel::Date(secs, nanos) => seq![0x64u8] + u64_le_bytes(
            spec_micros_to_seconds_bits(spec_date_micros(secs, nanos)),
        ),
        OsdModel::Binary(b) => seq![0x62u8] + spec_count_bytes(b.len()) + b,
        OsdModel::Array(items) => seq![0x5bu8] + spec_count_bytes(items.len()) + spec_binary_items(items)
            + seq![0x5du8],
        OsdModel::Dict(entries) => seq![0x7bu8] + spec_count_bytes(entries.len()) + spec_binary_entries(
            entries,
        ) + seq![0x7du8],
    }
}

/// The encodings of `items`, one after another.
pub open spec fn spec_binary_items(items: Seq<OsdModel>) -> Seq<u8>
    decreases items,
{
    if items.len() == 0 {
        Seq::empty()
    } else {
        spec_binary_items(items.subrange(0, items.len() - 1)) + spec_binary(items[items.len() - 1])
    }
}

/// The encoding of one map entry: `k`, the key's length and bytes, then the
/// value.
pub open spec fn spec_binary_entry(key: Seq<char>) -> Seq<u8> {
    seq![0x6bu8] + spec_count_bytes(encode_utf8(key).len()) + encode_utf8(key)
}

/// The encodings of map entries, one after another.
pub open spec fn spec_binary_entries(entries: Seq<(Seq<char>, OsdModel)>) -> Seq<u8>
    decreases entries,
{
    if entries.len() == 0 {
        Seq::empty()
    } else {
        spec_binary_entries(entries.subrange(0, entries.len() - 1)) + spec_binary_entry(
            entries[entries.len() - 1].0,
        ) + spec_binary(entries[entries.len() - 1].1)
    }
}

/// Appends the four bytes of `x`, most significant first.
fn push_u32_be(out: &mut Vec<u8>, x: u32)
    ensures
        final(out)@ == old(out)@ + u32_be_bytes(x),
{
    let b0 = (x >> 24) as u8;
    let b1 = ((x >> 16) & 0xff) as u8;
    let b2 = ((x >> 8) & 0xff) as u8;
    let b3 = (x & 0xff) as u8;
    proof {
        assert(b0 == (x / 0x1000000) as u8 && b1 == ((x / 0x10000) % 0x100) as u8 && b2 == ((x / 0x100)
            % 0x100) as u8 && b3 == (x % 0x100) as u8) by (bit_vector)
            requires
                b0 == (x >> 24) as u8,
                b1 == ((x >> 16) & 0xff) as u8,
                b2 == ((x >> 8) & 0xff) as u8,
                b3 == (x & 0xff) as u8,
        ;
    }
    out.push(b0);
    out.push(b1);
    out.push(b2);
    out.push(b3);
    assert(final(out)@ =~= old(out)@ + u32_be_bytes(x)) by {
        assert(out@ =~= old(out)@ + u32_be_bytes(x));
    }
}

/// Appends the bytes of a slice.
fn push_slice(out: &mut Vec<u8>, src: &[u8])
    ensures
        final(out)@ == old(out)@ + src@,
{
    let mut i: usize = 0;
    while i < src.len()
        invariant
            i <= src@.len(),
            out@ == old(out)@ + src@.subrange(0, i as int),
        decreases src@.len() - i,
    {
        out.push(src[i]);
        i = i + 1;
        assert(out@ =~= old(out)@ + src@.subrange(0, i as int));
    }
    assert(src@.subrange(0, src@.len() as int) =~= src@);
}

/// Appends the eight bytes of `x`, most significant first.
fn push_u64_be(out: &mut Vec<u8>, x: u64)
    ensures
        final(out)@ == old(out)@ + u64_be_bytes(x),
{
    let hi = (x >> 32) as u32;
    let lo = (x & 0xffffffff) as u32;
    assert(hi == (x / 0x100000000) as u32 && lo == (x % 0x100000000) as u32) by (bit_vector)
        requires
            hi == (x >> 32) as u32,
            lo == (x & 0xffffffff) as u32,
    ;
    push_u32_be(out, hi);
    push_u32_be(out, lo);
    assert(out@ =~= old(out)@ + u64_be_bytes(x));
}

/// Appends the eight bytes of `x`, least significant first.
fn push_u64_le(out: &mut Vec<u8>, x: u64)
    ensures
        final(out)@ == old(out)@ + u64_le_bytes(x),
{
    let mut be: Vec<u8> = Vec::new();
    push_u64_be(&mut be, x);
    assert(be@ =~= u64_be_bytes(x));
    let mut i: usize = 8;
    while i > 0
        invariant
            i <= 8,
            be@ == u64_be_bytes(x),
            be@.len() == 8,
            out@ == old(out)@ + be@.reverse().subrange(0, 8 - i),
        decreases i,
    {
        i = i - 1;
        out.push(be[i]);
        assert(out@ =~= old(out)@ + be@.reverse().subrange(0, 8 - i));
    }
    assert(be@.reverse().subrange(0, 8) =~= be@.reverse());
}

/// Appends the length or count `n` as written: cast to `i32`, big-endian.
fn push_count(out: &mut Vec<u8>, n: usize)
    ensures
        final(out)@ == old(out)@ + spec_count_bytes(n as nat),
{
    push_u32_be(out, (n as i32) as u32);
}

/// Appends a text: its byte length, then its UTF-8 bytes.
fn push_text(out: &mut Vec<u8>, s: &str)
    ensures
        final(out)@ == old(out)@ + spec_count_bytes(encode_utf8(s@).len()) + encode_utf8(s@),
{
    let bytes = s.as_bytes();
    push_count(out, bytes.len());
    push_slice(out, bytes);
}

/// The models of a sequence of values.
pub open spec fn spec_models(items: Seq<OSD>) -> Seq<OsdModel> {
    Seq::new(items.len(), |j: int| if 0 <= j < items.len() { items[j].model() } else { OsdModel::Undef })
}

/// The model of one map entry: its key's characters and its value's model.
#[verifier::opaque]
pub open spec fn spec_entry_model(e: (String, OSD)) -> (Seq<char>, OsdModel) {
    (e.0@, e.1.model())
}

/// The models of a sequence of map entries.
pub open spec fn spec_entry_models(entries: Seq<(String, OSD)>) -> Seq<(Seq<char>, OsdModel)> {
    Seq::new(entries.len(), |j: int|
        if 0 <= j < entries.len() {
            spec_entry_model(entries[j])
        } else {
            (Seq::empty(), OsdModel::Undef)
        })
}

/// Appends the binary encoding of `value`, without the document header.
pub fn write_binary(out: &mut Vec<u8>, value: &OSD)
    ensures
        final(out)@ == old(out)@ + spec_binary(value.model()),
    decreases value,
{
    let ghost start = out@;
    match value {
        OSD::Undef => {
            out.push(0x21);
        },
        OSD::Boolean(b) => {
            out.push(if *b { 0x31 } else { 0x30 });
        },
        OSD::Integer(v) => {
            out.push(0x69);
            push_u32_be(out, *v as u32);
        },
        OSD::Real(bits) => {
            out.push(0x72);
            push_u64_be(out, *bits);
        },
        OSD::UUID(u) => {
            out.push(0x75);
            push_slice(out, u.as_bytes().as_slice());
        },
        OSD::String(s) => {
            out.push(0x73);
            push_text(out, s.as_str());
        },
        OSD::Uri(s) => {
            out.push(0x6c);
            push_text(out, s.as_str());
        },
        OSD::Date(d) => {
            out.push(0x64);
            let micros = d.timestamp_micros();
            push_u64_le(out, micros_to_seconds_bits(micros));
        },
        OSD::Binary(b) => {
            out.push(0x62);
            push_count(out, b.len());
            push_slice(out, b.as_slice());
        },
        OSD::Array(items) => {
            out.push(0x5b);
            push_count(out, items.len());
            write_items(out, items);
            out.push(0x5d);
            assert(value.model()->Array_0 =~= spec_models(items@));
        },
        OSD::Dict(m) => {
            out.push(0x7b);
            push_count(out, m.len());
            write_entries(out, m);
            out.push(0x7d);
            proof {
                reveal(spec_entry_model);
            }
            assert(value.model()->Dict_0 =~= spec_entry_models(m.spec_entries()));
        },
    }
    assert(out@ =~= start + spec_binary(value.model()));
}

/// Appends the encodings of `items`, one after another.
fn write_items(out: &mut Vec<u8>, items: &Vec<OSD>)
    ensures
        final(out)@ == old(out)@ + spec_binary_items(spec_models(items@)),
    decreases items,
{
    let ghost ms = spec_models(items@);
    let mut i: usize = 0;
    while i < items.len()
        invariant
            i <= items@.len(),
            ms == spec_models(items@),
            out@ == old(out)@ + spec_binary_items(ms.subrange(0, i as int)),
        decreases items@.len() - i,
    {
        assert(decreases_to!(items => items@[i as int]));
        write_binary(out, &items[i]);
        proof {
            let s = ms.subrange(0, i + 1);
            assert(s.subrange(0, s.len() - 1) =~= ms.subrange(0, i as int));
        }
        i = i + 1;
    }
    assert(ms.subrange(0, items@.len() as int) =~= ms);
}

/// Appends the encodings of map entries, one after another.
fn write_entries(out: &mut Vec<u8>, map: &OsdMap<OSD>)
    ensures
        final(out)@ == old(out)@ + spec_binary_entries(spec_entry_models(map.spec_entries())),
    decreases map,
{
    let entries = map.entries();
    let ghost ms = spec_entry_models(entries@);
    let mut i: usize = 0;
    while i < entries.len()
        invariant
            entries@ == map.spec_entries(),
            i <= entries@.len(),
            ms == spec_entry_models(entries@),
            out@ == old(out)@ + spec_binary_entries(ms.subrange(0, i as int)),
        decreases entries@.len() - i,
    {
        out.push(0x6b);
        push_text(out, entries[i].0.as_str());
        proof {
            lemma_entry_decreases(*map, i as int);
        }
        write_binary(out, &entries[i].1);
        proof {
            reveal(spec_entry_model);
            let s = ms.subrange(0, i + 1);
            assert(s.subrange(0, s.len() - 1) =~= ms.subrange(0, i as int));
        }
        i = i + 1;
    }
    assert(ms.subrange(0, entries@.len() as int) =~= ms);
}

/// A binary LLSD document: the header, then the encoding of `value`.
pub fn format_binary(value: &OSD) -> (r: Vec<u8>)
    ensures
        r@ == BINARY_HEADER@ + spec_binary(value.model()),
{
    let mut buf: Vec<u8> = Vec::new();
    let header = BINARY_HEADER;
    push_slice(&mut buf, header.as_slice());
    write_binary(&mut buf, value);
    buf
}


/// Why a binary LLSD document could not be read.
#[derive(Debug, Clone, Copy, PartialEq, Eq, Structural)]
pub enum BinaryError {
    /// The input ended where a tag or a close token was expected.
    UnexpectedEnd,
    /// The input ended before this many more bytes.
    Needed(usize),
    /// A text was not valid UTF-8.
    InvalidUtf8,
    /// A value began with an unknown tag.
    InvalidTag(u8),
    /// An array did not end with `]`.
    InvalidArrayClose,
    /// A map did not end with `}`.
    InvalidMapClose,
    /// A map key did not begin with `k`.
    InvalidKeyTag(u8),
}

/// The message reported for each error.
pub open spec fn spec_binary_error_text(e: BinaryError) -> Seq<char> {
    match e {
        BinaryError::UnexpectedEnd => "Unexpected end of binary LLSD"@,
        BinaryError::Needed(n) => "Unexpected end of binary LLSD: needed "@ + spec_nat_decimal(n as nat) + " bytes"@,
        BinaryError::InvalidUtf8 => "Invalid UTF-8 in LLSD string"@,
        BinaryError::InvalidTag(t) => "Invalid binary LLSD tag: 0x"@ + spec_hex_lower(seq![t]),
        BinaryError::InvalidArrayClose => "Invalid array close token in binary LLSD"@,
        BinaryError::InvalidMapClose => "Invalid map close token in binary LLSD"@,
        BinaryError::InvalidKeyTag(t) => "Invalid map key tag: 0x"@ + spec_hex_lower(seq![t]),
    }
}

/// Appends the two lower-case hex digits of `b`.
pub(crate) fn push_hex_byte(s: &mut String, b: u8)
    ensures
        final(s)@ == old(s)@ + spec_hex_lower(seq![b]),
{
    let hi = b / 16;
    let lo = b % 16;
    let c1: char = if hi < 10 { (hi + 0x30) as char } else { (hi - 10 + 0x61) as char };
    let c2: char = if lo < 10 { (lo + 0x30) as char } else { (lo - 10 + 0x61) as char };
    string_push(s, c1);
    string_push(s, c2);
    proof {
        let t = seq![b];
        assert(t.drop_last() =~= Seq::<u8>::empty());
        assert(t.last() == b);
        assert(spec_hex_lower(Seq::<u8>::empty()) =~= Seq::<char>::empty());
        assert(spec_hex_lower(t) == spec_hex_lower(t.drop_last()) + seq![spec_hex_digit(t.last() / 16), spec_hex_digit(t.last() % 16)]);
        assert(spec_hex_lower(seq![b]) =~= seq![spec_hex_digit(b / 16), spec_hex_digit(b % 16)]);
    }
    assert(final(s)@ =~= old(s)@ + spec_hex_lower(seq![b]));
}

/// The message of an error.
pub fn binary_error_text(e: BinaryError) -> (r: String)
    ensures
        r@ == spec_binary_error_text(e),
{
    let mut s = String::new();
    match e {
        BinaryError::UnexpectedEnd => string_push_str(&mut s, "Unexpected end of binary LLSD"),
        BinaryError::Needed(n) => {
            string_push_str(&mut s, "Unexpected end of binary LLSD: needed ");
            push_nat_decimal(&mut s, n as u64);
            string_push_str(&mut s, " bytes");
        },
        BinaryError::InvalidUtf8 => string_push_str(&mut s, "Invalid UTF-8 in LLSD string"),
        BinaryError::InvalidTag(t) => {
            string_push_str(&mut s, "Invalid binary LLSD tag: 0x");
            push_hex_byte(&mut s, t);
        },
        BinaryError::InvalidArrayClose => string_push_str(&mut s, "Invalid array close token in binary LLSD"),
        BinaryError::InvalidMapClose => string_push_str(&mut s, "Invalid map close token in binary LLSD"),
        BinaryError::InvalidKeyTag(t) => {
            string_push_str(&mut s, "Invalid map key tag: 0x");
            push_hex_byte(&mut s, t);
        },
    }
    assert(s@ =~= spec_binary_error_text(e));
    s
}

/// The big-endian `i32` at `p`.
pub open spec fn spec_i32_at(d: Seq<u8>, p: int) -> i32 {
    be_u32(d.subrange(p, p + 4)) as i32
}

/// A length or count read as `i32` and cast to `usize`.
pub open spec fn spec_size_at(d: Seq<u8>, p: int) -> int {
    (spec_i32_at(d, p) as usize) as int
}

/// Reading a text at `p`: its `i32` byte length, then that many bytes of
/// UTF-8.
pub open spec fn spec_read_text(d: Seq<u8>, p: int) -> Result<(Seq<char>, int), BinaryError> {
    if p + 4 > d.len() {
        Err(BinaryError::Needed(4))
    } else {
        let n = spec_size_at(d, p);
        if p + 4 + n > d.len() {
            Err(BinaryError::Needed(n as usize))
        } else {
            let bytes = d.subrange(p + 4, p + 4 + n);
            if valid_utf8(bytes) {
                Ok((decode_utf8(bytes), p + 4 + n))
            } else {
                Err(BinaryError::InvalidUtf8)
            }
        }
    }
}

/// The date a binary date of these bits reads as: the double truncated to
/// whole seconds (saturating, NaN as 0), or the earliest date when `chrono`
/// cannot represent that second.
pub open spec fn spec_date_of_bits(bits: u64) -> OsdModel {
    let s = spec_f64_as_i64(bits);
    if chrono_instant_valid(s, 0) {
        OsdModel::Date(s, 0)
    } else {
        OsdModel::Date(MIN_DATE_SECS, 0)
    }
}

/// The keys of model entries, in order.
pub open spec fn spec_model_keys(e: Seq<(Seq<char>, OsdModel)>) -> Seq<Seq<char>> {
    e.map_values(|x: (Seq<char>, OsdModel)| x.0)
}

/// The first entry with key `k`, if any.
pub open spec fn spec_model_key_index(e: Seq<(Seq<char>, OsdModel)>, k: Seq<char>) -> Option<int> {
    spec_first_index(spec_model_keys(e), k)
}

/// Inserting into insertion-ordered entries: an existing key keeps its
/// place and gets the new value; a new key goes at the end.
pub open spec fn spec_model_insert(e: Seq<(Seq<char>, OsdModel)>, k: Seq<char>, v: OsdModel) -> Seq<(Seq<char>, OsdModel)> {
    match spec_model_key_index(e, k) {
        Some(i) => e.update(i, (e[i].0, v)),
        None => e.push((k, v)),
    }
}

/// Reading one value at `p`: the value and the position after it. `fuel`
/// bounds the nesting; any fuel above the bytes left is enough.
pub open spec fn spec_parse_value(d: Seq<u8>, p: int, fuel: nat) -> Result<(OsdModel, int), BinaryError>
    decreases fuel, 0nat,
{
    if fuel == 0 || p < 0 || p >= d.len() {
        Err(BinaryError::UnexpectedEnd)
    } else {
        let tag = d[p];
        let q = p + 1;
        if tag == 0x21 {
            Ok((OsdModel::Undef, q))
        } else if tag == 0x31 {
            Ok((OsdModel::Boolean(true), q))
        } else if tag == 0x30 {
            Ok((OsdModel::Boolean(false), q))
        } else if tag == 0x69 {
            if q + 4 <= d.len() {
                Ok((OsdModel::Integer(spec_i32_at(d, q)), q + 4))
            } else {
                Err(BinaryError::Needed(4))
            }
        } else if tag == 0x72 {
            if q + 8 <= d.len() {
                Ok((OsdModel::Real(be_u64(d.subrange(q, q + 8))), q + 8))
            } else {
                Err(BinaryError::Needed(8))
            }
        } else if tag == 0x75 {
            if q + 16 <= d.len() {
                Ok((OsdModel::UUID(d.subrange(q, q + 16)), q + 16))
            } else {
                Err(BinaryError::Needed(16))
            }
        } else if tag == 0x73 {
            match spec_read_text(d, q) {
                Ok((s, r)) => Ok((OsdModel::String(s), r)),
                Err(e) => Err(e),
            }
        } else if tag == 0x6c {
            match spec_read_text(d, q) {
                Ok((s, r)) => Ok((OsdModel::Uri(s), r)),
                Err(e) => Err(e),
            }
        } else if tag == 0x64 {
            if q + 8 <= d.len() {
                Ok((spec_date_of_bits(le_u64(d.subrange(q, q + 8))), q + 8))
            } else {
                Err(BinaryError::Needed(8))
            }
        } else if tag == 0x62 {
            if q + 4 > d.len() {
                Err(BinaryError::Needed(4))
            } else {
                let n = spec_size_at(d, q);
                if q + 4 + n > d.len() {
                    Err(BinaryError::Needed(n as usize))
                } else {
                    Ok((OsdModel::Binary(d.subrange(q + 4, q + 4 + n)), q + 4 + n))
                }
            }
        } else if tag == 0x5b {
            if q + 4 > d.len() {
                Err(BinaryError::Needed(4))
            } else {
                match spec_parse_items(d, q + 4, spec_size_at(d, q) as nat, (fuel - 1) as nat, Seq::empty()) {
                    Err(e) => Err(e),
                    Ok((items, r)) => if r >= d.len() {
                        Err(BinaryError::UnexpectedEnd)
                    } else if d[r] != 0x5d {
                        Err(BinaryError::InvalidArrayClose)
                    } else {
                        Ok((OsdModel::Array(items), r + 1))
                    },
                }
            }
        } else if tag == 0x7b {
            if q + 4 > d.len() {
                Err(BinaryError::Needed(4))
            } else {
                match spec_parse_entries(d, q + 4, spec_size_at(d, q) as nat, (fuel - 1) as nat, Seq::empty()) {
                    Err(e) => Err(e),
                    Ok((entries, r)) => if r >= d.len() {
                        Err(BinaryError::UnexpectedEnd)
                    } else if d[r] != 0x7d {
                        Err(BinaryError::InvalidMapClose)
                    } else {
                        Ok((OsdModel::Dict(entries), r + 1))
                    },
                }
            }
        } else {
            Err(BinaryError::InvalidTag(tag))
        }
    }
}

/// Reading `count` more array items at `p` after the items `acc`.
pub open spec fn spec_parse_items(d: Seq<u8>, p: int, count: nat, fuel: nat, acc: Seq<OsdModel>) -> Result<(Seq<OsdModel>, int), BinaryError>
    decreases fuel, count + 1,
{
    if count == 0 {
        Ok((acc, p))
    } else {
        match spec_parse_value(d, p, fuel) {
            Err(e) => Err(e),
            Ok((v, q)) => spec_parse_items(d, q, (count - 1) as nat, fuel, acc.push(v)),
        }
    }
}

/// Reading `count` more map entries at `p` into the entries `acc`: the tag
/// `k`, the key text, then the value.
pub open spec fn spec_parse_entries(d: Seq<u8>, p: int, count: nat, fuel: nat, acc: Seq<(Seq<char>, OsdModel)>) -> Result<(Seq<(Seq<char>, OsdModel)>, int), BinaryError>
    decreases fuel, count + 1,
{
    if count == 0 {
        Ok((acc, p))
    } else if p < 0 || p >= d.len() {
        Err(BinaryError::UnexpectedEnd)
    } else if d[p] != 0x6b {
        Err(BinaryError::InvalidKeyTag(d[p]))
    } else {
        match spec_read_text(d, p + 1) {
            Err(e) => Err(e),
            Ok((k, q)) => match spec_parse_value(d, q, fuel) {
                Err(e) => Err(e),
                Ok((v, r)) => spec_parse_entries(d, r, (count - 1) as nat, fuel, spec_model_insert(acc, k, v)),
            },
        }
    }
}

/// `d` with the document header removed, when it begins with it.
pub open spec fn spec_strip_header(d: Seq<u8>) -> Seq<u8> {
    if d.len() >= 16 && d.subrange(0, 16) == BINARY_HEADER@ {
        d.subrange(16, d.len() as int)
    } else {
        d
    }
}

/// What a binary LLSD document reads as: its one value, read from the start
/// of the body. Bytes after the value are ignored.
pub open spec fn spec_parse_binary(d: Seq<u8>) -> Result<OsdModel, BinaryError> {
    let body = spec_strip_header(d);
    match spec_parse_value(body, 0, body.len() + 1) {
        Ok((m, _)) => Ok(m),
        Err(e) => Err(e),
    }
}


/// A reader over a binary LLSD body.
struct BinaryParser<'a> {
    data: &'a [u8],
    pos: usize,
}

impl<'a> BinaryParser<'a> {
    /// One byte.
    fn read_byte(&mut self) -> (r: Result<u8, BinaryError>)
        requires
            old(self).pos <= old(self).data@.len(),
        ensures
            final(self).data@ == old(self).data@,
            old(self).pos <= final(self).pos <= final(self).data@.len(),
            old(self).pos < old(self).data@.len() ==> r == Ok::<u8, BinaryError>(old(self).data@[old(self).pos as int])
                && final(self).pos == old(self).pos + 1,
            old(self).pos >= old(self).data@.len() ==> r == Err::<u8, BinaryError>(BinaryError::UnexpectedEnd),
    {
        if self.pos < self.data.len() {
            let b = self.data[self.pos];
            self.pos = self.pos + 1;
            Ok(b)
        } else {
            Err(BinaryError::UnexpectedEnd)
        }
    }

    /// `n` bytes.
    fn read_bytes(&mut self, n: usize) -> (r: Result<Vec<u8>, BinaryError>)
        requires
            old(self).pos <= old(self).data@.len(),
        ensures
            final(self).data@ == old(self).data@,
            old(self).pos <= final(self).pos <= final(self).data@.len(),
            old(self).pos + n <= old(self).data@.len() ==> r is Ok && r->Ok_0@ == old(self).data@.subrange(
                old(self).pos as int,
                old(self).pos + n,
            ) && final(self).pos == old(self).pos + n,
            old(self).pos + n > old(self).data@.len() ==> r == Err::<Vec<u8>, BinaryError>(BinaryError::Needed(n)),
    {
        if n <= self.data.len() - self.pos {
            let mut out: Vec<u8> = Vec::new();
            let mut i: usize = 0;
            while i < n
                invariant
                    i <= n,
                    self.pos + n <= self.data.len(),
                    out@ == self.data@.subrange(self.pos as int, self.pos + i),
                decreases n - i,
            {
                out.push(self.data[self.pos + i]);
                i = i + 1;
                assert(out@ =~= self.data@.subrange(self.pos as int, self.pos + i));
            }
            self.pos = self.pos + n;
            Ok(out)
        } else {
            Err(BinaryError::Needed(n))
        }
    }

    /// A big-endian `i32`.
    fn read_i32(&mut self) -> (r: Result<i32, BinaryError>)
        requires
            old(self).pos <= old(self).data@.len(),
        ensures
            final(self).data@ == old(self).data@,
            old(self).pos <= final(self).pos <= final(self).data@.len(),
            old(self).pos + 4 <= old(self).data@.len() ==> r == Ok::<i32, BinaryError>(spec_i32_at(old(self).data@, old(self).pos as int))
                && final(self).pos == old(self).pos + 4,
            old(self).pos + 4 > old(self).data@.len() ==> r == Err::<i32, BinaryError>(BinaryError::Needed(4)),
    {
        let b = self.read_bytes(4)?;
        let x: u32 = (b[0] as u32) * 0x1000000 + (b[1] as u32) * 0x10000 + (b[2] as u32) * 0x100 + (b[3] as u32);
        Ok(x as i32)
    }

    /// A text: its `i32` byte length, then UTF-8 bytes.
    fn read_string(&mut self) -> (r: Result<String, BinaryError>)
        requires
            old(self).pos <= old(self).data@.len(),
        ensures
            final(self).data@ == old(self).data@,
            old(self).pos <= final(self).pos <= final(self).data@.len(),
            match spec_read_text(old(self).data@, old(self).pos as int) {
                Ok((t, q)) => r is Ok && r->Ok_0@ == t && final(self).pos == q,
                Err(e) => r == Err::<String, BinaryError>(e),
            },
    {
        let size = self.read_i32()? as usize;
        let bytes = self.read_bytes(size)?;
        match string_from_utf8(bytes) {
            Some(s) => Ok(s),
            None => Err(BinaryError::InvalidUtf8),
        }
    }

    /// One value.
    fn parse_value(&mut self, Ghost(fuel): Ghost<nat>) -> (r: Result<OSD, BinaryError>)
        requires
            old(self).pos <= old(self).data@.len(),
            fuel > old(self).data@.len() - old(self).pos,
        ensures
            final(self).data@ == old(self).data@,
            final(self).pos <= final(self).data@.len(),
            final(self).pos >= old(self).pos,
            match spec_parse_value(old(self).data@, old(self).pos as int, fuel) {
                Ok((m, q)) => r is Ok && r->Ok_0.model() == m && final(self).pos == q,
                Err(e) => r == Err::<OSD, BinaryError>(e),
            },
        decreases fuel, 0nat,
    {
        let ghost d = self.data@;
        let ghost p = self.pos as int;
        let tag = self.read_byte()?;
        match tag {
            0x21 => Ok(OSD::Undef),
            0x31 => Ok(OSD::Boolean(true)),
            0x30 => Ok(OSD::Boolean(false)),
            0x69 => {
                let v = self.read_i32()?;
                Ok(OSD::Integer(v))
            },
            0x72 => {
                let b = self.read_bytes(8)?;
                let hi: u64 = (b[0] as u64) * 0x1000000 + (b[1] as u64) * 0x10000 + (b[2] as u64) * 0x100 + (b[3] as u64);
                let lo: u64 = (b[4] as u64) * 0x1000000 + (b[5] as u64) * 0x10000 + (b[6] as u64) * 0x100 + (b[7] as u64);
                let bits: u64 = hi * 0x100000000 + lo;
                proof {
                    let t = d.subrange(p + 1, p + 9);
                    assert(b@ =~= t);
                    let u = t.subrange(4, 8);
                    assert(u[0] == b@[4] && u[1] == b@[5] && u[2] == b@[6] && u[3] == b@[7]);
                    assert(bits == be_u64(t));
                }
                Ok(OSD::Real(bits))
            },
            0x75 => {
                let b = self.read_bytes(16)?;
                let mut arr = [0u8; 16];
                let mut i: usize = 0;
                while i < 16
                    invariant
                        i <= 16,
                        b@.len() == 16,
                        forall|j: int| 0 <= j < i ==> arr@[j] == b@[j],
                    decreases 16 - i,
                {
                    arr.set(i, b[i]);
                    i = i + 1;
                }
                assert(arr@ =~= b@);
                Ok(OSD::UUID(UUID::from_bytes(arr)))
            },
            0x73 => {
                let s = self.read_string()?;
                Ok(OSD::String(s))
            },
            0x6c => {
                let s = self.read_string()?;
                Ok(OSD::Uri(s))
            },
            0x64 => {
                let b = self.read_bytes(8)?;
                let lo: u64 = (b[3] as u64) * 0x1000000 + (b[2] as u64) * 0x10000 + (b[1] as u64) * 0x100 + (b[0] as u64);
                let hi: u64 = (b[7] as u64) * 0x1000000 + (b[6] as u64) * 0x10000 + (b[5] as u64) * 0x100 + (b[4] as u64);
                let bits: u64 = hi * 0x100000000 + lo;
                proof {
                    let t = d.subrange(p + 1, p + 9);
                    assert(b@ =~= t);
                    let u = t.subrange(4, 8);
                    assert(u[0] == b@[4] && u[1] == b@[5] && u[2] == b@[6] && u[3] == b@[7]);
                    assert(bits == le_u64(t));
                }
                let secs = f64_bits_as_i64(bits);
                let date = match LlsdDate::from_timestamp(secs, 0) {
                    Some(dt) => dt,
                    None => LlsdDate::min_utc(),
                };
                Ok(OSD::Date(date))
            },
            0x62 => {
                let size = self.read_i32()? as usize;
                let bytes = self.read_bytes(size)?;
                Ok(OSD::Binary(bytes))
            },
            0x5b => self.parse_array(Ghost((fuel - 1) as nat)),
            0x7b => self.parse_map(Ghost((fuel - 1) as nat)),
            _ => Err(BinaryError::InvalidTag(tag)),
        }
    }

    /// The rest of an array: its count, its items and `]`.
    #[verifier::loop_isolation(false)]
    fn parse_array(&mut self, Ghost(fuel): Ghost<nat>) -> (r: Result<OSD, BinaryError>)
        requires
            old(self).pos <= old(self).data@.len(),
            fuel + 1 > old(self).data@.len() - old(self).pos,
        ensures
            final(self).data@ == old(self).data@,
            final(self).pos <= final(self).data@.len(),
            final(self).pos >= old(self).pos,
            ({
                let d = old(self).data@;
                let q = old(self).pos as int;
                if q + 4 > d.len() {
                    r == Err::<OSD, BinaryError>(BinaryError::Needed(4))
                } else {
                    match spec_parse_items(d, q + 4, spec_size_at(d, q) as nat, fuel, Seq::empty()) {
                        Err(e) => r == Err::<OSD, BinaryError>(e),
                        Ok((items, t)) => if t >= d.len() {
                            r == Err::<OSD, BinaryError>(BinaryError::UnexpectedEnd)
                        } else if d[t] != 0x5d {
                            r == Err::<OSD, BinaryError>(BinaryError::InvalidArrayClose)
                        } else {
                            r is Ok && r->Ok_0.model() == OsdModel::Array(items) && final(self).pos == t + 1
                        },
                    }
                }
            }),
        decreases fuel, 1nat,
    {
        let ghost d = self.data@;
        let count = match self.read_i32() {
            Ok(c) => c as usize,
            Err(e) => {
                return Err(e);
            },
        };
        let ghost start = self.pos as int;
        let mut arr: Vec<OSD> = Vec::new();
        assert(spec_models(arr@) =~= Seq::<OsdModel>::empty());
        let mut i: usize = 0;
        while i < count
            invariant
                self.data@ == d,
                start <= self.pos <= d.len(),
                fuel + 1 > d.len() - start + 4,
                i <= count,
                spec_parse_items(d, start, count as nat, fuel, Seq::empty()) == spec_parse_items(
                    d,
                    self.pos as int,
                    (count - i) as nat,
                    fuel,
                    spec_models(arr@),
                ),
            decreases count - i,
        {
            let ghost before = spec_models(arr@);
            let v = self.parse_value(Ghost(fuel))?;
            arr.push(v);
            assert(spec_models(arr@) =~= before.push(v.model()));
            i = i + 1;
        }
        let close = self.read_byte()?;
        if close != 0x5d {
            return Err(BinaryError::InvalidArrayClose);
        }
        let ghost ms = spec_models(arr@);
        let result = OSD::Array(arr);
        assert(result.model()->Array_0 =~= ms);
        Ok(result)
    }

    /// The rest of a map: its count, its entries and `}`.
    #[verifier::loop_isolation(false)]
    fn parse_map(&mut self, Ghost(fuel): Ghost<nat>) -> (r: Result<OSD, BinaryError>)
        requires
            old(self).pos <= old(self).data@.len(),
            fuel + 1 > old(self).data@.len() - old(self).pos,
        ensures
            final(self).data@ == old(self).data@,
            final(self).pos <= final(self).data@.len(),
            final(self).pos >= old(self).pos,
            ({
                let d = old(self).data@;
                let q = old(self).pos as int;
                if q + 4 > d.len() {
                    r == Err::<OSD, BinaryError>(BinaryError::Needed(4))
                } else {
                    match spec_parse_entries(d, q + 4, spec_size_at(d, q) as nat, fuel, Seq::empty()) {
                        Err(e) => r == Err::<OSD, BinaryError>(e),
                        Ok((entries, t)) => if t >= d.len() {
                            r == Err::<OSD, BinaryError>(BinaryError::UnexpectedEnd)
                        } else if d[t] != 0x7d {
                            r == Err::<OSD, BinaryError>(BinaryError::InvalidMapClose)
                        } else {
                            r is Ok && r->Ok_0.model() == OsdModel::Dict(entries) && final(self).pos == t + 1
                        },
                    }
                }
            }),
        decreases fuel, 1nat,
    {
        let ghost d = self.data@;
        let count = match self.read_i32() {
            Ok(c) => c as usize,
            Err(e) => {
                return Err(e);
            },
        };
        let ghost start = self.pos as int;
        let mut map: OsdMap<OSD> = OsdMap::new();
        assert(spec_entry_models(map.spec_entries()) =~= Seq::<(Seq<char>, OsdModel)>::empty());
        let mut i: usize = 0;
        while i < count
            invariant
                self.data@ == d,
                start <= self.pos <= d.len(),
                fuel + 1 > d.len() - start + 4,
                i <= count,
                spec_parse_entries(d, start, count as nat, fuel, Seq::empty()) == spec_parse_entries(
                    d,
                    self.pos as int,
                    (count - i) as nat,
                    fuel,
                    spec_entry_models(map.spec_entries()),
                ),
            decreases count - i,
        {
            let key_tag = self.read_byte()?;
            if key_tag != 0x6b {
                return Err(BinaryError::InvalidKeyTag(key_tag));
            }
            let key = self.read_string()?;
            let value = self.parse_value(Ghost(fuel))?;
            let ghost before = map.spec_entries();
            let ghost gk = key;
            let ghost gv = value;
            map.insert(key, value);
            proof {
                lemma_entry_models_insert(before, gk, gv);
            }
            i = i + 1;
        }
        let close = self.read_byte()?;
        if close != 0x7d {
            return Err(BinaryError::InvalidMapClose);
        }
        let ghost ms = spec_entry_models(map.spec_entries());
        let result = OSD::Dict(map);
        proof {
            reveal(spec_entry_model);
        }
        assert(result.model()->Dict_0 =~= ms);
        Ok(result)
    }
}


/// Whether `data` begins with the document header.
fn has_binary_header(data: &[u8]) -> (r: bool)
    ensures
        r == (data@.len() >= 16 && data@.subrange(0, 16) == BINARY_HEADER@),
{
    if data.len() < 16 {
        return false;
    }
    let header = BINARY_HEADER;
    let mut i: usize = 0;
    while i < 16
        invariant
            i <= 16,
            data@.len() >= 16,
            header@ == BINARY_HEADER@,
            forall|j: int| 0 <= j < i ==> data@[j] == header@[j],
        decreases 16 - i,
    {
        if data[i] != header[i] {
            assert(data@.subrange(0, 16)[i as int] != BINARY_HEADER@[i as int]);
            return false;
        }
        i = i + 1;
    }
    assert(data@.subrange(0, 16) =~= BINARY_HEADER@);
    true
}

/// Reads a binary LLSD document, with or without its header: the one value
/// at the start of the body. Bytes after that value are ignored.
pub fn parse_binary(data: &[u8]) -> (r: Result<OSD, String>)
    ensures
        match spec_parse_binary(data@) {
            Ok(m) => r is Ok && r->Ok_0.model() == m,
            Err(e) => r is Err && r->Err_0@ == spec_binary_error_text(e),
        },
{
    let body: &[u8] = if has_binary_header(data) {
        vstd::slice::slice_subrange(data, 16, data.len())
    } else {
        data
    };
    assert(body@ == spec_strip_header(data@));
    let mut parser = BinaryParser { data: body, pos: 0 };
    match parser.parse_value(Ghost((body@.len() + 1) as nat)) {
        Ok(v) => Ok(v),
        Err(e) => Err(binary_error_text(e)),
    }
}

impl OSD {
    /// The binary LLSD document of this value, with its header.
    pub fn to_binary(&self) -> (r: Vec<u8>)
        ensures
            r@ == BINARY_HEADER@ + spec_binary(self.model()),
    {
        format_binary(self)
    }

    /// The value a binary LLSD document holds, as `parse_binary` reads it.
    pub fn from_binary(data: &[u8]) -> (r: Result<OSD, String>)
        ensures
            match spec_parse_binary(data@) {
                Ok(m) => r is Ok && r->Ok_0.model() == m,
                Err(e) => r is Err && r->Err_0@ == spec_binary_error_text(e),
            },
    {
        parse_binary(data)
    }
}

/// Keys are found at the same place among entries and among their models.
proof fn lemma_key_index_models(e: Seq<(String, OSD)>, k: Seq<char>)
    ensures
        spec_key_index(e, k) == spec_model_key_index(spec_entry_models(e), k),
{
    reveal(spec_entry_model);
    assert(spec_keys(e) =~= spec_model_keys(spec_entry_models(e)));
}

/// The models of the entries after an insertion are the model-level
/// insertion into the models of the entries before.
pub(crate) proof fn lemma_entry_models_insert(e: Seq<(String, OSD)>, k: String, v: OSD)
    ensures
        spec_entry_models(spec_map_insert(e, k, v)) == spec_model_insert(spec_entry_models(e), k@, v.model()),
{
    lemma_key_index_models(e, k@);
    lemma_first_index(spec_keys(e), k@);
    let me = spec_entry_models(e);
    reveal(spec_entry_model);
    match spec_key_index(e, k@) {
        Some(i) => {
            assert(spec_entry_models(e.update(i, (e[i].0, v))) =~= me.update(i, (me[i].0, v.model())));
        },
        None => {
            assert(spec_entry_models(e.push((k, v))) =~= me.push((k@, v.model())));
        },
    }
}


/// The values the binary form carries unchanged: texts, binary data and
/// collections whose sizes fit the `i32` count, maps without repeated keys,
/// and dates on a whole second whose microseconds a double holds exactly
/// (every value the library builds is a representable instant).
pub open spec fn spec_binary_exact(m: OsdModel) -> bool
    decreases m,
{
    match m {
        OsdModel::String(s) => encode_utf8(s).len() <= i32::MAX,
        OsdModel::Uri(s) => encode_utf8(s).len() <= i32::MAX,
        OsdModel::UUID(u) => u.len() == 16,
        OsdModel::Binary(b) => b.len() <= i32::MAX,
        OsdModel::Date(secs, nanos) => nanos == 0 && -MAX_EXACT_DATE_SECS <= secs <= MAX_EXACT_DATE_SECS && chrono_instant_valid(secs, 0),
        OsdModel::Array(items) => items.len() <= i32::MAX && forall|i: int| 0 <= i < items.len() ==> spec_binary_exact(#[trigger] items[i]),
        OsdModel::Dict(entries) => {
            &&& entries.len() <= i32::MAX
            &&& forall|i: int, j: int| 0 <= i < j < entries.len() ==> (#[trigger] entries[i]).0 != (#[trigger] entries[j]).0
            &&& forall|i: int| 0 <= i < entries.len() ==> encode_utf8((#[trigger] entries[i]).0).len() <= i32::MAX && spec_binary_exact(entries[i].1)
        },
        _ => true,
    }
}

/// A count written for `n` reads back as `n`.
proof fn lemma_count_round_trip(n: nat, d: Seq<u8>, p: int)
    requires
        n <= i32::MAX,
        0 <= p,
        p + 4 <= d.len(),
        d.subrange(p, p + 4) == spec_count_bytes(n),
    ensures
        spec_size_at(d, p) == n,
{
    let x: u32 = n as u32;
    assert(x == n);
    assert(n as i32 == x as i32);
    crate::header::lemma_be_u32_of_bytes(x);
    assert((x as i32) as u32 == x && ((x as i32) as usize) as u32 == x) by (bit_vector)
        requires
            x <= 0x7fffffff,
    ;
}

/// Eight big-endian bytes read back as the value that wrote them.
proof fn lemma_u64_be_round_trip(v: u64)
    ensures
        be_u64(u64_be_bytes(v)) == v,
{
    let hi = (v / 0x100000000) as u32;
    let lo = (v % 0x100000000) as u32;
    let b = u64_be_bytes(v);
    crate::header::lemma_be_u32_of_bytes(hi);
    crate::header::lemma_be_u32_of_bytes(lo);
    assert(b.subrange(0, 4) =~= u32_be_bytes(hi));
    assert(b.subrange(4, 8) =~= u32_be_bytes(lo));
    assert(be_u32(b) == be_u32(b.subrange(0, 4)));
}

/// Eight little-endian bytes read back as the value that wrote them.
proof fn lemma_u64_le_round_trip(v: u64)
    ensures
        le_u64(u64_le_bytes(v)) == v,
{
    let b = u64_be_bytes(v);
    let r = u64_le_bytes(v);
    lemma_u64_be_round_trip(v);
    assert(r.len() == 8);
    assert(r[0] == b[7] && r[1] == b[6] && r[2] == b[5] && r[3] == b[4]);
    assert(r[4] == b[3] && r[5] == b[2] && r[6] == b[1] && r[7] == b[0]);
    let t = r.subrange(4, 8);
    assert(t[0] == b[3] && t[1] == b[2] && t[2] == b[1] && t[3] == b[0]);
    let u = b.subrange(4, 8);
    assert(u[0] == b[4] && u[1] == b[5] && u[2] == b[6] && u[3] == b[7]);
}

/// A text written at `p` reads back as itself, and ends where its bytes end.
proof fn lemma_text_round_trip(s: Seq<char>, d: Seq<u8>, p: int)
    requires
        encode_utf8(s).len() <= i32::MAX,
        0 <= p,
        p + 4 + encode_utf8(s).len() <= d.len(),
        d.subrange(p, p + 4 + encode_utf8(s).len()) == spec_count_bytes(encode_utf8(s).len()) + encode_utf8(s),
    ensures
        spec_read_text(d, p) == Ok::<(Seq<char>, int), BinaryError>((s, p + 4 + encode_utf8(s).len())),
{
    let bytes = encode_utf8(s);
    let n: int = bytes.len() as int;
    let w = d.subrange(p, p + 4 + n);
    assert(d.subrange(p, p + 4) =~= w.subrange(0, 4));
    assert(w.subrange(0, 4) =~= spec_count_bytes(n as nat));
    lemma_count_round_trip(n as nat, d, p);
    assert(d.subrange(p + 4, p + 4 + n) =~= w.subrange(4, 4 + n));
    assert(w.subrange(4, 4 + n) =~= bytes);
    vstd::utf8::encode_utf8_valid_utf8(s);
    vstd::utf8::encode_utf8_decode_utf8(s);
}

/// Where `a + b` lies at `p`, `a` lies at `p` and `b` right after it.
proof fn lemma_split_at(d: Seq<u8>, p: int, a: Seq<u8>, b: Seq<u8>)
    requires
        0 <= p,
        p + a.len() + b.len() <= d.len(),
        d.subrange(p, p + a.len() + b.len()) == a + b,
    ensures
        d.subrange(p, p + a.len()) == a,
        d.subrange(p + a.len(), p + a.len() + b.len()) == b,
{
    let w = d.subrange(p, p + a.len() + b.len());
    assert(d.subrange(p, p + a.len()) =~= w.subrange(0, a.len() as int));
    assert(w.subrange(0, a.len() as int) =~= a);
    assert(d.subrange(p + a.len(), p + a.len() + b.len()) =~= w.subrange(a.len() as int, (a.len() + b.len()) as int));
    assert(w.subrange(a.len() as int, (a.len() + b.len()) as int) =~= b);
}

/// The encodings of two runs of items, one after the other.
proof fn lemma_items_concat(a: Seq<OsdModel>, b: Seq<OsdModel>)
    ensures
        spec_binary_items(a + b) == spec_binary_items(a) + spec_binary_items(b),
    decreases b.len(),
{
    if b.len() == 0 {
        assert(a + b =~= a);
        assert(spec_binary_items(a) + spec_binary_items(b) =~= spec_binary_items(a));
    } else {
        let c = a + b;
        let bl = b.subrange(0, b.len() - 1);
        lemma_items_concat(a, bl);
        assert(c.subrange(0, c.len() - 1) =~= a + bl);
        assert(c[c.len() - 1] == b[b.len() - 1]);
        assert(spec_binary_items(c) =~= spec_binary_items(a) + spec_binary_items(b));
    }
}

/// The encodings of two runs of map entries, one after the other.
proof fn lemma_entries_concat(a: Seq<(Seq<char>, OsdModel)>, b: Seq<(Seq<char>, OsdModel)>)
    ensures
        spec_binary_entries(a + b) == spec_binary_entries(a) + spec_binary_entries(b),
    decreases b.len(),
{
    if b.len() == 0 {
        assert(a + b =~= a);
        assert(spec_binary_entries(a) + spec_binary_entries(b) =~= spec_binary_entries(a));
    } else {
        let c = a + b;
        let bl = b.subrange(0, b.len() - 1);
        lemma_entries_concat(a, bl);
        assert(c.subrange(0, c.len() - 1) =~= a + bl);
        assert(c[c.len() - 1] == b[b.len() - 1]);
        assert(spec_binary_entries(c) =~= spec_binary_entries(a) + spec_binary_entries(b));
    }
}


/// The largest number of seconds whose microseconds a double holds
/// exactly: a whole second is `15625 * 2^6` microseconds, so below `2^53`
/// times `2^6` microseconds every multiple of a second is exact.
pub const MAX_EXACT_DATE_SECS: i64 = 576460752303;

/// The double nearest to `mag`, when `mag` is `a` seconds in microseconds
/// and `a` is within `MAX_EXACT_DATE_SECS`: the value itself, as
/// `a * 15625 * 2^(59 - l)` scaled by `2^(l - 53)`, `l` the bit length.
proof fn lemma_whole_seconds_double(a: nat, mag: nat)
    requires
        1 <= a <= 576460752303,
        mag == a * 1000000,
    ensures
        ({
            let l = crate::realbits::spec_bit_length(mag);
            let d1 = crate::realbits::spec_int_to_double(mag);
            &&& 20 <= l <= 59
            &&& d1.1 == l - 53
            &&& 0x10000000000000 <= d1.0 < 0x20000000000000
            &&& d1.0 == a * 15625 * pow2((59 - l) as nat)
        }),
{
    lemma2_to64();
    lemma2_to64_rest();
    assert(mag < 0x800000000000000);
    crate::realbits::lemma_bit_length_bounds(mag);
    let l = crate::realbits::spec_bit_length(mag);
    assert(l <= 59) by {
        if l > 59 {
            if l - 1 > 59 {
                vstd::arithmetic::power2::lemma_pow2_strictly_increases(59, (l - 1) as nat);
            }
        }
    }
    if l < 19 {
        vstd::arithmetic::power2::lemma_pow2_strictly_increases(l, 19);
    }
    assert(l >= 20);
    let u: nat = (59 - l) as nat;
    let d1 = crate::realbits::spec_int_to_double(mag);
    if l <= 53 {
        let sh: nat = (53 - l) as nat;
        vstd::arithmetic::power2::lemma_pow2_adds((l - 1) as nat, sh);
        vstd::arithmetic::power2::lemma_pow2_adds(l, sh);
        vstd::arithmetic::mul::lemma_mul_inequality(pow2((l - 1) as nat) as int, mag as int, pow2(sh) as int);
        vstd::arithmetic::mul::lemma_mul_strict_inequality(mag as int, pow2(l) as int, pow2(sh) as int);
        vstd::arithmetic::power2::lemma_pow2_adds(6, sh);
        assert(d1.0 == mag * pow2(sh));
        assert(mag * pow2(sh) == a * 15625 * pow2(u)) by (nonlinear_arith)
            requires
                mag == a * 1000000,
                pow2(u) == pow2(6) * pow2(sh),
                pow2(6) == 64,
        ;
    } else {
        let k: nat = (l - 53) as nat;
        let c: nat = a * 15625 * pow2(u);
        vstd::arithmetic::power2::lemma_pow2_adds(u, k);
        assert(u + k == 6);
        assert(mag == c * pow2(k)) by (nonlinear_arith)
            requires
                mag == a * 1000000,
                c == a * 15625 * pow2(u),
                pow2(u) * pow2(k) == pow2(6),
                pow2(6) == 64,
        ;
        vstd::arithmetic::power2::lemma_pow2_pos(k);
        vstd::arithmetic::div_mod::lemma_div_multiples_vanish(c as int, pow2(k) as int);
        vstd::arithmetic::div_mod::lemma_mod_multiples_basic(c as int, pow2(k) as int);
        vstd::arithmetic::mul::lemma_mul_is_commutative(c as int, pow2(k) as int);
        assert(mag / pow2(k) == c && mag % pow2(k) == 0);
        assert(crate::realbits::spec_round_div(mag, pow2(k)) == c);
        vstd::arithmetic::power2::lemma_pow2_adds(52, k);
        vstd::arithmetic::power2::lemma_pow2_adds(53, k);
        assert(l - 1 == 52 + k);
        assert(0x10000000000000 <= c < 0x20000000000000) by (nonlinear_arith)
            requires
                mag == c * pow2(k),
                pow2(52) * pow2(k) <= mag < pow2(53) * pow2(k),
                pow2(k) > 0,
                pow2(52) == 0x10000000000000,
                pow2(53) == 0x20000000000000,
        ;
        assert(d1 == (c, l - 53));
    }
}

/// The seconds of a whole-second date read back from the double its
/// microseconds were written as: within `MAX_EXACT_DATE_SECS` every step
/// is exact.
#[verifier::rlimit(60)]
proof fn lemma_date_round_trip(secs: i64)
    requires
        -576460752303 <= secs <= 576460752303,
    ensures
        spec_f64_as_i64(spec_micros_to_seconds_bits(spec_date_micros(secs, 0))) == secs,
{
    lemma2_to64();
    lemma2_to64_rest();
    let micros = spec_date_micros(secs, 0);
    assert(micros == secs * 1000000);
    if secs == 0 {
        assert(micros == 0);
        let b: u64 = 0;
        assert(spec_micros_to_seconds_bits(micros) == 0);
        assert(spec_f64_exp(b) == 0 && spec_f64_frac(b) == 0);
        assert(pow2(1075) > 0) by {
            vstd::arithmetic::power2::lemma_pow2_pos(1075);
        }
        assert(spec_f64_trunc_magnitude(b) == 0);
        return;
    }
    let a: nat = if secs < 0 { (-secs) as nat } else { secs as nat };
    let mag: nat = a * 1000000;
    assert(mag == (if micros < 0 { -micros } else { micros }));
    lemma_whole_seconds_double(a, mag);
    let l = crate::realbits::spec_bit_length(mag);
    let d1 = crate::realbits::spec_int_to_double(mag);
    let sig1: int = d1.0 as int;
    let u: nat = (59 - l) as nat;
    // Divided by a million, exactly.
    let t: nat = if sig1 >= 1000000 * pow2(33) { 33 } else { 32 };
    assert(pow2(33) == 0x200000000);
    let r: nat = (52 - t) as nat;
    assert(pow2(r) == (if t == 33 { 0x80000int } else { 0x100000int }));
    let sr: nat = (53 - l + r) as nat;
    let q: int = (a * pow2(sr)) as int;
    vstd::arithmetic::power2::lemma_pow2_adds(u, r);
    vstd::arithmetic::power2::lemma_pow2_adds(6, sr);
    assert(u + r == 6 + sr);
    assert(sig1 * pow2(r) == 1000000 * q) by (nonlinear_arith)
        requires
            sig1 == a * 15625 * pow2(u),
            q == a * pow2(sr),
            pow2(u) * pow2(r) == pow2(6) * pow2(sr),
            pow2(6) == 64,
    ;
    let num: nat = (sig1 * pow2(r)) as nat;
    vstd::arithmetic::div_mod::lemma_div_multiples_vanish(q, 1000000);
    vstd::arithmetic::div_mod::lemma_mod_multiples_basic(q, 1000000);
    assert(num / 1000000 == q && num % 1000000 == 0);
    assert(crate::realbits::spec_round_div(num, 1000000) == q);
    assert(0x10000000000000 <= q < 0x20000000000000) by (nonlinear_arith)
        requires
            sig1 * pow2(r) == 1000000 * q,
            0x10000000000000 <= sig1 < 0x20000000000000,
            t == 33 ==> sig1 >= 1000000 * 0x200000000 && pow2(r) == 0x80000,
            t != 33 ==> sig1 < 1000000 * 0x200000000 && pow2(r) == 0x100000,
    ;
    let d2 = spec_div_million_of(d1);
    assert(d2 == (q as nat, (l - 53) + t - 52));
    // The bits, and the fields read back from them.
    let e: int = 1075 + (l - 53) + t - 52;
    assert(e == 1075 - sr);
    let sign: int = if micros < 0 { 0x8000000000000000int } else { 0int };
    let bits: int = sign + e * 0x10000000000000 + (q - 0x10000000000000);
    assert(spec_micros_to_seconds_bits(micros) == bits as u64);
    assert(0 <= bits < 0x10000000000000000);
    let b = bits as u64;
    assert(b as int == bits);
    assert(b / 0x10000000000000 == sign / 0x10000000000000 + e);
    assert(spec_f64_exp(b) == e);
    assert(spec_f64_frac(b) == q - 0x10000000000000);
    assert(spec_f64_neg(b) == (micros < 0));
    assert(crate::realbits::spec_f64_significand(b) == q);
    vstd::arithmetic::power2::lemma_pow2_pos(sr);
    vstd::arithmetic::div_mod::lemma_div_multiples_vanish(a as int, pow2(sr) as int);
    vstd::arithmetic::mul::lemma_mul_is_commutative(a as int, pow2(sr) as int);
    assert(spec_f64_trunc_magnitude(b) == a);
}

/// The double division step of `spec_micros_to_seconds_bits`.
spec fn spec_div_million_of(d: (nat, int)) -> (nat, int) {
    crate::realbits::spec_div_million(d.0, d.1)
}

/// A date written at `p` reads back as itself.
#[verifier::rlimit(50)]
proof fn lemma_parse_date_written(m: OsdModel, d: Seq<u8>, p: int, fuel: nat)
    requires
        m is Date,
        spec_binary_exact(m),
        0 <= p,
        p + spec_binary(m).len() <= d.len(),
        d.subrange(p, p + spec_binary(m).len()) == spec_binary(m),
        fuel > spec_binary(m).len(),
    ensures
        spec_parse_value(d, p, fuel) == Ok::<(OsdModel, int), BinaryError>((m, p + spec_binary(m).len())),
{
    let e = spec_binary(m);
    let n = e.len() as int;
    let w = d.subrange(p, p + n);
    assert(d[p] == w[0]);
    let q = p + 1;
    match m {
        OsdModel::Date(secs, nanos) => {
            let bits = spec_micros_to_seconds_bits(spec_date_micros(secs, nanos));
            assert(d.subrange(q, q + 8) =~= w.subrange(1, 9));
            assert(w.subrange(1, 9) =~= u64_le_bytes(bits));
            lemma_u64_le_round_trip(bits);
            lemma_date_round_trip(secs);
        },
        _ => {},
    }
}

/// A value other than an array or a map, written at `p`, reads back as
/// itself, ending where its encoding ends.
#[verifier::rlimit(50)]
#[verifier::spinoff_prover]
proof fn lemma_parse_scalar_written(m: OsdModel, d: Seq<u8>, p: int, fuel: nat)
    requires
        !(m is Array),
        !(m is Dict),
        spec_binary_exact(m),
        0 <= p,
        p + spec_binary(m).len() <= d.len(),
        d.subrange(p, p + spec_binary(m).len()) == spec_binary(m),
        fuel > spec_binary(m).len(),
    ensures
        spec_parse_value(d, p, fuel) == Ok::<(OsdModel, int), BinaryError>((m, p + spec_binary(m).len())),
{
    let e = spec_binary(m);
    let n = e.len() as int;
    let w = d.subrange(p, p + n);
    assert(d[p] == w[0]);
    let q = p + 1;
    match m {
        OsdModel::Integer(v) => {
            assert(d.subrange(q, q + 4) =~= w.subrange(1, 5));
            assert(w.subrange(1, 5) =~= u32_be_bytes(v as u32));
            crate::header::lemma_be_u32_of_bytes(v as u32);
            assert((v as u32) as i32 == v) by (bit_vector);
        },
        OsdModel::Real(bits) => {
            assert(d.subrange(q, q + 8) =~= w.subrange(1, 9));
            assert(w.subrange(1, 9) =~= u64_be_bytes(bits));
            lemma_u64_be_round_trip(bits);
        },
        OsdModel::UUID(u) => {
            assert(d.subrange(q, q + 16) =~= w.subrange(1, 17));
            assert(w.subrange(1, 17) =~= u);
        },
        OsdModel::String(t) => {
            let k = encode_utf8(t).len() as int;
            assert(d.subrange(q, q + 4 + k) =~= w.subrange(1, n));
            assert(w.subrange(1, n) =~= spec_count_bytes(k as nat) + encode_utf8(t));
            lemma_text_round_trip(t, d, q);
        },
        OsdModel::Uri(t) => {
            let k = encode_utf8(t).len() as int;
            assert(d.subrange(q, q + 4 + k) =~= w.subrange(1, n));
            assert(w.subrange(1, n) =~= spec_count_bytes(k as nat) + encode_utf8(t));
            lemma_text_round_trip(t, d, q);
        },
        OsdModel::Date(secs, nanos) => {
            lemma_parse_date_written(m, d, p, fuel);
        },
        OsdModel::Binary(b) => {
            let k = b.len() as int;
            assert(d.subrange(q, q + 4) =~= w.subrange(1, 5));
            assert(w.subrange(1, 5) =~= spec_count_bytes(k as nat));
            lemma_count_round_trip(k as nat, d, q);
            assert(d.subrange(q + 4, q + 4 + k) =~= w.subrange(5, 5 + k));
            assert(w.subrange(5, 5 + k) =~= b);
        },
        _ => {},
    }
}

/// A value written at `p` reads back as itself, ending where its encoding
/// ends.
#[verifier::rlimit(50)]
proof fn lemma_parse_written(m: OsdModel, d: Seq<u8>, p: int, fuel: nat)
    requires
        spec_binary_exact(m),
        0 <= p,
        p + spec_binary(m).len() <= d.len(),
        d.subrange(p, p + spec_binary(m).len()) == spec_binary(m),
        fuel > spec_binary(m).len(),
    ensures
        spec_parse_value(d, p, fuel) == Ok::<(OsdModel, int), BinaryError>((m, p + spec_binary(m).len())),
    decreases m, 0nat,
{
    let e = spec_binary(m);
    let n = e.len() as int;
    let w = d.subrange(p, p + n);
    assert(d[p] == w[0]);
    let q = p + 1;
    match m {
        OsdModel::Array(items) => {
            let body = spec_binary_items(items);
            let k = body.len() as int;
            assert(d.subrange(q, q + 4) =~= w.subrange(1, 5));
            assert(w.subrange(1, 5) =~= spec_count_bytes(items.len()));
            lemma_count_round_trip(items.len(), d, q);
            assert(items.subrange(0, items.len() as int) =~= items);
            assert(items.subrange(0, 0) =~= Seq::<OsdModel>::empty());
            assert(d.subrange(q + 4, q + 4 + k) =~= w.subrange(5, 5 + k));
            assert(w.subrange(5, 5 + k) =~= body);
            lemma_parse_items_written(items, 0, d, q + 4, (fuel - 1) as nat);
            assert(d[q + 4 + k] == w[5 + k]);
        },
        OsdModel::Dict(entries) => {
            let body = spec_binary_entries(entries);
            let k = body.len() as int;
            assert(d.subrange(q, q + 4) =~= w.subrange(1, 5));
            assert(w.subrange(1, 5) =~= spec_count_bytes(entries.len()));
            lemma_count_round_trip(entries.len(), d, q);
            assert(entries.subrange(0, entries.len() as int) =~= entries);
            assert(entries.subrange(0, 0) =~= Seq::<(Seq<char>, OsdModel)>::empty());
            assert(d.subrange(q + 4, q + 4 + k) =~= w.subrange(5, 5 + k));
            assert(w.subrange(5, 5 + k) =~= body);
            lemma_parse_entries_written(entries, 0, d, q + 4, (fuel - 1) as nat);
            assert(d[q + 4 + k] == w[5 + k]);
        },
        _ => {
            lemma_parse_scalar_written(m, d, p, fuel);
        },
    }
}

/// The items from `k` on, written at `p`, read back after the items before
/// `k`: all the items, ending where their encodings end.
proof fn lemma_parse_items_written(items: Seq<OsdModel>, k: int, d: Seq<u8>, p: int, fuel: nat)
    requires
        0 <= k <= items.len(),
        forall|i: int| 0 <= i < items.len() ==> spec_binary_exact(#[trigger] items[i]),
        0 <= p,
        p + spec_binary_items(items.subrange(k, items.len() as int)).len() <= d.len(),
        d.subrange(p, p + spec_binary_items(items.subrange(k, items.len() as int)).len()) == spec_binary_items(
            items.subrange(k, items.len() as int),
        ),
        fuel > spec_binary_items(items.subrange(k, items.len() as int)).len(),
    ensures
        spec_parse_items(d, p, (items.len() - k) as nat, fuel, items.subrange(0, k)) == Ok::<(Seq<OsdModel>, int), BinaryError>(
            (items, p + spec_binary_items(items.subrange(k, items.len() as int)).len()),
        ),
    decreases items, items.len() - k,
{
    let rest = items.subrange(k, items.len() as int);
    if k == items.len() {
        assert(items.subrange(0, k) =~= items);
        assert(rest =~= Seq::<OsdModel>::empty());
    } else {
        let x = items[k];
        let tail = items.subrange(k + 1, items.len() as int);
        assert(rest =~= seq![x] + tail);
        lemma_items_concat(seq![x], tail);
        assert(seq![x].subrange(0, 0) =~= Seq::<OsdModel>::empty());
        assert(spec_binary_items(seq![x]) == spec_binary_items(Seq::<OsdModel>::empty()) + spec_binary(x));
        assert(spec_binary_items(seq![x]) =~= spec_binary(x));
        let ex = spec_binary(x);
        let et = spec_binary_items(tail);
        let whole = spec_binary_items(rest);
        assert(whole =~= ex + et);
        lemma_split_at(d, p, ex, et);
        lemma_parse_written(x, d, p, fuel);
        let p2 = p + ex.len();
        assert(items.subrange(0, k).push(x) =~= items.subrange(0, k + 1));
        lemma_parse_items_written(items, k + 1, d, p2, fuel);
    }
}

/// The map entries from `k` on, written at `p`, read back after the entries
/// before `k`: all the entries, ending where their encodings end.
proof fn lemma_parse_entries_written(entries: Seq<(Seq<char>, OsdModel)>, k: int, d: Seq<u8>, p: int, fuel: nat)
    requires
        0 <= k <= entries.len(),
        forall|i: int, j: int| 0 <= i < j < entries.len() ==> (#[trigger] entries[i]).0 != (#[trigger] entries[j]).0,
        forall|i: int| 0 <= i < entries.len() ==> encode_utf8((#[trigger] entries[i]).0).len() <= i32::MAX && spec_binary_exact(entries[i].1),
        0 <= p,
        p + spec_binary_entries(entries.subrange(k, entries.len() as int)).len() <= d.len(),
        d.subrange(p, p + spec_binary_entries(entries.subrange(k, entries.len() as int)).len()) == spec_binary_entries(
            entries.subrange(k, entries.len() as int),
        ),
        fuel > spec_binary_entries(entries.subrange(k, entries.len() as int)).len(),
    ensures
        spec_parse_entries(d, p, (entries.len() - k) as nat, fuel, entries.subrange(0, k)) == Ok::<(Seq<(Seq<char>, OsdModel)>, int), BinaryError>(
            (entries, p + spec_binary_entries(entries.subrange(k, entries.len() as int)).len()),
        ),
    decreases entries, entries.len() - k,
{
    let rest = entries.subrange(k, entries.len() as int);
    if k == entries.len() {
        assert(entries.subrange(0, k) =~= entries);
        assert(rest =~= Seq::<(Seq<char>, OsdModel)>::empty());
    } else {
        let x = entries[k];
        let tail = entries.subrange(k + 1, entries.len() as int);
        assert(rest =~= seq![x] + tail);
        lemma_entries_concat(seq![x], tail);
        assert(seq![x].subrange(0, 0) =~= Seq::<(Seq<char>, OsdModel)>::empty());
        let ek = spec_binary_entry(x.0);
        let ev = spec_binary(x.1);
        assert(spec_binary_entries(seq![x]) == spec_binary_entries(Seq::<(Seq<char>, OsdModel)>::empty()) + ek + ev);
        assert(spec_binary_entries(seq![x]) =~= ek + ev);
        let et = spec_binary_entries(tail);
        let whole = spec_binary_entries(rest);
        assert(whole =~= ek + (ev + et));
        lemma_split_at(d, p, ek, ev + et);
        lemma_split_at(d, p + ek.len(), ev, et);
        assert(d[p] == ek[0]);
        let kl = encode_utf8(x.0).len() as int;
        assert(ek =~= seq![0x6bu8] + (spec_count_bytes(kl as nat) + encode_utf8(x.0)));
        lemma_split_at(d, p, seq![0x6bu8], spec_count_bytes(kl as nat) + encode_utf8(x.0));
        lemma_text_round_trip(x.0, d, p + 1);
        let q = p + ek.len();
        lemma_parse_written(x.1, d, q, fuel);
        let acc = entries.subrange(0, k);
        lemma_first_index(spec_model_keys(acc), x.0);
        if spec_model_key_index(acc, x.0) is Some {
            let i = spec_model_key_index(acc, x.0)->0;
            assert(spec_model_keys(acc)[i] == acc[i].0);
            assert(entries[i].0 != entries[k].0);
        }
        assert(spec_model_insert(acc, x.0, x.1) =~= entries.subrange(0, k + 1));
        let p2 = q + ev.len();
        lemma_parse_entries_written(entries, k + 1, d, p2, fuel);
    }
}

/// Binary round trip: a document written for a value reads back as that
/// value, for every value the binary form carries unchanged.
pub proof fn lemma_binary_round_trip(m: OsdModel)
    requires
        spec_binary_exact(m),
    ensures
        spec_parse_binary(BINARY_HEADER@ + spec_binary(m)) == Ok::<OsdModel, BinaryError>(m),
{
    let d = BINARY_HEADER@ + spec_binary(m);
    assert(d.subrange(0, 16) =~= BINARY_HEADER@);
    let body = d.subrange(16, d.len() as int);
    assert(body =~= spec_binary(m));
    assert(body.subrange(0, spec_binary(m).len() as int) =~= spec_binary(m));
    lemma_parse_written(m, body, 0, body.len() + 1);
}

} // verus!
