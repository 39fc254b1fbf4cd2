//! Notation LLSD: a text form where each value starts with a one-character
//! marker (`i` integer, `r` real, `s` sized string, quotes for strings, ...)
//! and maps and arrays use `{}` and `[]` with commas.

use crate::osd::{
    chrono_parse_utc, chrono_rfc3339, format_real, read_real, spec_real_formatter, spec_real_reader,
    spec_real_text, spec_real_value, lemma_entry_decreases, LlsdDate, OSD, OsdMap, OsdModel,
};
use crate::binary::{push_hex_byte, spec_entry_model, spec_entry_models, spec_model_insert, spec_models};
use crate::realbits::{f64_bits_is_infinite, f64_bits_is_nan, f64_bits_is_negative, spec_f64_is_inf, spec_f64_is_nan, spec_f64_neg};
use crate::text::{
    i32_to_string, parse_i32, push_u128_decimal, str_eq, spec_digits_value, spec_int_decimal, spec_is_digit, spec_is_whitespace,
    spec_nat_decimal, spec_parse_i32, spec_trim_start, str_chars, string_of_chars, string_push, string_push_str,
    is_whitespace, string_from_utf8,
};
use crate::uuid::{uuid_parse_str, UUID};
use vstd::utf8::{decode_utf8, encode_utf8, is_ascii_chars, is_ascii_chars_encode_utf8, valid_utf8};
use crate::uuid::{spec_hex_digit, spec_hex_lower, spec_uuid_hyphenated};
use vstd::prelude::*;

verus! {

/// How one character of a string is written between `delim` quotes.
pub open spec fn spec_escape_char(c: char, delim: char) -> Seq<char> {
    if c == '\\' {
        seq!['\\', '\\']
    } else if c == delim {
        seq!['\\', c]
    } else if c == '\n' {
        seq!['\\', 'n']
    } else if c == '\r' {
        seq!['\\', 'r']
    } else if c == '\t' {
        seq!['\\', 't']
    } else {
        seq![c]
    }
}

/// The characters of `s`, escaped for `delim` quotes.
pub open spec fn spec_escape_body(s: Seq<char>, delim: char) -> Seq<char>
    decreases s.len(),
{
    if s.len() == 0 {
        Seq::empty()
    } else {
        spec_escape_body(s.drop_last(), delim) + spec_escape_char(s.last(), delim)
    }
}

/// `s` between `delim` quotes, escaped.
pub open spec fn spec_quoted(s: Seq<char>, delim: char) -> Seq<char> {
    seq![delim] + spec_escape_body(s, delim) + seq![delim]
}

/// Appends `s` between `delim` quotes: backslashes, the quote itself and
/// newline, carriage return and tab are escaped with a backslash.
pub fn write_escaped_string(buf: &mut String, s: &str, delim: char)
    ensures
        final(buf)@ == old(buf)@ + spec_quoted(s@, delim),
{
    string_push(buf, delim);
    let chars = str_chars(s);
    let ghost head = buf@;
    let mut i: usize = 0;
    while i < chars.len()
        invariant
            i <= chars@.len(),
            chars@ == s@,
            buf@ == head + spec_escape_body(s@.subrange(0, i as int), delim),
        decreases chars@.len() - i,
    {
        let c = chars[i];
        if c == '\\' {
            string_push(buf, '\\');
            string_push(buf, '\\');
        } else if c == delim {
            string_push(buf, '\\');
            string_push(buf, c);
        } else if c == '\n' {
            string_push(buf, '\\');
            string_push(buf, 'n');
        } else if c == '\r' {
            string_push(buf, '\\');
            string_push(buf, 'r');
        } else if c == '\t' {
            string_push(buf, '\\');
            string_push(buf, 't');
        } else {
            string_push(buf, c);
        }
        proof {
            let t = s@.subrange(0, i + 1);
            assert(t.drop_last() =~= s@.subrange(0, i as int));
            assert(t.last() == c);
        }
        i = i + 1;
        assert(buf@ =~= head + spec_escape_body(s@.subrange(0, i as int), delim));
    }
    assert(s@.subrange(0, s@.len() as int) =~= s@);
    string_push(buf, delim);
    assert(final(buf)@ =~= old(buf)@ + spec_quoted(s@, delim));
}

/// How a real is written: `rNaN`, `rinf`, `r-inf`, or `r` and the text `f`
/// gives.
pub open spec fn spec_real_notation<F: Fn(u64) -> String>(bits: u64, f: F) -> Seq<char> {
    if spec_f64_is_nan(bits) {
        "rNaN"@
    } else if spec_f64_is_inf(bits) {
        if !spec_f64_neg(bits) {
            "rinf"@
        } else {
            "r-inf"@
        }
    } else {
        "r"@ + spec_real_text(f, bits)
    }
}

/// The notation of a value; reals are written by `f`. Binary data is
/// written as hex, after the length of that hex text.
pub open spec fn spec_notation<F: Fn(u64) -> String>(m: OsdModel, f: F) -> Seq<char>
    decreases m,
{
    match m {
        OsdModel::Undef => "!"@,
        OsdModel::Boolean(b) => if b { "true"@ } else { "false"@ },
        OsdModel::Integer(v) => "i"@ + spec_int_decimal(v as int),
        OsdModel::Real(bits) => spec_real_notation(bits, f),
        OsdModel::UUID(u) => "u\""@ + spec_uuid_hyphenated(u) + "\""@,
        OsdModel::String(s) => spec_quoted(s, '"'),
        OsdModel::Uri(s) => "l"@ + spec_quoted(s, '"'),
        OsdModel::Date(secs, nanos) => "d\""@ + chrono_rfc3339(secs, nanos) + "\""@,
        OsdModel::Binary(b) => "b"@ + spec_nat_decimal(2 * b.len()) + "\""@ + spec_hex_lower(b) + "\""@,
        OsdModel::Array(items) => "["@ + spec_notation_items(items, f) + "]"@,
        OsdModel::Dict(entries) => "{"@ + spec_notation_entries(entries, f) + "}"@,
    }
}

/// The notations of `items`, separated by commas.
pub open spec fn spec_notation_items<F: Fn(u64) -> String>(items: Seq<OsdModel>, f: F) -> Seq<char>
    decreases items,
{
    if items.len() == 0 {
        Seq::empty()
    } else if items.len() == 1 {
        spec_notation(items[0], f)
    } else {
        spec_notation_items(items.subrange(0, items.len() - 1), f) + ","@ + spec_notation(items[items.len() - 1], f)
    }
}

/// One map entry: the key in single quotes, `:`, then the value.
pub open spec fn spec_notation_entry<F: Fn(u64) -> String>(e: (Seq<char>, OsdModel), f: F) -> Seq<char>
    decreases e,
{
    spec_quoted(e.0, '\'') + ":"@ + spec_notation(e.1, f)
}

/// Map entries, separated by commas.
pub open spec fn spec_notation_entries<F: Fn(u64) -> String>(entries: Seq<(Seq<char>, OsdModel)>, f: F) -> Seq<char>
    decreases entries,
{
    if entries.len() == 0 {
        Seq::empty()
    } else if entries.len() == 1 {
        spec_notation_entry(entries[0], f)
    } else {
        spec_notation_entries(entries.subrange(0, entries.len() - 1), f) + ","@ + spec_notation_entry(
            entries[entries.len() - 1],
            f,
        )
    }
}

/// Appends the notation of a value, without the document header; reals are
/// written by `real_text`.
pub fn write_notation<F: Fn(u64) -> String>(buf: &mut String, value: &OSD, real_text: &F)
    requires
        spec_real_formatter(*real_text),
    ensures
        final(buf)@ == old(buf)@ + spec_notation(value.model(), *real_text),
    decreases value,
{
    let ghost start = buf@;
    match value {
        OSD::Undef => string_push_str(buf, "!"),
        OSD::Boolean(b) => string_push_str(buf, if *b { "true" } else { "false" }),
        OSD::Integer(v) => {
            string_push_str(buf, "i");
            let t = i32_to_string(*v);
            string_push_str(buf, t.as_str());
        },
        OSD::Real(bits) => {
            if f64_bits_is_nan(*bits) {
                string_push_str(buf, "rNaN");
            } else if f64_bits_is_infinite(*bits) {
                if !f64_bits_is_negative(*bits) {
                    string_push_str(buf, "rinf");
                } else {
                    string_push_str(buf, "r-inf");
                }
            } else {
                string_push_str(buf, "r");
                let t = format_real(real_text, *bits);
                string_push_str(buf, t.as_str());
            }
        },
        OSD::UUID(u) => {
            string_push_str(buf, "u\"");
            let t = u.to_string();
            string_push_str(buf, t.as_str());
            string_push_str(buf, "\"");
        },
        OSD::String(s) => write_escaped_string(buf, s.as_str(), '"'),
        OSD::Uri(s) => {
            string_push_str(buf, "l");
            write_escaped_string(buf, s.as_str(), '"');
        },
        OSD::Date(d) => {
            string_push_str(buf, "d\"");
            let t = d.to_rfc3339();
            string_push_str(buf, t.as_str());
            string_push_str(buf, "\"");
        },
        OSD::Binary(b) => {
            let mut hex = String::new();
            let mut i: usize = 0;
            while i < b.len()
                invariant
                    i <= b@.len(),
                    hex@ == spec_hex_lower(b@.subrange(0, i as int)),
                decreases b@.len() - i,
            {
                push_hex_byte(&mut hex, b[i]);
                proof {
                    let t = b@.subrange(0, i + 1);
                    let one = seq![b@[i as int]];
                    assert(t.drop_last() =~= b@.subrange(0, i as int));
                    assert(t.last() == b@[i as int]);
                    assert(one.drop_last() =~= Seq::<u8>::empty());
                    assert(one.last() == b@[i as int]);
                    assert(spec_hex_lower(Seq::<u8>::empty()) =~= Seq::<char>::empty());
                    assert(spec_hex_lower(one) =~= seq![spec_hex_digit(b@[i as int] / 16), spec_hex_digit(b@[i as int] % 16)]);
                }
                i = i + 1;
                assert(hex@ =~= spec_hex_lower(b@.subrange(0, i as int)));
            }
            assert(b@.subrange(0, b@.len() as int) =~= b@);
            string_push_str(buf, "b");
            push_u128_decimal(buf, (b.len() as u128) * 2);
            string_push_str(buf, "\"");
            string_push_str(buf, hex.as_str());
            string_push_str(buf, "\"");
        },
        OSD::Array(items) => {
            string_push_str(buf, "[");
            write_notation_items(buf, items, real_text);
            string_push_str(buf, "]");
            assert(value.model()->Array_0 =~= spec_models(items@));
        },
        OSD::Dict(m) => {
            string_push_str(buf, "{");
            write_notation_entries(buf, m, real_text);
            string_push_str(buf, "}");
            proof {
                reveal(spec_entry_model);
            }
            assert(value.model()->Dict_0 =~= spec_entry_models(m.spec_entries()));
        },
    }
    assert(buf@ =~= start + spec_notation(value.model(), *real_text));
}

/// Appends the notations of `items`, separated by commas.
fn write_notation_items<F: Fn(u64) -> String>(buf: &mut String, items: &Vec<OSD>, real_text: &F)
    requires
        spec_real_formatter(*real_text),
    ensures
        final(buf)@ == old(buf)@ + spec_notation_items(spec_models(items@), *real_text),
    decreases items,
{
    let ghost ms = spec_models(items@);
    let mut i: usize = 0;
    while i < items.len()
        invariant
            i <= items@.len(),
            ms == spec_models(items@),
            spec_real_formatter(*real_text),
            buf@ == old(buf)@ + spec_notation_items(ms.subrange(0, i as int), *real_text),
        decreases items@.len() - i,
    {
        if i > 0 {
            string_push_str(buf, ",");
        }
        assert(decreases_to!(items => items@[i as int]));
        write_notation(buf, &items[i], real_text);
        proof {
            let s = ms.subrange(0, i + 1);
            if i == 0 {
                assert(s.len() == 1);
                assert(s[0] == ms[0]);
                assert(ms.subrange(0, 0) =~= Seq::<OsdModel>::empty());
            } else {
                assert(s.subrange(0, s.len() - 1) =~= ms.subrange(0, i as int));
                assert(s[s.len() - 1] == ms[i as int]);
            }
        }
        i = i + 1;
        assert(buf@ =~= old(buf)@ + spec_notation_items(ms.subrange(0, i as int), *real_text));
    }
    assert(ms.subrange(0, items@.len() as int) =~= ms);
}

/// Appends map entries, separated by commas.
fn write_notation_entries<F: Fn(u64) -> String>(buf: &mut String, map: &OsdMap<OSD>, real_text: &F)
    requires
        spec_real_formatter(*real_text),
    ensures
        final(buf)@ == old(buf)@ + spec_notation_entries(spec_entry_models(map.spec_entries()), *real_text),
    decreases map,
{
    let entries = map.entries();
    let ghost ms = spec_entry_models(entries@);
    let mut i: usize = 0;
    while i < entries.len()
        invariant
            entries@ == map.spec_entries(),
            i <= entries@.len(),
            ms == spec_entry_models(entries@),
            spec_real_formatter(*real_text),
            buf@ == old(buf)@ + spec_notation_entries(ms.subrange(0, i as int), *real_text),
        decreases entries@.len() - i,
    {
        if i > 0 {
            string_push_str(buf, ",");
        }
        write_escaped_string(buf, entries[i].0.as_str(), '\'');
        string_push_str(buf, ":");
        proof {
            lemma_entry_decreases(*map, i as int);
        }
        write_notation(buf, &entries[i].1, real_text);
        proof {
            reveal(spec_entry_model);
            assert(ms[i as int] == (entries@[i as int].0@, entries@[i as int].1.model()));
            assert(spec_notation_entry(ms[i as int], *real_text) == spec_quoted(entries@[i as int].0@, '\'') + ":"@
                + spec_notation(entries@[i as int].1.model(), *real_text));
            let s = ms.subrange(0, i + 1);
            if i == 0 {
                assert(s.len() == 1);
                assert(s[0] == ms[0]);
                assert(ms.subrange(0, 0) =~= Seq::<(Seq<char>, OsdModel)>::empty());
            } else {
                assert(s.subrange(0, s.len() - 1) =~= ms.subrange(0, i as int));
                assert(s[s.len() - 1] == ms[i as int]);
            }
        }
        i = i + 1;
        assert(buf@ =~= old(buf)@ + spec_notation_entries(ms.subrange(0, i as int), *real_text));
    }
    assert(ms.subrange(0, entries@.len() as int) =~= ms);
}

/// The header of a notation LLSD document.
pub open spec fn spec_notation_header() -> Seq<char> {
    "<?llsd/notation?>\n"@
}

/// A notation LLSD document: the header, then the notation of `value`.
pub fn format_notation<F: Fn(u64) -> String>(value: &OSD, real_text: &F) -> (r: String)
    requires
        spec_real_formatter(*real_text),
    ensures
        r@ == spec_notation_header() + spec_notation(value.model(), *real_text),
{
    let mut buf = String::new();
    string_push_str(&mut buf, "<?llsd/notation?>\n");
    write_notation(&mut buf, value, real_text);
    buf
}


/// Whether `c` is an ASCII letter.
pub open spec fn spec_is_alpha(c: char) -> bool {
    ('a' <= c <= 'z') || ('A' <= c <= 'Z')
}

/// Whether `c` may be part of a number: a digit, a sign, a point or an
/// exponent marker.
pub open spec fn spec_is_number_char(c: char) -> bool {
    ('0' <= c <= '9') || c == '-' || c == '+' || c == '.' || c == 'e' || c == 'E'
}

/// Whether `c` is an ASCII hex digit.
pub open spec fn spec_is_hex_char(c: char) -> bool {
    ('0' <= c <= '9') || ('a' <= c <= 'f') || ('A' <= c <= 'F')
}

/// The first position from `p` on whose character is not whitespace.
pub open spec fn spec_skip_ws(c: Seq<char>, p: int) -> int
    decreases c.len() - p,
{
    if 0 <= p < c.len() && spec_is_whitespace(c[p]) {
        spec_skip_ws(c, p + 1)
    } else {
        p
    }
}

/// The end of the run of letters starting at `p`.
pub open spec fn spec_alpha_end(c: Seq<char>, p: int) -> int
    decreases c.len() - p,
{
    if 0 <= p < c.len() && spec_is_alpha(c[p]) {
        spec_alpha_end(c, p + 1)
    } else {
        p
    }
}

/// The end of the run of letters and `-` starting at `p`.
pub open spec fn spec_alpha_dash_end(c: Seq<char>, p: int) -> int
    decreases c.len() - p,
{
    if 0 <= p < c.len() && (spec_is_alpha(c[p]) || c[p] == '-') {
        spec_alpha_dash_end(c, p + 1)
    } else {
        p
    }
}

/// The end of the run of number characters starting at `p`.
pub open spec fn spec_number_end(c: Seq<char>, p: int) -> int
    decreases c.len() - p,
{
    if 0 <= p < c.len() && spec_is_number_char(c[p]) {
        spec_number_end(c, p + 1)
    } else {
        p
    }
}

/// The end of the run of hex digits and `-` starting at `p`.
pub open spec fn spec_hex_dash_end(c: Seq<char>, p: int) -> int
    decreases c.len() - p,
{
    if 0 <= p < c.len() && (spec_is_hex_char(c[p]) || c[p] == '-') {
        spec_hex_dash_end(c, p + 1)
    } else {
        p
    }
}

/// Reading a quoted string's characters from `p` on, after `acc`, up to and
/// past the closing `delim`. A backslash escapes `n`, `r`, `t`, a backslash
/// or the quote; before any other character it is kept.
pub open spec fn spec_delimited(c: Seq<char>, p: int, delim: char, acc: Seq<char>) -> Result<(Seq<char>, int), Seq<char>>
    decreases c.len() - p,
{
    if p < 0 || p >= c.len() {
        Err("Unterminated delimited string"@)
    } else if c[p] == '\\' {
        if p + 1 >= c.len() {
            Err("Unterminated escape"@)
        } else {
            let e = c[p + 1];
            let add = if e == 'n' {
                seq!['\n']
            } else if e == 'r' {
                seq!['\r']
            } else if e == 't' {
                seq!['\t']
            } else if e == '\\' {
                seq!['\\']
            } else if e == delim {
                seq![e]
            } else {
                seq!['\\', e]
            };
            spec_delimited(c, p + 2, delim, acc + add)
        }
    } else if c[p] == delim {
        Ok((acc, p + 1))
    } else {
        spec_delimited(c, p + 1, delim, acc.push(c[p]))
    }
}

/// Reading a quoted string at `p`: its first character is the quote.
pub open spec fn spec_delim_body(c: Seq<char>, p: int) -> Result<(Seq<char>, int), Seq<char>> {
    if p < 0 || p >= c.len() {
        Err("Unexpected end of string"@)
    } else {
        spec_delimited(c, p + 1, c[p], Seq::empty())
    }
}

/// `str::is_char_boundary` on UTF-8 bytes: an end, or not a continuation
/// byte.
pub open spec fn spec_is_char_boundary(b: Seq<u8>, k: int) -> bool {
    k == 0 || k == b.len() || (0 < k < b.len() && (b[k] < 0x80 || b[k] >= 0xc0))
}

/// The value of an ASCII hex digit byte.
pub open spec fn spec_hex_value(x: u8) -> Option<u8> {
    if 0x30 <= x <= 0x39 {
        Some((x - 0x30) as u8)
    } else if 0x61 <= x <= 0x66 {
        Some((x - 0x61 + 10) as u8)
    } else if 0x41 <= x <= 0x46 {
        Some((x - 0x41 + 10) as u8)
    } else {
        None
    }
}

/// `u8::from_str_radix(.., 16)` on two bytes: two hex digits, or `+` and
/// one hex digit.
pub open spec fn spec_hex_pair(x: u8, y: u8) -> Option<u8> {
    if x == 0x2b {
        spec_hex_value(y)
    } else {
        match (spec_hex_value(x), spec_hex_value(y)) {
            (Some(h), Some(l)) => Some((h * 16 + l) as u8),
            _ => None,
        }
    }
}

/// The text of two bytes, when they are UTF-8.
pub open spec fn spec_pair_text(b: Seq<u8>) -> Seq<char> {
    if valid_utf8(b) {
        decode_utf8(b)
    } else {
        Seq::empty()
    }
}

/// Decoding hex bytes two at a time from byte `k`, after `acc`. A pair that
/// would split a character is not a hex byte either.
pub open spec fn spec_hex_pairs(b: Seq<u8>, k: int, acc: Seq<u8>) -> Result<Seq<u8>, Seq<char>>
    decreases b.len() - k,
{
    if k < 0 || k >= b.len() {
        Ok(acc)
    } else if !spec_is_char_boundary(b, k) || !spec_is_char_boundary(b, k + 2) {
        Err("Invalid hex byte: "@ + spec_pair_text(b.subrange(k, k + 2)))
    } else {
        match spec_hex_pair(b[k], b[k + 1]) {
            Some(v) => spec_hex_pairs(b, k + 2, acc.push(v)),
            None => Err("Invalid hex byte: "@ + spec_pair_text(b.subrange(k, k + 2))),
        }
    }
}

/// Hex text to bytes: an odd number of UTF-8 bytes is an error; otherwise
/// each pair is decoded in turn, the first bad pair being the error.
pub open spec fn spec_hex_to_bytes(hex: Seq<char>) -> Result<Seq<u8>, Seq<char>> {
    let b = encode_utf8(hex);
    if b.len() % 2 != 0 {
        Err("Hex string has odd length"@)
    } else {
        spec_hex_pairs(b, 0, Seq::empty())
    }
}

/// The digits of an unsigned number: `s` without a leading `+`.
pub open spec fn spec_unsigned_digits(s: Seq<char>) -> Seq<char> {
    if s.len() > 0 && s[0] == '+' {
        s.drop_first()
    } else {
        s
    }
}

/// `str::parse::<usize>`: decimal digits, optionally after `+`.
pub open spec fn spec_parse_usize(s: Seq<char>) -> Option<usize> {
    let digits = spec_unsigned_digits(s);
    if digits.len() == 0 || !(forall|i: int| 0 <= i < digits.len() ==> spec_is_digit(#[trigger] digits[i])) {
        None
    } else if spec_digits_value(digits) <= usize::MAX {
        Some(spec_digits_value(digits) as usize)
    } else {
        None
    }
}

/// The bit patterns of a quiet NaN and the two infinities, as `f64::NAN`,
/// `f64::INFINITY` and `f64::NEG_INFINITY` have them.
pub const NAN_BITS: u64 = 0x7ff8000000000000;
pub const INFINITY_BITS: u64 = 0x7ff0000000000000;
pub const NEG_INFINITY_BITS: u64 = 0xfff0000000000000;

/// A character between single quotes, for messages.
pub open spec fn spec_quoted_char(ch: char) -> Seq<char> {
    seq!['\'', ch, '\'']
}


/// A boolean word at `q`: its letters must be `t`, `T`, `true`, `TRUE` (or
/// the same for false).
pub open spec fn spec_nbool(c: Seq<char>, q: int, truth: bool) -> Result<(OsdModel, int), Seq<char>> {
    let e = spec_alpha_end(c, q);
    let w = c.subrange(q, e);
    let ok = if truth {
        w == "t"@ || w == "T"@ || w == "true"@ || w == "TRUE"@
    } else {
        w == "f"@ || w == "F"@ || w == "false"@ || w == "FALSE"@
    };
    if ok {
        Ok((OsdModel::Boolean(truth), e))
    } else {
        Err("Invalid boolean: "@ + w)
    }
}

/// An integer after the `i` at `q`.
pub open spec fn spec_ninteger(c: Seq<char>, q: int) -> Result<(OsdModel, int), Seq<char>> {
    let e = spec_number_end(c, q + 1);
    let t = c.subrange(q + 1, e);
    match spec_parse_i32(t) {
        Some(v) => Ok((OsdModel::Integer(v), e)),
        None => Err("Invalid integer: "@ + t),
    }
}

/// A real after the `r` at `q`: a word of letters and `-` naming NaN or an
/// infinity, or else a number read by `g`. The number starts after that
/// word, except that a lone `-` is the number's own sign.
pub open spec fn spec_nreal<G: Fn(&str) -> Option<u64>>(c: Seq<char>, q: int, g: G) -> Result<(OsdModel, int), Seq<char>> {
    let we = spec_alpha_dash_end(c, q + 1);
    let w = c.subrange(q + 1, we);
    if w == "NaN"@ || w == "nan"@ {
        Ok((OsdModel::Real(NAN_BITS), we))
    } else if w == "inf"@ || w == "Inf"@ || w == "INF"@ {
        Ok((OsdModel::Real(INFINITY_BITS), we))
    } else if w == "-inf"@ || w == "-Inf"@ {
        Ok((OsdModel::Real(NEG_INFINITY_BITS), we))
    } else {
        let s = if w == "-"@ { q + 1 } else { we };
        let e = spec_number_end(c, s);
        let t = c.subrange(s, e);
        match spec_real_value(g, t) {
            Some(b) => Ok((OsdModel::Real(b), e)),
            None => Err("Invalid real: "@ + t),
        }
    }
}

/// An identifier after the `u` at `q`: quoted, or a run of hex digits and
/// `-`.
pub open spec fn spec_nuuid(c: Seq<char>, q: int) -> Result<(OsdModel, int), Seq<char>> {
    let p2 = spec_skip_ws(c, q + 1);
    let read: Result<(Seq<char>, int), Seq<char>> = if 0 <= p2 < c.len() && (c[p2] == '"' || c[p2] == '\'') {
        spec_delimited(c, p2 + 1, c[p2], Seq::empty())
    } else {
        Ok((c.subrange(p2, spec_hex_dash_end(c, p2)), spec_hex_dash_end(c, p2)))
    };
    match read {
        Err(e) => Err(e),
        Ok((t, j)) => match uuid_parse_str(t) {
            Some(b) => Ok((OsdModel::UUID(b), j)),
            None => Err("Invalid UUID: "@ + t),
        },
    }
}

/// A sized string after the `s` at `q`: a size, then a quoted string.
pub open spec fn spec_nsized(c: Seq<char>, q: int) -> Result<(OsdModel, int), Seq<char>> {
    let e = spec_number_end(c, q + 1);
    let t = c.subrange(q + 1, e);
    match spec_parse_usize(t) {
        None => Err("Invalid string size: "@ + t),
        Some(_) => match spec_delim_body(c, spec_skip_ws(c, e)) {
            Ok((x, j)) => Ok((OsdModel::String(x), j)),
            Err(m) => Err(m),
        },
    }
}

/// A URI after the `l` at `q`.
pub open spec fn spec_nuri(c: Seq<char>, q: int) -> Result<(OsdModel, int), Seq<char>> {
    match spec_delim_body(c, spec_skip_ws(c, q + 1)) {
        Ok((x, j)) => Ok((OsdModel::Uri(x), j)),
        Err(m) => Err(m),
    }
}

/// A date after the `d` at `q`.
pub open spec fn spec_ndate(c: Seq<char>, q: int) -> Result<(OsdModel, int), Seq<char>> {
    match spec_delim_body(c, spec_skip_ws(c, q + 1)) {
        Err(e) => Err(e),
        Ok((t, j)) => match chrono_parse_utc(t) {
            Some(d) => Ok((OsdModel::Date(d.0, d.1), j)),
            None => Err("Invalid date: "@ + t),
        },
    }
}

/// Binary data after the `b` at `q`: an ignored size, then quoted hex.
pub open spec fn spec_nbinary(c: Seq<char>, q: int) -> Result<(OsdModel, int), Seq<char>> {
    match spec_delim_body(c, spec_skip_ws(c, spec_number_end(c, q + 1))) {
        Err(e) => Err(e),
        Ok((t, j)) => match spec_hex_to_bytes(t) {
            Err(e) => Err(e),
            Ok(b) => Ok((OsdModel::Binary(b), j)),
        },
    }
}

/// Reading one value at `p` (after whitespace). `fuel` bounds the nesting; three times the characters left, plus four, is enough.
pub open spec fn spec_nvalue<G: Fn(&str) -> Option<u64>>(c: Seq<char>, p: int, fuel: nat, g: G) -> Result<(OsdModel, int), Seq<char>>
    decreases fuel,
{
    let q = spec_skip_ws(c, p);
    if fuel == 0 || q < 0 || q >= c.len() {
        Err("Unexpected end of notation LLSD"@)
    } else {
        let ch = c[q];
        if ch == '!' {
            Ok((OsdModel::Undef, q + 1))
        } else if ch == '1' {
            Ok((OsdModel::Boolean(true), q + 1))
        } else if ch == '0' {
            Ok((OsdModel::Boolean(false), q + 1))
        } else if ch == 't' || ch == 'T' {
            spec_nbool(c, q, true)
        } else if ch == 'f' || ch == 'F' {
            spec_nbool(c, q, false)
        } else if ch == 'i' {
            spec_ninteger(c, q)
        } else if ch == 'r' {
            spec_nreal(c, q, g)
        } else if ch == 'u' {
            spec_nuuid(c, q)
        } else if ch == 's' {
            spec_nsized(c, q)
        } else if ch == '\'' || ch == '"' {
            match spec_delimited(c, q + 1, ch, Seq::empty()) {
                Ok((x, j)) => Ok((OsdModel::String(x), j)),
                Err(m) => Err(m),
            }
        } else if ch == 'l' {
            spec_nuri(c, q)
        } else if ch == 'd' {
            spec_ndate(c, q)
        } else if ch == 'b' {
            spec_nbinary(c, q)
        } else if ch == '[' {
            spec_narray(c, q + 1, (fuel - 1) as nat, g)
        } else if ch == '{' {
            spec_nmap(c, q + 1, (fuel - 1) as nat, g)
        } else {
            Err("Invalid notation token: "@ + spec_quoted_char(ch))
        }
    }
}

/// Reading the rest of an array from `p`: `]`, or items separated by commas
/// and closed by `]`.
pub open spec fn spec_narray<G: Fn(&str) -> Option<u64>>(c: Seq<char>, p: int, fuel: nat, g: G) -> Result<(OsdModel, int), Seq<char>>
    decreases fuel,
{
    let q = spec_skip_ws(c, p);
    if fuel == 0 {
        Err("Unterminated array"@)
    } else if 0 <= q < c.len() && c[q] == ']' {
        Ok((OsdModel::Array(Seq::empty()), q + 1))
    } else {
        spec_nitems(c, q, (fuel - 1) as nat, Seq::empty(), g)
    }
}

/// Reading array items from `p`, after the items `acc`.
pub open spec fn spec_nitems<G: Fn(&str) -> Option<u64>>(c: Seq<char>, p: int, fuel: nat, acc: Seq<OsdModel>, g: G) -> Result<(OsdModel, int), Seq<char>>
    decreases fuel,
{
    if fuel == 0 {
        Err("Unterminated array"@)
    } else {
        match spec_nvalue(c, spec_skip_ws(c, p), (fuel - 1) as nat, g) {
            Err(e) => Err(e),
            Ok((v, j)) => {
                let q = spec_skip_ws(c, j);
                if q < 0 || q >= c.len() {
                    Err("Unterminated array"@)
                } else if c[q] == ',' {
                    spec_nitems(c, q + 1, (fuel - 1) as nat, acc.push(v), g)
                } else if c[q] == ']' {
                    Ok((OsdModel::Array(acc.push(v)), q + 1))
                } else {
                    Err("Expected ',' or ']' in array, got "@ + spec_quoted_char(c[q]))
                }
            },
        }
    }
}

/// Reading the rest of a map from `p`: `}`, or entries separated by commas
/// and closed by `}`.
pub open spec fn spec_nmap<G: Fn(&str) -> Option<u64>>(c: Seq<char>, p: int, fuel: nat, g: G) -> Result<(OsdModel, int), Seq<char>>
    decreases fuel,
{
    let q = spec_skip_ws(c, p);
    if fuel == 0 {
        Err("Unterminated map"@)
    } else if 0 <= q < c.len() && c[q] == '}' {
        Ok((OsdModel::Dict(Seq::empty()), q + 1))
    } else {
        spec_nentries(c, q, (fuel - 1) as nat, Seq::empty(), g)
    }
}

/// Reading a map key at `p`: a quoted string, or `s`, a size and a quoted
/// string.
pub open spec fn spec_nkey(c: Seq<char>, p: int) -> Result<(Seq<char>, int), Seq<char>> {
    if 0 <= p < c.len() && (c[p] == '\'' || c[p] == '"') {
        spec_delimited(c, p + 1, c[p], Seq::empty())
    } else if 0 <= p < c.len() && c[p] == 's' {
        spec_delim_body(c, spec_skip_ws(c, spec_number_end(c, p + 1)))
    } else {
        Err("Expected string key in map"@)
    }
}

/// Reading map entries from `p`, into the entries `acc`.
pub open spec fn spec_nentries<G: Fn(&str) -> Option<u64>>(c: Seq<char>, p: int, fuel: nat, acc: Seq<(Seq<char>, OsdModel)>, g: G) -> Result<(OsdModel, int), Seq<char>>
    decreases fuel,
{
    if fuel == 0 {
        Err("Unterminated map"@)
    } else {
        match spec_nkey(c, spec_skip_ws(c, p)) {
            Err(e) => Err(e),
            Ok((k, j)) => {
                let p4 = spec_skip_ws(c, j);
                if p4 < 0 || p4 >= c.len() || c[p4] != ':' {
                    Err("Expected ':' after map key"@)
                } else {
                    match spec_nvalue(c, spec_skip_ws(c, p4 + 1), (fuel - 1) as nat, g) {
                        Err(e) => Err(e),
                        Ok((v, j2)) => {
                            let acc2 = spec_model_insert(acc, k, v);
                            let q = spec_skip_ws(c, j2);
                            if q < 0 || q >= c.len() {
                                Err("Unterminated map"@)
                            } else if c[q] == ',' {
                                spec_nentries(c, q + 1, (fuel - 1) as nat, acc2, g)
                            } else if c[q] == '}' {
                                Ok((OsdModel::Dict(acc2), q + 1))
                            } else {
                                Err("Expected ',' or '}' in map, got "@ + spec_quoted_char(c[q]))
                            }
                        },
                    }
                }
            },
        }
    }
}

/// The header of a notation document, without its line break.
pub open spec fn spec_notation_mark() -> Seq<char> {
    "<?llsd/notation?>"@
}

/// What a notation LLSD document reads as. After leading whitespace, an
/// optional header is skipped, then whitespace, then one value is read.
pub open spec fn spec_parse_notation<G: Fn(&str) -> Option<u64>>(data: Seq<char>, g: G) -> Result<OsdModel, Seq<char>> {
    let t = spec_trim_start(data);
    let h = spec_notation_mark();
    let has_header = t.len() >= h.len() && t.subrange(0, h.len() as int) == h;
    let body = if has_header { spec_trim_start(t.subrange(h.len() as int, t.len() as int)) } else { t };
    match spec_nvalue(body, 0, (3 * body.len() + 4) as nat, g) {
        Ok((m, _)) => Ok(m),
        Err(e) => Err(e),
    }
}


/// A reader over the characters of a notation document.
struct NotationParser {
    chars: Vec<char>,
    pos: usize,
}

impl NotationParser {
    /// The character at the position, if any.
    fn peek(&self) -> (r: Option<char>)
        ensures
            self.pos < self.chars@.len() ==> r == Some(self.chars@[self.pos as int]),
            self.pos >= self.chars@.len() ==> r is None,
            r is Some ==> self.pos < self.chars.len(),
    {
        if self.pos < self.chars.len() {
            Some(self.chars[self.pos])
        } else {
            None
        }
    }

    /// The character at the position, moving past it.
    fn next_char(&mut self) -> (r: Option<char>)
        ensures
            final(self).chars@ == old(self).chars@,
            old(self).pos < old(self).chars@.len() ==> r == Some(old(self).chars@[old(self).pos as int])
                && final(self).pos == old(self).pos + 1,
            old(self).pos >= old(self).chars@.len() ==> r is None && final(self).pos == old(self).pos,
    {
        if self.pos < self.chars.len() {
            let c = self.chars[self.pos];
            self.pos = self.pos + 1;
            Some(c)
        } else {
            None
        }
    }

    /// Moves past whitespace.
    fn skip_whitespace(&mut self)
        requires
            old(self).pos <= old(self).chars@.len(),
        ensures
            final(self).chars@ == old(self).chars@,
            final(self).pos == spec_skip_ws(old(self).chars@, old(self).pos as int),
            old(self).pos <= final(self).pos <= final(self).chars@.len(),
    {
        while self.pos < self.chars.len() && is_whitespace(self.chars[self.pos])
            invariant
                self.chars@ == old(self).chars@,
                old(self).pos <= self.pos <= self.chars@.len(),
                spec_skip_ws(self.chars@, old(self).pos as int) == spec_skip_ws(self.chars@, self.pos as int),
            decreases self.chars@.len() - self.pos,
        {
            self.pos = self.pos + 1;
        }
    }

    /// The end of the run from `from` on whose characters satisfy the
    /// test of `kind`: 0 letters, 1 letters and `-`, 2 number characters,
    /// 3 hex digits and `-`.
    fn run_end(&self, from: usize, kind: u8) -> (r: usize)
        requires
            from <= self.chars@.len(),
            kind < 4,
        ensures
            kind == 0 ==> r == spec_alpha_end(self.chars@, from as int),
            kind == 1 ==> r == spec_alpha_dash_end(self.chars@, from as int),
            kind == 2 ==> r == spec_number_end(self.chars@, from as int),
            kind == 3 ==> r == spec_hex_dash_end(self.chars@, from as int),
            from <= r <= self.chars@.len(),
    {
        let mut i = from;
        while i < self.chars.len()
            invariant
                from <= i <= self.chars@.len(),
                kind < 4,
                kind == 0 ==> spec_alpha_end(self.chars@, from as int) == spec_alpha_end(self.chars@, i as int),
                kind == 1 ==> spec_alpha_dash_end(self.chars@, from as int) == spec_alpha_dash_end(self.chars@, i as int),
                kind == 2 ==> spec_number_end(self.chars@, from as int) == spec_number_end(self.chars@, i as int),
                kind == 3 ==> spec_hex_dash_end(self.chars@, from as int) == spec_hex_dash_end(self.chars@, i as int),
            decreases self.chars@.len() - i,
        {
            let c = self.chars[i];
            let alpha = ('a' <= c && c <= 'z') || ('A' <= c && c <= 'Z');
            let keep = if kind == 0 {
                alpha
            } else if kind == 1 {
                alpha || c == '-'
            } else if kind == 2 {
                ('0' <= c && c <= '9') || c == '-' || c == '+' || c == '.' || c == 'e' || c == 'E'
            } else {
                ('0' <= c && c <= '9') || ('a' <= c && c <= 'f') || ('A' <= c && c <= 'F') || c == '-'
            };
            if !keep {
                return i;
            }
            i = i + 1;
        }
        i
    }

    /// The run of letters at the position, moving past it.
    fn read_alpha_word(&mut self) -> (r: String)
        requires
            old(self).pos <= old(self).chars@.len(),
        ensures
            final(self).chars@ == old(self).chars@,
            final(self).pos == spec_alpha_end(old(self).chars@, old(self).pos as int),
            old(self).pos <= final(self).pos <= final(self).chars@.len(),
            r@ == old(self).chars@.subrange(old(self).pos as int, final(self).pos as int),
    {
        let e = self.run_end(self.pos, 0);
        let w = string_of_chars(&self.chars, self.pos, e);
        self.pos = e;
        w
    }

    /// The run of letters and `-` at the position.
    fn peek_alpha_word(&self) -> (r: String)
        requires
            self.pos <= self.chars@.len(),
        ensures
            r@ == self.chars@.subrange(self.pos as int, spec_alpha_dash_end(self.chars@, self.pos as int)),
    {
        let e = self.run_end(self.pos, 1);
        string_of_chars(&self.chars, self.pos, e)
    }

    /// The run of number characters at the position, moving past it.
    fn read_number_str(&mut self) -> (r: String)
        requires
            old(self).pos <= old(self).chars@.len(),
        ensures
            final(self).chars@ == old(self).chars@,
            final(self).pos == spec_number_end(old(self).chars@, old(self).pos as int),
            old(self).pos <= final(self).pos <= final(self).chars@.len(),
            r@ == old(self).chars@.subrange(old(self).pos as int, final(self).pos as int),
    {
        let e = self.run_end(self.pos, 2);
        let w = string_of_chars(&self.chars, self.pos, e);
        self.pos = e;
        w
    }

    /// The characters of a quoted string up to and past its closing
    /// `delim`.
    fn parse_delimited(&mut self, delim: char) -> (r: Result<String, String>)
        requires
            old(self).pos <= old(self).chars@.len(),
        ensures
            final(self).chars@ == old(self).chars@,
            old(self).pos <= final(self).pos <= final(self).chars@.len(),
            match spec_delimited(old(self).chars@, old(self).pos as int, delim, Seq::empty()) {
                Ok((t, j)) => r is Ok && r->Ok_0@ == t && final(self).pos == j,
                Err(e) => r is Err && r->Err_0@ == e,
            },
    {
        let ghost c = self.chars@;
        let mut s = String::new();
        loop
            invariant
                self.chars@ == c,
                c == old(self).chars@,
                old(self).pos <= self.pos <= c.len(),
                spec_delimited(c, old(self).pos as int, delim, Seq::empty()) == spec_delimited(c, self.pos as int, delim, s@),
            decreases c.len() - self.pos,
        {
            match self.next_char() {
                None => {
                    return Err("Unterminated delimited string".to_string());
                },
                Some(ch) => {
                    if ch == '\\' {
                        match self.next_char() {
                            None => {
                                return Err("Unterminated escape".to_string());
                            },
                            Some(e) => {
                                let ghost before = s@;
                                if e == 'n' {
                                    string_push(&mut s, '\n');
                                } else if e == 'r' {
                                    string_push(&mut s, '\r');
                                } else if e == 't' {
                                    string_push(&mut s, '\t');
                                } else if e == '\\' {
                                    string_push(&mut s, '\\');
                                } else if e == delim {
                                    string_push(&mut s, e);
                                } else {
                                    string_push(&mut s, '\\');
                                    string_push(&mut s, e);
                                }
                                assert(s@ =~= before + (if e == 'n' {
                                    seq!['\n']
                                } else if e == 'r' {
                                    seq!['\r']
                                } else if e == 't' {
                                    seq!['\t']
                                } else if e == '\\' {
                                    seq!['\\']
                                } else if e == delim {
                                    seq![e]
                                } else {
                                    seq!['\\', e]
                                }));
                            },
                        }
                    } else if ch == delim {
                        return Ok(s);
                    } else {
                        string_push(&mut s, ch);
                    }
                },
            }
        }
    }

    /// A quoted string whose quote is the character at the position.
    fn parse_delim_string_body(&mut self) -> (r: Result<String, String>)
        requires
            old(self).pos <= old(self).chars@.len(),
        ensures
            final(self).chars@ == old(self).chars@,
            old(self).pos <= final(self).pos <= final(self).chars@.len(),
            match spec_delim_body(old(self).chars@, old(self).pos as int) {
                Ok((t, j)) => r is Ok && r->Ok_0@ == t && final(self).pos == j,
                Err(e) => r is Err && r->Err_0@ == e,
            },
    {
        match self.next_char() {
            None => Err("Unexpected end of string".to_string()),
            Some(d) => self.parse_delimited(d),
        }
    }
}


/// Whether `s` is what `str::parse::<usize>` accepts.
#[verifier::loop_isolation(false)]
fn parses_as_usize(s: &str) -> (r: bool)
    ensures
        r == spec_parse_usize(s@) is Some,
{
    let chars = str_chars(s);
    let n = chars.len();
    let start: usize = if n > 0 && chars[0] == '+' { 1 } else { 0 };
    let ghost digits = spec_unsigned_digits(s@);
    assert(digits =~= chars@.skip(start as int));
    if start >= n {
        return false;
    }
    let mut acc: u128 = 0;
    let mut i: usize = start;
    while i < n
        invariant
            start <= i <= n,
            n == chars@.len(),
            digits == chars@.skip(start as int),
            forall|j: int| start <= j < i ==> spec_is_digit(#[trigger] chars@[j]),
            acc == spec_digits_value(chars@.subrange(start as int, i as int)),
            acc <= usize::MAX,
        decreases n - i,
    {
        let c = chars[i];
        if !('0' <= c && c <= '9') {
            assert(digits[i - start] == c);
            assert(!spec_is_digit(digits[i - start]));
            assert(!(forall|j: int| 0 <= j < digits.len() ==> spec_is_digit(#[trigger] digits[j])));
            assert(spec_parse_usize(s@) is None);
            return false;
        }
        let d = (c as u128) - 0x30;
        proof {
            crate::text::lemma_digits_value_push(chars@.subrange(start as int, i as int), c);
            assert(chars@.subrange(start as int, i as int).push(c) =~= chars@.subrange(start as int, i + 1));
        }
        acc = acc * 10 + d;
        if acc > usize::MAX as u128 {
            proof {
                if forall|j: int| 0 <= j < digits.len() ==> spec_is_digit(#[trigger] digits[j]) {
                    assert(chars@.subrange(start as int, i + 1) =~= digits.take(i + 1 - start));
                    crate::text::lemma_digits_value_mono(digits, i + 1 - start);
                }
                assert(spec_parse_usize(s@) is None);
            }
            return false;
        }
        i = i + 1;
    }
    assert(chars@.subrange(start as int, n as int) =~= digits);
    true
}

/// The value of an ASCII hex digit byte.
fn hex_value(x: u8) -> (r: Option<u8>)
    ensures
        r == spec_hex_value(x),
{
    if 0x30 <= x && x <= 0x39 {
        Some(x - 0x30)
    } else if 0x61 <= x && x <= 0x66 {
        Some(x - 0x61 + 10)
    } else if 0x41 <= x && x <= 0x46 {
        Some(x - 0x41 + 10)
    } else {
        None
    }
}

/// Hex pairs of ASCII bytes without `+`, from byte `k`: they decode
/// exactly when every byte from `k` on is a hex digit, and then add one
/// byte per pair, the high digit first.
proof fn lemma_ascii_hex_pairs(b: Seq<u8>, k: int, acc: Seq<u8>)
    requires
        0 <= k <= b.len(),
        k % 2 == 0,
        b.len() % 2 == 0,
        forall|j: int| 0 <= j < b.len() ==> #[trigger] b[j] < 0x80 && b[j] != 0x2b,
    ensures
        (spec_hex_pairs(b, k, acc) is Ok) <==> (forall|j: int| k <= j < b.len() ==> (#[trigger] spec_hex_value(b[j])) is Some),
        spec_hex_pairs(b, k, acc) matches Ok(v) ==> {
            &&& v.len() == acc.len() + (b.len() - k) / 2
            &&& v.subrange(0, acc.len() as int) == acc
            &&& forall|i: int| 0 <= i < (b.len() - k) / 2 ==> #[trigger] v[acc.len() + i] == (spec_hex_value(b[k + 2 * i])->0 * 16
                + spec_hex_value(b[k + 2 * i + 1])->0) as u8
        },
    decreases b.len() - k,
{
    if k < b.len() {
        assert(spec_is_char_boundary(b, k));
        assert(spec_is_char_boundary(b, k + 2));
        let x = b[k];
        let y = b[k + 1];
        match spec_hex_pair(x, y) {
            Some(val) => {
                let acc2 = acc.push(val);
                lemma_ascii_hex_pairs(b, k + 2, acc2);
                if let Ok(v) = spec_hex_pairs(b, k, acc) {
                    assert(v.subrange(0, acc2.len() as int) == acc2);
                    assert(v.subrange(0, acc.len() as int) =~= acc2.subrange(0, acc.len() as int));
                    assert forall|i: int| 0 <= i < (b.len() - k) / 2 implies #[trigger] v[acc.len() + i] == (spec_hex_value(b[k + 2 * i])->0 * 16
                        + spec_hex_value(b[k + 2 * i + 1])->0) as u8 by {
                        if i == 0 {
                            assert(v[acc.len() as int] == acc2[acc.len() as int]);
                        } else {
                            assert(v[acc2.len() + (i - 1)] == (spec_hex_value(b[k + 2 + 2 * (i - 1)])->0 * 16
                                + spec_hex_value(b[k + 2 + 2 * (i - 1) + 1])->0) as u8);
                        }
                    }
                }
            },
            None => {
                if spec_hex_value(x) is Some {
                    assert(spec_hex_value(b[k + 1]) is None);
                } else {
                    assert(spec_hex_value(b[k]) is None);
                }
            },
        }
    }
}

/// Law: on ASCII text without `+`, `hex_to_bytes` succeeds exactly when
/// the text has an even length and only hex digits, and then gives one byte
/// per pair of digits, the first digit of each pair the high one.
pub proof fn lemma_ascii_hex_to_bytes(hex: Seq<char>)
    requires
        is_ascii_chars(hex),
        forall|i: int| 0 <= i < hex.len() ==> #[trigger] hex[i] != '+',
    ensures
        (spec_hex_to_bytes(hex) is Ok) <==> (hex.len() % 2 == 0 && forall|i: int| 0 <= i < hex.len() ==> (#[trigger] spec_hex_value(hex[i] as u8)) is Some),
        spec_hex_to_bytes(hex) matches Ok(v) ==> {
            &&& v.len() == hex.len() / 2
            &&& forall|i: int| 0 <= i < v.len() ==> #[trigger] v[i] == (spec_hex_value(hex[2 * i] as u8)->0 * 16
                + spec_hex_value(hex[2 * i + 1] as u8)->0) as u8
        },
{
    is_ascii_chars_encode_utf8(hex);
    let b = encode_utf8(hex);
    assert forall|j: int| 0 <= j < b.len() implies #[trigger] b[j] < 0x80 && b[j] != 0x2b by {
        assert(hex[j] as u8 == b[j]);
        assert('\0' <= hex[j] <= '\u{7f}');
        assert(hex[j] != '+');
    }
    if b.len() % 2 == 0 {
        lemma_ascii_hex_pairs(b, 0, Seq::empty());
        assert forall|j: int| 0 <= j < b.len() implies (#[trigger] spec_hex_value(b[j]) is Some) == (spec_hex_value(hex[j] as u8) is Some) by {
            assert(hex[j] as u8 == b[j]);
        }
        if spec_hex_to_bytes(hex) is Ok {
            assert forall|i: int| 0 <= i < hex.len() implies (#[trigger] spec_hex_value(hex[i] as u8)) is Some by {
                assert(hex[i] as u8 == b[i]);
                assert(spec_hex_value(b[i]) is Some);
            }
        }
        if let Ok(v) = spec_hex_to_bytes(hex) {
            assert forall|i: int| 0 <= i < v.len() implies #[trigger] v[i] == (spec_hex_value(hex[2 * i] as u8)->0 * 16
                + spec_hex_value(hex[2 * i + 1] as u8)->0) as u8 by {
                assert(hex[2 * i] as u8 == b[2 * i]);
                assert(hex[2 * i + 1] as u8 == b[2 * i + 1]);
                assert(v[0 + i] == (spec_hex_value(b[0 + 2 * i])->0 * 16 + spec_hex_value(b[0 + 2 * i + 1])->0) as u8);
            }
        }
    }
}

/// Hex text to bytes, two digits a byte: an odd number of UTF-8 bytes is an
/// error, and so is the first pair that is not a hex byte.
pub fn hex_to_bytes(hex: &str) -> (r: Result<Vec<u8>, String>)
    ensures
        match spec_hex_to_bytes(hex@) {
            Ok(b) => r is Ok && r->Ok_0@ == b,
            Err(e) => r is Err && r->Err_0@ == e,
        },
{
    let b = hex.as_bytes();
    if b.len() % 2 != 0 {
        return Err("Hex string has odd length".to_string());
    }
    let mut out: Vec<u8> = Vec::new();
    let mut k: usize = 0;
    while k < b.len()
        invariant
            k <= b@.len(),
            k % 2 == 0,
            b@.len() % 2 == 0,
            b@ == encode_utf8(hex@),
            spec_hex_pairs(b@, 0, Seq::empty()) == spec_hex_pairs(b@, k as int, out@),
        decreases b@.len() - k,
    {
        let x = b[k];
        let y = b[k + 1];
        let at_boundary = k == 0 || x < 0x80 || x >= 0xc0;
        let next_at_boundary = k + 2 == b.len() || b[k + 2] < 0x80 || b[k + 2] >= 0xc0;
        assert(at_boundary == spec_is_char_boundary(b@, k as int));
        assert(next_at_boundary == spec_is_char_boundary(b@, k + 2));
        let hv = hex_value(x);
        let lv = hex_value(y);
        let v: Option<u8> = if !at_boundary || !next_at_boundary {
            None
        } else if x == 0x2b {
            lv
        } else {
            match (hv, lv) {
                (Some(h), Some(l)) => Some(h * 16 + l),
                _ => None,
            }
        };
        assert(at_boundary && next_at_boundary ==> v == spec_hex_pair(x, y));
        match v {
            Some(val) => {
                out.push(val);
            },
            None => {
                let mut m = String::new();
                string_push_str(&mut m, "Invalid hex byte: ");
                let mut pair: Vec<u8> = Vec::new();
                pair.push(x);
                pair.push(y);
                assert(pair@ =~= b@.subrange(k as int, k + 2));
                match string_from_utf8(pair) {
                    Some(t) => string_push_str(&mut m, t.as_str()),
                    None => {},
                }
                assert(m@ =~= "Invalid hex byte: "@ + spec_pair_text(b@.subrange(k as int, k + 2)));
                return Err(m);
            },
        }
        k = k + 2;
    }
    Ok(out)
}


/// A message followed by a character in single quotes.
fn message_with_char(m: &str, ch: char) -> (r: String)
    ensures
        r@ == m@ + spec_quoted_char(ch),
{
    let mut s = String::new();
    string_push_str(&mut s, m);
    string_push(&mut s, '\'');
    string_push(&mut s, ch);
    string_push(&mut s, '\'');
    assert(s@ =~= m@ + spec_quoted_char(ch));
    s
}

/// A message followed by a text.
fn message_with(m: &str, t: &str) -> (r: String)
    ensures
        r@ == m@ + t@,
{
    let mut s = String::new();
    string_push_str(&mut s, m);
    string_push_str(&mut s, t);
    s
}

impl NotationParser {
    /// A boolean word at the position.
    fn parse_bool(&mut self, truth: bool) -> (r: Result<OSD, String>)
        requires
            old(self).pos <= old(self).chars@.len(),
        ensures
            final(self).chars@ == old(self).chars@,
            old(self).pos <= final(self).pos <= final(self).chars@.len(),
            match spec_nbool(old(self).chars@, old(self).pos as int, truth) {
                Ok((m, j)) => r is Ok && r->Ok_0.model() == m && final(self).pos == j,
                Err(e) => r is Err && r->Err_0@ == e,
            },
    {
        let w = self.read_alpha_word();
        let ws = w.as_str();
        let ok = if truth {
            str_eq(ws, "t") || str_eq(ws, "T") || str_eq(ws, "true") || str_eq(ws, "TRUE")
        } else {
            str_eq(ws, "f") || str_eq(ws, "F") || str_eq(ws, "false") || str_eq(ws, "FALSE")
        };
        if ok {
            Ok(OSD::Boolean(truth))
        } else {
            Err(message_with("Invalid boolean: ", ws))
        }
    }

    /// An integer after the `i` at the position.
    fn parse_integer(&mut self) -> (r: Result<OSD, String>)
        requires
            old(self).pos < old(self).chars.len(),
        ensures
            final(self).chars@ == old(self).chars@,
            old(self).pos <= final(self).pos <= final(self).chars@.len(),
            match spec_ninteger(old(self).chars@, old(self).pos as int) {
                Ok((m, j)) => r is Ok && r->Ok_0.model() == m && final(self).pos == j,
                Err(e) => r is Err && r->Err_0@ == e,
            },
    {
        self.pos = self.pos + 1;
        let t = self.read_number_str();
        match parse_i32(t.as_str()) {
            Some(v) => Ok(OSD::Integer(v)),
            None => Err(message_with("Invalid integer: ", t.as_str())),
        }
    }

    /// A real after the `r` at the position.
    fn parse_real<G: Fn(&str) -> Option<u64>>(&mut self, real_value: &G) -> (r: Result<OSD, String>)
        requires
            old(self).pos < old(self).chars.len(),
            spec_real_reader(*real_value),
        ensures
            final(self).chars@ == old(self).chars@,
            old(self).pos <= final(self).pos <= final(self).chars@.len(),
            match spec_nreal(old(self).chars@, old(self).pos as int, *real_value) {
                Ok((m, j)) => r is Ok && r->Ok_0.model() == m && final(self).pos == j,
                Err(e) => r is Err && r->Err_0@ == e,
            },
    {
        self.pos = self.pos + 1;
        let start = self.pos;
        let w = self.peek_alpha_word();
        let we = self.run_end(self.pos, 1);
        self.pos = we;
        let ws = w.as_str();
        if str_eq(ws, "NaN") || str_eq(ws, "nan") {
            return Ok(OSD::Real(NAN_BITS));
        } else if str_eq(ws, "inf") || str_eq(ws, "Inf") || str_eq(ws, "INF") {
            return Ok(OSD::Real(INFINITY_BITS));
        } else if str_eq(ws, "-inf") || str_eq(ws, "-Inf") {
            return Ok(OSD::Real(NEG_INFINITY_BITS));
        }
        if str_eq(ws, "-") {
            self.pos = start;
        }
        let t = self.read_number_str();
        match read_real(real_value, t.as_str()) {
            Some(b) => Ok(OSD::Real(b)),
            None => Err(message_with("Invalid real: ", t.as_str())),
        }
    }

    /// An identifier after the `u` at the position.
    fn parse_uuid(&mut self) -> (r: Result<OSD, String>)
        requires
            old(self).pos < old(self).chars.len(),
        ensures
            final(self).chars@ == old(self).chars@,
            old(self).pos <= final(self).pos <= final(self).chars@.len(),
            match spec_nuuid(old(self).chars@, old(self).pos as int) {
                Ok((m, j)) => r is Ok && r->Ok_0.model() == m && final(self).pos == j,
                Err(e) => r is Err && r->Err_0@ == e,
            },
    {
        self.pos = self.pos + 1;
        self.skip_whitespace();
        let quote = match self.peek() {
            Some(d) => d == '"' || d == '\'',
            None => false,
        };
        let t = if quote {
            let d = self.chars[self.pos];
            self.pos = self.pos + 1;
            match self.parse_delimited(d) {
                Ok(t) => t,
                Err(e) => {
                    return Err(e);
                },
            }
        } else {
            let e = self.run_end(self.pos, 3);
            let t = string_of_chars(&self.chars, self.pos, e);
            self.pos = e;
            t
        };
        match UUID::parse(t.as_str()) {
            Ok(u) => Ok(OSD::UUID(u)),
            Err(_) => Err(message_with("Invalid UUID: ", t.as_str())),
        }
    }

    /// A sized string after the `s` at the position.
    fn parse_sized_string(&mut self) -> (r: Result<OSD, String>)
        requires
            old(self).pos < old(self).chars.len(),
        ensures
            final(self).chars@ == old(self).chars@,
            old(self).pos <= final(self).pos <= final(self).chars@.len(),
            match spec_nsized(old(self).chars@, old(self).pos as int) {
                Ok((m, j)) => r is Ok && r->Ok_0.model() == m && final(self).pos == j,
                Err(e) => r is Err && r->Err_0@ == e,
            },
    {
        self.pos = self.pos + 1;
        let size = self.read_number_str();
        if !parses_as_usize(size.as_str()) {
            return Err(message_with("Invalid string size: ", size.as_str()));
        }
        self.skip_whitespace();
        match self.parse_delim_string_body() {
            Ok(t) => Ok(OSD::String(t)),
            Err(e) => Err(e),
        }
    }

    /// A URI after the `l` at the position.
    fn parse_uri(&mut self) -> (r: Result<OSD, String>)
        requires
            old(self).pos < old(self).chars.len(),
        ensures
            final(self).chars@ == old(self).chars@,
            old(self).pos <= final(self).pos <= final(self).chars@.len(),
            match spec_nuri(old(self).chars@, old(self).pos as int) {
                Ok((m, j)) => r is Ok && r->Ok_0.model() == m && final(self).pos == j,
                Err(e) => r is Err && r->Err_0@ == e,
            },
    {
        self.pos = self.pos + 1;
        self.skip_whitespace();
        match self.parse_delim_string_body() {
            Ok(t) => Ok(OSD::Uri(t)),
            Err(e) => Err(e),
        }
    }

    /// A date after the `d` at the position.
    fn parse_date(&mut self) -> (r: Result<OSD, String>)
        requires
            old(self).pos < old(self).chars.len(),
        ensures
            final(self).chars@ == old(self).chars@,
            old(self).pos <= final(self).pos <= final(self).chars@.len(),
            match spec_ndate(old(self).chars@, old(self).pos as int) {
                Ok((m, j)) => r is Ok && r->Ok_0.model() == m && final(self).pos == j,
                Err(e) => r is Err && r->Err_0@ == e,
            },
    {
        self.pos = self.pos + 1;
        self.skip_whitespace();
        match self.parse_delim_string_body() {
            Ok(t) => match LlsdDate::parse(t.as_str()) {
                Some(d) => Ok(OSD::Date(d)),
                None => Err(message_with("Invalid date: ", t.as_str())),
            },
            Err(e) => Err(e),
        }
    }

    /// Binary data after the `b` at the position.
    fn parse_binary(&mut self) -> (r: Result<OSD, String>)
        requires
            old(self).pos < old(self).chars.len(),
        ensures
            final(self).chars@ == old(self).chars@,
            old(self).pos <= final(self).pos <= final(self).chars@.len(),
            match spec_nbinary(old(self).chars@, old(self).pos as int) {
                Ok((m, j)) => r is Ok && r->Ok_0.model() == m && final(self).pos == j,
                Err(e) => r is Err && r->Err_0@ == e,
            },
    {
        self.pos = self.pos + 1;
        let _size = self.read_number_str();
        self.skip_whitespace();
        match self.parse_delim_string_body() {
            Ok(t) => match hex_to_bytes(t.as_str()) {
                Ok(b) => Ok(OSD::Binary(b)),
                Err(e) => Err(e),
            },
            Err(e) => Err(e),
        }
    }

    /// One value, after whitespace.
    fn parse_value<G: Fn(&str) -> Option<u64>>(&mut self, Ghost(fuel): Ghost<nat>, real_value: &G) -> (r: Result<OSD, String>)
        requires
            old(self).pos <= old(self).chars@.len(),
            fuel > 3 * (old(self).chars@.len() - old(self).pos) + 3,
            spec_real_reader(*real_value),
        ensures
            final(self).chars@ == old(self).chars@,
            old(self).pos <= final(self).pos <= final(self).chars@.len(),
            match spec_nvalue(old(self).chars@, old(self).pos as int, fuel, *real_value) {
                Ok((m, j)) => r is Ok && r->Ok_0.model() == m && final(self).pos == j,
                Err(e) => r is Err && r->Err_0@ == e,
            },
        decreases fuel,
    {
        self.skip_whitespace();
        let q = self.pos;
        let ch = match self.peek() {
            None => {
                return Err("Unexpected end of notation LLSD".to_string());
            },
            Some(x) => x,
        };
        if ch == '!' {
            self.pos = q + 1;
            Ok(OSD::Undef)
        } else if ch == '1' {
            self.pos = q + 1;
            Ok(OSD::Boolean(true))
        } else if ch == '0' {
            self.pos = q + 1;
            Ok(OSD::Boolean(false))
        } else if ch == 't' || ch == 'T' {
            self.parse_bool(true)
        } else if ch == 'f' || ch == 'F' {
            self.parse_bool(false)
        } else if ch == 'i' {
            self.parse_integer()
        } else if ch == 'r' {
            self.parse_real(real_value)
        } else if ch == 'u' {
            self.parse_uuid()
        } else if ch == 's' {
            self.parse_sized_string()
        } else if ch == '\'' || ch == '"' {
            self.pos = q + 1;
            match self.parse_delimited(ch) {
                Ok(t) => Ok(OSD::String(t)),
                Err(e) => Err(e),
            }
        } else if ch == 'l' {
            self.parse_uri()
        } else if ch == 'd' {
            self.parse_date()
        } else if ch == 'b' {
            self.parse_binary()
        } else if ch == '[' {
            self.parse_array(Ghost((fuel - 1) as nat), real_value)
        } else if ch == '{' {
            self.parse_map(Ghost((fuel - 1) as nat), real_value)
        } else {
            Err(message_with_char("Invalid notation token: ", ch))
        }
    }

    /// A map key: a quoted string, or `s`, a size and a quoted string.
    fn parse_map_key(&mut self) -> (r: Result<String, String>)
        requires
            old(self).pos <= old(self).chars@.len(),
        ensures
            final(self).chars@ == old(self).chars@,
            old(self).pos <= final(self).pos <= final(self).chars@.len(),
            match spec_nkey(old(self).chars@, old(self).pos as int) {
                Ok((t, j)) => r is Ok && r->Ok_0@ == t && final(self).pos == j,
                Err(e) => r is Err && r->Err_0@ == e,
            },
    {
        match self.peek() {
            Some(d) => {
                if d == '\'' || d == '"' {
                    self.pos = self.pos + 1;
                    self.parse_delimited(d)
                } else if d == 's' {
                    self.pos = self.pos + 1;
                    let _size = self.read_number_str();
                    self.skip_whitespace();
                    self.parse_delim_string_body()
                } else {
                    Err("Expected string key in map".to_string())
                }
            },
            None => Err("Expected string key in map".to_string()),
        }
    }

    /// An array: `[` at the position, then `]` or items separated by commas
    /// and closed by `]`.
    #[verifier::loop_isolation(false)]
    fn parse_array<G: Fn(&str) -> Option<u64>>(&mut self, Ghost(fuel): Ghost<nat>, real_value: &G) -> (r: Result<OSD, String>)
        requires
            old(self).pos < old(self).chars.len(),
            fuel > 3 * (old(self).chars@.len() - (old(self).pos + 1)) + 5,
            spec_real_reader(*real_value),
        ensures
            final(self).chars@ == old(self).chars@,
            old(self).pos <= final(self).pos <= final(self).chars@.len(),
            match spec_narray(old(self).chars@, old(self).pos + 1, fuel, *real_value) {
                Ok((m, j)) => r is Ok && r->Ok_0.model() == m && final(self).pos == j,
                Err(e) => r is Err && r->Err_0@ == e,
            },
        decreases fuel,
    {
        let ghost c = self.chars@;
        let ghost p0 = self.pos;
        self.pos = self.pos + 1;
        self.skip_whitespace();
        if self.peek() == Some(']') {
            self.pos = self.pos + 1;
            let result = OSD::Array(Vec::new());
            assert(result.model()->Array_0 =~= Seq::<OsdModel>::empty());
            return Ok(result);
        }
        let mut arr: Vec<OSD> = Vec::new();
        assert(spec_models(arr@) =~= Seq::<OsdModel>::empty());
        let ghost mut f: nat = (fuel - 1) as nat;
        loop
            invariant
                self.chars@ == c,
                p0 <= self.pos <= c.len(),
                f < fuel,
                f > 3 * (c.len() - self.pos) + 4,
                spec_narray(c, p0 + 1, fuel, *real_value) == spec_nitems(c, self.pos as int, f, spec_models(arr@), *real_value),
            decreases c.len() - self.pos,
        {
            self.skip_whitespace();
            let v = match self.parse_value(Ghost((f - 1) as nat), real_value) {
                Ok(v) => v,
                Err(e) => {
                    return Err(e);
                },
            };
            let ghost before = spec_models(arr@);
            arr.push(v);
            assert(spec_models(arr@) =~= before.push(v.model()));
            self.skip_whitespace();
            match self.peek() {
                Some(x) => {
                    if x == ',' {
                        self.pos = self.pos + 1;
                        proof {
                            f = (f - 1) as nat;
                        }
                    } else if x == ']' {
                        self.pos = self.pos + 1;
                        let ghost ms = spec_models(arr@);
                        let result = OSD::Array(arr);
                        assert(result.model()->Array_0 =~= ms);
                        return Ok(result);
                    } else {
                        return Err(message_with_char("Expected ',' or ']' in array, got ", x));
                    }
                },
                None => {
                    return Err("Unterminated array".to_string());
                },
            }
        }
    }

    /// A map: `{` at the position, then `}` or entries separated by commas
    /// and closed by `}`.
    #[verifier::loop_isolation(false)]
    fn parse_map<G: Fn(&str) -> Option<u64>>(&mut self, Ghost(fuel): Ghost<nat>, real_value: &G) -> (r: Result<OSD, String>)
        requires
            old(self).pos < old(self).chars.len(),
            fuel > 3 * (old(self).chars@.len() - (old(self).pos + 1)) + 5,
            spec_real_reader(*real_value),
        ensures
            final(self).chars@ == old(self).chars@,
            old(self).pos <= final(self).pos <= final(self).chars@.len(),
            match spec_nmap(old(self).chars@, old(self).pos + 1, fuel, *real_value) {
                Ok((m, j)) => r is Ok && r->Ok_0.model() == m && final(self).pos == j,
                Err(e) => r is Err && r->Err_0@ == e,
            },
        decreases fuel,
    {
        let ghost c = self.chars@;
        let ghost p0 = self.pos;
        self.pos = self.pos + 1;
        self.skip_whitespace();
        if self.peek() == Some('}') {
            self.pos = self.pos + 1;
            let result = OSD::Dict(OsdMap::new());
            assert(result.model()->Dict_0 =~= Seq::<(Seq<char>, OsdModel)>::empty());
            return Ok(result);
        }
        let mut map: OsdMap<OSD> = OsdMap::new();
        assert(spec_entry_models(map.spec_entries()) =~= Seq::<(Seq<char>, OsdModel)>::empty());
        let ghost mut f: nat = (fuel - 1) as nat;
        loop
            invariant
                self.chars@ == c,
                p0 <= self.pos <= c.len(),
                f < fuel,
                f > 3 * (c.len() - self.pos) + 4,
                spec_nmap(c, p0 + 1, fuel, *real_value) == spec_nentries(c, self.pos as int, f, spec_entry_models(map.spec_entries()), *real_value),
            decreases c.len() - self.pos,
        {
            self.skip_whitespace();
            let key = match self.parse_map_key() {
                Ok(k) => k,
                Err(e) => {
                    return Err(e);
                },
            };
            self.skip_whitespace();
            if self.peek() != Some(':') {
                return Err("Expected ':' after map key".to_string());
            }
            self.pos = self.pos + 1;
            self.skip_whitespace();
            let value = match self.parse_value(Ghost((f - 1) as nat), real_value) {
                Ok(v) => v,
                Err(e) => {
                    return Err(e);
                },
            };
            let ghost before = map.spec_entries();
            let ghost gk = key;
            let ghost gv = value;
            map.insert(key, value);
            proof {
                crate::binary::lemma_entry_models_insert(before, gk, gv);
            }
            self.skip_whitespace();
            match self.peek() {
                Some(x) => {
                    if x == ',' {
                        self.pos = self.pos + 1;
                        proof {
                            f = (f - 1) as nat;
                        }
                    } else if x == '}' {
                        self.pos = self.pos + 1;
                        let ghost ms = spec_entry_models(map.spec_entries());
                        let result = OSD::Dict(map);
                        proof {
                            reveal(spec_entry_model);
                        }
                        assert(result.model()->Dict_0 =~= ms);
                        return Ok(result);
                    } else {
                        return Err(message_with_char("Expected ',' or '}' in map, got ", x));
                    }
                },
                None => {
                    return Err("Unterminated map".to_string());
                },
            }
        }
    }
}


/// The characters from `from` on, without their leading whitespace.
fn trimmed_from(chars: &Vec<char>, from: usize) -> (r: usize)
    requires
        from <= chars@.len(),
    ensures
        from <= r <= chars@.len(),
        chars@.subrange(r as int, chars@.len() as int) == spec_trim_start(chars@.subrange(from as int, chars@.len() as int)),
{
    let n = chars.len();
    let mut a = from;
    while a < n && is_whitespace(chars[a])
        invariant
            from <= a <= n,
            n == chars@.len(),
            spec_trim_start(chars@.subrange(from as int, n as int)) == spec_trim_start(chars@.subrange(a as int, n as int)),
        decreases n - a,
    {
        let ghost t = chars@.subrange(a as int, n as int);
        assert(t.drop_first() =~= chars@.subrange(a + 1, n as int));
        a = a + 1;
    }
    let ghost u = chars@.subrange(a as int, n as int);
    assert(spec_trim_start(u) == u) by {
        if u.len() > 0 {
            assert(u[0] == chars@[a as int]);
        }
    }
    a
}

/// Reads a notation LLSD document, with or without its header. Reals are
/// read by `real_value`.
pub fn parse_notation<G: Fn(&str) -> Option<u64>>(data: &str, real_value: &G) -> (r: Result<OSD, String>)
    requires
        spec_real_reader(*real_value),
    ensures
        match spec_parse_notation(data@, *real_value) {
            Ok(m) => r is Ok && r->Ok_0.model() == m,
            Err(e) => r is Err && r->Err_0@ == e,
        },
{
    let chars = str_chars(data);
    let n = chars.len();
    assert(chars@.subrange(0, n as int) =~= data@);
    let a = trimmed_from(&chars, 0);
    let ghost t = chars@.subrange(a as int, n as int);
    let hdr = str_chars("<?llsd/notation?>");
    proof {
        reveal_strlit("<?llsd/notation?>");
    }
    let hl = hdr.len();
    let mut found = n - a >= hl;
    let mut i: usize = 0;
    while found && i < hl
        invariant
            i <= hl,
            hl == hdr@.len(),
            hdr@ == spec_notation_mark(),
            found ==> n - a >= hl,
            found ==> forall|j: int| 0 <= j < i ==> chars@[a + j] == hdr@[j],
            !found ==> !(t.len() >= hl && t.subrange(0, hl as int) == spec_notation_mark()),
            t == chars@.subrange(a as int, n as int),
            a <= n,
            n == chars@.len(),
        decreases hl - i,
    {
        if chars[a + i] != hdr[i] {
            assert(t.subrange(0, hl as int)[i as int] != spec_notation_mark()[i as int]);
            found = false;
            i = hl;
        } else {
            i = i + 1;
        }
    }
    if found {
        assert(t.subrange(0, hl as int) =~= spec_notation_mark());
    }
    let start = if found {
        trimmed_from(&chars, a + hl)
    } else {
        a
    };
    proof {
        if found {
            assert(t.subrange(hl as int, t.len() as int) =~= chars@.subrange(a + hl, n as int));
        }
    }
    let body_str = string_of_chars(&chars, start, n);
    let body = str_chars(body_str.as_str());
    let ghost b = body@;
    let mut parser = NotationParser { chars: body, pos: 0 };
    parser.parse_value(Ghost((3 * b.len() + 4) as nat), real_value)
}

impl OSD {
    /// The notation LLSD document of this value, with its header; reals are
    /// written by `real_text`.
    pub fn to_notation<F: Fn(u64) -> String>(&self, real_text: &F) -> (r: String)
        requires
            spec_real_formatter(*real_text),
        ensures
            r@ == spec_notation_header() + spec_notation(self.model(), *real_text),
    {
        format_notation(self, real_text)
    }

    /// The value a notation LLSD document holds, as `parse_notation` reads
    /// it.
    pub fn from_notation<G: Fn(&str) -> Option<u64>>(data: &str, real_value: &G) -> (r: Result<OSD, String>)
        requires
            spec_real_reader(*real_value),
        ensures
            match spec_parse_notation(data@, *real_value) {
                Ok(m) => r is Ok && r->Ok_0.model() == m,
                Err(e) => r is Err && r->Err_0@ == e,
            },
    {
        parse_notation(data, real_value)
    }
}

} // verus!
