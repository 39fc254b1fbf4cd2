//! The notation round trip: a document written for a value reads back as
//! that value, for every value the notation form carries unchanged.

use crate::binary::{spec_model_insert, spec_model_key_index, spec_model_keys};
use crate::osd::lemma_first_index;
use crate::notation::{
    spec_alpha_dash_end, spec_alpha_end, spec_delimited, spec_escape_body, spec_escape_char, spec_is_alpha,
    spec_is_number_char, spec_notation, spec_notation_entries, spec_notation_entry, spec_notation_header,
    spec_notation_items, spec_number_end, spec_quoted, spec_skip_ws,
};
use crate::osd::{chrono_parse_utc, chrono_rfc3339, spec_real_text, spec_real_value, OsdModel};
use crate::notation::{
    spec_hex_pair, spec_hex_pairs, spec_hex_to_bytes, spec_hex_value, spec_is_char_boundary, spec_narray, spec_nentries, spec_nitems, spec_nkey, spec_nmap, spec_notation_mark, spec_nreal, spec_nvalue,
    spec_parse_notation, spec_real_notation, INFINITY_BITS, NAN_BITS, NEG_INFINITY_BITS,
};
use crate::realbits::{spec_f64_is_inf, spec_f64_is_nan, spec_f64_neg};
use crate::uuid::{spec_hex_digit, spec_hex_lower, spec_uuid_hyphenated, uuid_parse_str};
use crate::text::{
    spec_trim_start,
    lemma_digits_value_push, spec_digit_char, spec_digits_value, spec_int_decimal, spec_is_digit, spec_is_whitespace,
    spec_nat_decimal, spec_parse_i32, spec_parse_int, spec_sign_len,
};
use vstd::prelude::*;
use vstd::utf8::{encode_utf8, is_ascii_chars, is_ascii_chars_encode_utf8};

verus! {

/// The characters that may follow a value's notation: the separators and
/// closers of arrays and maps.
pub open spec fn spec_is_stop(c: char) -> bool {
    c == ',' || c == ']' || c == '}'
}

/// `c` holds `t` at `p`.
pub open spec fn spec_holds(c: Seq<char>, p: int, t: Seq<char>) -> bool {
    0 <= p && p + t.len() <= c.len() && c.subrange(p, p + t.len()) == t
}

/// At `p` of `c` there is nothing more, or a stop character.
pub open spec fn spec_ends_at(c: Seq<char>, p: int) -> bool {
    p == c.len() || (0 <= p < c.len() && spec_is_stop(c[p]))
}

proof fn lemma_holds_at(c: Seq<char>, p: int, t: Seq<char>, i: int)
    requires
        spec_holds(c, p, t),
        0 <= i < t.len(),
    ensures
        c[p + i] == t[i],
{
    assert(c.subrange(p, p + t.len())[i] == c[p + i]);
}

/// `c` holds `a + b` at `p` exactly when it holds `a` there and `b` after it.
proof fn lemma_holds_split(c: Seq<char>, p: int, a: Seq<char>, b: Seq<char>)
    requires
        spec_holds(c, p, a + b),
    ensures
        spec_holds(c, p, a),
        spec_holds(c, p + a.len(), b),
{
    let w = c.subrange(p, p + (a + b).len());
    assert(w == a + b);
    assert(c.subrange(p, p + a.len()) =~= w.subrange(0, a.len() as int));
    assert(w.subrange(0, a.len() as int) =~= a);
    assert(c.subrange(p + a.len(), p + a.len() + b.len()) =~= w.subrange(a.len() as int, w.len() as int));
    assert(w.subrange(a.len() as int, w.len() as int) =~= b);
}

/// A run of letters from `p` to `e` ends at `e`.
proof fn lemma_alpha_end(c: Seq<char>, p: int, e: int)
    requires
        0 <= p <= e <= c.len(),
        forall|i: int| p <= i < e ==> spec_is_alpha(#[trigger] c[i]),
        e == c.len() || !spec_is_alpha(c[e]),
    ensures
        spec_alpha_end(c, p) == e,
    decreases e - p,
{
    if p < e {
        lemma_alpha_end(c, p + 1, e);
    }
}

/// A run of letters and `-` from `p` to `e` ends at `e`.
proof fn lemma_alpha_dash_end(c: Seq<char>, p: int, e: int)
    requires
        0 <= p <= e <= c.len(),
        forall|i: int| p <= i < e ==> spec_is_alpha(#[trigger] c[i]) || c[i] == '-',
        e == c.len() || !(spec_is_alpha(c[e]) || c[e] == '-'),
    ensures
        spec_alpha_dash_end(c, p) == e,
    decreases e - p,
{
    if p < e {
        lemma_alpha_dash_end(c, p + 1, e);
    }
}

/// A run of number characters from `p` to `e` ends at `e`.
proof fn lemma_number_end(c: Seq<char>, p: int, e: int)
    requires
        0 <= p <= e <= c.len(),
        forall|i: int| p <= i < e ==> spec_is_number_char(#[trigger] c[i]),
        e == c.len() || !spec_is_number_char(c[e]),
    ensures
        spec_number_end(c, p) == e,
    decreases e - p,
{
    if p < e {
        lemma_number_end(c, p + 1, e);
    }
}

/// Escaping a concatenation escapes each part.
proof fn lemma_escape_split(a: Seq<char>, b: Seq<char>, d: char)
    ensures
        spec_escape_body(a + b, d) == spec_escape_body(a, d) + spec_escape_body(b, d),
    decreases b.len(),
{
    if b.len() == 0 {
        assert(a + b =~= a);
        assert(spec_escape_body(a, d) + Seq::<char>::empty() =~= spec_escape_body(a, d));
    } else {
        lemma_escape_split(a, b.drop_last(), d);
        assert((a + b).drop_last() =~= a + b.drop_last());
        assert((a + b).last() == b.last());
    }
}

/// The escaped form of a string, character by character from the front.
proof fn lemma_escape_front(s: Seq<char>, d: char)
    requires
        s.len() > 0,
    ensures
        spec_escape_body(s, d) == spec_escape_char(s[0], d) + spec_escape_body(s.drop_first(), d),
{
    assert(s =~= seq![s[0]] + s.drop_first());
    lemma_escape_split(seq![s[0]], s.drop_first(), d);
    assert(seq![s[0]].drop_last() =~= Seq::<char>::empty());
    assert(spec_escape_body(Seq::<char>::empty(), d) == Seq::<char>::empty());
    assert(spec_escape_body(seq![s[0]], d) =~= spec_escape_char(s[0], d));
}

/// An escaped string followed by its closing quote reads back as the
/// string, after the characters `acc`.
proof fn lemma_delimited_escaped(c: Seq<char>, p: int, s: Seq<char>, d: char, acc: Seq<char>)
    requires
        d == '"' || d == '\'',
        spec_holds(c, p, spec_escape_body(s, d)),
        p + spec_escape_body(s, d).len() < c.len(),
        c[p + spec_escape_body(s, d).len()] == d,
    ensures
        spec_delimited(c, p, d, acc) == Ok::<(Seq<char>, int), Seq<char>>((acc + s, p + spec_escape_body(s, d).len() + 1)),
    decreases s.len(),
{
    let e = spec_escape_body(s, d);
    if s.len() == 0 {
        assert(acc + s =~= acc);
    } else {
        lemma_escape_front(s, d);
        let h = spec_escape_char(s[0], d);
        let t = spec_escape_body(s.drop_first(), d);
        lemma_holds_split(c, p, h, t);
        lemma_holds_at(c, p, h, 0);
        if h.len() == 2 {
            lemma_holds_at(c, p, h, 1);
        }
        let acc2 = acc.push(s[0]);
        assert(acc2 + s.drop_first() =~= acc + s);
        lemma_delimited_escaped(c, p + h.len(), s.drop_first(), d, acc2);
        if s[0] == '\\' {
            assert(acc + seq!['\\'] =~= acc2);
        } else if s[0] == d {
            assert(acc + seq![d] =~= acc2);
        } else if s[0] == '\n' {
            assert(acc + seq!['\n'] =~= acc2);
        } else if s[0] == '\r' {
            assert(acc + seq!['\r'] =~= acc2);
        } else if s[0] == '\t' {
            assert(acc + seq!['\t'] =~= acc2);
        }
    }
}

/// The decimal digits of `n` are digits, at least one, and spell `n`.
proof fn lemma_nat_decimal(n: nat)
    ensures
        spec_nat_decimal(n).len() >= 1,
        forall|i: int| 0 <= i < spec_nat_decimal(n).len() ==> spec_is_digit(#[trigger] spec_nat_decimal(n)[i]),
        spec_digits_value(spec_nat_decimal(n)) == n,
    decreases n,
{
    let k = n % 10;
    assert(((k + 0x30) as char) as nat == k + 0x30);
    if n >= 10 {
        lemma_nat_decimal(n / 10);
        lemma_digits_value_push(spec_nat_decimal(n / 10), spec_digit_char(n % 10));
        assert(spec_digits_value(spec_nat_decimal(n)) == spec_digits_value(spec_nat_decimal(n / 10)) * 10 + k);
    } else {
        assert(seq![spec_digit_char(n)].drop_last() =~= Seq::<char>::empty());
        assert(spec_digits_value(seq![spec_digit_char(n)]) == spec_digits_value(Seq::<char>::empty()) * 10 + k);
    }
}

/// How an integer is written reads back as that integer, and is made of
/// number characters starting with `-` or a digit.
pub(crate) proof fn lemma_int_decimal(v: i32)
    ensures
        spec_parse_i32(spec_int_decimal(v as int)) == Some(v),
        spec_int_decimal(v as int).len() >= 1,
        forall|i: int| 0 <= i < spec_int_decimal(v as int).len() ==> spec_is_number_char(#[trigger] spec_int_decimal(v as int)[i]),
{
    let t = spec_int_decimal(v as int);
    if v < 0 {
        let n = (-(v as int)) as nat;
        lemma_nat_decimal(n);
        let d = spec_nat_decimal(n);
        assert(t == seq!['-'] + d);
        assert(spec_sign_len(t) == 1);
        assert(t.skip(1) =~= d);
        assert forall|i: int| 0 <= i < t.len() implies spec_is_number_char(#[trigger] t[i]) by {
            if i > 0 {
                assert(t[i] == d[i - 1]);
            }
        }
    } else {
        let n = v as nat;
        lemma_nat_decimal(n);
        assert(spec_is_digit(t[0]));
        assert(spec_sign_len(t) == 0);
        assert(t.skip(0) =~= t);
    }
}

/// Whether `t` needs no escaping between quotes of either kind.
pub open spec fn spec_plain(t: Seq<char>) -> bool {
    forall|i: int| 0 <= i < t.len() ==> {
        let ch = #[trigger] t[i];
        ch != '\\' && ch != '"' && ch != '\'' && ch != '\n' && ch != '\r' && ch != '\t'
    }
}

/// Text that needs no escaping is written as it is.
proof fn lemma_escape_plain(t: Seq<char>, d: char)
    requires
        spec_plain(t),
        d == '"' || d == '\'',
    ensures
        spec_escape_body(t, d) == t,
    decreases t.len(),
{
    if t.len() > 0 {
        assert forall|i: int| 0 <= i < t.drop_last().len() implies {
            let ch = #[trigger] t.drop_last()[i];
            ch != '\\' && ch != '"' && ch != '\'' && ch != '\n' && ch != '\r' && ch != '\t'
        } by {
            assert(t.drop_last()[i] == t[i]);
        }
        lemma_escape_plain(t.drop_last(), d);
        let l = t[t.len() - 1];
        assert(spec_escape_char(l, d) == seq![l]);
        assert(t.drop_last().push(l) =~= t);
    }
}

/// The hex text of bytes is made of hex digits, which need no escaping.
pub(crate) proof fn lemma_hex_lower_plain(b: Seq<u8>)
    ensures
        spec_plain(spec_hex_lower(b)),
        spec_hex_lower(b).len() == 2 * b.len(),
        forall|i: int| 0 <= i < spec_hex_lower(b).len() ==> ('0' <= #[trigger] spec_hex_lower(b)[i] <= '9'
            || 'a' <= spec_hex_lower(b)[i] <= 'f'),
    decreases b.len(),
{
    if b.len() > 0 {
        lemma_hex_lower_plain(b.drop_last());
        let hi = b.last() / 16;
        let lo = b.last() % 16;
        assert(hi < 16 && lo < 16);
        let h = spec_hex_lower(b);
        let front = spec_hex_lower(b.drop_last());
        assert(h == front + seq![spec_hex_digit(hi), spec_hex_digit(lo)]);
        assert forall|i: int| 0 <= i < h.len() implies ('0' <= #[trigger] h[i] <= '9' || 'a' <= h[i] <= 'f') by {
            if i < front.len() {
                assert(h[i] == front[i]);
            }
        }
    }
}

/// The hyphenated form of an identifier needs no escaping.
proof fn lemma_hyphenated_plain(u: Seq<u8>)
    requires
        u.len() == 16,
    ensures
        spec_plain(spec_uuid_hyphenated(u)),
{
    let h = spec_uuid_hyphenated(u);
    lemma_hex_lower_plain(u.subrange(0, 4));
    lemma_hex_lower_plain(u.subrange(4, 6));
    lemma_hex_lower_plain(u.subrange(6, 8));
    lemma_hex_lower_plain(u.subrange(8, 10));
    lemma_hex_lower_plain(u.subrange(10, 16));
    let a = spec_hex_lower(u.subrange(0, 4));
    let b = spec_hex_lower(u.subrange(4, 6));
    let c = spec_hex_lower(u.subrange(6, 8));
    let d = spec_hex_lower(u.subrange(8, 10));
    let e = spec_hex_lower(u.subrange(10, 16));
    assert(h == a + seq!['-'] + b + seq!['-'] + c + seq!['-'] + d + seq!['-'] + e);
    assert forall|i: int| 0 <= i < h.len() implies {
        let ch = #[trigger] h[i];
        ch != '\\' && ch != '"' && ch != '\'' && ch != '\n' && ch != '\r' && ch != '\t'
    } by {
        if i < 8 {
            assert(h[i] == a[i]);
        } else if i == 8 {
        } else if i < 13 {
            assert(h[i] == b[i - 9]);
        } else if i == 13 {
        } else if i < 18 {
            assert(h[i] == c[i - 14]);
        } else if i == 18 {
        } else if i < 23 {
            assert(h[i] == d[i - 19]);
        } else if i == 23 {
        } else {
            assert(h[i] == e[i - 24]);
        }
    }
}

/// The reals the notation carries unchanged: the quiet NaN and the
/// infinities as the reader produces them, and finite reals whose text
/// starts with a digit, or a minus and a digit, is made of number
/// characters, and reads back as the same real.
pub open spec fn spec_real_round_trips<F: Fn(u64) -> String, G: Fn(&str) -> Option<u64>>(b: u64, f: F, g: G) -> bool {
    ||| b == NAN_BITS
    ||| b == INFINITY_BITS
    ||| b == NEG_INFINITY_BITS
    ||| {
        let t = spec_real_text(f, b);
        &&& !spec_f64_is_nan(b) && !spec_f64_is_inf(b)
        &&& spec_signed_digit_start(t)
        &&& forall|i: int| 0 <= i < t.len() ==> spec_is_number_char(#[trigger] t[i])
        &&& spec_real_value(g, t) == Some(b)
    }
}

/// The scalars the notation carries unchanged: all but reals outside
/// `spec_real_round_trips`, identifiers the `uuid` parser does not read
/// back, and dates whose RFC 3339 text `chrono` does not read back (or
/// that would need escaping).
pub open spec fn spec_scalar_exact<F: Fn(u64) -> String, G: Fn(&str) -> Option<u64>>(m: OsdModel, f: F, g: G) -> bool {
    match m {
        OsdModel::Real(b) => spec_real_round_trips(b, f, g),
        OsdModel::UUID(u) => u.len() == 16 && uuid_parse_str(spec_uuid_hyphenated(u)) == Some(u),
        OsdModel::Date(secs, nanos) => chrono_parse_utc(chrono_rfc3339(secs, nanos)) == Some((secs, nanos))
            && spec_plain(chrono_rfc3339(secs, nanos)),
        OsdModel::Array(_) => false,
        OsdModel::Dict(_) => false,
        _ => true,
    }
}

/// The requirements of the scalar lemmas: `m` written at `p` and followed
/// by the end or a stop character, with fuel to read it.
pub open spec fn spec_written_at<F: Fn(u64) -> String>(m: OsdModel, f: F, c: Seq<char>, p: int) -> bool {
    &&& spec_holds(c, p, spec_notation(m, f))
    &&& spec_ends_at(c, p + spec_notation(m, f).len())
}

proof fn lemma_undef_written<G: Fn(&str) -> Option<u64>>(g: G, c: Seq<char>, p: int, fuel: nat)
    requires
        spec_holds(c, p, "!"@),
        fuel >= 1,
    ensures
        spec_nvalue(c, p, fuel, g) == Ok::<(OsdModel, int), Seq<char>>((OsdModel::Undef, p + 1)),
{
    reveal_strlit("!");
    lemma_holds_at(c, p, "!"@, 0);
    assert(spec_skip_ws(c, p) == p);
}

proof fn lemma_bool_written<G: Fn(&str) -> Option<u64>>(v: bool, g: G, c: Seq<char>, p: int, fuel: nat)
    requires
        spec_holds(c, p, if v { "true"@ } else { "false"@ }),
        spec_ends_at(c, p + (if v { "true"@ } else { "false"@ }).len()),
        fuel >= 1,
    ensures
        spec_nvalue(c, p, fuel, g) == Ok::<(OsdModel, int), Seq<char>>(
            (OsdModel::Boolean(v), p + (if v { "true"@ } else { "false"@ }).len()),
        ),
{
    reveal_strlit("true");
    reveal_strlit("false");
    let n = if v { "true"@ } else { "false"@ };
    let end = p + n.len();
    lemma_holds_at(c, p, n, 0);
    lemma_holds_at(c, p, n, 1);
    lemma_holds_at(c, p, n, 2);
    lemma_holds_at(c, p, n, 3);
    if !v {
        lemma_holds_at(c, p, n, 4);
    }
    assert(spec_skip_ws(c, p) == p);
    lemma_alpha_end(c, p, end);
    assert(c.subrange(p, end) == n);
}

proof fn lemma_int_written<G: Fn(&str) -> Option<u64>>(v: i32, g: G, c: Seq<char>, p: int, fuel: nat)
    requires
        spec_holds(c, p, "i"@ + spec_int_decimal(v as int)),
        spec_ends_at(c, p + 1 + spec_int_decimal(v as int).len()),
        fuel >= 1,
    ensures
        spec_nvalue(c, p, fuel, g) == Ok::<(OsdModel, int), Seq<char>>(
            (OsdModel::Integer(v), p + 1 + spec_int_decimal(v as int).len()),
        ),
{
    reveal_strlit("i");
    let t = spec_int_decimal(v as int);
    let end = p + 1 + t.len();
    lemma_holds_split(c, p, "i"@, t);
    lemma_holds_at(c, p, "i"@, 0);
    assert(spec_skip_ws(c, p) == p);
    lemma_int_decimal(v);
    assert forall|i: int| p + 1 <= i < end implies spec_is_number_char(#[trigger] c[i]) by {
        lemma_holds_at(c, p + 1, t, i - p - 1);
    }
    lemma_number_end(c, p + 1, end);
}

#[verifier::spinoff_prover]
proof fn lemma_special_real_written<G: Fn(&str) -> Option<u64>>(w: Seq<char>, b: u64, g: G, c: Seq<char>, p: int, fuel: nat)
    requires
        (w == "NaN"@ && b == NAN_BITS) || (w == "inf"@ && b == INFINITY_BITS) || (w == "-inf"@ && b == NEG_INFINITY_BITS),
        spec_holds(c, p, "r"@ + w),
        spec_ends_at(c, p + 1 + w.len()),
        fuel >= 1,
    ensures
        spec_nvalue(c, p, fuel, g) == Ok::<(OsdModel, int), Seq<char>>((OsdModel::Real(b), p + 1 + w.len())),
{
    reveal_strlit("r");
    reveal_strlit("NaN");
    reveal_strlit("nan");
    reveal_strlit("inf");
    reveal_strlit("Inf");
    reveal_strlit("INF");
    reveal_strlit("-inf");
    let end = p + 1 + w.len();
    lemma_holds_split(c, p, "r"@, w);
    lemma_holds_at(c, p, "r"@, 0);
    assert(spec_skip_ws(c, p) == p);
    assert forall|i: int| p + 1 <= i < end implies spec_is_alpha(#[trigger] c[i]) || c[i] == '-' by {
        lemma_holds_at(c, p + 1, w, i - p - 1);
    }
    lemma_alpha_dash_end(c, p + 1, end);
    assert(c.subrange(p + 1, end) == w);
    assert(c[p] == 'r');
    let ww = c.subrange(p + 1, spec_alpha_dash_end(c, p + 1));
    assert(ww == w);
    if w == "NaN"@ {
        assert(ww == "NaN"@);
    } else if w == "inf"@ {
        assert(ww[0] == 'i' && "NaN"@[0] == 'N' && "nan"@[0] == 'n');
        assert(ww != "NaN"@ && ww != "nan"@);
        assert(ww == "inf"@);
    } else {
        assert(w == "-inf"@);
        assert(ww.len() == 4 && "NaN"@.len() == 3 && "nan"@.len() == 3 && "inf"@.len() == 3);
        assert(ww != "NaN"@ && ww != "nan"@);
        assert(ww != "inf"@ && ww != "Inf"@ && ww != "INF"@);
        assert(ww == "-inf"@);
    }
    assert(spec_nreal(c, p, g) == Ok::<(OsdModel, int), Seq<char>>((OsdModel::Real(b), end)));
}

/// The text starts with a digit, or with a minus and a digit.
pub open spec fn spec_signed_digit_start(t: Seq<char>) -> bool {
    ||| t.len() > 0 && spec_is_digit(t[0])
    ||| t.len() > 1 && t[0] == '-' && spec_is_digit(t[1])
}

proof fn lemma_finite_real_written<G: Fn(&str) -> Option<u64>>(t: Seq<char>, b: u64, g: G, c: Seq<char>, p: int, fuel: nat)
    requires
        spec_signed_digit_start(t),
        forall|i: int| 0 <= i < t.len() ==> spec_is_number_char(#[trigger] t[i]),
        spec_real_value(g, t) == Some(b),
        spec_holds(c, p, "r"@ + t),
        spec_ends_at(c, p + 1 + t.len()),
        fuel >= 1,
    ensures
        spec_nvalue(c, p, fuel, g) == Ok::<(OsdModel, int), Seq<char>>((OsdModel::Real(b), p + 1 + t.len())),
{
    reveal_strlit("r");
    reveal_strlit("NaN");
    reveal_strlit("nan");
    reveal_strlit("inf");
    reveal_strlit("Inf");
    reveal_strlit("INF");
    reveal_strlit("-inf");
    reveal_strlit("-Inf");
    reveal_strlit("-");
    let end = p + 1 + t.len();
    lemma_holds_split(c, p, "r"@, t);
    lemma_holds_at(c, p, "r"@, 0);
    assert(spec_skip_ws(c, p) == p);
    lemma_holds_at(c, p + 1, t, 0);
    if t.len() > 0 && spec_is_digit(t[0]) {
        lemma_alpha_dash_end(c, p + 1, p + 1);
        assert(c.subrange(p + 1, p + 1) =~= Seq::<char>::empty());
    } else {
        lemma_holds_at(c, p + 1, t, 1);
        lemma_alpha_dash_end(c, p + 1, p + 2);
        let w = c.subrange(p + 1, p + 2);
        assert(w =~= "-"@);
        assert(w.len() == 1 && "NaN"@.len() == 3 && "nan"@.len() == 3 && "inf"@.len() == 3 && "Inf"@.len() == 3);
        assert("INF"@.len() == 3 && "-inf"@.len() == 4 && "-Inf"@.len() == 4);
    }
    assert forall|i: int| p + 1 <= i < end implies spec_is_number_char(#[trigger] c[i]) by {
        lemma_holds_at(c, p + 1, t, i - p - 1);
    }
    lemma_number_end(c, p + 1, end);
    assert(c.subrange(p + 1, end) == t);
}

/// Text between `"` quotes after the marker `mark` (one letter, or none),
/// read by the reader of that marker.
proof fn lemma_quoted_text_at(c: Seq<char>, p: int, t: Seq<char>)
    requires
        spec_holds(c, p, seq!['"'] + spec_escape_body(t, '"') + seq!['"']),
    ensures
        spec_delimited(c, p + 1, '"', Seq::empty()) == Ok::<(Seq<char>, int), Seq<char>>(
            (t, p + spec_escape_body(t, '"').len() + 2),
        ),
        c[p] == '"',
{
    let e = spec_escape_body(t, '"');
    lemma_holds_split(c, p, seq!['"'] + e, seq!['"']);
    lemma_holds_split(c, p, seq!['"'], e);
    lemma_holds_at(c, p, seq!['"'], 0);
    lemma_holds_at(c, p + 1 + e.len(), seq!['"'], 0);
    lemma_delimited_escaped(c, p + 1, t, '"', Seq::empty());
    assert(Seq::<char>::empty() + t =~= t);
}

proof fn lemma_string_written<G: Fn(&str) -> Option<u64>>(s: Seq<char>, g: G, c: Seq<char>, p: int, fuel: nat)
    requires
        spec_holds(c, p, spec_quoted(s, '"')),
        fuel >= 1,
    ensures
        spec_nvalue(c, p, fuel, g) == Ok::<(OsdModel, int), Seq<char>>(
            (OsdModel::String(s), p + spec_quoted(s, '"').len()),
        ),
{
    lemma_quoted_text_at(c, p, s);
    assert(spec_skip_ws(c, p) == p);
}

proof fn lemma_marked_quoted<G: Fn(&str) -> Option<u64>>(mark: char, t: Seq<char>, c: Seq<char>, p: int)
    requires
        spec_holds(c, p, seq![mark] + spec_quoted(t, '"')),
    ensures
        c[p] == mark,
        spec_skip_ws(c, p + 1) == p + 1,
        p + 1 < c.len() && c[p + 1] == '"',
        spec_delimited(c, p + 2, '"', Seq::empty()) == Ok::<(Seq<char>, int), Seq<char>>(
            (t, p + 1 + spec_quoted(t, '"').len()),
        ),
{
    lemma_holds_split(c, p, seq![mark], spec_quoted(t, '"'));
    lemma_holds_at(c, p, seq![mark], 0);
    lemma_quoted_text_at(c, p + 1, t);
}

proof fn lemma_uri_written<G: Fn(&str) -> Option<u64>>(s: Seq<char>, g: G, c: Seq<char>, p: int, fuel: nat)
    requires
        spec_holds(c, p, seq!['l'] + spec_quoted(s, '"')),
        fuel >= 1,
    ensures
        spec_nvalue(c, p, fuel, g) == Ok::<(OsdModel, int), Seq<char>>(
            (OsdModel::Uri(s), p + 1 + spec_quoted(s, '"').len()),
        ),
{
    lemma_marked_quoted::<G>('l', s, c, p);
    assert(spec_skip_ws(c, p) == p);
}

proof fn lemma_uuid_written<G: Fn(&str) -> Option<u64>>(u: Seq<u8>, g: G, c: Seq<char>, p: int, fuel: nat)
    requires
        u.len() == 16,
        uuid_parse_str(spec_uuid_hyphenated(u)) == Some(u),
        spec_holds(c, p, seq!['u'] + spec_quoted(spec_uuid_hyphenated(u), '"')),
        fuel >= 1,
    ensures
        spec_nvalue(c, p, fuel, g) == Ok::<(OsdModel, int), Seq<char>>(
            (OsdModel::UUID(u), p + 1 + spec_quoted(spec_uuid_hyphenated(u), '"').len()),
        ),
{
    let h = spec_uuid_hyphenated(u);
    lemma_marked_quoted::<G>('u', h, c, p);
    assert(spec_skip_ws(c, p) == p);
}

proof fn lemma_date_written<G: Fn(&str) -> Option<u64>>(secs: i64, nanos: u32, g: G, c: Seq<char>, p: int, fuel: nat)
    requires
        chrono_parse_utc(chrono_rfc3339(secs, nanos)) == Some((secs, nanos)),
        spec_holds(c, p, seq!['d'] + spec_quoted(chrono_rfc3339(secs, nanos), '"')),
        fuel >= 1,
    ensures
        spec_nvalue(c, p, fuel, g) == Ok::<(OsdModel, int), Seq<char>>(
            (OsdModel::Date(secs, nanos), p + 1 + spec_quoted(chrono_rfc3339(secs, nanos), '"').len()),
        ),
{
    lemma_marked_quoted::<G>('d', chrono_rfc3339(secs, nanos), c, p);
    assert(spec_skip_ws(c, p) == p);
}

/// The hex text of bytes, two digits per byte, high digit first.
proof fn lemma_hex_lower_index(b: Seq<u8>)
    ensures
        spec_hex_lower(b).len() == 2 * b.len(),
        forall|i: int| 0 <= i < b.len() ==> spec_hex_lower(b)[2 * i] == spec_hex_digit(#[trigger] b[i] / 16)
            && spec_hex_lower(b)[2 * i + 1] == spec_hex_digit(b[i] % 16),
    decreases b.len(),
{
    if b.len() > 0 {
        lemma_hex_lower_index(b.drop_last());
        let h = spec_hex_lower(b);
        let front = spec_hex_lower(b.drop_last());
        assert(h == front + seq![spec_hex_digit(b.last() / 16), spec_hex_digit(b.last() % 16)]);
        assert forall|i: int| 0 <= i < b.len() implies h[2 * i] == spec_hex_digit(#[trigger] b[i] / 16)
            && h[2 * i + 1] == spec_hex_digit(b[i] % 16) by {
            if i < b.len() - 1 {
                assert(b.drop_last()[i] == b[i]);
                assert(h[2 * i] == front[2 * i]);
                assert(h[2 * i + 1] == front[2 * i + 1]);
            }
        }
    }
}

/// A hex digit's byte reads back as its value.
proof fn lemma_hex_digit_value(n: u8)
    requires
        n < 16,
    ensures
        spec_hex_value(spec_hex_digit(n) as u8) == Some(n),
        spec_hex_digit(n) as u8 != 0x2b,
        (spec_hex_digit(n) as u32) < 0x80,
{
    if n < 10 {
        assert(((n + 0x30) as char) as u32 == n + 0x30);
    } else {
        assert(((n - 10 + 0x61) as char) as u32 == n - 10 + 0x61);
    }
}

/// Decoding the hex bytes of `b` two at a time from pair `k` on, after
/// the first `k` bytes, gives `b`.
proof fn lemma_hex_pairs_written(b: Seq<u8>, e: Seq<u8>, k: int)
    requires
        0 <= k <= b.len(),
        e.len() == 2 * b.len(),
        forall|j: int| 0 <= j < e.len() ==> (#[trigger] e[j]) < 0x80,
        forall|i: int| 0 <= i < b.len() ==> spec_hex_pair(e[2 * i], e[2 * i + 1]) == Some(#[trigger] b[i]),
    ensures
        spec_hex_pairs(e, 2 * k, b.take(k)) == Ok::<Seq<u8>, Seq<char>>(b),
    decreases b.len() - k,
{
    if k == b.len() {
        assert(b.take(k) =~= b);
    } else {
        assert(spec_is_char_boundary(e, 2 * k));
        if 2 * k + 2 < e.len() {
            assert(e[2 * k + 2] < 0x80);
        }
        assert(spec_is_char_boundary(e, 2 * k + 2));
        assert(spec_hex_pair(e[2 * k], e[2 * k + 1]) == Some(b[k]));
        assert(b.take(k).push(b[k]) =~= b.take(k + 1));
        lemma_hex_pairs_written(b, e, k + 1);
    }
}

/// The hex text of bytes reads back as those bytes.
proof fn lemma_hex_round_trip(b: Seq<u8>)
    ensures
        spec_hex_to_bytes(spec_hex_lower(b)) == Ok::<Seq<u8>, Seq<char>>(b),
{
    let h = spec_hex_lower(b);
    lemma_hex_lower_index(b);
    lemma_hex_lower_plain(b);
    assert forall|i: int| 0 <= i < h.len() implies '\0' <= #[trigger] h[i] <= '\u{7f}' by {}
    assert(is_ascii_chars(h));
    is_ascii_chars_encode_utf8(h);
    let e = encode_utf8(h);
    assert(e.len() == h.len());
    assert forall|j: int| 0 <= j < e.len() implies (#[trigger] e[j]) < 0x80 by {
        assert(h[j] as u8 == e[j]);
    }
    assert forall|i: int| 0 <= i < b.len() implies spec_hex_pair(e[2 * i], e[2 * i + 1]) == Some(#[trigger] b[i]) by {
        let hi = b[i] / 16;
        let lo = b[i] % 16;
        lemma_hex_digit_value(hi);
        lemma_hex_digit_value(lo);
        assert(h[2 * i] as u8 == e[2 * i]);
        assert(h[2 * i + 1] as u8 == e[2 * i + 1]);
        assert((hi * 16 + lo) as u8 == b[i]);
    }
    assert(e.len() % 2 == 0);
    assert(b.take(0) =~= Seq::<u8>::empty());
    lemma_hex_pairs_written(b, e, 0);
}

proof fn lemma_binary_written<G: Fn(&str) -> Option<u64>>(bytes: Seq<u8>, g: G, c: Seq<char>, p: int, fuel: nat)
    requires
        spec_holds(c, p, "b"@ + spec_nat_decimal(2 * bytes.len()) + "\""@ + spec_hex_lower(bytes) + "\""@),
        fuel >= 1,
    ensures
        spec_nvalue(c, p, fuel, g) == Ok::<(OsdModel, int), Seq<char>>(
            (OsdModel::Binary(bytes), p + ("b"@ + spec_nat_decimal(2 * bytes.len()) + "\""@ + spec_hex_lower(bytes) + "\""@).len()),
        ),
{
    reveal_strlit("b");
    reveal_strlit("\"");
    let d = spec_nat_decimal(2 * bytes.len());
    let h = spec_hex_lower(bytes);
    let t = "b"@ + d + "\""@ + h + "\""@;
    assert(t =~= "b"@ + (d + spec_quoted(h, '"'))) by {
        lemma_hex_lower_plain(bytes);
        lemma_escape_plain(h, '"');
    }
    lemma_holds_split(c, p, "b"@, d + spec_quoted(h, '"'));
    lemma_holds_split(c, p + 1, d, spec_quoted(h, '"'));
    lemma_holds_at(c, p, "b"@, 0);
    assert(spec_skip_ws(c, p) == p);
    lemma_nat_decimal(2 * bytes.len());
    let qp = p + 1 + d.len();
    lemma_quoted_text_at(c, qp, h);
    assert forall|i: int| p + 1 <= i < qp implies spec_is_number_char(#[trigger] c[i]) by {
        lemma_holds_at(c, p + 1, d, i - p - 1);
    }
    lemma_number_end(c, p + 1, qp);
    assert(spec_skip_ws(c, qp) == qp);
    lemma_hex_round_trip(bytes);
    lemma_hex_lower_plain(bytes);
    lemma_escape_plain(h, '"');
}

/// The values the notation form carries unchanged: scalars as
/// `spec_scalar_exact` says, arrays of such values, and maps of such values
/// without repeated keys.
pub open spec fn spec_notation_exact<F: Fn(u64) -> String, G: Fn(&str) -> Option<u64>>(m: OsdModel, f: F, g: G) -> bool
    decreases m,
{
    match m {
        OsdModel::Array(items) => forall|i: int| 0 <= i < items.len() ==> spec_notation_exact(#[trigger] items[i], f, g),
        OsdModel::Dict(entries) => {
            &&& forall|i: int, j: int| 0 <= i < j < entries.len() ==> (#[trigger] entries[i]).0 != (#[trigger] entries[j]).0
            &&& forall|i: int| 0 <= i < entries.len() ==> spec_notation_exact((#[trigger] entries[i]).1, f, g)
        },
        _ => spec_scalar_exact(m, f, g),
    }
}

/// A value's notation is not empty and does not start with whitespace.
proof fn lemma_first_char<F: Fn(u64) -> String>(m: OsdModel, f: F)
    ensures
        spec_notation(m, f).len() >= 1,
        !spec_is_whitespace(spec_notation(m, f)[0]),
        spec_notation(m, f)[0] != ']' && spec_notation(m, f)[0] != '}',
{
    reveal_strlit("!");
    reveal_strlit("true");
    reveal_strlit("false");
    reveal_strlit("i");
    reveal_strlit("rNaN");
    reveal_strlit("rinf");
    reveal_strlit("r-inf");
    reveal_strlit("r");
    reveal_strlit("u\"");
    reveal_strlit("\"");
    reveal_strlit("l");
    reveal_strlit("d\"");
    reveal_strlit("b");
    reveal_strlit("[");
    reveal_strlit("]");
    reveal_strlit("{");
    reveal_strlit("}");
    let n = spec_notation(m, f);
    match m {
        OsdModel::Real(b) => {
            let r = spec_real_notation(b, f);
            assert(r.len() >= 1 && r[0] == 'r');
        },
        OsdModel::String(s) => {
            assert(n == seq!['"'] + spec_escape_body(s, '"') + seq!['"']);
            assert(n[0] == '"');
        },
        OsdModel::Uri(s) => {
            assert(n[0] == 'l');
        },
        _ => {},
    }
}

/// Comma-separated notations of `a + b` are those of `a`, a comma, and
/// those of `b`.
proof fn lemma_items_concat<F: Fn(u64) -> String>(a: Seq<OsdModel>, b: Seq<OsdModel>, f: F)
    requires
        a.len() > 0,
        b.len() > 0,
    ensures
        spec_notation_items(a + b, f) == spec_notation_items(a, f) + ","@ + spec_notation_items(b, f),
    decreases b.len(),
{
    let ab = a + b;
    assert(ab.subrange(0, ab.len() - 1) =~= a + b.subrange(0, b.len() - 1));
    assert(ab[ab.len() - 1] == b[b.len() - 1]);
    if b.len() == 1 {
        assert(a + b.subrange(0, 0) =~= a);
    } else {
        lemma_items_concat(a, b.subrange(0, b.len() - 1), f);
    }
}

/// The same for map entries.
proof fn lemma_entries_concat<F: Fn(u64) -> String>(a: Seq<(Seq<char>, OsdModel)>, b: Seq<(Seq<char>, OsdModel)>, f: F)
    requires
        a.len() > 0,
        b.len() > 0,
    ensures
        spec_notation_entries(a + b, f) == spec_notation_entries(a, f) + ","@ + spec_notation_entries(b, f),
    decreases b.len(),
{
    let ab = a + b;
    assert(ab.subrange(0, ab.len() - 1) =~= a + b.subrange(0, b.len() - 1));
    assert(ab[ab.len() - 1] == b[b.len() - 1]);
    if b.len() == 1 {
        assert(a + b.subrange(0, 0) =~= a);
    } else {
        lemma_entries_concat(a, b.subrange(0, b.len() - 1), f);
    }
}

/// The notations of the items from `k` on: the first of them, then, when
/// there are more, a comma and the rest.
proof fn lemma_items_front<F: Fn(u64) -> String>(items: Seq<OsdModel>, k: int, f: F)
    requires
        0 <= k < items.len(),
    ensures
        spec_notation_items(items.subrange(k, items.len() as int), f) == if k + 1 == items.len() {
            spec_notation(items[k], f)
        } else {
            spec_notation(items[k], f) + ","@ + spec_notation_items(items.subrange(k + 1, items.len() as int), f)
        },
{
    let rest = items.subrange(k, items.len() as int);
    if k + 1 == items.len() {
        assert(rest =~= seq![items[k]]);
    } else {
        let tail = items.subrange(k + 1, items.len() as int);
        assert(rest =~= seq![items[k]] + tail);
        lemma_items_concat(seq![items[k]], tail, f);
        assert(spec_notation_items(seq![items[k]], f) == spec_notation(items[k], f));
    }
}

/// The same for map entries.
proof fn lemma_entries_front<F: Fn(u64) -> String>(entries: Seq<(Seq<char>, OsdModel)>, k: int, f: F)
    requires
        0 <= k < entries.len(),
    ensures
        spec_notation_entries(entries.subrange(k, entries.len() as int), f) == if k + 1 == entries.len() {
            spec_notation_entry(entries[k], f)
        } else {
            spec_notation_entry(entries[k], f) + ","@ + spec_notation_entries(entries.subrange(k + 1, entries.len() as int), f)
        },
{
    let rest = entries.subrange(k, entries.len() as int);
    if k + 1 == entries.len() {
        assert(rest =~= seq![entries[k]]);
    } else {
        let tail = entries.subrange(k + 1, entries.len() as int);
        assert(rest =~= seq![entries[k]] + tail);
        lemma_entries_concat(seq![entries[k]], tail, f);
        assert(spec_notation_entries(seq![entries[k]], f) == spec_notation_entry(entries[k], f));
    }
}

/// A value written at `p` of `c`, followed by the end or a stop
/// character, reads back as itself, ending where its notation ends, given
/// three units of fuel per character.
#[verifier::spinoff_prover]
proof fn lemma_value_written<F: Fn(u64) -> String, G: Fn(&str) -> Option<u64>>(
    m: OsdModel,
    f: F,
    g: G,
    c: Seq<char>,
    p: int,
    fuel: nat,
)
    requires
        spec_notation_exact(m, f, g),
        spec_written_at(m, f, c, p),
        fuel >= 3 * spec_notation(m, f).len(),
    ensures
        spec_nvalue(c, p, fuel, g) == Ok::<(OsdModel, int), Seq<char>>((m, p + spec_notation(m, f).len())),
    decreases m, 0nat,
{
    reveal_strlit("!");
    reveal_strlit("true");
    reveal_strlit("false");
    reveal_strlit("i");
    reveal_strlit("r");
    reveal_strlit("rNaN");
    reveal_strlit("rinf");
    reveal_strlit("r-inf");
    reveal_strlit("NaN");
    reveal_strlit("inf");
    reveal_strlit("-inf");
    reveal_strlit("u\"");
    reveal_strlit("d\"");
    reveal_strlit("\"");
    reveal_strlit("l");
    reveal_strlit("[");
    reveal_strlit("]");
    reveal_strlit("{");
    reveal_strlit("}");
    let n = spec_notation(m, f);
    lemma_first_char(m, f);
    match m {
        OsdModel::Undef => {
            assert(n == "!"@);
            assert(n.len() == 1);
            lemma_undef_written(g, c, p, fuel);
        },
        OsdModel::Boolean(v) => {
            lemma_bool_written(v, g, c, p, fuel);
        },
        OsdModel::Integer(v) => {
            lemma_int_written(v, g, c, p, fuel);
        },
        OsdModel::Real(b) => {
            if b == NAN_BITS {
                assert(spec_f64_is_nan(b));
                assert(n == "r"@ + "NaN"@);
                lemma_special_real_written("NaN"@, b, g, c, p, fuel);
            } else if b == INFINITY_BITS {
                assert(spec_f64_is_inf(b) && !spec_f64_is_nan(b) && !spec_f64_neg(b));
                assert(n == "r"@ + "inf"@);
                lemma_special_real_written("inf"@, b, g, c, p, fuel);
            } else if b == NEG_INFINITY_BITS {
                assert(spec_f64_is_inf(b) && !spec_f64_is_nan(b) && spec_f64_neg(b));
                assert(n == "r"@ + "-inf"@);
                lemma_special_real_written("-inf"@, b, g, c, p, fuel);
            } else {
                lemma_finite_real_written(spec_real_text(f, b), b, g, c, p, fuel);
            }
        },
        OsdModel::UUID(u) => {
            lemma_hyphenated_plain(u);
            lemma_escape_plain(spec_uuid_hyphenated(u), '"');
            assert(n =~= seq!['u'] + spec_quoted(spec_uuid_hyphenated(u), '"'));
            lemma_uuid_written(u, g, c, p, fuel);
        },
        OsdModel::String(s) => {
            lemma_string_written(s, g, c, p, fuel);
        },
        OsdModel::Uri(s) => {
            assert(n =~= seq!['l'] + spec_quoted(s, '"'));
            lemma_uri_written(s, g, c, p, fuel);
        },
        OsdModel::Date(secs, nanos) => {
            lemma_escape_plain(chrono_rfc3339(secs, nanos), '"');
            assert(n =~= seq!['d'] + spec_quoted(chrono_rfc3339(secs, nanos), '"'));
            lemma_date_written(secs, nanos, g, c, p, fuel);
        },
        OsdModel::Binary(bytes) => {
            lemma_binary_written(bytes, g, c, p, fuel);
        },
        OsdModel::Array(items) => {
            lemma_array_written(items, f, g, c, p, fuel);
        },
        OsdModel::Dict(entries) => {
            lemma_dict_written(entries, f, g, c, p, fuel);
        },
    }
}

/// An array written at `p`, followed by the end or a stop character, reads
/// back as itself.
proof fn lemma_array_written<F: Fn(u64) -> String, G: Fn(&str) -> Option<u64>>(
    items: Seq<OsdModel>,
    f: F,
    g: G,
    c: Seq<char>,
    p: int,
    fuel: nat,
)
    requires
        spec_notation_exact(OsdModel::Array(items), f, g),
        spec_written_at(OsdModel::Array(items), f, c, p),
        fuel >= 3 * spec_notation(OsdModel::Array(items), f).len(),
    ensures
        spec_nvalue(c, p, fuel, g) == Ok::<(OsdModel, int), Seq<char>>(
            (OsdModel::Array(items), p + spec_notation(OsdModel::Array(items), f).len()),
        ),
    decreases items, items.len() + 1,
{
    reveal_strlit("[");
    reveal_strlit("]");
    reveal_strlit("{");
    reveal_strlit("}");
    reveal_strlit(",");
    let m = OsdModel::Array(items);
    let n = spec_notation(m, f);

            let body = spec_notation_items(items, f);
            assert(n == "["@ + body + "]"@);
            assert(n =~= "["@ + (body + "]"@));
            lemma_holds_split(c, p, "["@, body + "]"@);
            lemma_holds_split(c, p + 1, body, "]"@);
            lemma_holds_at(c, p, "["@, 0);
            lemma_holds_at(c, p + 1 + body.len(), "]"@, 0);
            assert(body.len() == 0 ==> body + "]"@ =~= "]"@);
            assert(spec_skip_ws(c, p) == p);
            if items.len() == 0 {
                assert(body.len() == 0);
                assert(items =~= Seq::<OsdModel>::empty());
                assert(c[p + 1] == ']');
                assert(spec_skip_ws(c, p + 1) == p + 1);
                assert(spec_narray(c, p + 1, (fuel - 1) as nat, g) == Ok::<(OsdModel, int), Seq<char>>((m, p + 2)));
            } else {
                assert(items.subrange(0, items.len() as int) =~= items);
                lemma_items_front(items, 0, f);
                lemma_first_char(items[0], f);
                lemma_holds_at(c, p + 1, body, 0);
                assert(body[0] == spec_notation(items[0], f)[0]);
                assert(spec_skip_ws(c, p + 1) == p + 1);
                assert(items.subrange(0, 0) =~= Seq::<OsdModel>::empty());
                lemma_items_written(items, 0, f, g, c, p + 1, (fuel - 2) as nat);
                assert(c[p + 1] != ']');
                assert(spec_narray(c, p + 1, (fuel - 1) as nat, g) == Ok::<(OsdModel, int), Seq<char>>((m, p + n.len())));
            }
}

/// A map written at `p`, followed by the end or a stop character, reads
/// back as itself.
proof fn lemma_dict_written<F: Fn(u64) -> String, G: Fn(&str) -> Option<u64>>(
    entries: Seq<(Seq<char>, OsdModel)>,
    f: F,
    g: G,
    c: Seq<char>,
    p: int,
    fuel: nat,
)
    requires
        spec_notation_exact(OsdModel::Dict(entries), f, g),
        spec_written_at(OsdModel::Dict(entries), f, c, p),
        fuel >= 3 * spec_notation(OsdModel::Dict(entries), f).len(),
    ensures
        spec_nvalue(c, p, fuel, g) == Ok::<(OsdModel, int), Seq<char>>(
            (OsdModel::Dict(entries), p + spec_notation(OsdModel::Dict(entries), f).len()),
        ),
    decreases entries, entries.len() + 1,
{
    reveal_strlit("[");
    reveal_strlit("]");
    reveal_strlit("{");
    reveal_strlit("}");
    reveal_strlit(",");
    let m = OsdModel::Dict(entries);
    let n = spec_notation(m, f);

            let body = spec_notation_entries(entries, f);
            assert(n == "{"@ + body + "}"@);
            assert(n =~= "{"@ + (body + "}"@));
            lemma_holds_split(c, p, "{"@, body + "}"@);
            lemma_holds_split(c, p + 1, body, "}"@);
            lemma_holds_at(c, p, "{"@, 0);
            lemma_holds_at(c, p + 1 + body.len(), "}"@, 0);
            assert(spec_skip_ws(c, p) == p);
            if entries.len() == 0 {
                assert(body.len() == 0);
                assert(entries =~= Seq::<(Seq<char>, OsdModel)>::empty());
                assert(c[p + 1] == '}');
                assert(spec_skip_ws(c, p + 1) == p + 1);
                assert(spec_nmap(c, p + 1, (fuel - 1) as nat, g) == Ok::<(OsdModel, int), Seq<char>>((m, p + 2)));
            } else {
                assert(entries.subrange(0, entries.len() as int) =~= entries);
                lemma_entries_front(entries, 0, f);
                reveal_strlit(":");
                let e0 = spec_notation_entry(entries[0], f);
                assert(e0 == spec_quoted(entries[0].0, '\'') + ":"@ + spec_notation(entries[0].1, f));
                assert(e0[0] == '\'');
                lemma_holds_at(c, p + 1, body, 0);
                assert(spec_skip_ws(c, p + 1) == p + 1);
                assert(entries.subrange(0, 0) =~= Seq::<(Seq<char>, OsdModel)>::empty());
                lemma_entries_written(entries, 0, f, g, c, p + 1, (fuel - 2) as nat);
                assert(c[p + 1] != '}');
                assert(spec_nmap(c, p + 1, (fuel - 1) as nat, g) == Ok::<(OsdModel, int), Seq<char>>((m, p + n.len())));
            }
}

/// The items from `k` on, written at `p` and closed by `]`, read back
/// after the items before `k`: all the items, ending after the `]`.
#[verifier::spinoff_prover]
proof fn lemma_items_written<F: Fn(u64) -> String, G: Fn(&str) -> Option<u64>>(
    items: Seq<OsdModel>,
    k: int,
    f: F,
    g: G,
    c: Seq<char>,
    p: int,
    fuel: nat,
)
    requires
        0 <= k < items.len(),
        forall|i: int| 0 <= i < items.len() ==> spec_notation_exact(#[trigger] items[i], f, g),
        spec_holds(c, p, spec_notation_items(items.subrange(k, items.len() as int), f) + "]"@),
        fuel >= 3 * spec_notation_items(items.subrange(k, items.len() as int), f).len() + 1,
    ensures
        spec_nitems(c, p, fuel, items.subrange(0, k), g) == Ok::<(OsdModel, int), Seq<char>>(
            (OsdModel::Array(items), p + spec_notation_items(items.subrange(k, items.len() as int), f).len() + 1),
        ),
    decreases items, items.len() - k,
{
    reveal_strlit(",");
    reveal_strlit("]");
    let rest = spec_notation_items(items.subrange(k, items.len() as int), f);
    let x = items[k];
    let nx = spec_notation(x, f);
    lemma_items_front(items, k, f);
    lemma_first_char(x, f);
    lemma_holds_split(c, p, rest, "]"@);
    let j = p + nx.len();
    if k + 1 == items.len() {
        assert(rest == nx);
        lemma_holds_at(c, p + rest.len(), "]"@, 0);
    } else {
        let tail = spec_notation_items(items.subrange(k + 1, items.len() as int), f);
        assert(rest == nx + ","@ + tail);
        lemma_holds_split(c, p, nx + ","@, tail);
        lemma_holds_split(c, p, nx, ","@);
        lemma_holds_at(c, j, ","@, 0);
    }
    assert(rest + "]"@ =~= nx + (rest.subrange(nx.len() as int, rest.len() as int) + "]"@));
    lemma_holds_split(c, p, nx, rest.subrange(nx.len() as int, rest.len() as int) + "]"@);
    lemma_holds_at(c, p, nx, 0);
    assert(spec_skip_ws(c, p) == p);
    assert(spec_written_at(x, f, c, p));
    lemma_value_written(x, f, g, c, p, (fuel - 1) as nat);
    assert(spec_skip_ws(c, j) == j);
    let acc2 = items.subrange(0, k).push(x);
    assert(acc2 =~= items.subrange(0, k + 1));
    if k + 1 == items.len() {
        assert(acc2 =~= items);
    } else {
        let tail = spec_notation_items(items.subrange(k + 1, items.len() as int), f);
        assert(rest + "]"@ =~= (nx + ","@) + (tail + "]"@));
        lemma_holds_split(c, p, nx + ","@, tail + "]"@);
        lemma_items_written(items, k + 1, f, g, c, j + 1, (fuel - 1) as nat);
    }
}

/// The map entries from `k` on, written at `p` and closed by `}`, read back
/// into the entries before `k`: all the entries, ending after the `}`.
#[verifier::rlimit(40)]
#[verifier::spinoff_prover]
proof fn lemma_entries_written<F: Fn(u64) -> String, G: Fn(&str) -> Option<u64>>(
    entries: Seq<(Seq<char>, OsdModel)>,
    k: int,
    f: F,
    g: G,
    c: Seq<char>,
    p: int,
    fuel: nat,
)
    requires
        0 <= k < entries.len(),
        forall|i: int, j: int| 0 <= i < j < entries.len() ==> (#[trigger] entries[i]).0 != (#[trigger] entries[j]).0,
        forall|i: int| 0 <= i < entries.len() ==> spec_notation_exact((#[trigger] entries[i]).1, f, g),
        spec_holds(c, p, spec_notation_entries(entries.subrange(k, entries.len() as int), f) + "}"@),
        fuel >= 3 * spec_notation_entries(entries.subrange(k, entries.len() as int), f).len() + 1,
    ensures
        spec_nentries(c, p, fuel, entries.subrange(0, k), g) == Ok::<(OsdModel, int), Seq<char>>(
            (OsdModel::Dict(entries), p + spec_notation_entries(entries.subrange(k, entries.len() as int), f).len() + 1),
        ),
    decreases entries, entries.len() - k,
{
    reveal_strlit(",");
    reveal_strlit("}");
    reveal_strlit(":");
    let rest = spec_notation_entries(entries.subrange(k, entries.len() as int), f);
    let x = entries[k];
    let ex = spec_notation_entry(x, f);
    let key_text = spec_quoted(x.0, '\'');
    let nx = spec_notation(x.1, f);
    assert(ex == key_text + ":"@ + nx);
    lemma_entries_front(entries, k, f);
    lemma_first_char(x.1, f);
    let after = rest.subrange(ex.len() as int, rest.len() as int) + "}"@;
    if k + 1 == entries.len() {
        assert(rest == ex);
    } else {
        let tail = spec_notation_entries(entries.subrange(k + 1, entries.len() as int), f);
        assert(rest == ex + ","@ + tail);
    }
    assert(rest + "}"@ =~= key_text + (":"@ + (nx + after)));
    lemma_holds_split(c, p, key_text, ":"@ + (nx + after));
    lemma_holds_split(c, p + key_text.len(), ":"@, nx + after);
    lemma_holds_split(c, p + key_text.len() + 1, nx, after);
    let kj = p + key_text.len();
    let vp = kj + 1;
    let j = vp + nx.len();
    // The key.
    let e = spec_escape_body(x.0, '\'');
    assert(key_text == seq!['\''] + e + seq!['\'']);
    lemma_holds_split(c, p, seq!['\''] + e, seq!['\'']);
    lemma_holds_split(c, p, seq!['\''], e);
    lemma_holds_at(c, p, seq!['\''], 0);
    lemma_holds_at(c, p + 1 + e.len(), seq!['\''], 0);
    lemma_delimited_escaped(c, p + 1, x.0, '\'', Seq::empty());
    assert(Seq::<char>::empty() + x.0 =~= x.0);
    assert(spec_skip_ws(c, p) == p);
    assert(spec_nkey(c, p) == Ok::<(Seq<char>, int), Seq<char>>((x.0, kj)));
    lemma_holds_at(c, kj, ":"@, 0);
    assert(spec_skip_ws(c, kj) == kj);
    // The value.
    lemma_holds_at(c, vp, nx, 0);
    assert(spec_skip_ws(c, vp) == vp);
    assert(after.len() >= 1);
    if k + 1 == entries.len() {
        assert(after =~= "}"@);
    } else {
        assert(after[0] == ',');
    }
    lemma_holds_at(c, j, after, 0);
    assert(spec_written_at(x.1, f, c, vp));
    lemma_value_written(x.1, f, g, c, vp, (fuel - 1) as nat);
    assert(spec_skip_ws(c, j) == j);
    // The entry joins those before it.
    let acc = entries.subrange(0, k);
    lemma_first_index(spec_model_keys(acc), x.0);
    if spec_model_key_index(acc, x.0) is Some {
        let i = spec_model_key_index(acc, x.0)->0;
        assert(spec_model_keys(acc)[i] == acc[i].0);
        assert(entries[i].0 != entries[k].0);
    }
    assert(spec_model_insert(acc, x.0, x.1) =~= entries.subrange(0, k + 1));
    if k + 1 == entries.len() {
        assert(entries.subrange(0, k + 1) =~= entries);
    } else {
        let tail = spec_notation_entries(entries.subrange(k + 1, entries.len() as int), f);
        assert(after =~= ","@ + (tail + "}"@));
        lemma_holds_split(c, j, ","@, tail + "}"@);
        lemma_entries_written(entries, k + 1, f, g, c, j + 1, (fuel - 1) as nat);
    }
}

/// Notation round trip: a document written for a value (the header, then
/// the value's notation, its reals written by `f`) reads back as that
/// value (its reals read by `g`), for every value the notation form
/// carries unchanged.
pub proof fn lemma_notation_round_trip<F: Fn(u64) -> String, G: Fn(&str) -> Option<u64>>(m: OsdModel, f: F, g: G)
    requires
        spec_notation_exact(m, f, g),
    ensures
        spec_parse_notation(spec_notation_header() + spec_notation(m, f), g) == Ok::<OsdModel, Seq<char>>(m),
{
    reveal_strlit("<?llsd/notation?>\n");
    reveal_strlit("<?llsd/notation?>");
    let h = spec_notation_header();
    let n = spec_notation(m, f);
    let data = h + n;
    assert(data[0] == '<');
    assert(spec_trim_start(data) == data);
    let mark = spec_notation_mark();
    assert(mark.len() == 17);
    assert(data.subrange(0, 17) =~= mark);
    assert(data[17] == '\n');
    let rest = data.subrange(17, data.len() as int);
    assert(rest.drop_first() =~= n);
    lemma_first_char(m, f);
    assert(spec_trim_start(n) == n);
    assert(spec_trim_start(rest) == spec_trim_start(n));
    assert(n.subrange(0, n.len() as int) =~= n);
    lemma_value_written(m, f, g, n, 0, (3 * n.len() + 4) as nat);
}

/// Law: reading a quoted string undoes writing it. The text that
/// `write_escaped_string` writes for `s` between `d` quotes, read from just
/// past its opening quote, gives `s` back and ends after the closing quote.
pub proof fn lemma_escaped_string_read_back(s: Seq<char>, d: char)
    requires
        d == '"' || d == '\'',
    ensures
        spec_delimited(spec_quoted(s, d), 1, d, Seq::empty()) == Ok::<(Seq<char>, int), Seq<char>>(
            (s, spec_quoted(s, d).len() as int),
        ),
{
    let c = spec_quoted(s, d);
    let e = spec_escape_body(s, d);
    assert(c.subrange(1, 1 + e.len() as int) =~= e);
    assert(c[1 + e.len() as int] == d);
    lemma_delimited_escaped(c, 1, s, d, Seq::empty());
    assert(Seq::<char>::empty() + s =~= s);
}

/// Law: in notation the bare digit `0` is the boolean false and `1` the
/// boolean true. Wherever a value is read (a whole document, an array item,
/// a map value), a value whose first non-blank character is `0` reads as
/// false and one whose first is `1` reads as true, ending just after it.
pub proof fn lemma_notation_digit_booleans<G: Fn(&str) -> Option<u64>>(c: Seq<char>, p: int, fuel: nat, g: G)
    requires
        fuel > 0,
        0 <= spec_skip_ws(c, p) < c.len(),
        c[spec_skip_ws(c, p)] == '0' || c[spec_skip_ws(c, p)] == '1',
    ensures
        c[spec_skip_ws(c, p)] == '0' ==> spec_nvalue(c, p, fuel, g) == Ok::<(OsdModel, int), Seq<char>>(
            (OsdModel::Boolean(false), spec_skip_ws(c, p) + 1),
        ),
        c[spec_skip_ws(c, p)] == '1' ==> spec_nvalue(c, p, fuel, g) == Ok::<(OsdModel, int), Seq<char>>(
            (OsdModel::Boolean(true), spec_skip_ws(c, p) + 1),
        ),
{
}

/// Law: a notation document whose first non-blank character is `0` reads
/// as the boolean false, and one whose first is `1` as the boolean true.
pub proof fn lemma_notation_digit_document<G: Fn(&str) -> Option<u64>>(data: Seq<char>, g: G)
    requires
        spec_trim_start(data).len() > 0,
        spec_trim_start(data)[0] == '0' || spec_trim_start(data)[0] == '1',
    ensures
        spec_trim_start(data)[0] == '0' ==> spec_parse_notation(data, g) == Ok::<OsdModel, Seq<char>>(OsdModel::Boolean(false)),
        spec_trim_start(data)[0] == '1' ==> spec_parse_notation(data, g) == Ok::<OsdModel, Seq<char>>(OsdModel::Boolean(true)),
{
    reveal_strlit("<?llsd/notation?>");
    let t = spec_trim_start(data);
    let h = spec_notation_mark();
    assert(h[0] == '<');
    if t.len() >= h.len() {
        assert(t.subrange(0, h.len() as int)[0] == t[0]);
    }
    assert(spec_skip_ws(t, 0) == 0);
    lemma_notation_digit_booleans(t, 0, (3 * t.len() + 4) as nat, g);
}

} // verus!
