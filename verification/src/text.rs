//! Small verified text helpers: building strings character by character,
//! comparing string slices, and decimal integers as `std` writes and reads
//! them.

use vstd::prelude::*;
use vstd::std_specs::iter::IteratorSpec;
use vstd::utf8::{decode_utf8, encode_utf8_decode_utf8, valid_utf8};

verus! {

/// `String::push`: appends one character.
#[verifier::external_body]
pub(crate) fn string_push(s: &mut String, c: char)
    ensures
        final(s)@ == old(s)@.push(c),
{
    s.push(c)
}

/// `String::push_str`: appends a string slice.
#[verifier::external_body]
pub(crate) fn string_push_str(s: &mut String, t: &str)
    ensures
        final(s)@ == old(s)@ + t@,
{
    s.push_str(t)
}

/// `String::from_utf8`, keeping only whether it succeeded: the bytes are
/// accepted exactly when they are valid UTF-8, and then the string holds the
/// characters they encode.
#[verifier::external_body]
pub(crate) fn string_from_utf8(bytes: Vec<u8>) -> (r: Option<String>)
    ensures
        r is Some <==> valid_utf8(bytes@),
        r is Some ==> r->0@ == decode_utf8(bytes@),
{
    String::from_utf8(bytes).ok()
}

/// The characters `String::from_utf8_lossy` decodes from `bytes`: each
/// invalid sequence is replaced by U+FFFD.
pub uninterp spec fn utf8_lossy(bytes: Seq<u8>) -> Seq<char>;

/// `String::from_utf8_lossy(..).to_string()`. Valid UTF-8 decodes to the
/// characters it encodes.
#[verifier::external_body]
pub(crate) fn string_from_utf8_lossy(bytes: &[u8]) -> (r: String)
    ensures
        r@ == utf8_lossy(bytes@),
        valid_utf8(bytes@) ==> r@ == decode_utf8(bytes@),
{
    String::from_utf8_lossy(bytes).to_string()
}

/// The characters of a string slice, in order.
pub fn str_chars(s: &str) -> (r: Vec<char>)
    ensures
        r@ == s@,
{
    broadcast use vstd::string::axiom_spec_iter, vstd::string::next_postcondition;

    let mut out: Vec<char> = Vec::new();
    let mut it = s.chars();
    loop
        invariant
            it.obeys_prophetic_iter_laws(),
            out@ + it.remaining() == s@,
            it.decrease() is Some,
        ensures
            out@ == s@,
        decreases it.decrease()->0,
    {
        match it.next() {
            Some(c) => {
                let ghost before = out@;
                out.push(c);
            },
            None => {
                assert(out@ =~= s@);
                break;
            },
        }
    }
    out
}

/// Whether two string slices hold the same characters.
#[verifier::loop_isolation(false)]
pub fn str_eq(a: &str, b: &str) -> (r: bool)
    ensures
        r == (a@ == b@),
{
    let ab = a.as_bytes();
    let bb = b.as_bytes();
    proof {
        encode_utf8_decode_utf8(a@);
        encode_utf8_decode_utf8(b@);
    }
    if ab.len() != bb.len() {
        return false;
    }
    let mut i: usize = 0;
    while i < ab.len()
        invariant
            ab@.len() == bb@.len(),
            i <= ab@.len(),
            forall|j: int| 0 <= j < i ==> ab@[j] == bb@[j],
        decreases ab@.len() - i,
    {
        if ab[i] != bb[i] {
            return false;
        }
        i = i + 1;
    }
    assert(ab@ =~= bb@);
    true
}

/// The decimal digit character for `d < 10`.
pub open spec fn spec_digit_char(d: nat) -> char {
    (d + 0x30) as char
}

/// The decimal digits of `n`, most significant first, with no leading zero.
pub open spec fn spec_nat_decimal(n: nat) -> Seq<char>
    decreases n,
{
    if n < 10 {
        seq![spec_digit_char(n)]
    } else {
        spec_nat_decimal(n / 10).push(spec_digit_char(n % 10))
    }
}

/// How `Display` writes an integer: a `-` for negative values, then the
/// decimal digits of the magnitude.
pub open spec fn spec_int_decimal(v: int) -> Seq<char> {
    if v < 0 {
        seq!['-'] + spec_nat_decimal((-v) as nat)
    } else {
        spec_nat_decimal(v as nat)
    }
}

/// Whether `c` is an ASCII decimal digit.
pub open spec fn spec_is_digit(c: char) -> bool {
    '0' <= c <= '9'
}

/// The value of a string of decimal digits.
pub open spec fn spec_digits_value(s: Seq<char>) -> nat
    decreases s.len(),
{
    if s.len() == 0 {
        0
    } else {
        spec_digits_value(s.drop_last()) * 10 + ((s.last() as nat) - 0x30) as nat
    }
}

/// Whether `s` starts with a sign character.
pub open spec fn spec_sign_len(s: Seq<char>) -> int {
    if s.len() > 0 && (s[0] == '-' || s[0] == '+') {
        1
    } else {
        0
    }
}

/// The integer `std` reads from `s` (`FromStr` for integers): an optional
/// `+` or `-`, then one or more ASCII digits, nothing else.
pub open spec fn spec_parse_int(s: Seq<char>) -> Option<int> {
    let digits = s.skip(spec_sign_len(s));
    if digits.len() == 0 || !(forall|i: int| 0 <= i < digits.len() ==> spec_is_digit(#[trigger] digits[i])) {
        None
    } else if s[0] == '-' {
        Some(-(spec_digits_value(digits) as int))
    } else {
        Some(spec_digits_value(digits) as int)
    }
}

/// `str::parse::<i32>`: the value when `s` spells an integer that fits.
pub open spec fn spec_parse_i32(s: Seq<char>) -> Option<i32> {
    match spec_parse_int(s) {
        Some(v) => if i32::MIN <= v <= i32::MAX {
            Some(v as i32)
        } else {
            None
        },
        None => None,
    }
}

pub(crate) proof fn lemma_digits_value_push(s: Seq<char>, c: char)
    ensures
        spec_digits_value(s.push(c)) == spec_digits_value(s) * 10 + ((c as nat) - 0x30) as nat,
{
    assert(s.push(c).drop_last() =~= s);
}

/// Appending digits never makes the value smaller.
pub(crate) proof fn lemma_digits_value_mono(s: Seq<char>, k: int)
    requires
        0 <= k <= s.len(),
        forall|j: int| 0 <= j < s.len() ==> spec_is_digit(#[trigger] s[j]),
    ensures
        spec_digits_value(s) >= spec_digits_value(s.take(k)),
    decreases s.len(),
{
    if k < s.len() {
        let t = s.drop_last();
        assert(t.take(k) =~= s.take(k));
        assert forall|j: int| 0 <= j < t.len() implies spec_is_digit(#[trigger] t[j]) by {
            assert(t[j] == s[j]);
        }
        lemma_digits_value_mono(t, k);
    } else {
        assert(s.take(k) =~= s);
    }
}

/// Parse a decimal `i32` the way `str::parse::<i32>` does.
#[verifier::loop_isolation(false)]
pub fn parse_i32(s: &str) -> (r: Option<i32>)
    ensures
        r == spec_parse_i32(s@),
{
    let chars = str_chars(s);
    let n = chars.len();
    let mut start: usize = 0;
    let mut neg = false;
    if n > 0 && chars[0] == '-' {
        neg = true;
        start = 1;
    } else if n > 0 && chars[0] == '+' {
        start = 1;
    }
    let ghost digits = chars@.skip(start as int);
    assert(start == spec_sign_len(s@));
    assert(neg == (n > 0 && s@[0] == '-'));
    if start >= n {
        return None;
    }
    let mut acc: u64 = 0;
    let mut i: usize = start;
    while i < n
        invariant
            start <= i <= n,
            n == chars@.len(),
            digits == chars@.skip(start as int),
            forall|j: int| start <= j < i ==> spec_is_digit(#[trigger] chars@[j]),
            acc == spec_digits_value(chars@.subrange(start as int, i as int)),
            acc <= 0x80000000,
        decreases n - i,
    {
        let c = chars[i];
        if !('0' <= c && c <= '9') {
            assert(!spec_is_digit(digits[i - start]));
            return None;
        }
        let d = (c as u64) - 0x30;
        proof {
            lemma_digits_value_push(chars@.subrange(start as int, i as int), c);
            assert(chars@.subrange(start as int, i as int).push(c) =~= chars@.subrange(start as int, i + 1));
        }
        acc = acc * 10 + d;
        if acc > 0x80000000 {
            proof {
                if forall|j: int| 0 <= j < digits.len() ==> spec_is_digit(#[trigger] digits[j]) {
                    assert(chars@.subrange(start as int, i + 1) =~= digits.take(i + 1 - start));
                    lemma_digits_value_mono(digits, i + 1 - start);
                }
            }
            return None;
        }
        i = i + 1;
    }
    assert(chars@.subrange(start as int, n as int) =~= digits);
    if neg {
        Some((0 - (acc as i64)) as i32)
    } else if acc <= 0x7FFFFFFF {
        Some(acc as i32)
    } else {
        None
    }
}

/// Append the decimal digits of `n`.
pub(crate) fn push_nat_decimal(s: &mut String, n: u64)
    ensures
        final(s)@ == old(s)@ + spec_nat_decimal(n as nat),
    decreases n,
{
    if n >= 10 {
        push_nat_decimal(s, n / 10);
    }
    let d = n % 10;
    let c = char_from_digit(d);
    string_push(s, c);
    assert(final(s)@ =~= old(s)@ + spec_nat_decimal(n as nat));
}

/// Append the decimal digits of `n`.
pub(crate) fn push_u128_decimal(s: &mut String, n: u128)
    ensures
        final(s)@ == old(s)@ + spec_nat_decimal(n as nat),
    decreases n,
{
    if n >= 10 {
        push_u128_decimal(s, n / 10);
    }
    let d = (n % 10) as u64;
    let c = char_from_digit(d);
    string_push(s, c);
    assert(final(s)@ =~= old(s)@ + spec_nat_decimal(n as nat));
}

/// The character of a decimal digit.
fn char_from_digit(d: u64) -> (c: char)
    requires
        d < 10,
    ensures
        c == spec_digit_char(d as nat),
{
    let b = (d as u8) + 0x30;
    b as char
}

/// How `Display` writes an `i32`.
pub fn i32_to_string(v: i32) -> (r: String)
    ensures
        r@ == spec_int_decimal(v as int),
{
    let mut s = String::new();
    if v < 0 {
        string_push(&mut s, '-');
        let m: u64 = (0 - (v as i64)) as u64;
        push_nat_decimal(&mut s, m);
    } else {
        push_nat_decimal(&mut s, v as u64);
    }
    s
}


/// Whether `c` has the Unicode `White_Space` property, as
/// `char::is_whitespace` decides.
pub open spec fn spec_is_whitespace(c: char) -> bool {
    ||| '\u{9}' <= c <= '\u{d}'
    ||| c == ' '
    ||| c == '\u{85}'
    ||| c == '\u{a0}'
    ||| c == '\u{1680}'
    ||| '\u{2000}' <= c <= '\u{200a}'
    ||| c == '\u{2028}'
    ||| c == '\u{2029}'
    ||| c == '\u{202f}'
    ||| c == '\u{205f}'
    ||| c == '\u{3000}'
}

/// `char::is_whitespace`.
pub fn is_whitespace(c: char) -> (r: bool)
    ensures
        r == spec_is_whitespace(c),
{
    ('\u{9}' <= c && c <= '\u{d}') || c == ' ' || c == '\u{85}' || c == '\u{a0}' || c == '\u{1680}'
        || ('\u{2000}' <= c && c <= '\u{200a}') || c == '\u{2028}' || c == '\u{2029}' || c == '\u{202f}'
        || c == '\u{205f}' || c == '\u{3000}'
}

/// `s` without its leading whitespace.
pub open spec fn spec_trim_start(s: Seq<char>) -> Seq<char>
    decreases s.len(),
{
    if s.len() > 0 && spec_is_whitespace(s[0]) {
        spec_trim_start(s.drop_first())
    } else {
        s
    }
}

/// `s` without its trailing whitespace.
pub open spec fn spec_trim_end(s: Seq<char>) -> Seq<char>
    decreases s.len(),
{
    if s.len() > 0 && spec_is_whitespace(s.last()) {
        spec_trim_end(s.drop_last())
    } else {
        s
    }
}

/// `str::trim`: `s` without leading and trailing whitespace.
pub open spec fn spec_trim(s: Seq<char>) -> Seq<char> {
    spec_trim_end(spec_trim_start(s))
}

/// The characters from `start` up to `end`, as a string.
pub fn string_of_chars(chars: &Vec<char>, start: usize, end: usize) -> (r: String)
    requires
        start <= end <= chars@.len(),
    ensures
        r@ == chars@.subrange(start as int, end as int),
{
    let mut out = String::new();
    let mut i: usize = start;
    while i < end
        invariant
            start <= i <= end,
            end <= chars@.len(),
            out@ == chars@.subrange(start as int, i as int),
        decreases end - i,
    {
        string_push(&mut out, chars[i]);
        i = i + 1;
        assert(out@ =~= chars@.subrange(start as int, i as int));
    }
    out
}

/// `str::trim`, as a new string.
pub fn trim(s: &str) -> (r: String)
    ensures
        r@ == spec_trim(s@),
{
    let chars = str_chars(s);
    let n = chars.len();
    let mut a: usize = 0;
    assert(s@.subrange(0, n as int) =~= s@);
    while a < n && is_whitespace(chars[a])
        invariant
            a <= n,
            n == chars@.len(),
            spec_trim_start(s@) == spec_trim_start(s@.subrange(a as int, n as int)),
            chars@ == s@,
        decreases n - a,
    {
        let ghost t = s@.subrange(a as int, n as int);
        assert(t.drop_first() =~= s@.subrange(a + 1, n as int));
        a = a + 1;
    }
    let ghost u = s@.subrange(a as int, n as int);
    assert(spec_trim_start(s@) == u) by {
        if u.len() > 0 {
            assert(u[0] == chars@[a as int]);
        }
    }
    let mut b: usize = n;
    while b > a && is_whitespace(chars[b - 1])
        invariant
            a <= b <= n,
            n == chars@.len(),
            chars@ == s@,
            u == s@.subrange(a as int, n as int),
            spec_trim_end(u) == spec_trim_end(s@.subrange(a as int, b as int)),
        decreases b,
    {
        let ghost t = s@.subrange(a as int, b as int);
        assert(t.drop_last() =~= s@.subrange(a as int, b - 1));
        b = b - 1;
    }
    let ghost w = s@.subrange(a as int, b as int);
    assert(spec_trim_end(u) == w) by {
        if w.len() > 0 {
            assert(w.last() == chars@[b - 1]);
        }
    }
    assert(s@.subrange(0, n as int) =~= s@);
    string_of_chars(&chars, a, b)
}

} // verus!
