//! Conversions of IEEE-754 doubles, held as their 64-bit patterns, to
//! integers the way Rust's `as` converts a double: toward zero, saturating
//! at the bounds of the target type, and NaN to zero.

use vstd::arithmetic::power2::{lemma2_to64, lemma2_to64_rest, pow2};
use vstd::bits::lemma_u64_shr_is_div;
use vstd::bits::lemma_u64_shl_is_mul;
use vstd::prelude::*;

verus! {

/// The biased exponent field of a double.
pub open spec fn spec_f64_exp(b: u64) -> int {
    (b / 0x10000000000000) as int % 0x800
}

/// The fraction field of a double.
pub open spec fn spec_f64_frac(b: u64) -> int {
    b as int % 0x10000000000000
}

/// Whether the sign bit is set.
pub open spec fn spec_f64_neg(b: u64) -> bool {
    b >= 0x8000000000000000
}

/// Whether the double is NaN.
pub open spec fn spec_f64_is_nan(b: u64) -> bool {
    spec_f64_exp(b) == 0x7ff && spec_f64_frac(b) != 0
}

/// Whether the double is an infinity.
pub open spec fn spec_f64_is_inf(b: u64) -> bool {
    spec_f64_exp(b) == 0x7ff && spec_f64_frac(b) == 0
}

/// The significand as an integer: the fraction with the implicit leading
/// one of a normal number.
pub open spec fn spec_f64_significand(b: u64) -> int {
    if spec_f64_exp(b) == 0 {
        spec_f64_frac(b)
    } else {
        spec_f64_frac(b) + 0x10000000000000
    }
}

/// The integer part of the magnitude of a finite double, whose value is the
/// significand times two to the power of the exponent field less 1075.
pub open spec fn spec_f64_trunc_magnitude(b: u64) -> int {
    let e = spec_f64_exp(b);
    if e < 1075 {
        spec_f64_significand(b) / (pow2((1075 - e) as nat) as int)
    } else {
        spec_f64_significand(b) * (pow2((e - 1075) as nat) as int)
    }
}

/// `x as T` for a double and an integer type with bounds `lo..=hi`.
pub open spec fn spec_f64_as_int(b: u64, lo: int, hi: int) -> int {
    if spec_f64_is_nan(b) {
        0
    } else if spec_f64_is_inf(b) {
        if spec_f64_neg(b) {
            lo
        } else {
            hi
        }
    } else {
        let t = if spec_f64_neg(b) {
            -spec_f64_trunc_magnitude(b)
        } else {
            spec_f64_trunc_magnitude(b)
        };
        if t < lo {
            lo
        } else if t > hi {
            hi
        } else {
            t
        }
    }
}

/// `x as i32` for the double with bit pattern `b`.
pub open spec fn spec_f64_as_i32(b: u64) -> i32 {
    spec_f64_as_int(b, i32::MIN as int, i32::MAX as int) as i32
}

/// `x as i64` for the double with bit pattern `b`.
pub open spec fn spec_f64_as_i64(b: u64) -> i64 {
    spec_f64_as_int(b, i64::MIN as int, i64::MAX as int) as i64
}

/// The fields of a double, read with shifts and masks.
proof fn lemma_fields(b: u64)
    ensures
        (b >> 52u64) & 0x7ffu64 == spec_f64_exp(b),
        b & 0xfffffffffffffu64 == spec_f64_frac(b),
        (b >> 63u64 == 1u64) == spec_f64_neg(b),
        spec_f64_significand(b) < 0x20000000000000,
{
    assert((b >> 52u64) & 0x7ffu64 == (b / 0x10000000000000u64) % 0x800u64) by (bit_vector);
    assert(b & 0xfffffffffffffu64 == b % 0x10000000000000u64) by (bit_vector);
    assert((b >> 63u64 == 1u64) == (b >= 0x8000000000000000u64)) by (bit_vector);
}

/// The magnitude of a finite double below 2^`k` when its exponent field is
/// below 1023 + `k`.
proof fn lemma_trunc_bound(b: u64, k: nat)
    requires
        spec_f64_exp(b) < 1023 + k,
        k <= 63,
    ensures
        0 <= spec_f64_trunc_magnitude(b) < pow2(k),
{
    lemma_fields(b);
    let e = spec_f64_exp(b);
    let m = spec_f64_significand(b);
    lemma2_to64();
    lemma2_to64_rest();
    vstd::arithmetic::power2::lemma_pow2_pos(k);
    if e < 1075 {
        let d = pow2((1075 - e) as nat) as int;
        vstd::arithmetic::power2::lemma_pow2_pos((1075 - e) as nat);
        if e <= 1022 {
            if e < 1022 {
                vstd::arithmetic::power2::lemma_pow2_strictly_increases(53, (1075 - e) as nat);
            }
            assert(m < d);
            assert(m / d == 0) by (nonlinear_arith)
                requires
                    0 <= m < d,
            ;
        } else {
            let j = (e - 1022) as nat;
            vstd::arithmetic::power2::lemma_pow2_adds(j, (1075 - e) as nat);
            assert(pow2(53) == pow2(j) * pow2((1075 - e) as nat));
            vstd::arithmetic::div_mod::lemma_div_by_multiple_is_strongly_ordered(m, pow2(53) as int, pow2(j) as int, d);
            vstd::arithmetic::div_mod::lemma_div_multiples_vanish(pow2(j) as int, d);
            vstd::arithmetic::mul::lemma_mul_is_commutative(pow2(j) as int, d);
            if j < k {
                vstd::arithmetic::power2::lemma_pow2_strictly_increases(j, k);
            }
        }
        assert(0 <= m / d) by (nonlinear_arith)
            requires
                0 <= m,
                0 < d,
        ;
    } else {
        let s = (e - 1075) as nat;
        vstd::arithmetic::power2::lemma_pow2_adds(53, s);
        vstd::arithmetic::power2::lemma_pow2_pos(s);
        vstd::arithmetic::mul::lemma_mul_strict_inequality(m, pow2(53) as int, pow2(s) as int);
        if 53 + s < k {
            vstd::arithmetic::power2::lemma_pow2_strictly_increases(53 + s, k);
        }
    }
}

/// `x as i32` for the double with bit pattern `b`.
pub fn f64_bits_as_i32(b: u64) -> (r: i32)
    ensures
        r == spec_f64_as_i32(b),
{
    proof {
        lemma_fields(b);
        lemma2_to64();
        lemma2_to64_rest();
    }
    let e = (b >> 52u64) & 0x7ffu64;
    let frac = b & 0xfffffffffffffu64;
    let neg = (b >> 63u64) == 1u64;
    if e == 0x7ff {
        if frac != 0 {
            return 0;
        }
        return if neg { i32::MIN } else { i32::MAX };
    }
    if e < 1023 {
        proof {
            lemma_trunc_bound(b, 0);
        }
        return 0;
    }
    if e >= 1054 {
        proof {
            let m = spec_f64_significand(b);
            assert(m >= 0x10000000000000);
            if e < 1075 {
                let d = pow2((1075 - e) as nat) as int;
                vstd::arithmetic::power2::lemma_pow2_strictly_increases((1075 - e) as nat, 22);
                assert(d <= 0x200000);
                vstd::arithmetic::div_mod::lemma_div_is_ordered_by_denominator(m, d, 0x200000);
                vstd::arithmetic::div_mod::lemma_div_is_ordered(0x10000000000000, m, 0x200000);
                assert(0x10000000000000int / 0x200000int == 0x80000000int);
            } else {
                vstd::arithmetic::power2::lemma_pow2_pos((e - 1075) as nat);
                vstd::arithmetic::mul::lemma_mul_increases(pow2((e - 1075) as nat) as int, m);
            }
        }
        return if neg { i32::MIN } else { i32::MAX };
    }
    let m: u64 = frac | 0x10000000000000u64;
    let shift: u64 = 1075 - e;
    let t: u64 = m >> shift;
    proof {
        assert(frac | 0x10000000000000u64 == frac + 0x10000000000000u64) by (bit_vector)
            requires
                frac < 0x10000000000000u64,
        ;
        lemma_u64_shr_is_div(m, shift);
        lemma_trunc_bound(b, 31);
    }
    if neg {
        (0 - (t as i64)) as i32
    } else {
        t as i32
    }
}

/// `x as i64` for the double with bit pattern `b`.
pub fn f64_bits_as_i64(b: u64) -> (r: i64)
    ensures
        r == spec_f64_as_i64(b),
{
    proof {
        lemma_fields(b);
        lemma2_to64();
        lemma2_to64_rest();
    }
    let e = (b >> 52u64) & 0x7ffu64;
    let frac = b & 0xfffffffffffffu64;
    let neg = (b >> 63u64) == 1u64;
    if e == 0x7ff {
        if frac != 0 {
            return 0;
        }
        return if neg { i64::MIN } else { i64::MAX };
    }
    if e < 1023 {
        proof {
            lemma_trunc_bound(b, 0);
        }
        return 0;
    }
    if e >= 1086 {
        proof {
            let m = spec_f64_significand(b);
            let s = (e - 1075) as nat;
            vstd::arithmetic::power2::lemma_pow2_adds(52, s);
            if 63 < 52 + s {
                vstd::arithmetic::power2::lemma_pow2_strictly_increases(63, (52 + s) as nat);
            }
            vstd::arithmetic::mul::lemma_mul_inequality(0x10000000000000, m, pow2(s) as int);
        }
        return if neg { i64::MIN } else { i64::MAX };
    }
    let m: u64 = frac | 0x10000000000000u64;
    proof {
        assert(frac | 0x10000000000000u64 == frac + 0x10000000000000u64) by (bit_vector)
            requires
                frac < 0x10000000000000u64,
        ;
        lemma_trunc_bound(b, 63);
    }
    let t: u64 = if e < 1075 {
        let shift: u64 = 1075 - e;
        proof {
            lemma_u64_shr_is_div(m, shift);
        }
        m >> shift
    } else {
        let shift: u64 = e - 1075;
        proof {
            assert(m * pow2(shift as nat) < pow2(63));
            lemma_u64_shl_is_mul(m, shift);
        }
        m << shift
    };
    if neg {
        0 - (t as i64)
    } else {
        t as i64
    }
}

/// Number of binary digits of `n` (0 for 0).
pub open spec fn spec_bit_length(n: nat) -> nat
    decreases n,
{
    if n == 0 {
        0
    } else {
        1 + spec_bit_length(n / 2)
    }
}

/// `num / den` rounded to the nearest integer, ties to even.
pub open spec fn spec_round_div(num: nat, den: nat) -> nat {
    let q = num / den;
    let r = num % den;
    if 2 * r > den || (2 * r == den && q % 2 == 1) {
        q + 1
    } else {
        q
    }
}

/// The double nearest to the positive integer `m`, ties to even, as a
/// significand in `[2^52, 2^53)` and an exponent: `m` converted with `as f64`.
pub open spec fn spec_int_to_double(m: nat) -> (nat, int) {
    let l = spec_bit_length(m);
    if l <= 53 {
        (m * pow2((53 - l) as nat), l - 53)
    } else {
        let q = spec_round_div(m, pow2((l - 53) as nat));
        if q == pow2(53) {
            (pow2(52), l - 52)
        } else {
            (q, l - 53)
        }
    }
}

/// The double nearest to `sig * 2^exp / 10^6`, ties to even, for a
/// significand in `[2^52, 2^53)`: a double divided by `1e6`.
pub open spec fn spec_div_million(sig: nat, exp: int) -> (nat, int) {
    let t: nat = if sig >= 1000000 * pow2(33) {
        33
    } else {
        32
    };
    let q = spec_round_div(sig * pow2((52 - t) as nat), 1000000);
    if q == pow2(53) {
        (pow2(52), exp + t - 51)
    } else {
        (q, exp + t - 52)
    }
}

/// The bit pattern of `(micros as f64) / 1e6`: seconds from microseconds.
pub open spec fn spec_micros_to_seconds_bits(micros: int) -> u64 {
    if micros == 0 {
        0
    } else {
        let mag: nat = if micros < 0 {
            (-micros) as nat
        } else {
            micros as nat
        };
        let d1 = spec_int_to_double(mag);
        let d2 = spec_div_million(d1.0, d1.1);
        ((if micros < 0 {
            0x8000000000000000int
        } else {
            0int
        }) + (d2.1 + 1075) * 0x10000000000000 + (d2.0 - 0x10000000000000)) as u64
    }
}

pub(crate) proof fn lemma_bit_length_bounds(n: nat)
    requires
        n > 0,
    ensures
        spec_bit_length(n) >= 1,
        pow2((spec_bit_length(n) - 1) as nat) <= n < pow2(spec_bit_length(n)),
    decreases n,
{
    vstd::arithmetic::power2::lemma_pow2_unfold(spec_bit_length(n));
    if n == 1 {
        assert(spec_bit_length(0) == 0);
        lemma2_to64();
    } else {
        lemma_bit_length_bounds(n / 2);
        let l = spec_bit_length(n / 2);
        vstd::arithmetic::power2::lemma_pow2_unfold(l);
        vstd::arithmetic::power2::lemma_pow2_unfold(l + 1);
        if l >= 1 {
            vstd::arithmetic::power2::lemma_pow2_unfold(l);
        }
        assert(pow2((l + 1) as nat) == 2 * pow2(l));
        assert(pow2(l) == 2 * pow2((l - 1) as nat));
    }
}

/// Rounding `num / den` to nearest, ties to even, the way the bits are
/// computed: quotient, remainder, then a step up when past the half.
fn round_div_u128(num: u128, den: u128) -> (r: u128)
    requires
        den > 0,
        num / den < u128::MAX,
    ensures
        r == spec_round_div(num as nat, den as nat),
{
    let q = num / den;
    let rem = num % den;
    if rem > den - rem || (rem == den - rem && q % 2 == 1) {
        q + 1
    } else {
        q
    }
}

/// The double nearest to `mag`, as significand and exponent: `mag as f64`.
fn int_to_double(mag: u64) -> (r: (u64, i64))
    requires
        0 < mag < 0x8000000000000000,
    ensures
        (r.0 as nat, r.1 as int) == spec_int_to_double(mag as nat),
        0x10000000000000 <= r.0 < 0x20000000000000,
        -53 <= r.1 <= 12,
{
    proof {
        lemma2_to64();
        lemma2_to64_rest();
    }
    // Bit length of the magnitude.
    let mut l: u64 = 0;
    let mut x: u64 = mag;
    while x > 0
        invariant
            spec_bit_length(mag as nat) == l + spec_bit_length(x as nat),
            l <= 64,
            x < pow2((64 - l) as nat),
        decreases x,
    {
        proof {
            lemma2_to64();
            assert(l < 64);
            vstd::arithmetic::power2::lemma_pow2_unfold((64 - l) as nat);
        }
        x = x / 2;
        l = l + 1;
    }
    proof {
        lemma_bit_length_bounds(mag as nat);
        assert(mag < 0x8000000000000000);
        if l > 63 {
            vstd::arithmetic::power2::lemma_pow2_strictly_increases(63, (l - 1) as nat);
        }
    }
    // The double nearest to the magnitude.
    let mut sig: u64;
    let mut exp: i64;
    if l <= 53 {
        let sh: u64 = 53 - l;
        proof {
            vstd::arithmetic::power2::lemma_pow2_adds(l as nat, sh as nat);
            vstd::arithmetic::mul::lemma_mul_strict_inequality(mag as int, pow2(l as nat) as int, pow2(sh as nat) as int);
            vstd::arithmetic::power2::lemma_pow2_pos(sh as nat);
            vstd::arithmetic::mul::lemma_mul_inequality(pow2((l - 1) as nat) as int, mag as int, pow2(sh as nat) as int);
            vstd::arithmetic::power2::lemma_pow2_adds((l - 1) as nat, sh as nat);
            vstd::bits::lemma_u64_shl_is_mul(mag, sh);
        }
        sig = mag << sh;
        exp = (l as i64) - 53;
    } else {
        let k: u64 = l - 53;
        let d: u64 = 1u64 << k;
        proof {
            vstd::bits::lemma_u64_shl_is_mul(1u64, k);
            vstd::arithmetic::power2::lemma_pow2_adds(52, k as nat);
            vstd::arithmetic::power2::lemma_pow2_adds(53, k as nat);
            vstd::arithmetic::power2::lemma_pow2_pos(k as nat);
            vstd::arithmetic::div_mod::lemma_div_is_ordered((pow2(52) * pow2(k as nat)) as int, mag as int, d as int);
            vstd::arithmetic::div_mod::lemma_div_by_multiple_is_strongly_ordered(mag as int, (pow2(53) * pow2(k as nat)) as int, pow2(53) as int, d as int);
            vstd::arithmetic::div_mod::lemma_div_multiples_vanish(pow2(52) as int, d as int);
            vstd::arithmetic::div_mod::lemma_div_multiples_vanish(pow2(53) as int, d as int);
            vstd::arithmetic::mul::lemma_mul_is_commutative(pow2(52) as int, d as int);
            vstd::arithmetic::mul::lemma_mul_is_commutative(pow2(53) as int, d as int);
        }
        let q = round_div_u128(mag as u128, d as u128) as u64;
        if q == 0x20000000000000u64 {
            sig = 0x10000000000000u64;
            exp = (l as i64) - 52;
        } else {
            sig = q;
            exp = (l as i64) - 53;
        }
    }
    assert((sig as nat, exp as int) == spec_int_to_double(mag as nat));
    assert(0x10000000000000 <= sig < 0x20000000000000);
    (sig, exp)
}

/// The bit pattern of `(micros as f64) / 1e6`, computed on integers.
pub fn micros_to_seconds_bits(micros: i64) -> (r: u64)
    requires
        micros != i64::MIN,
    ensures
        r == spec_micros_to_seconds_bits(micros as int),
{
    if micros == 0 {
        return 0;
    }
    proof {
        lemma2_to64();
        lemma2_to64_rest();
    }
    let neg = micros < 0;
    let mag: u64 = if neg { (0 - micros) as u64 } else { micros as u64 };
    let (sig, exp) = int_to_double(mag);
    // Divided by one million.
    let t: u64 = if sig >= 8589934592000000u64 { 33 } else { 32 };
    let mult: u128 = if t == 33 { 0x80000 } else { 0x100000 };
    let num: u128 = (sig as u128) * mult;
    proof {
        assert(mult == pow2((52 - t) as nat));
        assert(num < 0x20000000000000 * 0x100000) by (nonlinear_arith)
            requires
                sig < 0x20000000000000,
                num == sig * mult,
                mult <= 0x100000,
        ;
    }
    let q2 = round_div_u128(num, 1000000);
    let (sig2, exp2): (u64, i64) = if q2 == 0x20000000000000u128 {
        (0x10000000000000u64, exp + (t as i64) - 51)
    } else {
        (q2 as u64, exp + (t as i64) - 52)
    };
    let sign: u64 = if neg { 0x8000000000000000u64 } else { 0 };
    sign + ((exp2 + 1075) as u64) * 0x10000000000000u64 + (sig2 - 0x10000000000000u64)
}


/// The bit pattern of `v as f64`: the double nearest to the integer `v`.
pub open spec fn spec_int_to_f64_bits(v: int) -> u64 {
    if v == 0 {
        0
    } else {
        let mag: nat = if v < 0 {
            (-v) as nat
        } else {
            v as nat
        };
        let d = spec_int_to_double(mag);
        ((if v < 0 {
            0x8000000000000000int
        } else {
            0int
        }) + (d.1 + 1075) * 0x10000000000000 + (d.0 - 0x10000000000000)) as u64
    }
}

/// The bit pattern of `v as f64`, computed on integers.
pub fn i32_to_f64_bits(v: i32) -> (r: u64)
    ensures
        r == spec_int_to_f64_bits(v as int),
{
    if v == 0 {
        return 0;
    }
    let neg = v < 0;
    let mag: u64 = if neg { (0 - (v as i64)) as u64 } else { v as u64 };
    let (sig, exp) = int_to_double(mag);
    let sign: u64 = if neg { 0x8000000000000000u64 } else { 0 };
    sign + ((exp + 1075) as u64) * 0x10000000000000u64 + (sig - 0x10000000000000u64)
}

/// Law: an `i32` converted to a double and back with `as` is unchanged.
pub proof fn lemma_i32_f64_round_trip(v: i32)
    ensures
        spec_f64_as_i32(spec_int_to_f64_bits(v as int)) == v,
{
    lemma2_to64();
    lemma2_to64_rest();
    let b = spec_int_to_f64_bits(v as int);
    if v == 0 {
        assert(spec_f64_exp(b) == 0);
        assert(spec_f64_frac(b) == 0);
        vstd::arithmetic::power2::lemma_pow2_pos(1075);
        assert(0int / (pow2(1075) as int) == 0);
    } else {
        let mag: nat = if v < 0 { (-v) as nat } else { v as nat };
        assert(1 <= mag <= 0x80000000);
        lemma_bit_length_bounds(mag);
        let l = spec_bit_length(mag);
        if l > 32 {
            vstd::arithmetic::power2::lemma_pow2_strictly_increases(32, (l - 1) as nat);
            if l - 1 > 32 {
            } else {
                assert(pow2((l - 1) as nat) == pow2(32));
            }
        }
        assert(l <= 32);
        let sh: nat = (53 - l) as nat;
        let sig: int = (mag * pow2(sh)) as int;
        vstd::arithmetic::power2::lemma_pow2_adds((l - 1) as nat, sh);
        vstd::arithmetic::power2::lemma_pow2_adds(l, sh);
        vstd::arithmetic::power2::lemma_pow2_pos(sh);
        assert(pow2((l - 1) as nat) * pow2(sh) <= sig) by (nonlinear_arith)
            requires
                pow2((l - 1) as nat) <= mag,
                sig == mag * pow2(sh),
                pow2(sh) > 0,
        ;
        assert(sig < pow2(l) * pow2(sh)) by (nonlinear_arith)
            requires
                mag < pow2(l),
                sig == mag * pow2(sh),
                pow2(sh) > 0,
        ;
        assert((l - 1) as nat + sh == 52);
        assert(l + sh == 53);
        assert(0x10000000000000 <= sig < 0x20000000000000);
        let e: int = l as int + 1022;
        let frac: int = sig - 0x10000000000000;
        let sgn: int = if v < 0 { 1 } else { 0 };
        assert(b as int == sgn * 0x8000000000000000 + e * 0x10000000000000 + frac);
        vstd::arithmetic::div_mod::lemma_fundamental_div_mod_converse(
            b as int,
            0x10000000000000,
            sgn * 0x800 + e,
            frac,
        );
        vstd::arithmetic::div_mod::lemma_fundamental_div_mod_converse(sgn * 0x800 + e, 0x800, sgn, e);
        assert(spec_f64_exp(b) == e);
        assert(spec_f64_frac(b) == frac);
        assert(spec_f64_neg(b) == (v < 0));
        assert(spec_f64_significand(b) == sig);
        assert(1075 - e == sh);
        vstd::arithmetic::div_mod::lemma_div_multiples_vanish(mag as int, pow2(sh) as int);
        assert(pow2(sh) * mag == sig) by (nonlinear_arith)
            requires
                sig == mag * pow2(sh),
        ;
        assert(spec_f64_trunc_magnitude(b) == mag);
    }
}

/// `f64::is_nan` on the bit pattern `b`.
pub fn f64_bits_is_nan(b: u64) -> (r: bool)
    ensures
        r == spec_f64_is_nan(b),
{
    proof {
        lemma_fields(b);
    }
    (b >> 52u64) & 0x7ffu64 == 0x7ff && b & 0xfffffffffffffu64 != 0
}

/// `f64::is_infinite` on the bit pattern `b`.
pub fn f64_bits_is_infinite(b: u64) -> (r: bool)
    ensures
        r == spec_f64_is_inf(b),
{
    proof {
        lemma_fields(b);
    }
    (b >> 52u64) & 0x7ffu64 == 0x7ff && b & 0xfffffffffffffu64 == 0
}

/// Whether the sign bit of the bit pattern `b` is set.
pub fn f64_bits_is_negative(b: u64) -> (r: bool)
    ensures
        r == spec_f64_neg(b),
{
    proof {
        lemma_fields(b);
    }
    b >> 63u64 == 1u64
}

} // verus!
