//! The integer content of a 64-bit binary floating-point bit pattern.
//!
//! Engine numbers cross the bridge as raw bit patterns, and the bridge must
//! decide — without floating-point arithmetic — whether such a pattern stands
//! for a mathematically exact integer, because integers and general numbers
//! take different writer calls. The format places a sign in bit 63, an
//! 11-bit biased exponent in bits 52..=62 and a 52-bit fraction below; a
//! normal pattern encodes `(2^52 + fraction) * 2^(exponent - 1075)` with the
//! sign applied.

use vstd::prelude::*;
use vstd::arithmetic::power2::{pow2, lemma_pow2_adds, lemma_pow2_pos, lemma_pow2_strictly_increases, lemma2_to64, lemma2_to64_rest};
use vstd::arithmetic::div_mod::{lemma_div_is_ordered, lemma_div_multiples_vanish, lemma_mod_multiples_basic};
use vstd::arithmetic::mul::lemma_mul_inequality;
use vstd::bits::{lemma_u64_shr_is_div, lemma_u64_shl_is_mul, lemma_u64_pow2_no_overflow};

verus! {

pub open spec fn exp_of(bits: u64) -> u64 {
    (bits >> 52) & 0x7ff
}

pub open spec fn frac_of(bits: u64) -> u64 {
    bits & 0x000f_ffff_ffff_ffff
}

pub open spec fn is_neg(bits: u64) -> bool {
    (bits >> 63) == 1
}

/// The significand of a normal pattern: the fraction with its implicit
/// leading bit restored.
pub open spec fn sig_of(bits: u64) -> u64 {
    (frac_of(bits) + 0x0010_0000_0000_0000) as u64
}

/// A not-a-number pattern: the exponent field saturated, the fraction
/// nonzero.
pub open spec fn is_nan(bits: u64) -> bool {
    exp_of(bits) == 0x7ff && frac_of(bits) != 0
}

pub open spec fn with_sign(bits: u64, mag: int) -> int {
    if is_neg(bits) {
        -mag
    } else {
        mag
    }
}

/// The exact integer a bit pattern encodes, when its mathematical value is
/// an integer: `None` for a value with a fractional part, an infinity or a
/// not-a-number pattern. Both zero patterns stand for the integer zero; a
/// nonzero subnormal lies strictly between zero and one and is never an
/// integer, and so does a normal pattern with a biased exponent below 1023.
pub open spec fn integer_value(bits: u64) -> Option<int> {
    if exp_of(bits) == 0 && frac_of(bits) == 0 {
        Some(0int)
    } else if exp_of(bits) == 0 || exp_of(bits) == 0x7ff {
        None
    } else if exp_of(bits) >= 1075 {
        Some(with_sign(bits, sig_of(bits) * pow2((exp_of(bits) - 1075) as nat)))
    } else if exp_of(bits) >= 1023 && frac_of(bits) as int % (pow2((1075 - exp_of(bits)) as nat) as int) == 0 {
        Some(with_sign(bits, sig_of(bits) as int / pow2((1075 - exp_of(bits)) as nat) as int))
    } else {
        None
    }
}

/// The integer a pattern encodes when that integer fits 32 signed bits:
/// the engine's own "is a 32-bit integer" tag on the model. The
/// negative-zero pattern is excluded: its mathematical value is zero, but
/// a signed-integer representation cannot keep the sign of zero, and the
/// engine does not tag it as an integer — it stays a number, so the sign
/// survives the round trip.
pub open spec fn int32_of_bits_spec(bits: u64) -> Option<i32> {
    if is_neg(bits) && exp_of(bits) == 0 && frac_of(bits) == 0 {
        None
    } else {
        match integer_value(bits) {
            Some(n) => if -0x8000_0000 <= n <= 0x7fff_ffff {
                Some(n as i32)
            } else {
                None
            },
            None => None,
        }
    }
}

/// Decides whether a floating-point bit pattern encodes a mathematically
/// exact integer that fits 32 signed bits, and which one.
pub fn int32_of_bits(bits: u64) -> (r: Option<i32>)
    ensures
        r == int32_of_bits_spec(bits),
{
    let e: u64 = (bits >> 52) & 0x7ff;
    let m: u64 = bits & 0x000f_ffff_ffff_ffff;
    let neg: bool = (bits >> 63) == 1;
    proof {
        assert(m < 0x0010_0000_0000_0000) by (bit_vector)
            requires
                m == bits & 0x000f_ffff_ffff_ffff,
        ;
        assert(e < 0x800) by (bit_vector)
            requires
                e == (bits >> 52) & 0x7ff,
        ;
    }
    if e == 0 && m == 0 {
        if neg {
            return None;
        }
        return Some(0i32);
    }
    if e < 1023 || e > 1054 {
        proof {
            lemma_out_of_reach_is_none_or_large(bits);
        }
        return None;
    }
    let k: u64 = 1075 - e;
    proof {
        lemma_u64_pow2_no_overflow(k as nat);
        lemma_u64_shl_is_mul(1u64, k);
    }
    let pow_k: u64 = 1u64 << k;
    if m % pow_k != 0 {
        return None;
    }
    let sig: u64 = m + 0x0010_0000_0000_0000;
    proof {
        lemma_u64_shr_is_div(sig, k);
        lemma_pow2_pos(k as nat);
        lemma_sig_div_bounds(sig, k as nat, e);
    }
    let mag: u64 = sig >> k;
    if neg {
        if mag <= 0x8000_0000 {
            Some((-(mag as i64)) as i32)
        } else {
            None
        }
    } else {
        if mag <= 0x7fff_ffff {
            Some(mag as i32)
        } else {
            None
        }
    }
}

/// The magnitude `sig / 2^k` of a normal pattern with biased exponent
/// 1023..=1054 lies between one and `2^(53 - k)`, so it always fits 33 bits.
proof fn lemma_sig_div_bounds(sig: u64, k: nat, e: u64)
    requires
        1023 <= e <= 1054,
        k == 1075 - e,
        0x0010_0000_0000_0000 <= sig < 0x0020_0000_0000_0000,
    ensures
        1 <= sig as int / pow2(k) as int,
        (sig as int / pow2(k) as int) < pow2((53 - k) as nat) as int,
        sig as nat / pow2(k) == sig as int / pow2(k) as int,
{
    lemma_pow2_pos(k);
    lemma2_to64();
    lemma2_to64_rest();
    assert(pow2(52) == 0x0010_0000_0000_0000);
    assert(pow2(53) == 0x0020_0000_0000_0000);
    // lower bound: sig >= 2^52 >= 2^k, so the quotient is at least one
    lemma_pow2_adds(k, (52 - k) as nat);
    lemma_pow2_pos((52 - k) as nat);
    lemma_div_is_ordered(pow2(k) as int, sig as int, pow2(k) as int);
    lemma_div_multiples_vanish(1int, pow2(k) as int);
    assert(pow2(k) as int <= sig as int) by {
        lemma_mul_inequality(1int, pow2((52 - k) as nat) as int, pow2(k) as int);
    }
    // upper bound: sig < 2^53 = 2^k * 2^(53-k)
    lemma_pow2_adds(k, (53 - k) as nat);
    assert((sig as int / pow2(k) as int) < pow2((53 - k) as nat) as int) by {
        vstd::arithmetic::div_mod::lemma_multiply_divide_lt(sig as int, pow2(k) as int, pow2((53 - k) as nat) as int);
    }
}

/// A pattern whose biased exponent lies outside 1023..=1054 never encodes
/// an integer that fits 32 signed bits: below 1023 the value is below one
/// in magnitude (or zero, handled separately), 1055 and above puts even the
/// smallest significand beyond the 32-bit range, and 2047 is an infinity or
/// a not-a-number pattern.
proof fn lemma_out_of_reach_is_none_or_large(bits: u64)
    requires
        !(exp_of(bits) == 0 && frac_of(bits) == 0),
        exp_of(bits) < 1023 || exp_of(bits) > 1054,
    ensures
        int32_of_bits_spec(bits) is None,
{
    let e = exp_of(bits);
    let f = frac_of(bits);
    lemma2_to64();
    lemma2_to64_rest();
    assert(f < 0x0010_0000_0000_0000) by (bit_vector)
        requires
            f == bits & 0x000f_ffff_ffff_ffff,
    ;
    if e < 1023 || e == 0x7ff {
        // below one in magnitude, infinite, or not a number: no branch yields an integer
    } else if e >= 1075 {
        // magnitude at least 2^52
        let j = (e - 1075) as nat;
        lemma_pow2_pos(j);
        assert(pow2(52) == 0x0010_0000_0000_0000);
        assert(sig_of(bits) * pow2(j) >= 0x0010_0000_0000_0000) by {
            lemma_mul_inequality(1int, pow2(j) as int, sig_of(bits) as int);
            vstd::arithmetic::mul::lemma_mul_is_commutative(sig_of(bits) as int, pow2(j) as int);
        }
    } else {
        // biased exponent 1055..=1074: the magnitude is at least 2^(52 - k)
        // with k at most 20, hence at least 2^32
        let k = (1075 - e) as nat;
        lemma_pow2_pos(k);
        if frac_of(bits) as int % (pow2(k) as int) == 0 {
            let sig = sig_of(bits);
            assert(pow2(52) == 0x0010_0000_0000_0000);
            lemma_pow2_adds(k, (52 - k) as nat);
            assert(pow2(k) * pow2((52 - k) as nat) <= sig);
            assert(sig as int / pow2(k) as int >= pow2((52 - k) as nat)) by {
                lemma_div_is_ordered((pow2(k) * pow2((52 - k) as nat)) as int, sig as int, pow2(k) as int);
                lemma_div_multiples_vanish(pow2((52 - k) as nat) as int, pow2(k) as int);
            }
            assert(pow2((52 - k) as nat) >= pow2(32)) by {
                if (52 - k) as nat != 32 {
                    lemma_pow2_strictly_increases(32, (52 - k) as nat);
                }
            }
            assert(pow2(32) == 0x1_0000_0000);
        }
    }
}

/// Encodes a 32-bit integer as the floating-point bit pattern whose value
/// is exactly that integer. Round trip: classifying the produced pattern
/// gives the integer back.
pub fn bits_of_i32(n: i32) -> (bits: u64)
    ensures
        int32_of_bits_spec(bits) == Some(n),
        integer_value(bits) == Some(n as int),
        is_neg(bits) == (n < 0),
{
    if n == 0 {
        proof {
            assert((0u64 >> 52) & 0x7ff == 0 && 0u64 & 0x000f_ffff_ffff_ffff == 0 && (0u64 >> 63)
                == 0) by (bit_vector);
        }
        return 0u64;
    }
    let neg: bool = n < 0;
    let a: u64 = if neg {
        (-(n as i64)) as u64
    } else {
        n as u64
    };
    let mut sig: u64 = a;
    let mut e: u64 = 1075;
    proof {
        lemma2_to64();
        assert(pow2(0) == 1);
        assert(a * 1 == a) by (nonlinear_arith);
    }
    while sig < 0x0010_0000_0000_0000
        invariant
            1 <= a <= 0x8000_0000,
            1023 <= e <= 1075,
            sig == a * pow2((1075 - e) as nat),
            sig < 0x0020_0000_0000_0000,
        decreases e,
    {
        proof {
            let s = (1075 - e) as nat;
            // the significand is at least 2^s, so s stays below 52 here
            lemma_pow2_pos(s);
            lemma_mul_inequality(1int, a as int, pow2(s) as int);
            vstd::arithmetic::mul::lemma_mul_is_commutative(a as int, pow2(s) as int);
            lemma2_to64();
            lemma2_to64_rest();
            if s >= 52 {
                if s != 52 {
                    lemma_pow2_strictly_increases(52, s);
                }
                assert(pow2(52) == 0x0010_0000_0000_0000);
                assert(false);
            }
            lemma_pow2_adds(s, 1);
            assert(pow2(1) == 2);
            assert(a * pow2(s + 1) == (a * pow2(s)) * 2) by (nonlinear_arith)
                requires
                    pow2(s + 1) == pow2(s) * 2,
            ;
        }
        sig = sig * 2;
        e = e - 1;
    }
    let m: u64 = sig - 0x0010_0000_0000_0000;
    let sign_field: u64 = if neg {
        0x8000_0000_0000_0000
    } else {
        0
    };
    proof {
        let s = (1075 - e) as nat;
        lemma2_to64();
        lemma2_to64_rest();
        // a is at most 2^31, so the significand reaches 2^52 only after
        // at least 21 doublings, keeping the biased exponent at most 1054
        if e > 1054 {
            lemma_pow2_pos(s);
            lemma_mul_inequality(a as int, 0x8000_0000int, pow2(s) as int);
            if s != 20 && s < 20 {
                lemma_pow2_strictly_increases(s, 20);
            }
            assert(pow2(20) == 0x10_0000);
            assert(false);
        }
    }
    let bits: u64 = sign_field + e * 0x0010_0000_0000_0000 + m;
    proof {
        let sgn: u64 = if neg { 1u64 } else { 0u64 };
        assert((bits >> 52) & 0x7ff == e && bits & 0x000f_ffff_ffff_ffff == m && (bits >> 63) == sgn)
            by (bit_vector)
            requires
                bits == sgn * 0x8000_0000_0000_0000 + e * 0x0010_0000_0000_0000 + m,
                sgn == 0 || sgn == 1,
                1023 <= e <= 1054,
                m < 0x0010_0000_0000_0000,
        ;
        let s = (1075 - e) as nat;
        lemma2_to64();
        lemma2_to64_rest();
        lemma_pow2_pos(s);
        assert(pow2(52) == 0x0010_0000_0000_0000);
        // the fraction is a multiple of 2^s: m == 2^s * (a - 2^(52 - s))
        lemma_pow2_adds(s, (52 - s) as nat);
        assert(m as int == pow2(s) as int * (a as int - pow2((52 - s) as nat) as int)) by {
            vstd::arithmetic::mul::lemma_mul_is_distributive_sub(pow2(s) as int, a as int, pow2((52 - s) as nat) as int);
            vstd::arithmetic::mul::lemma_mul_is_commutative(a as int, pow2(s) as int);
        }
        assert(m as int % (pow2(s) as int) == 0) by {
            lemma_mod_multiples_basic(a as int - pow2((52 - s) as nat) as int, pow2(s) as int);
            vstd::arithmetic::mul::lemma_mul_is_commutative(pow2(s) as int, a as int - pow2((52 - s) as nat) as int);
        }
        // dividing the significand by 2^s gives a back
        assert(sig as int / pow2(s) as int == a as int) by {
            lemma_div_multiples_vanish(a as int, pow2(s) as int);
            vstd::arithmetic::mul::lemma_mul_is_commutative(a as int, pow2(s) as int);
        }
    }
    bits
}

/// The value of a finite pattern truncated toward zero: the integer part
/// of the encoded magnitude with the sign applied, `None` for an infinity
/// or a not-a-number pattern.
pub open spec fn trunc_value(bits: u64) -> Option<int> {
    if exp_of(bits) == 0x7ff {
        None
    } else if exp_of(bits) < 1023 {
        Some(0int)
    } else if exp_of(bits) >= 1075 {
        Some(with_sign(bits, sig_of(bits) * pow2((exp_of(bits) - 1075) as nat)))
    } else {
        Some(with_sign(bits, sig_of(bits) as int / pow2((1075 - exp_of(bits)) as nat) as int))
    }
}

pub open spec fn trunc_i64_spec(bits: u64) -> Option<i64> {
    match trunc_value(bits) {
        Some(n) => if -0x8000_0000_0000_0000 <= n <= 0x7fff_ffff_ffff_ffff {
            Some(n as i64)
        } else {
            None
        },
        None => None,
    }
}

/// Truncates the value a pattern encodes toward zero, when the result fits
/// 64 signed bits: `None` for an infinity, a not-a-number pattern, or a
/// magnitude beyond that range.
pub fn trunc_i64_of_bits(bits: u64) -> (r: Option<i64>)
    ensures
        r == trunc_i64_spec(bits),
{
    let e: u64 = (bits >> 52) & 0x7ff;
    let m: u64 = bits & 0x000f_ffff_ffff_ffff;
    let neg: bool = (bits >> 63) == 1;
    proof {
        assert(m < 0x0010_0000_0000_0000 && e < 0x800) by (bit_vector)
            requires
                m == bits & 0x000f_ffff_ffff_ffff,
                e == (bits >> 52) & 0x7ff,
        ;
        lemma2_to64();
        lemma2_to64_rest();
    }
    if e == 0x7ff {
        return None;
    }
    if e < 1023 {
        return Some(0i64);
    }
    let sig: u64 = m + 0x0010_0000_0000_0000;
    if e < 1075 {
        let k: u64 = 1075 - e;
        proof {
            lemma_u64_shr_is_div(sig, k);
            lemma_pow2_pos(k as nat);
            lemma_u64_pow2_no_overflow(k as nat);
            lemma_mul_inequality(1int, pow2(k as nat) as int, sig as int);
            vstd::arithmetic::mul::lemma_mul_is_commutative(sig as int, pow2(k as nat) as int);
            vstd::arithmetic::div_mod::lemma_multiply_divide_le(sig as int, pow2(k as nat) as int, sig as int);
            vstd::arithmetic::div_mod::lemma_div_is_ordered(0int, sig as int, pow2(k as nat) as int);
        }
        let mag: u64 = sig >> k;
        if neg {
            return Some(-(mag as i64));
        } else {
            return Some(mag as i64);
        }
    }
    // biased exponent 1075 and above: the magnitude is the significand
    // scaled up, and only patterns up to 2^63 in magnitude fit
    if e >= 1086 {
        proof {
            lemma_overscaled_magnitude_large(e, sig);
        }
        if neg && e == 1086 && m == 0 {
            proof {
                lemma_pow2_adds(52, 11);
                assert(sig == pow2(52));
                assert(sig * pow2(11) == pow2(63));
            }
            return Some(i64::MIN);
        }
        return None;
    }
    let j: u64 = e - 1075;
    proof {
        lemma_u64_pow2_no_overflow(j as nat);
        lemma_pow2_pos(j as nat);
        // sig * 2^j stays below 2^53 * 2^10 = 2^63
        if (j as nat) < 10 {
            lemma_pow2_strictly_increases(j as nat, 10);
        }
        assert(pow2(10) == 0x400);
        lemma_mul_inequality(sig as int, 0x0020_0000_0000_0000int - 1, pow2(j as nat) as int);
        lemma_mul_inequality(pow2(j as nat) as int, pow2(10) as int, 0x0020_0000_0000_0000int - 1);
        vstd::arithmetic::mul::lemma_mul_is_commutative(0x0020_0000_0000_0000int - 1, pow2(j as nat) as int);
        vstd::arithmetic::mul::lemma_mul_is_commutative(0x0020_0000_0000_0000int - 1, pow2(10) as int);
        vstd::arithmetic::mul::lemma_mul_is_commutative(sig as int, pow2(j as nat) as int);
        lemma_mul_inequality(1int, pow2(j as nat) as int, sig as int);
        lemma_u64_shl_is_mul(sig, j);
    }
    let mag: u64 = sig << j;
    if neg {
        Some(-(mag as i64))
    } else {
        Some(mag as i64)
    }
}

/// Scaling a significand by 2^(e - 1075) with a biased exponent of at
/// least 1086 yields a magnitude of at least 2^63, and strictly above it
/// except for the pattern that encodes exactly minus 2^63.
proof fn lemma_overscaled_magnitude_large(e: u64, sig: u64)
    requires
        1086 <= e < 0x7ff,
        0x0010_0000_0000_0000 <= sig < 0x0020_0000_0000_0000,
    ensures
        sig * pow2((e - 1075) as nat) >= 0x8000_0000_0000_0000,
        (e == 1086 && sig == 0x0010_0000_0000_0000) || sig * pow2((e - 1075) as nat)
            > 0x8000_0000_0000_0000,
{
    let j = (e - 1075) as nat;
    lemma2_to64();
    lemma2_to64_rest();
    assert(pow2(52) == 0x0010_0000_0000_0000);
    assert(pow2(11) == 0x800);
    assert(pow2(12) == 0x1000);
    assert(pow2(63) == 0x8000_0000_0000_0000);
    assert(pow2(64) == 0x1_0000_0000_0000_0000);
    lemma_pow2_pos(j);
    lemma_pow2_adds(52, 11);
    lemma_pow2_adds(52, 12);
    if j == 11 {
        lemma_mul_inequality(pow2(52) as int, sig as int, pow2(11) as int);
        if sig != 0x0010_0000_0000_0000 {
            vstd::arithmetic::mul::lemma_mul_strict_inequality(pow2(52) as int, sig as int, pow2(11) as int);
        }
    } else {
        // twelve or more doublings past the significand width
        if j != 12 {
            lemma_pow2_strictly_increases(12, j);
        }
        lemma_mul_inequality(pow2(52) as int, sig as int, pow2(j) as int);
        lemma_mul_inequality(pow2(12) as int, pow2(j) as int, pow2(52) as int);
        vstd::arithmetic::mul::lemma_mul_is_commutative(pow2(52) as int, pow2(j) as int);
        vstd::arithmetic::mul::lemma_mul_is_commutative(pow2(52) as int, pow2(12) as int);
        vstd::arithmetic::mul::lemma_mul_is_commutative(sig as int, pow2(j) as int);
    }
}

} // verus!

