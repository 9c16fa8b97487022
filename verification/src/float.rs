//! Double-precision numbers, held as their IEEE-754 binary64 bit patterns.
//!
//! The library never computes with floating-point values: it reads the
//! fields of the bit pattern, compares numbers by the order that IEEE-754
//! gives them, and rounds them to whole lengths.  The text that displays a
//! number travels with it.
use vstd::prelude::*;
use vstd::arithmetic::power2::{pow2, lemma_pow2_pos, lemma_pow2_adds, lemma_pow2_strictly_increases, lemma2_to64, lemma2_to64_rest};
use vstd::bits::{lemma_u64_shl_is_mul, lemma_u64_shr_is_div};

verus! {

/// A double-precision number: its IEEE-754 binary64 bit pattern, the text
/// that `f64`'s `Display` gives it, and the text it has as a JSON number.
#[derive(Debug, Clone)]
pub struct Number64 {
    pub bits: u64,
    pub text: String,
    pub json_text: String,
}

/// 2^52, the weight of the lowest exponent bit.
pub open spec fn two52() -> nat {
    0x10_0000_0000_0000
}

/// 2^63, the weight of the sign bit.
pub open spec fn two63() -> nat {
    0x8000_0000_0000_0000
}

/// The biased exponent field (bits 52 to 62).
pub open spec fn exponent_field(b: u64) -> nat {
    ((b as nat) / two52()) % 2048
}

/// The fraction field (bits 0 to 51).
pub open spec fn fraction_field(b: u64) -> nat {
    (b as nat) % two52()
}

/// Whether the sign bit is set.
pub open spec fn sign_set(b: u64) -> bool {
    b as nat >= two63()
}

/// The bits below the sign bit, which order numbers of one sign by size.
pub open spec fn magnitude(b: u64) -> nat {
    (b as nat) % two63()
}

/// Whether the pattern is a NaN.
pub open spec fn is_nan(b: u64) -> bool {
    exponent_field(b) == 2047 && fraction_field(b) != 0
}

/// Whether the pattern is a finite number (neither infinite nor NaN).
pub open spec fn is_finite(b: u64) -> bool {
    exponent_field(b) != 2047
}

/// A key that orders numbers as IEEE-754 does: the magnitude, negated for
/// negative numbers (both zeros get the key 0).
pub open spec fn order_key(b: u64) -> int {
    if sign_set(b) {
        -(magnitude(b) as int)
    } else {
        magnitude(b) as int
    }
}

/// `a < b` on doubles: false when either is NaN.
pub open spec fn less_than(a: u64, b: u64) -> bool {
    !is_nan(a) && !is_nan(b) && order_key(a) < order_key(b)
}

/// Whether the number is `>= 0.0` (true of both zeros).
pub open spec fn is_non_negative(b: u64) -> bool {
    !is_nan(b) && order_key(b) >= 0
}

/// The integer significand: the fraction with the hidden bit of normal
/// numbers added.
pub open spec fn significand(b: u64) -> nat {
    if exponent_field(b) == 0 {
        fraction_field(b)
    } else {
        fraction_field(b) + two52()
    }
}

/// `floor(x / 2^k + 1/2)`: `x / 2^k` rounded to the nearest integer, halves
/// away from zero.
pub open spec fn round_scaled(x: nat, k: nat) -> nat {
    if k == 0 {
        x
    } else {
        (x + pow2((k - 1) as nat)) / pow2(k)
    }
}

/// A finite non-negative number rounded to the nearest integer, halves away
/// from zero (`f64::round`).  Its value is `significand * 2^(e - 1075)`,
/// or `significand * 2^-1074` when the exponent field `e` is 0.
pub open spec fn rounded(b: u64) -> nat {
    let e = exponent_field(b);
    if e >= 1075 {
        significand(b) * pow2((e - 1075) as nat)
    } else if e == 0 {
        round_scaled(significand(b), 1074)
    } else {
        round_scaled(significand(b), (1075 - e) as nat)
    }
}

/// The whole length that a bound stands for: a finite number that is not
/// below zero, rounded, and cut to the `u64` range; nothing otherwise.
pub open spec fn length_limit_of(b: u64) -> Option<u64> {
    if is_finite(b) && is_non_negative(b) {
        Some(
            if rounded(b) > u64::MAX as nat {
                u64::MAX
            } else {
                rounded(b) as u64
            },
        )
    } else {
        None
    }
}

proof fn lemma_fields(b: u64)
    ensures
        (b >> 52u64) & 0x7ffu64 == exponent_field(b),
        b & 0xf_ffff_ffff_ffffu64 == fraction_field(b),
        b & 0x7fff_ffff_ffff_ffffu64 == magnitude(b),
        (b >> 63u64 == 1u64) == sign_set(b),
{
    assert((b >> 52u64) & 0x7ffu64 == (b / 0x10_0000_0000_0000u64) % 2048u64) by (bit_vector);
    assert(b & 0xf_ffff_ffff_ffffu64 == b % 0x10_0000_0000_0000u64) by (bit_vector);
    assert(b & 0x7fff_ffff_ffff_ffffu64 == b % 0x8000_0000_0000_0000u64) by (bit_vector);
    assert((b >> 63u64 == 1u64) == (b >= 0x8000_0000_0000_0000u64)) by (bit_vector);
}

/// Whether a pattern is a NaN.
pub fn is_nan_bits(b: u64) -> (r: bool)
    ensures
        r == is_nan(b),
{
    proof {
        lemma_fields(b);
    }
    ((b >> 52) & 0x7ff) == 0x7ff && (b & 0xf_ffff_ffff_ffff) != 0
}

/// Whether a pattern is a finite number (`f64::is_finite`).
pub fn is_finite_bits(b: u64) -> (r: bool)
    ensures
        r == is_finite(b),
{
    proof {
        lemma_fields(b);
    }
    ((b >> 52) & 0x7ff) != 0x7ff
}

fn order_key_exec(b: u64) -> (r: i64)
    ensures
        r == order_key(b),
{
    proof {
        lemma_fields(b);
    }
    let m: u64 = b & 0x7fff_ffff_ffff_ffff;
    let k: i64 = m as i64;
    if (b >> 63) == 1 {
        -k
    } else {
        k
    }
}

/// `a < b` on doubles.
pub fn less_than_bits(a: u64, b: u64) -> (r: bool)
    ensures
        r == less_than(a, b),
{
    if is_nan_bits(a) || is_nan_bits(b) {
        false
    } else {
        order_key_exec(a) < order_key_exec(b)
    }
}

proof fn lemma_pow2_facts()
    ensures
        pow2(52) == two52(),
        pow2(53) == 2 * two52(),
        pow2(64) == u64::MAX as nat + 1,
{
    lemma2_to64();
    lemma2_to64_rest();
}

/// The length a bound stands for (`round` of a finite bound that is not
/// negative, as `u64`).
pub fn length_limit_bits(b: u64) -> (r: Option<u64>)
    ensures
        r == length_limit_of(b),
{
    proof {
        lemma_fields(b);
        lemma_pow2_facts();
    }
    let e: u64 = (b >> 52) & 0x7ff;
    let f: u64 = b & 0xf_ffff_ffff_ffff;
    let neg = (b >> 63) == 1;
    let mag: u64 = b & 0x7fff_ffff_ffff_ffff;
    if e == 0x7ff {
        return None;
    }
    assert(!is_nan(b));
    if neg && mag != 0 {
        return None;
    }
    assert(is_non_negative(b));
    let sig: u64 = if e == 0 {
        f
    } else {
        f + 0x10_0000_0000_0000
    };
    assert(sig == significand(b));
    assert(sig < 0x20_0000_0000_0000);
    if e >= 1075 {
        let k: u64 = e - 1075;
        if k >= 12 {
            proof {
                if k > 12 {
                    lemma_pow2_strictly_increases(12, k as nat);
                }
                lemma_pow2_adds(52, 12);
                assert(pow2(64) == pow2(52) * pow2(12));
                assert(sig >= two52());
                assert(sig as nat * pow2(k as nat) >= two52() * pow2(12)) by (nonlinear_arith)
                    requires
                        sig as nat >= two52(),
                        pow2(k as nat) >= pow2(12),
                ;
            }
            Some(u64::MAX)
        } else {
            proof {
                if k < 11 {
                    lemma_pow2_strictly_increases(k as nat, 11);
                }
                assert(pow2(11) == 2048) by {
                    lemma2_to64();
                }
                assert(sig as nat * pow2(k as nat) <= u64::MAX) by (nonlinear_arith)
                    requires
                        sig < 0x20_0000_0000_0000,
                        pow2(k as nat) <= 2048,
                ;
                lemma_u64_shl_is_mul(sig, k);
            }
            Some(sig << k)
        }
    } else {
        let k: u64 = if e == 0 {
            1074
        } else {
            1075 - e
        };
        if k >= 54 {
            proof {
                if k > 54 {
                    lemma_pow2_strictly_increases(53, (k - 1) as nat);
                }
                lemma_pow2_adds((k - 1) as nat, 1);
                assert(pow2(1) == 2) by {
                    lemma2_to64();
                }
                let p: nat = pow2((k - 1) as nat);
                let q: nat = pow2(k as nat);
                let x: nat = (sig + p) as nat;
                assert(x < q);
                lemma_pow2_pos(k as nat);
                assert(x / q == 0) by (nonlinear_arith)
                    requires
                        x < q,
                        0 < q,
                ;
            }
            Some(0)
        } else {
            proof {
                if k < 53 {
                    lemma_pow2_strictly_increases((k - 1) as nat, 52);
                }
                lemma_u64_shl_is_mul(1, (k - 1) as u64);
                lemma_u64_shr_is_div((sig + pow2((k - 1) as nat)) as u64, k);
            }
            let half: u64 = 1u64 << (k - 1);
            Some((sig + half) >> k)
        }
    }
}

/// The whole length a bound stands for, when there is a bound.
pub fn length_limit(value: &Option<Number64>) -> (r: Option<u64>)
    ensures
        r == match value {
            Some(v) => length_limit_of(v.bits),
            None => None,
        },
{
    match value {
        Some(v) => length_limit_bits(v.bits),
        None => None,
    }
}

} // verus!
