//! Arithmetic on `f32` values that are held as their bit patterns
//! (`f32::to_bits`): sign bit, 8 exponent bits, 23 mantissa bits.
use vstd::prelude::*;
use vstd::arithmetic::power2::{pow2, lemma2_to64, lemma_pow2_adds, lemma_pow2_pos, lemma_pow2_strictly_increases};
use vstd::arithmetic::div_mod::lemma_div_multiples_vanish_quotient;
use vstd::bits::{lemma_u64_shl_is_mul, lemma_u64_shr_is_div};

verus! {

/// Whether the sign bit is set.
pub open spec fn sign_bit(bits: u32) -> bool {
    bits >= 0x8000_0000
}

/// The biased exponent.
pub open spec fn exponent(bits: u32) -> nat {
    ((bits / 0x80_0000) % 0x100) as nat
}

/// The stored mantissa bits.
pub open spec fn mantissa(bits: u32) -> nat {
    (bits % 0x80_0000) as nat
}

/// Whether the bits encode a NaN.
pub open spec fn is_nan(bits: u32) -> bool {
    exponent(bits) == 0xff && mantissa(bits) != 0
}

/// `x > 0.0`: a positive finite value or positive infinity.
pub open spec fn is_positive(bits: u32) -> bool {
    0 < bits <= 0x7f80_0000
}

/// The bits of `x * -1.0` for a value that is not NaN: the sign bit flipped.
pub open spec fn negated(bits: u32) -> u32 {
    if sign_bit(bits) {
        (bits - 0x8000_0000) as u32
    } else {
        (bits + 0x8000_0000) as u32
    }
}

/// `a == b` on the two floats: no NaN is equal to anything, and both zeros are equal.
pub open spec fn float_eq(a: u32, b: u32) -> bool {
    !is_nan(a) && !is_nan(b) && (a == b || (a % 0x8000_0000 == 0 && b % 0x8000_0000 == 0))
}

/// `x as u32`: rounded toward zero, negative values and NaN give 0, values at
/// or above 2^32 and positive infinity give `u32::MAX`.
pub open spec fn to_u32(bits: u32) -> u32 {
    if sign_bit(bits) || is_nan(bits) {
        0
    } else if exponent(bits) == 0xff {
        u32::MAX
    } else if exponent(bits) < 127 {
        0
    } else if exponent(bits) >= 127 + 32 {
        u32::MAX
    } else {
        (((mantissa(bits) + 0x80_0000) * pow2((exponent(bits) - 127) as nat)) / pow2(23)) as u32
    }
}

/// Whether the float is greater than zero.
pub fn bits_is_positive(bits: u32) -> (res: bool)
    ensures
        res == is_positive(bits),
{
    0 < bits && bits <= 0x7f80_0000
}

/// The bits of the float times -1.
pub fn bits_negate(bits: u32) -> (res: u32)
    ensures
        res == negated(bits),
{
    if bits >= 0x8000_0000 {
        bits - 0x8000_0000
    } else {
        bits + 0x8000_0000
    }
}

/// Float equality on bit patterns.
pub fn bits_eq(a: u32, b: u32) -> (res: bool)
    ensures
        res == float_eq(a, b),
{
    let a_nan = (a / 0x80_0000) % 0x100 == 0xff && a % 0x80_0000 != 0;
    let b_nan = (b / 0x80_0000) % 0x100 == 0xff && b % 0x80_0000 != 0;
    !a_nan && !b_nan && (a == b || (a % 0x8000_0000 == 0 && b % 0x8000_0000 == 0))
}

proof fn lemma_scale_up(m: nat, e: nat)
    requires
        23 <= e < 32,
        m < 0x100_0000,
    ensures
        (m * pow2(e)) / pow2(23) == m * pow2((e - 23) as nat),
        m * pow2((e - 23) as nat) < 0x1_0000_0000,
{
    let s = (e - 23) as nat;
    lemma_pow2_adds(23, s);
    assert(23 + s == e);
    let a = pow2(23);
    let b = pow2(s);
    lemma_pow2_pos(23);
    lemma_pow2_pos(s);
    if s < 8 {
        lemma_pow2_strictly_increases(s, 8);
    }
    lemma2_to64();
    assert(m * (a * b) == a * (m * b)) by (nonlinear_arith);
    vstd::arithmetic::div_mod::lemma_div_multiples_vanish((m * b) as int, a as int);
    assert(m * b < 0x1_0000_0000) by (nonlinear_arith)
        requires
            m < 0x100_0000,
            b <= 256,
    ;
}

proof fn lemma_scale_down(m: nat, e: nat)
    requires
        e < 23,
    ensures
        (m * pow2(e)) / pow2(23) == m / pow2((23 - e) as nat),
{
    let s = (23 - e) as nat;
    lemma_pow2_adds(e, s);
    assert(e + s == 23);
    lemma_pow2_pos(e);
    lemma_pow2_pos(s);
    lemma_div_multiples_vanish_quotient(pow2(e) as int, m as int, pow2(s) as int);
    assert(pow2(e) * m == m * pow2(e)) by (nonlinear_arith);
}

/// `x as u32` for the float with these bits.
pub fn bits_to_u32(bits: u32) -> (res: u32)
    ensures
        res == to_u32(bits),
{
    if bits >= 0x8000_0000 {
        return 0;
    }
    let exp = (bits >> 23) & 0xff;
    let mant = bits & 0x7f_ffff;
    assert(exp == (bits / 0x80_0000) % 0x100 && mant == bits % 0x80_0000) by (bit_vector)
        requires
            exp == (bits >> 23) & 0xff,
            mant == bits & 0x7f_ffff,
    ;
    if exp == 0xff {
        return if mant == 0 {
            u32::MAX
        } else {
            0
        };
    }
    if exp < 127 {
        return 0;
    }
    if exp >= 127 + 32 {
        return u32::MAX;
    }
    let e = exp - 127;
    let m: u64 = (mant as u64) + 0x80_0000;
    if e >= 23 {
        let s: u64 = (e - 23) as u64;
        proof {
            lemma_scale_up(m as nat, e as nat);
            lemma_u64_shl_is_mul(m, s);
        }
        let r = m << s;
        r as u32
    } else {
        let s: u64 = (23 - e) as u64;
        proof {
            lemma_scale_down(m as nat, e as nat);
            lemma_u64_shr_is_div(m, s);
            lemma_pow2_pos(s as nat);
            assert((m as nat) / pow2(s as nat) <= m as nat) by (nonlinear_arith)
                requires
                    pow2(s as nat) > 0,
            ;
        }
        let r = m >> s;
        r as u32
    }
}

} // verus!
