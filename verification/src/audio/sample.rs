//! Single-precision samples as bit patterns, and their conversion to 16-bit PCM.
//!
//! A sample is carried as the 32 bits of its IEEE-754 binary32 encoding: one
//! sign bit, eight exponent bits, twenty-three fraction bits. Everything here
//! is integer arithmetic on those fields.

use vstd::prelude::*;
use vstd::arithmetic::div_mod::{lemma_basic_div, lemma_div_is_ordered, lemma_div_multiples_vanish};
use vstd::arithmetic::power2::{
    lemma2_to64, lemma2_to64_rest, lemma_pow2_pos, lemma_pow2_strictly_increases,
    lemma_pow2_unfold, pow2,
};

verus! {

/// The largest magnitude a 16-bit sample is scaled to.
pub const PCM_SCALE: u64 = 32767;

/// The bit pattern of positive infinity; magnitudes above it are not numbers.
pub const INFINITY_BITS: u32 = 0x7f80_0000;

/// The encoding without its sign bit. For numbers, a larger magnitude has a
/// larger encoding.
pub open spec fn magnitude_bits(bits: u32) -> u32 {
    (bits % 0x8000_0000) as u32
}

pub open spec fn is_negative(bits: u32) -> bool {
    bits >= 0x8000_0000
}

pub open spec fn is_nan(bits: u32) -> bool {
    magnitude_bits(bits) > INFINITY_BITS
}

/// The biased exponent field, 0 to 255.
pub open spec fn exponent_field(bits: u32) -> nat {
    (magnitude_bits(bits) / 0x80_0000) as nat
}

/// The fraction field with the implicit leading bit, where there is one: the
/// sample's magnitude is `significand * 2^(scale_exponent - 150)`.
pub open spec fn significand(bits: u32) -> nat {
    let fraction = (magnitude_bits(bits) % 0x80_0000) as nat;
    if exponent_field(bits) == 0 {
        fraction
    } else {
        fraction + 0x80_0000
    }
}

/// The power of two by which `significand` is scaled, offset by 150. Zeros
/// and subnormal numbers share the exponent of the smallest normal ones.
pub open spec fn scale_exponent(bits: u32) -> nat {
    if exponent_field(bits) == 0 {
        1
    } else {
        exponent_field(bits)
    }
}

/// The sample's magnitude times 32767, rounded to the nearest integer, halves
/// away from zero. The product is exact: nothing is rounded before this step.
pub open spec fn scaled_magnitude(bits: u32) -> nat {
    let product = significand(bits) * 32767;
    let e = scale_exponent(bits);
    if e >= 150 {
        product * pow2((e - 150) as nat)
    } else {
        let unit = pow2((150 - e) as nat);
        (2 * product + unit) / (2 * unit)
    }
}

/// The sample times 32767, rounded to the nearest integer, halves away from zero.
pub open spec fn scaled_sample(bits: u32) -> int {
    if is_negative(bits) {
        -(scaled_magnitude(bits) as int)
    } else {
        scaled_magnitude(bits) as int
    }
}

/// The nearest value that a 16-bit sample can take.
pub open spec fn clamp_pcm(value: int) -> i16 {
    if value < -32768 {
        -32768i16
    } else if value > 32767 {
        32767i16
    } else {
        value as i16
    }
}

/// The 16-bit sample for a single-precision one: scaled by 32767, rounded and
/// clamped to `-32768..=32767`. What is not a number maps to `-32768`.
pub open spec fn pcm_from_f32(bits: u32) -> i16 {
    if is_nan(bits) {
        -32768i16
    } else {
        clamp_pcm(scaled_sample(bits))
    }
}

/// The magnitude as a natural number: the sample's absolute value times `2^150`.
pub open spec fn magnitude_value(bits: u32) -> nat {
    significand(bits) * pow2(scale_exponent(bits))
}

proof fn lemma_magnitude_value_increases(a: u32, b: u32)
    requires
        magnitude_bits(a) < magnitude_bits(b),
    ensures
        magnitude_value(a) < magnitude_value(b),
{
    let (sa, sb) = (significand(a) as int, significand(b) as int);
    let (ea, eb) = (scale_exponent(a), scale_exponent(b));
    let (pa, pb) = (pow2(ea) as int, pow2(eb) as int);
    lemma_pow2_pos(ea);
    lemma_pow2_pos(eb);
    if ea == eb {
        assert(sa < sb);
        assert(sa * pa < sb * pa) by (nonlinear_arith)
            requires
                sa < sb,
                pa > 0,
        ;
    } else {
        assert(ea < eb);
        assert(sa < 0x100_0000);
        assert(sb >= 0x80_0000);
        lemma_pow2_unfold(ea + 1);
        if ea + 1 < eb {
            lemma_pow2_strictly_increases(ea + 1, eb);
        }
        assert(2 * pa <= pb);
        assert(sa * pa < sb * pb) by (nonlinear_arith)
            requires
                0 <= sa < 0x100_0000,
                sb >= 0x80_0000,
                pa > 0,
                2 * pa <= pb,
        ;
    }
}

/// Encodings order as the magnitudes they stand for: comparing two samples'
/// magnitude bits compares their absolute values.
pub proof fn lemma_magnitude_order(a: u32, b: u32)
    ensures
        magnitude_bits(a) < magnitude_bits(b) <==> magnitude_value(a) < magnitude_value(b),
        magnitude_bits(a) == magnitude_bits(b) <==> magnitude_value(a) == magnitude_value(b),
{
    if magnitude_bits(a) < magnitude_bits(b) {
        lemma_magnitude_value_increases(a, b);
    } else if magnitude_bits(b) < magnitude_bits(a) {
        lemma_magnitude_value_increases(b, a);
    }
}

/// Clamping holds: a sample of magnitude one or more, however large, converts
/// to the positive extreme, or to one of the two lowest values if negative.
pub proof fn lemma_full_scale_is_clamped(bits: u32)
    requires
        !is_nan(bits),
        magnitude_bits(bits) >= 0x3f80_0000,
    ensures
        !is_negative(bits) ==> pcm_from_f32(bits) == 32767,
        is_negative(bits) ==> pcm_from_f32(bits) == -32767 || pcm_from_f32(bits) == -32768,
        is_negative(bits) && magnitude_bits(bits) >= 0x3f80_0081 ==> pcm_from_f32(bits) == -32768,
{
    let e = scale_exponent(bits);
    let product = (significand(bits) * 32767) as int;
    assert(e >= 127);
    assert(product >= 0x80_0000 * 32767);
    if e >= 150 {
        lemma_large_exponent_saturates(bits);
    } else {
        let k = (150 - e) as nat;
        let unit = pow2(k) as int;
        lemma2_to64();
        lemma_pow2_pos(k);
        if k < 23 {
            lemma_pow2_strictly_increases(k, 23);
        }
        assert(0 < unit <= 0x80_0000);
        let numerator = 2 * product + unit;
        assert(numerator >= 32767 * (2 * unit));
        lemma_div_is_ordered(32767 * (2 * unit), numerator, 2 * unit);
        lemma_div_multiples_vanish(32767, 2 * unit);
        assert(scaled_magnitude(bits) >= 32767);
        if magnitude_bits(bits) >= 0x3f80_0081 {
            if k == 23 {
                assert(significand(bits) >= 0x80_0081);
            }
            assert(numerator >= 32768 * (2 * unit)) by (nonlinear_arith)
                requires
                    numerator == 2 * product + unit,
                    0 < unit <= 0x80_0000,
                    (unit == 0x80_0000 && product >= 0x80_0081 * 32767) || (unit <= 0x40_0000
                        && product >= 0x80_0000 * 32767),
            ;
            lemma_div_is_ordered(32768 * (2 * unit), numerator, 2 * unit);
            lemma_div_multiples_vanish(32768, 2 * unit);
        }
    }
}

proof fn lemma_large_exponent_saturates(bits: u32)
    requires
        !is_nan(bits),
        scale_exponent(bits) >= 150,
    ensures
        scaled_magnitude(bits) >= 32768,
{
    let product = significand(bits) * 32767;
    let p = pow2((scale_exponent(bits) - 150) as nat);
    lemma_pow2_pos((scale_exponent(bits) - 150) as nat);
    assert(product >= 0x80_0000 * 32767);
    assert(product * p >= product) by (nonlinear_arith)
        requires
            p >= 1,
            product >= 0,
    ;
}

proof fn lemma_small_exponent_vanishes(bits: u32)
    requires
        scale_exponent(bits) < 109,
    ensures
        scaled_magnitude(bits) == 0,
{
    let product = significand(bits) * 32767;
    let k = (150 - scale_exponent(bits)) as nat;
    let unit = pow2(k);
    assert(product < 0x100_0000 * 32767);
    lemma2_to64_rest();
    lemma_pow2_strictly_increases(41, k);
    assert(unit >= 0x200_0000_0000);
    assert(2 * product + unit < 2 * unit);
    lemma_basic_div((2 * product + unit) as int, (2 * unit) as int);
}

/// Converts one single-precision sample to 16-bit PCM.
pub fn f32_to_pcm(bits: u32) -> (pcm: i16)
    ensures
        pcm == pcm_from_f32(bits),
{
    let magnitude: u32 = bits % 0x8000_0000;
    let negative = bits >= 0x8000_0000;
    if magnitude > INFINITY_BITS {
        return -32768;
    }
    let exponent: u32 = magnitude / 0x80_0000;
    let fraction: u32 = magnitude % 0x80_0000;
    let significand: u64 = if exponent == 0 {
        fraction as u64
    } else {
        fraction as u64 + 0x80_0000
    };
    let e: u32 = if exponent == 0 {
        1
    } else {
        exponent
    };
    let product: u64 = significand * PCM_SCALE;
    let rounded: u64 = if e >= 150 {
        proof {
            lemma_large_exponent_saturates(bits);
        }
        32768
    } else if e < 109 {
        proof {
            lemma_small_exponent_vanishes(bits);
        }
        0
    } else {
        let k: u32 = 150 - e;
        let unit: u64 = 1u64 << k;
        proof {
            lemma2_to64_rest();
            lemma_pow2_strictly_increases(k as nat, 42);
            assert(pow2(k as nat) < 0x400_0000_0000);
            lemma_pow2_pos(k as nat);
            vstd::bits::lemma_u64_shl_is_mul(1, k as u64);
            assert(unit == pow2(k as nat));
        }
        (2 * product + unit) / (2 * unit)
    };
    if negative {
        if rounded >= 32768 {
            -32768
        } else {
            -(rounded as i16)
        }
    } else {
        if rounded >= 32767 {
            32767
        } else {
            rounded as i16
        }
    }
}

} // verus!
