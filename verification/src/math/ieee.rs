use vstd::prelude::*;
use vstd::arithmetic::power2::pow2;

verus! {

// An IEEE-754 single-precision value is carried as its 32-bit pattern.
// The fields are recovered arithmetically: the top bit is the sign, the
// next eight bits the biased exponent, the low 23 bits the fraction.

/// Divisor that isolates the sign bit of a single-precision pattern.
pub const SIGN_DIV: u32 = 0x8000_0000;

/// Divisor that isolates the biased exponent within the magnitude.
pub const FRAC_DIV: u32 = 0x0080_0000;

/// Bit pattern of positive zero.
pub const POS_ZERO_BITS: u32 = 0x0000_0000;

/// Bit pattern of 1.0.
pub const ONE_BITS: u32 = 0x3F80_0000;

/// Magnitude (exponent and fraction together) of a pattern.
pub open spec fn mag_of(b: u32) -> int {
    b as int % 0x8000_0000
}

/// Sign field of a pattern: 0 for positive, 1 for negative.
pub open spec fn sign_of(b: u32) -> int {
    b as int / 0x8000_0000
}

/// Biased exponent field of a pattern, 0 to 255.
pub open spec fn exp_of(b: u32) -> int {
    mag_of(b) / 0x0080_0000
}

/// Fraction field of a pattern, 0 to 2^23 - 1.
pub open spec fn frac_of(b: u32) -> int {
    mag_of(b) % 0x0080_0000
}

/// True when the pattern encodes a NaN.
pub open spec fn is_nan_bits(b: u32) -> bool {
    exp_of(b) == 255 && frac_of(b) != 0
}

/// True when the pattern encodes positive or negative zero.
pub open spec fn is_zero_bits(b: u32) -> bool {
    mag_of(b) == 0
}

/// True when the pattern encodes a finite value (neither infinity nor NaN).
pub open spec fn is_finite_bits(b: u32) -> bool {
    exp_of(b) < 255
}

/// The magnitude of a finite pattern as an exact integer, scaled by 2^149.
/// A subnormal (exponent field 0) is worth frac * 2^-149; a normal value is
/// worth (2^23 + frac) * 2^(exp - 150).
pub open spec fn mag_val149(b: u32) -> int {
    if exp_of(b) == 0 {
        frac_of(b)
    } else {
        (0x0080_0000 + frac_of(b)) * pow2((exp_of(b) - 1) as nat)
    }
}

/// Distance between a finite pattern's value and the next representable
/// magnitude, scaled by 2^149 (one unit in the last place).
pub open spec fn ulp149(b: u32) -> int {
    if exp_of(b) <= 1 {
        1
    } else {
        pow2((exp_of(b) - 1) as nat) as int
    }
}

/// The rounding condition of IEEE-754 square root: the exact root of the
/// value of `x` lies strictly inside the rounding interval of `r`, the
/// open interval between the midpoints to the two neighbouring
/// representable values. Upward the neighbour is one ulp away; downward it
/// is half an ulp away when `r` sits at the bottom of its binade (fraction
/// zero with a normal predecessor in the binade below) and one ulp away
/// otherwise. Scaling by four keeps every bound an integer, and the bounds
/// can be strict because the exact root of a single is never exactly a
/// midpoint. With X = mag_val149(x), R = mag_val149(r) and U = ulp149(r):
pub open spec fn sqrt_rounds(x: u32, r: u32) -> bool {
    let xv = mag_val149(x);
    let rv = mag_val149(r);
    let u = ulp149(r);
    let lo = if frac_of(r) == 0 && exp_of(r) >= 2 {
        4 * rv - u
    } else {
        4 * rv - 2 * u
    };
    &&& lo * lo < 16 * xv * pow2(149)
    &&& 16 * xv * pow2(149) < (4 * rv + 2 * u) * (4 * rv + 2 * u)
}

/// Full specification of IEEE-754 square root on bit patterns, as `f32::sqrt`
/// computes it: NaN and negative operands give a NaN, the two zeros and
/// positive infinity pass through, and a positive finite operand gives the
/// correctly rounded positive root, which is always a normal value.
pub open spec fn sqrt_rel(x: u32, r: u32) -> bool {
    if is_nan_bits(x) || (sign_of(x) == 1 && mag_of(x) != 0) {
        is_nan_bits(r)
    } else if mag_of(x) == 0 || exp_of(x) == 255 {
        r == x
    } else {
        &&& sign_of(r) == 0
        &&& 1 <= exp_of(r) < 255
        &&& sqrt_rounds(x, r)
    }
}

/// The value that `f32::round` followed by `as i32` produces, as an integer:
/// round half away from zero, saturate to the i32 range, and send NaN to
/// zero. The rounded magnitude is floor(|x| + 1/2), computed on the exact
/// scaled magnitude.
pub open spec fn round_to_i32_val(b: u32) -> int {
    if is_nan_bits(b) {
        0
    } else {
        let v = (mag_val149(b) + pow2(148)) / pow2(149) as int;
        if sign_of(b) == 0 {
            if v > 0x7FFF_FFFF {
                0x7FFF_FFFF
            } else {
                v
            }
        } else {
            if v >= 0x8000_0000 {
                -0x8000_0000
            } else {
                -v
            }
        }
    }
}

/// IEEE-754 `<` on two patterns: false whenever either is NaN, and otherwise
/// the sign-magnitude order of the patterns, with the two zeros equal.
pub open spec fn float_lt(a: u32, b: u32) -> bool {
    &&& !is_nan_bits(a)
    &&& !is_nan_bits(b)
    &&& if sign_of(a) == 1 && sign_of(b) == 1 {
            mag_of(b) < mag_of(a)
        } else if sign_of(a) == 0 && sign_of(b) == 0 {
            mag_of(a) < mag_of(b)
        } else if sign_of(a) == 1 {
            !(mag_of(a) == 0 && mag_of(b) == 0)
        } else {
            false
        }
}

/// The pattern with the sign bit flipped: IEEE-754 negation is exact.
pub open spec fn neg_bits(b: u32) -> u32 {
    if b >= 0x8000_0000 {
        (b - 0x8000_0000) as u32
    } else {
        (b + 0x8000_0000) as u32
    }
}

/// Clamping in float order: NaN passes through unchanged, as `f32::clamp`
/// and chained `<`/`>` tests leave it.
pub open spec fn clamp_bits(x: u32, lo: u32, hi: u32) -> u32 {
    if float_lt(hi, x) {
        hi
    } else if float_lt(x, lo) {
        lo
    } else {
        x
    }
}

/// Reports whether the pattern encodes positive or negative zero.
pub fn f32_is_zero(b: u32) -> (r: bool)
    ensures
        r == is_zero_bits(b),
{
    b % SIGN_DIV == 0
}

/// Reports whether the pattern encodes a NaN.
pub fn f32_is_nan(b: u32) -> (r: bool)
    ensures
        r == is_nan_bits(b),
{
    let mag: u32 = b % SIGN_DIV;
    mag / FRAC_DIV == 255 && mag % FRAC_DIV != 0
}

/// IEEE-754 `<` evaluated on bit patterns.
pub fn f32_lt(a: u32, b: u32) -> (r: bool)
    ensures
        r == float_lt(a, b),
{
    if f32_is_nan(a) || f32_is_nan(b) {
        return false;
    }
    let sa: u32 = a / SIGN_DIV;
    let sb: u32 = b / SIGN_DIV;
    let ma: u32 = a % SIGN_DIV;
    let mb: u32 = b % SIGN_DIV;
    if sa == 1 && sb == 1 {
        mb < ma
    } else if sa == 0 && sb == 0 {
        ma < mb
    } else if sa == 1 {
        !(ma == 0 && mb == 0)
    } else {
        false
    }
}

/// IEEE-754 negation: flips the sign bit and nothing else.
pub fn f32_neg(b: u32) -> (r: u32)
    ensures
        r == neg_bits(b),
{
    if b >= SIGN_DIV {
        b - SIGN_DIV
    } else {
        b + SIGN_DIV
    }
}

/// Clamps a value into `[lo, hi]` by float order, leaving NaN unchanged.
pub fn f32_clamp(x: u32, lo: u32, hi: u32) -> (r: u32)
    ensures
        r == clamp_bits(x, lo, hi),
{
    if f32_lt(hi, x) {
        hi
    } else if f32_lt(x, lo) {
        lo
    } else {
        x
    }
}

/// The IEEE square root is zero exactly when its operand is a zero: every
/// other operand gives a NaN, an infinity or a positive normal value.
pub proof fn lemma_sqrt_zero_iff(x: u32, r: u32)
    requires
        sqrt_rel(x, r),
    ensures
        is_zero_bits(r) <==> is_zero_bits(x),
{
    if is_zero_bits(r) {
        assert(exp_of(r) == 0 && frac_of(r) == 0);
    }
}

} // verus!
