//! Parameter values as IEEE 754 bit patterns.
//!
//! A parameter value is a double (`f64`), a control value of a plugin is a
//! single (`f32`). Both are held as the integer that `to_bits` gives; only
//! comparisons are needed here, and those are comparisons of integers.

use vstd::prelude::*;

verus! {

// Doubles ---------------------------------------------------------------------

/// The bits of a double below its exponent field.
pub const FRACTION_RANGE: u64 = 0x0010_0000_0000_0000;

/// The sign bit of a double.
pub const SIGN: u64 = 0x8000_0000_0000_0000;

/// Neither infinite nor NaN: the exponent field is not all ones.
pub open spec fn finite(bits: u64) -> bool {
    (bits / FRACTION_RANGE) % 2048 != 2047
}

/// Whether a double is neither infinite nor NaN.
pub fn is_finite(bits: u64) -> (yes: bool)
    ensures
        yes == finite(bits),
{
    (bits / FRACTION_RANGE) % 2048 != 2047
}

/// How a double that is not finite is written.
pub open spec fn non_finite_name(bits: u64) -> Seq<char> {
    if bits % FRACTION_RANGE != 0 {
        "NaN"@
    } else if bits < SIGN {
        "inf"@
    } else {
        "-inf"@
    }
}

/// How a double that is not finite is written.
pub fn non_finite_text(bits: u64) -> (text: &'static str)
    requires
        !finite(bits),
    ensures
        text@ == non_finite_name(bits),
{
    if bits % FRACTION_RANGE != 0 {
        "NaN"
    } else if bits < SIGN {
        "inf"
    } else {
        "-inf"
    }
}

/// An integer by which doubles that are not NaN are ordered: the magnitude
/// bits, with the sign of the double.
pub open spec fn rank(bits: u64) -> int {
    if bits < SIGN {
        bits as int
    } else {
        SIGN - bits
    }
}

// Singles ---------------------------------------------------------------------

/// The sign bit of a single.
pub const SIGN_SINGLE: u32 = 0x8000_0000;

/// The bit pattern of the single `+inf`; above it in magnitude lie the NaNs.
pub const INFINITY_SINGLE: u32 = 0x7f80_0000;

/// The single is NaN.
pub open spec fn nan_single(bits: u32) -> bool {
    bits % SIGN_SINGLE > INFINITY_SINGLE
}

/// An integer by which singles that are not NaN are ordered.
pub open spec fn rank_single(bits: u32) -> int {
    if bits < SIGN_SINGLE {
        bits as int
    } else {
        SIGN_SINGLE - bits
    }
}

/// `a < b` on singles: false where either is NaN.
pub open spec fn less(a: u32, b: u32) -> bool {
    !nan_single(a) && !nan_single(b) && rank_single(a) < rank_single(b)
}

/// `a == b` on singles: false where either is NaN; the two zeros are equal.
pub open spec fn equal(a: u32, b: u32) -> bool {
    !nan_single(a) && !nan_single(b) && rank_single(a) == rank_single(b)
}

/// `a <= b` on singles.
pub open spec fn at_most(a: u32, b: u32) -> bool {
    less(a, b) || equal(a, b)
}

fn is_nan_single(bits: u32) -> (nan: bool)
    ensures
        nan == nan_single(bits),
{
    bits % SIGN_SINGLE > INFINITY_SINGLE
}

fn single_rank(bits: u32) -> (r: i64)
    ensures
        r == rank_single(bits),
{
    if bits < SIGN_SINGLE {
        bits as i64
    } else {
        SIGN_SINGLE as i64 - bits as i64
    }
}

/// `a < b` on singles.
pub fn is_less(a: u32, b: u32) -> (yes: bool)
    ensures
        yes == less(a, b),
{
    !is_nan_single(a) && !is_nan_single(b) && single_rank(a) < single_rank(b)
}

/// `a == b` on singles.
pub fn is_equal(a: u32, b: u32) -> (yes: bool)
    ensures
        yes == equal(a, b),
{
    !is_nan_single(a) && !is_nan_single(b) && single_rank(a) == single_rank(b)
}

/// `x` brought into `lo..=hi`; NaN stays NaN.
pub open spec fn clamped(x: u32, lo: u32, hi: u32) -> u32 {
    if less(x, lo) {
        lo
    } else if less(hi, x) {
        hi
    } else {
        x
    }
}

/// `x` brought into `lo..=hi`; NaN stays NaN.
pub fn clamp(x: u32, lo: u32, hi: u32) -> (y: u32)
    ensures
        y == clamped(x, lo, hi),
{
    if is_less(x, lo) {
        lo
    } else if is_less(hi, x) {
        hi
    } else {
        x
    }
}

/// Clamping a single that is not NaN gives one within the bounds, and clamping
/// again changes nothing.
pub proof fn law_clamp(x: u32, lo: u32, hi: u32)
    requires
        at_most(lo, hi),
    ensures
        !nan_single(x) ==> at_most(lo, clamped(x, lo, hi)) && at_most(clamped(x, lo, hi), hi),
        nan_single(x) ==> clamped(x, lo, hi) == x,
        clamped(clamped(x, lo, hi), lo, hi) == clamped(x, lo, hi),
{
}

/// `x` lies in `lo..=hi`; NaN does not.
pub open spec fn within(x: u32, lo: u32, hi: u32) -> bool {
    at_most(lo, x) && at_most(x, hi)
}

/// Whether `x` lies in `lo..=hi`.
pub fn is_within(x: u32, lo: u32, hi: u32) -> (yes: bool)
    ensures
        yes == within(x, lo, hi),
{
    (is_less(lo, x) || is_equal(lo, x)) && (is_less(x, hi) || is_equal(x, hi))
}

/// A double is finite unless its exponent field is all ones; then it is written
/// `NaN` where it has a fraction, otherwise `inf` with its sign.
pub proof fn law_finite(negative: bool, exponent: u64, fraction: u64)
    requires
        exponent < 0x800,
        fraction < 0x10_0000_0000_0000,
    ensures
        ({
            let sign: int = if negative {
                0x8000_0000_0000_0000
            } else {
                0
            };
            let bits = (sign + exponent * 0x10_0000_0000_0000 + fraction) as u64;
            &&& finite(bits) <==> exponent != 0x7ff
            &&& exponent == 0x7ff ==> non_finite_name(bits) == (if fraction != 0 {
                "NaN"@
            } else if negative {
                "-inf"@
            } else {
                "inf"@
            })
        }),
{
    let top: int = if negative {
        0x800
    } else {
        0
    };
    let high = top + exponent;
    assert(top * 0x10_0000_0000_0000 == (if negative {
        0x8000_0000_0000_0000int
    } else {
        0
    }));
    let whole = high * 0x10_0000_0000_0000 + fraction;
    assert(whole <= u64::MAX);
    let bits = whole as u64;
    assert(bits as int / 0x10_0000_0000_0000 == high);
    assert(bits as int % 0x10_0000_0000_0000 == fraction);
    assert(high % 2048 == exponent);
}

/// The single of a sign and a magnitude, the bits below the sign bit.
pub open spec fn single(negative: bool, magnitude: u32) -> u32 {
    (magnitude + if negative {
        0x8000_0000int
    } else {
        0
    }) as u32
}

/// How singles compare. Those of a magnitude above that of infinity are NaN and
/// neither less than nor equal to anything. Of the others, a negative one is
/// less than a positive one unless both are zero, positive ones go by their
/// magnitudes, and negative ones the other way round.
pub proof fn law_order_of_singles(na: bool, a: u32, nb: bool, b: u32)
    requires
        a < 0x8000_0000,
        b < 0x8000_0000,
    ensures
        nan_single(single(na, a)) <==> a > 0x7f80_0000,
        less(single(na, a), single(nb, b)) <==> a <= 0x7f80_0000 && b <= 0x7f80_0000 && (
        if na && nb {
            b < a
        } else if na {
            a > 0 || b > 0
        } else if nb {
            false
        } else {
            a < b
        }),
        equal(single(na, a), single(nb, b)) <==> a <= 0x7f80_0000 && b <= 0x7f80_0000 && a == b && (
        na == nb || a == 0),
{
    let x = single(na, a);
    let y = single(nb, b);
    assert(x as int == a + (if na {
        0x8000_0000int
    } else {
        0
    }));
    assert(y as int == b + (if nb {
        0x8000_0000int
    } else {
        0
    }));
}

/// Clamping leaves what lies within the bounds as it is, bit for bit, and brings
/// what lies outside to the bound that it lies beyond.
pub proof fn law_clamp_keeps(x: u32, lo: u32, hi: u32)
    requires
        at_most(lo, hi),
    ensures
        less(x, lo) ==> clamped(x, lo, hi) == lo,
        less(hi, x) ==> clamped(x, lo, hi) == hi,
        !less(x, lo) && !less(hi, x) ==> clamped(x, lo, hi) == x,
{
}

/// What lies within bounds is neither less than the lower one nor greater than
/// the upper one, and is not NaN.
pub proof fn law_within(x: u32, lo: u32, hi: u32)
    requires
        !nan_single(lo),
        !nan_single(hi),
    ensures
        within(x, lo, hi) <==> !nan_single(x) && !less(x, lo) && !less(hi, x),
        at_most(lo, hi) <==> !less(hi, lo),
{
}

/// Doubles that are not NaN are ranked by their magnitudes, negative ones the
/// other way round and below the others.
pub proof fn law_rank(a: u64, b: u64)
    requires
        a < 0x8000_0000_0000_0000,
        b < 0x8000_0000_0000_0000,
    ensures
        rank(a) < rank(b) <==> a < b,
        rank((a + 0x8000_0000_0000_0000) as u64) < rank((b + 0x8000_0000_0000_0000) as u64) <==> b
            < a,
        rank((a + 0x8000_0000_0000_0000) as u64) <= rank(b),
{
}

} // verus!
