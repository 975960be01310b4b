//! Ordinals: doubles told apart by sign and order alone.
//!
//! The bit pattern of an IEEE 754 double is a sign bit followed by 63 bits of
//! magnitude, and among the patterns that are numbers a larger magnitude
//! field means a larger absolute value. The ordinal of a double is that
//! magnitude field read as an integer, with the sign of the double. Both
//! zeros have the ordinal 0, negating a double negates its ordinal, and
//! `a < b` holds of two doubles exactly when it holds of their ordinals.

use vstd::prelude::*;
use vstd::arithmetic::power2::{
    lemma2_to64_rest,
    lemma_pow2_adds,
    lemma_pow2_pos,
    lemma_pow2_strictly_increases,
    pow2,
};

verus! {

/// The ordinal of 0.0.
pub const ZERO: i64 = 0;

/// The ordinal of 1.0.
pub const ONE: i64 = 0x3FF0_0000_0000_0000;

/// The ordinal of the largest finite double, which serves as "no upper limit"
/// for a ray parameter.
pub const INFINITY: i64 = 0x7FEF_FFFF_FFFF_FFFF;

/// The ordinal of positive infinity: the largest ordinal there is.
pub const UNBOUNDED: i64 = 0x7FF0_0000_0000_0000;

/// The weight of the sign bit in a bit pattern.
pub const SIGN_BIT: u64 = 0x8000_0000_0000_0000;

/// The number of values that the fraction field of a double can take: two
/// to the power of 52.
pub const FRACTION_SPAN: i64 = 0x10_0000_0000_0000;

/// Whether `value` is the ordinal of some double.
pub open spec fn is_ordinal(value: i64) -> bool {
    -UNBOUNDED <= value <= UNBOUNDED
}

/// The magnitude field of a bit pattern: everything but the sign bit.
pub open spec fn magnitude(bits: u64) -> int {
    bits as int % SIGN_BIT as int
}

/// Whether the sign bit of a bit pattern is set.
pub open spec fn sign_is_set(bits: u64) -> bool {
    bits >= SIGN_BIT
}

/// Whether a bit pattern is a number, finite or infinite, rather than a NaN.
pub open spec fn is_number(bits: u64) -> bool {
    magnitude(bits) <= UNBOUNDED
}

/// The ordinal that a bit pattern stands for.
pub open spec fn ordinal_of(bits: u64) -> int {
    if sign_is_set(bits) {
        -magnitude(bits)
    } else {
        magnitude(bits)
    }
}

/// The bit pattern that an ordinal is written as. Zero is written as
/// positive zero.
pub open spec fn bits_of(ordinal: i64) -> int {
    if ordinal < 0 {
        SIGN_BIT as int - ordinal as int
    } else {
        ordinal as int
    }
}

/// Whether `value` is the ordinal of a finite double.
pub open spec fn is_finite(value: i64) -> bool {
    -UNBOUNDED < value < UNBOUNDED
}

/// The exponent field of the double that a finite ordinal stands for.
pub open spec fn exponent_field(ordinal: i64) -> int {
    if ordinal < 0 {
        (-ordinal) / FRACTION_SPAN as int
    } else {
        ordinal as int / FRACTION_SPAN as int
    }
}

/// The fraction field of the double that a finite ordinal stands for.
pub open spec fn fraction_field(ordinal: i64) -> int {
    if ordinal < 0 {
        (-ordinal) % FRACTION_SPAN as int
    } else {
        ordinal as int % FRACTION_SPAN as int
    }
}

/// The absolute value of the double that a finite ordinal stands for,
/// counted in units of two to the power of -1074, the smallest double above
/// zero. With an exponent field of zero the double is its fraction field in
/// those units; with any other, the fraction field stands behind a leading
/// one and each step of the exponent doubles the value.
pub open spec fn magnitude_in_units(ordinal: i64) -> int {
    if exponent_field(ordinal) == 0 {
        fraction_field(ordinal)
    } else {
        (FRACTION_SPAN + fraction_field(ordinal)) * pow2((exponent_field(ordinal) - 1) as nat)
    }
}

/// The double that a finite ordinal stands for, counted in units of two to
/// the power of -1074.
pub open spec fn value_in_units(ordinal: i64) -> int {
    if ordinal < 0 {
        -magnitude_in_units(ordinal)
    } else {
        magnitude_in_units(ordinal)
    }
}

/// Reads the ordinal out of the bit pattern of a double. A NaN has none.
pub fn from_bits(bits: u64) -> (ordinal: Option<i64>)
    ensures
        is_number(bits) ==> ordinal == Some(ordinal_of(bits) as i64),
        !is_number(bits) ==> ordinal is None,
        ordinal is Some ==> is_ordinal(ordinal->0) && ordinal->0 == ordinal_of(bits),
{
    let negative: bool = bits >= SIGN_BIT;
    let field: u64 = if negative {
        bits - SIGN_BIT
    } else {
        bits
    };
    if field > 0x7FF0_0000_0000_0000 {
        None
    } else if negative {
        Some(0 - (field as i64))
    } else {
        Some(field as i64)
    }
}

/// Writes an ordinal as the bit pattern of the double it stands for.
pub fn to_bits(ordinal: i64) -> (bits: u64)
    requires
        is_ordinal(ordinal),
    ensures
        bits == bits_of(ordinal),
        is_number(bits),
        ordinal_of(bits) == ordinal,
{
    if ordinal < 0 {
        SIGN_BIT + ((0 - ordinal) as u64)
    } else {
        ordinal as u64
    }
}

/// `value` held between `min` and `max`: `min` where it is below, `max`
/// where it is above, itself where it is between them.
pub open spec fn clamped(value: i64, min: i64, max: i64) -> i64 {
    if value < min {
        min
    } else if value > max {
        max
    } else {
        value
    }
}

/// Holds `value` between `min` and `max`.
pub fn clamp(value: i64, min: i64, max: i64) -> (held: i64)
    ensures
        held == clamped(value, min, max),
{
    if value < min {
        min
    } else if value > max {
        max
    } else {
        value
    }
}

/// Reading back what `to_bits` wrote gives the ordinal that was written.
pub proof fn lemma_bits_round_trip(ordinal: i64)
    requires
        is_ordinal(ordinal),
    ensures
        0 <= bits_of(ordinal) <= u64::MAX,
        is_number(bits_of(ordinal) as u64),
        ordinal_of(bits_of(ordinal) as u64) == ordinal,
{
}

/// Two bit patterns that are numbers have the same ordinal only if they are
/// the same pattern or the two zeros.
pub proof fn lemma_ordinal_names_one_number(a: u64, b: u64)
    requires
        is_number(a),
        is_number(b),
        ordinal_of(a) == ordinal_of(b),
    ensures
        a == b || (magnitude(a) == 0 && magnitude(b) == 0),
{
}

/// Flipping the sign bit of a number negates its ordinal.
pub proof fn lemma_sign_flip_negates(bits: u64)
    requires
        is_number(bits),
    ensures
        sign_is_set(bits) ==> ordinal_of((bits - SIGN_BIT) as u64) == -ordinal_of(bits),
        !sign_is_set(bits) ==> ordinal_of((bits + SIGN_BIT) as u64) == -ordinal_of(bits),
{
}

/// The fields of a finite ordinal are within their ranges, and its magnitude
/// lies between the powers of two that its exponent field names.
pub proof fn lemma_magnitude_bounds(ordinal: i64)
    requires
        is_finite(ordinal),
    ensures
        0 <= exponent_field(ordinal) < 2047,
        0 <= fraction_field(ordinal) < FRACTION_SPAN,
        exponent_field(ordinal) == 0 ==> 0 <= magnitude_in_units(ordinal) < pow2(52),
        exponent_field(ordinal) > 0 ==> pow2((51 + exponent_field(ordinal)) as nat)
            <= magnitude_in_units(ordinal) < pow2((52 + exponent_field(ordinal)) as nat),
        magnitude_in_units(ordinal) == 0 <==> ordinal == 0,
{
    let e = exponent_field(ordinal);
    let f = fraction_field(ordinal);
    lemma2_to64_rest();
    assert(pow2(52) == FRACTION_SPAN);
    if e > 0 {
        let scale = pow2((e - 1) as nat);
        lemma_pow2_pos((e - 1) as nat);
        lemma_pow2_adds(52, (e - 1) as nat);
        lemma_pow2_adds(53, (e - 1) as nat);
        assert(pow2(53) == 2 * FRACTION_SPAN);
        assert(FRACTION_SPAN * scale <= (FRACTION_SPAN + f) * scale < (2 * FRACTION_SPAN) * scale)
            by (nonlinear_arith)
            requires
                0 <= f < FRACTION_SPAN,
                scale > 0,
        ;
    }
}

proof fn lemma_magnitude_increases(a: i64, b: i64)
    requires
        0 <= a < b < UNBOUNDED,
    ensures
        magnitude_in_units(a) < magnitude_in_units(b),
{
    lemma_magnitude_bounds(a);
    lemma_magnitude_bounds(b);
    let ea = exponent_field(a);
    let eb = exponent_field(b);
    let fa = fraction_field(a);
    let fb = fraction_field(b);
    assert(a == ea * FRACTION_SPAN + fa && b == eb * FRACTION_SPAN + fb);
    if ea == eb {
        if ea > 0 {
            let scale = pow2((ea - 1) as nat);
            lemma_pow2_pos((ea - 1) as nat);
            assert((FRACTION_SPAN + fa) * scale < (FRACTION_SPAN + fb) * scale)
                by (nonlinear_arith)
                requires
                    fa < fb,
                    scale > 0,
            ;
        }
    } else {
        assert(ea < eb);
        if ea + 1 < eb {
            lemma_pow2_strictly_increases((52 + ea) as nat, (51 + eb) as nat);
        }
    }
}

/// Ordinals are in the order of the doubles that they stand for: of two
/// finite ordinals the smaller stands for the smaller double, and only
/// equal ordinals stand for equal doubles.
pub proof fn lemma_order_is_order_of_values(a: i64, b: i64)
    requires
        is_finite(a),
        is_finite(b),
    ensures
        a < b <==> value_in_units(a) < value_in_units(b),
        a == b <==> value_in_units(a) == value_in_units(b),
        a < 0 <==> value_in_units(a) < 0,
        a == 0 <==> value_in_units(a) == 0,
{
    lemma_magnitude_bounds(a);
    lemma_magnitude_bounds(b);
    let mirrored_a: i64 = (-a) as i64;
    let mirrored_b: i64 = (-b) as i64;
    assert(a < 0 ==> magnitude_in_units(mirrored_a) == magnitude_in_units(a));
    assert(b < 0 ==> magnitude_in_units(mirrored_b) == magnitude_in_units(b));
    if a < b {
        if a >= 0 {
            lemma_magnitude_increases(a, b);
        } else if b < 0 {
            lemma_magnitude_increases(mirrored_b, mirrored_a);
        }
    } else if b < a {
        if b >= 0 {
            lemma_magnitude_increases(b, a);
        } else if a < 0 {
            lemma_magnitude_increases(mirrored_a, mirrored_b);
        }
    }
}

/// The negation of an ordinal stands for the negation of the double.
pub proof fn lemma_negation_negates_value(ordinal: i64)
    requires
        is_finite(ordinal),
    ensures
        is_finite((-ordinal) as i64),
        value_in_units((-ordinal) as i64) == -value_in_units(ordinal),
{
    lemma_magnitude_bounds(ordinal);
}

/// The ordinal of one stands for one: two to the power of 1074 units.
pub proof fn lemma_value_of_one()
    ensures
        value_in_units(ONE) == pow2(1074),
{
    lemma2_to64_rest();
    assert(exponent_field(ONE) == 1023 && fraction_field(ONE) == 0);
    lemma_pow2_adds(52, 1022);
}

} // verus!
