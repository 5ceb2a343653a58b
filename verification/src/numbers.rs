use vstd::prelude::*;
use rustc_apfloat::Float;

verus! {

pub const F64_SIGN_MASK: u64 = 0x8000_0000_0000_0000;

pub const F64_ABS_MASK: u64 = 0x7FFF_FFFF_FFFF_FFFF;

pub const F64_EXP_MASK: u64 = 0x7FF0_0000_0000_0000;

pub const F64_FRAC_MASK: u64 = 0x000F_FFFF_FFFF_FFFF;

/// The bit pattern of the 64-bit value 1.0.
pub const F64_ONE_BITS: u64 = 0x3FF0_0000_0000_0000;

/// The bit pattern of the 64-bit value 0.0.
pub const F64_ZERO_BITS: u64 = 0;

/// Whether a bit pattern denotes a NaN: all exponent bits set and a nonzero
/// fraction.
pub open spec fn is_nan_bits(b: u64) -> bool {
    b & F64_EXP_MASK == F64_EXP_MASK && b & F64_FRAC_MASK != 0
}

/// Whether a bit pattern denotes a zero (positive or negative).
pub open spec fn is_zero_bits(b: u64) -> bool {
    b & F64_ABS_MASK == 0
}

/// A key that orders the non-NaN 64-bit values as the IEEE-754 `<` does:
/// magnitude, negated on negative values. Both zeros map to 0.
pub open spec fn f64_key(b: u64) -> int {
    if b & F64_SIGN_MASK != 0 {
        -((b & F64_ABS_MASK) as int)
    } else {
        (b & F64_ABS_MASK) as int
    }
}

/// IEEE-754 equality on bit patterns: NaN is equal to nothing, the two
/// zeros are equal to each other, and any other value only to itself.
pub open spec fn f64_eq_bits(a: u64, b: u64) -> bool {
    !is_nan_bits(a) && !is_nan_bits(b) && f64_key(a) == f64_key(b)
}

/// IEEE-754 `<` on bit patterns: false whenever either side is NaN.
pub open spec fn f64_lt_bits(a: u64, b: u64) -> bool {
    !is_nan_bits(a) && !is_nan_bits(b) && f64_key(a) < f64_key(b)
}

/// IEEE-754 negation on bit patterns: the sign bit flips, nothing else.
pub open spec fn neg_bits(b: u64) -> u64 {
    b ^ F64_SIGN_MASK
}

/// What IEEE-754 double addition (round to nearest, ties to even) returns,
/// on bit patterns.
pub uninterp spec fn add_bits(a: u64, b: u64) -> u64;

/// What IEEE-754 double subtraction returns, on bit patterns.
pub uninterp spec fn sub_bits(a: u64, b: u64) -> u64;

/// What IEEE-754 double multiplication returns, on bit patterns.
pub uninterp spec fn mul_bits(a: u64, b: u64) -> u64;

/// What IEEE-754 double division returns, on bit patterns.
pub uninterp spec fn div_bits(a: u64, b: u64) -> u64;

/// The bit pattern that a decimal literal denotes, rounded to the nearest
/// 64-bit value.
pub uninterp spec fn number_from_text(s: Seq<char>) -> u64;

/// The decimal rendering of the 64-bit value with the given bit pattern.
pub uninterp spec fn decimal_of_bits(b: u64) -> Seq<char>;

/// Whether a bit pattern denotes a NaN.
pub fn f64_is_nan(b: u64) -> (r: bool)
    ensures
        r == is_nan_bits(b),
{
    b & F64_EXP_MASK == F64_EXP_MASK && b & F64_FRAC_MASK != 0
}

/// Whether a bit pattern denotes a zero, as the IEEE-754 `== 0.0` has it:
/// true of the positive and of the negative zero.
pub fn f64_is_zero(b: u64) -> (r: bool)
    ensures
        r == is_zero_bits(b),
{
    b & F64_ABS_MASK == 0
}

/// IEEE-754 equality of two bit patterns.
pub fn f64_eq(a: u64, b: u64) -> (r: bool)
    ensures
        r == f64_eq_bits(a, b),
{
    if f64_is_nan(a) || f64_is_nan(b) {
        return false;
    }
    let amag = a & F64_ABS_MASK;
    let bmag = b & F64_ABS_MASK;
    let aneg = a & F64_SIGN_MASK != 0;
    let bneg = b & F64_SIGN_MASK != 0;
    amag == bmag && (aneg == bneg || amag == 0)
}

/// IEEE-754 `<` on two bit patterns.
pub fn f64_lt(a: u64, b: u64) -> (r: bool)
    ensures
        r == f64_lt_bits(a, b),
{
    if f64_is_nan(a) || f64_is_nan(b) {
        return false;
    }
    let amag = a & F64_ABS_MASK;
    let bmag = b & F64_ABS_MASK;
    let aneg = a & F64_SIGN_MASK != 0;
    let bneg = b & F64_SIGN_MASK != 0;
    if aneg && bneg {
        bmag < amag
    } else if aneg && !bneg {
        !(amag == 0 && bmag == 0)
    } else if !aneg && bneg {
        false
    } else {
        amag < bmag
    }
}

/// IEEE-754 negation of a bit pattern.
pub fn f64_neg(b: u64) -> (r: u64)
    ensures
        r == neg_bits(b),
{
    b ^ F64_SIGN_MASK
}

/// Relies on rustc_apfloat's `Double::add_r` with round to nearest, ties to
/// even: software IEEE-754 double addition, a function of the two bit
/// patterns alone.
#[verifier::external_body]
pub fn f64_add(a: u64, b: u64) -> (r: u64)
    ensures
        r == add_bits(a, b),
{
    let x = rustc_apfloat::ieee::Double::from_bits(a as u128);
    let y = rustc_apfloat::ieee::Double::from_bits(b as u128);
    x.add_r(y, rustc_apfloat::Round::NearestTiesToEven).value.to_bits() as u64
}

/// Relies on rustc_apfloat's `Double::sub_r` with round to nearest, ties to
/// even: software IEEE-754 double subtraction, a function of the two bit
/// patterns alone.
#[verifier::external_body]
pub fn f64_sub(a: u64, b: u64) -> (r: u64)
    ensures
        r == sub_bits(a, b),
{
    let x = rustc_apfloat::ieee::Double::from_bits(a as u128);
    let y = rustc_apfloat::ieee::Double::from_bits(b as u128);
    x.sub_r(y, rustc_apfloat::Round::NearestTiesToEven).value.to_bits() as u64
}

/// Relies on rustc_apfloat's `Double::mul_r` with round to nearest, ties to
/// even: software IEEE-754 double multiplication, a function of the two bit
/// patterns alone.
#[verifier::external_body]
pub fn f64_mul(a: u64, b: u64) -> (r: u64)
    ensures
        r == mul_bits(a, b),
{
    let x = rustc_apfloat::ieee::Double::from_bits(a as u128);
    let y = rustc_apfloat::ieee::Double::from_bits(b as u128);
    x.mul_r(y, rustc_apfloat::Round::NearestTiesToEven).value.to_bits() as u64
}

/// Relies on rustc_apfloat's `Double::div_r` with round to nearest, ties to
/// even: software IEEE-754 double division, a function of the two bit
/// patterns alone.
#[verifier::external_body]
pub fn f64_div(a: u64, b: u64) -> (r: u64)
    ensures
        r == div_bits(a, b),
{
    let x = rustc_apfloat::ieee::Double::from_bits(a as u128);
    let y = rustc_apfloat::ieee::Double::from_bits(b as u128);
    x.div_r(y, rustc_apfloat::Round::NearestTiesToEven).value.to_bits() as u64
}

/// Relies on rustc_apfloat's `Double::from_str_r` with round to nearest,
/// ties to even: correctly rounded decimal-to-double conversion, a function
/// of the characters alone. A string that is no decimal literal maps to the
/// zero pattern.
#[verifier::external_body]
pub fn f64_from_decimal(s: &str) -> (r: u64)
    ensures
        r == number_from_text(s@),
{
    match rustc_apfloat::ieee::Double::from_str_r(s, rustc_apfloat::Round::NearestTiesToEven) {
        Ok(v) => v.value.to_bits() as u64,
        Err(_) => 0,
    }
}

/// Relies on rustc_apfloat's `Display` for `Double`: the decimal form of a
/// double, a function of the bit pattern alone.
#[verifier::external_body]
pub fn f64_to_decimal(b: u64) -> (r: String)
    ensures
        r@ == decimal_of_bits(b),
{
    format!("{}", rustc_apfloat::ieee::Double::from_bits(b as u128))
}

} // verus!
