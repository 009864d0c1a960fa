//! Runtime numbers.
//!
//! The language's numbers are IEEE-754 double-precision values. The library
//! carries them as their 64-bit encodings, so that the sign, magnitude and
//! NaN structure are plain data the verifier can reason about. Negation,
//! equality, ordering and the zero test are bit manipulations proved against
//! the IEEE-754 encoding below; rounding arithmetic and decimal conversion
//! are delegated to the `rustc_apfloat` software-float library behind
//! trusted wrappers.
use rustc_apfloat::Float;
use vstd::prelude::*;

verus! {

/// Sign bit of an encoded double.
pub open spec fn num_sign(b: u64) -> bool {
    b >> 63 == 1u64
}

/// Magnitude (exponent and fraction) of an encoded double.
pub open spec fn num_mag(b: u64) -> u64 {
    b & 0x7fff_ffff_ffff_ffffu64
}

/// An encoded double is a NaN when its exponent is all ones and its
/// fraction is non-zero, i.e. its magnitude exceeds that of infinity.
pub open spec fn num_is_nan(b: u64) -> bool {
    num_mag(b) > 0x7ff0_0000_0000_0000u64
}

/// The signed-magnitude ordering key of an encoded double: both zeros map
/// to 0, and every non-NaN value compares by this key under IEEE-754.
pub open spec fn num_key(b: u64) -> int {
    if num_sign(b) {
        -(num_mag(b) as int)
    } else {
        num_mag(b) as int
    }
}

/// IEEE-754 `<` on encoded doubles: false whenever either side is NaN.
pub open spec fn num_lt(a: u64, b: u64) -> bool {
    !num_is_nan(a) && !num_is_nan(b) && num_key(a) < num_key(b)
}

/// IEEE-754 `==` on encoded doubles: NaN equals nothing, and the two
/// zeros are equal.
pub open spec fn num_eq(a: u64, b: u64) -> bool {
    !num_is_nan(a) && !num_is_nan(b) && num_key(a) == num_key(b)
}

/// IEEE-754 negation flips exactly the sign bit.
pub open spec fn num_neg(b: u64) -> u64 {
    b ^ 0x8000_0000_0000_0000u64
}

/// Tests whether an encoded double is one of the two zeros.
pub fn num_is_zero(b: u64) -> (r: bool)
    ensures
        r == (num_key(b) == 0),
{
    proof {
        assert((b & 0x7fff_ffff_ffff_ffffu64 == 0) == (b == 0u64 || b
            == 0x8000_0000_0000_0000u64)) by (bit_vector);
    }
    b & 0x7fff_ffff_ffff_ffff == 0 || b == 0x8000_0000_0000_0000
}

/// Negates an encoded double.
pub fn negate(b: u64) -> (r: u64)
    ensures
        r == num_neg(b),
{
    b ^ 0x8000_0000_0000_0000
}

/// Compares two encoded doubles with IEEE-754 `<`.
pub fn less_than(a: u64, b: u64) -> (r: bool)
    ensures
        r == num_lt(a, b),
{
    let a_nan = is_nan(a);
    let b_nan = is_nan(b);
    if a_nan || b_nan {
        false
    } else {
        let sa = a >> 63 == 1;
        let sb = b >> 63 == 1;
        let ma = a & 0x7fff_ffff_ffff_ffff;
        let mb = b & 0x7fff_ffff_ffff_ffff;
        if sa != sb {
            // A negative value is below a non-negative one, except that the
            // two zeros are equal.
            sa && !(ma == 0 && mb == 0)
        } else if sa {
            mb < ma
        } else {
            ma < mb
        }
    }
}

/// Compares two encoded doubles with IEEE-754 `==`.
pub fn equal_num(a: u64, b: u64) -> (r: bool)
    ensures
        r == num_eq(a, b),
{
    proof {
        assert((a >> 63 == b >> 63 && (a & 0x7fff_ffff_ffff_ffffu64) == (b
            & 0x7fff_ffff_ffff_ffffu64)) ==> a == b) by (bit_vector);
        assert(a >> 63 == 0u64 || a >> 63 == 1u64) by (bit_vector);
        assert(b >> 63 == 0u64 || b >> 63 == 1u64) by (bit_vector);
    }
    let a_nan = is_nan(a);
    let b_nan = is_nan(b);
    if a_nan || b_nan {
        false
    } else {
        a == b || (a & 0x7fff_ffff_ffff_ffff == 0 && b & 0x7fff_ffff_ffff_ffff == 0)
    }
}

/// Tests whether an encoded double is a NaN.
pub fn is_nan(b: u64) -> (r: bool)
    ensures
        r == num_is_nan(b),
{
    b & 0x7fff_ffff_ffff_ffff > 0x7ff0_0000_0000_0000
}

/// The encoded double that IEEE-754 addition (round to nearest, ties to
/// even) yields on two encoded doubles.
pub uninterp spec fn add_bits(a: u64, b: u64) -> u64;

/// The encoded double that IEEE-754 subtraction yields.
pub uninterp spec fn sub_bits(a: u64, b: u64) -> u64;

/// The encoded double that IEEE-754 multiplication yields.
pub uninterp spec fn mul_bits(a: u64, b: u64) -> u64;

/// The encoded double that IEEE-754 division yields.
pub uninterp spec fn div_bits(a: u64, b: u64) -> u64;

/// The encoded double that a decimal literal denotes, rounded to nearest.
pub uninterp spec fn bits_of_text(s: Seq<char>) -> u64;

/// The decimal rendering of an encoded double.
pub uninterp spec fn text_of_bits(b: u64) -> Seq<char>;

/// Relies on `rustc_apfloat::ieee::Double::add_r`: IEEE-754 addition of the
/// two encoded operands, rounding to nearest with ties to even; a pure
/// function of the operand bits.
#[verifier::external_body]
pub(crate) fn add(a: u64, b: u64) -> (r: u64)
    ensures
        r == add_bits(a, b),
{
    let x = rustc_apfloat::ieee::Double::from_bits(a as u128);
    let y = rustc_apfloat::ieee::Double::from_bits(b as u128);
    (x + y).value.to_bits() as u64
}

/// Relies on `rustc_apfloat::ieee::Double::sub_r`: IEEE-754 subtraction,
/// rounding to nearest with ties to even.
#[verifier::external_body]
pub(crate) fn sub(a: u64, b: u64) -> (r: u64)
    ensures
        r == sub_bits(a, b),
{
    let x = rustc_apfloat::ieee::Double::from_bits(a as u128);
    let y = rustc_apfloat::ieee::Double::from_bits(b as u128);
    (x - y).value.to_bits() as u64
}

/// Relies on `rustc_apfloat::ieee::Double::mul_r`: IEEE-754 multiplication,
/// rounding to nearest with ties to even.
#[verifier::external_body]
pub(crate) fn mul(a: u64, b: u64) -> (r: u64)
    ensures
        r == mul_bits(a, b),
{
    let x = rustc_apfloat::ieee::Double::from_bits(a as u128);
    let y = rustc_apfloat::ieee::Double::from_bits(b as u128);
    (x * y).value.to_bits() as u64
}

/// Relies on `rustc_apfloat::ieee::Double::div_r`: IEEE-754 division,
/// rounding to nearest with ties to even; total on all bit patterns
/// (division by zero yields an infinity or NaN, it does not fail).
#[verifier::external_body]
pub(crate) fn div(a: u64, b: u64) -> (r: u64)
    ensures
        r == div_bits(a, b),
{
    let x = rustc_apfloat::ieee::Double::from_bits(a as u128);
    let y = rustc_apfloat::ieee::Double::from_bits(b as u128);
    (x / y).value.to_bits() as u64
}

/// Relies on `rustc_apfloat::ieee::Double::from_str_r`: correctly rounded
/// decimal-to-double conversion. It accepts every string of the number
/// grammar (digits, optionally a point and more digits), so the call
/// cannot fail on the inputs admitted here.
#[verifier::external_body]
pub(crate) fn parse_number(s: &str) -> (r: u64)
    requires
        is_number_lexeme(s@),
    ensures
        r == bits_of_text(s@),
{
    match s.parse::<rustc_apfloat::ieee::Double>() {
        Ok(d) => d.to_bits() as u64,
        Err(_) => 0,
    }
}

/// Relies on `core::fmt::Display for rustc_apfloat::ieee::IeeeFloat`: a
/// decimal rendering of the encoded double at up to seventeen significant
/// digits (enough to round-trip), a pure function of the bits. It can
/// differ from the hardware float formatting of std on values whose
/// shortest form is shorter than the round-trippable one.
#[verifier::external_body]
pub(crate) fn number_to_string(b: u64) -> (r: String)
    ensures
        r@ == text_of_bits(b),
{
    let d = rustc_apfloat::ieee::Double::from_bits(b as u128);
    format!("{}", d)
}

/// One decimal digit.
pub open spec fn is_digit(c: char) -> bool {
    48 <= c as u32 <= 57
}

/// A non-empty run of decimal digits.
pub open spec fn all_digits(s: Seq<char>) -> bool {
    s.len() > 0 && forall|i: int| 0 <= i < s.len() ==> is_digit(s[i])
}

/// The numeric-literal grammar: digits, optionally followed by a point
/// and at least one more digit.
pub open spec fn is_number_lexeme(s: Seq<char>) -> bool {
    all_digits(s) || exists|k: int|
        0 < k < s.len() - 1 && s[k] == '.' && all_digits(s.subrange(0, k)) && all_digits(
            s.subrange(k + 1, s.len() as int),
        )
}

} // verus!
