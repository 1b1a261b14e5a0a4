//! Numeric values, represented by the bit patterns of IEEE-754 double
//! precision numbers.
//!
//! The interpreter computes on 64-bit floating point values.  Inside the
//! verified library such a value is carried as its bit pattern, a `u64`;
//! the arithmetic itself is done by outside code behind the trusted items
//! below, and each operation's result is named by an uninterpreted spec
//! function of the operand bits.  All of these operations are pure: the
//! same operand bits give the same result bits on every machine.
use vstd::prelude::*;

use rustc_apfloat::Float;

verus! {

/// The bit pattern of positive zero, the value substituted for an unbound
/// variable.
pub const ZERO_BITS: u64 = 0;

/// The sum of the doubles with bit patterns `a` and `b`.
pub uninterp spec fn fadd(a: u64, b: u64) -> u64;

/// The difference of the doubles with bit patterns `a` and `b`.
pub uninterp spec fn fsub(a: u64, b: u64) -> u64;

/// The product of the doubles with bit patterns `a` and `b`.
pub uninterp spec fn fmul(a: u64, b: u64) -> u64;

/// The quotient of the doubles with bit patterns `a` and `b`.
pub uninterp spec fn fdiv(a: u64, b: u64) -> u64;

/// The double with bit pattern `a` raised to the double with bit pattern `b`.
pub uninterp spec fn fpow(a: u64, b: u64) -> u64;

/// The double nearest to the decimal numeral `s` (digits and at most one
/// dot), by round-to-nearest-even.
pub uninterp spec fn float_of_decimal(s: Seq<char>) -> u64;

/// The negation of a double flips exactly the sign bit of its bit pattern.
pub open spec fn fneg(a: u64) -> u64 {
    a ^ 0x8000_0000_0000_0000u64
}

/// Negates the double with bit pattern `a`.  IEEE-754 negation flips the
/// sign bit and leaves every other bit unchanged, so it needs no outside
/// arithmetic.
pub fn neg_bits(a: u64) -> (r: u64)
    ensures
        r == fneg(a),
{
    a ^ 0x8000_0000_0000_0000u64
}

/// Relies on rustc_apfloat's IEEE double addition (`Add for IeeeFloat`):
/// the correctly rounded sum of the doubles given by the two bit patterns.
#[verifier::external_body]
pub fn add_bits(a: u64, b: u64) -> (r: u64)
    ensures
        r == fadd(a, b),
{
    let x = rustc_apfloat::ieee::Double::from_bits(a as u128);
    let y = rustc_apfloat::ieee::Double::from_bits(b as u128);
    (x + y).value.to_bits() as u64
}

/// Relies on rustc_apfloat's IEEE double subtraction (`Sub for IeeeFloat`):
/// the correctly rounded difference of the doubles given by the two bit
/// patterns.
#[verifier::external_body]
pub fn sub_bits(a: u64, b: u64) -> (r: u64)
    ensures
        r == fsub(a, b),
{
    let x = rustc_apfloat::ieee::Double::from_bits(a as u128);
    let y = rustc_apfloat::ieee::Double::from_bits(b as u128);
    (x - y).value.to_bits() as u64
}

/// Relies on rustc_apfloat's IEEE double multiplication (`Mul for
/// IeeeFloat`): the correctly rounded product of the doubles given by the
/// two bit patterns.
#[verifier::external_body]
pub fn mul_bits(a: u64, b: u64) -> (r: u64)
    ensures
        r == fmul(a, b),
{
    let x = rustc_apfloat::ieee::Double::from_bits(a as u128);
    let y = rustc_apfloat::ieee::Double::from_bits(b as u128);
    (x * y).value.to_bits() as u64
}

/// Relies on rustc_apfloat's IEEE double division (`Div for IeeeFloat`):
/// the correctly rounded quotient of the doubles given by the two bit
/// patterns, with the usual IEEE treatment of division by zero.
#[verifier::external_body]
pub fn div_bits(a: u64, b: u64) -> (r: u64)
    ensures
        r == fdiv(a, b),
{
    let x = rustc_apfloat::ieee::Double::from_bits(a as u128);
    let y = rustc_apfloat::ieee::Double::from_bits(b as u128);
    (x / y).value.to_bits() as u64
}

/// Relies on libm's `pow`, a deterministic software implementation of
/// double exponentiation (`0^0 == 1`, fractional and negative exponents
/// supported); `bytemuck::cast` converts between a double and its bit
/// pattern.
#[verifier::external_body]
pub fn pow_bits(a: u64, b: u64) -> (r: u64)
    ensures
        r == fpow(a, b),
{
    bytemuck::cast(libm::pow(bytemuck::cast(a), bytemuck::cast(b)))
}

/// An ASCII digit or the dot, the characters a numeric literal may hold.
pub open spec fn is_digit_or_dot(c: char) -> bool {
    c as u32 == 46 || (48 <= c as u32 && c as u32 <= 57)
}

/// How many characters of `s` from position `i` on are the dot.
pub open spec fn count_dots(s: Seq<char>, i: int) -> int
    decreases s.len() - i
        when 0 <= i <= s.len()
{
    if i >= s.len() {
        0
    } else {
        (if s[i] as u32 == 46 {
            1int
        } else {
            0int
        }) + count_dots(s, i + 1)
    }
}

/// How many characters of `s` from position `i` on are ASCII digits.
pub open spec fn count_digits(s: Seq<char>, i: int) -> int
    decreases s.len() - i
        when 0 <= i <= s.len()
{
    if i >= s.len() {
        0
    } else {
        (if 48 <= s[i] as u32 && s[i] as u32 <= 57 {
            1int
        } else {
            0int
        }) + count_digits(s, i + 1)
    }
}

/// The numerals that convert to a double: digits and dots only, with at
/// least one digit and at most one dot.
pub open spec fn spec_valid_number(s: Seq<char>) -> bool {
    &&& forall|i: int| 0 <= i < s.len() ==> is_digit_or_dot(#[trigger] s[i])
    &&& count_digits(s, 0) >= 1
    &&& count_dots(s, 0) <= 1
}

/// Relies on rustc_apfloat's decimal-to-double conversion
/// (`Double::from_str`, through `from_decimal_string`): over strings of
/// digits and dots it succeeds exactly when the string has at least one
/// digit and at most one dot, and then returns the correctly rounded
/// double.
#[verifier::external_body]
pub fn decimal_to_bits(s: &str) -> (r: Option<u64>)
    requires
        forall|i: int| 0 <= i < s@.len() ==> is_digit_or_dot(#[trigger] s@[i]),
    ensures
        r is Some <==> spec_valid_number(s@),
        r matches Some(b) ==> b == float_of_decimal(s@),
{
    match s.parse::<rustc_apfloat::ieee::Double>() {
        Ok(d) => Some(d.to_bits() as u64),
        Err(_) => None,
    }
}

/// Whether `c` counts as a digit when the tokenizer classifies characters.
/// Relies on `char::is_numeric` of std, a pure function of the character.
pub uninterp spec fn numeric_char(c: char) -> bool;

/// Whether `c` starts an identifier.  Relies on `char::is_alphabetic` of
/// std, a pure function of the character.
pub uninterp spec fn alpha_char(c: char) -> bool;

/// Relies on std's `char::is_numeric`: whether the character is in one of
/// the numeric Unicode general categories.
#[verifier::external_body]
pub fn ch_is_numeric(c: char) -> (r: bool)
    ensures
        r == numeric_char(c),
{
    c.is_numeric()
}

/// Relies on std's `char::is_alphabetic`: whether the character is in one
/// of the alphabetic Unicode general categories.
#[verifier::external_body]
pub fn ch_is_alphabetic(c: char) -> (r: bool)
    ensures
        r == alpha_char(c),
{
    c.is_alphabetic()
}

/// Relies on std's `char::is_alphanumeric`, which its documentation states
/// is true exactly when `is_alphabetic` or `is_numeric` is.
#[verifier::external_body]
pub fn ch_is_alphanumeric(c: char) -> (r: bool)
    ensures
        r == (alpha_char(c) || numeric_char(c)),
{
    c.is_alphanumeric()
}

} // verus!
