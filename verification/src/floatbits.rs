//! 64-bit IEEE-754 values, carried as bit patterns.
//!
//! The language stores every float as the `u64` bit pattern of the IEEE-754
//! double it denotes.  The arithmetic, comparisons, decimal parsing and
//! decimal printing of such values are performed by the software
//! floating-point library `rustc_apfloat`; each operation is named by an
//! uninterpreted function of the bit patterns alone, since all of them are
//! deterministic functions of their operands.
use rustc_apfloat::Float;
use vstd::prelude::*;

verus! {

/// Bit pattern of positive zero.
pub const F_POS_ZERO: u64 = 0x0000_0000_0000_0000;

/// Bit pattern of negative zero.
pub const F_NEG_ZERO: u64 = 0x8000_0000_0000_0000;

/// Whether the bit pattern denotes an IEEE-754 zero (either sign).
/// A double compares equal to `0.0` exactly on these two patterns.
pub open spec fn float_is_zero(bits: u64) -> bool {
    bits == F_POS_ZERO || bits == F_NEG_ZERO
}

/// Exec mirror of [`float_is_zero`].
pub fn float_is_zero_exec(bits: u64) -> (r: bool)
    ensures
        r == float_is_zero(bits),
{
    bits == F_POS_ZERO || bits == F_NEG_ZERO
}

/// The double denoted by the decimal text, when the text is a well-formed
/// decimal; `None` when it is not.
pub uninterp spec fn float_of_decimal(s: Seq<char>) -> Option<u64>;

/// The IEEE-754 sum of the two doubles, rounded to nearest.
pub uninterp spec fn float_add(a: u64, b: u64) -> u64;

/// The IEEE-754 difference of the two doubles, rounded to nearest.
pub uninterp spec fn float_sub(a: u64, b: u64) -> u64;

/// The IEEE-754 product of the two doubles, rounded to nearest.
pub uninterp spec fn float_mul(a: u64, b: u64) -> u64;

/// The IEEE-754 quotient of the two doubles, rounded to nearest.
pub uninterp spec fn float_div(a: u64, b: u64) -> u64;

/// IEEE-754 equality of the two doubles (`NaN` equals nothing,
/// the two zeros are equal).
pub uninterp spec fn float_eq(a: u64, b: u64) -> bool;

/// IEEE-754 strict ordering of the two doubles (`false` when either
/// is `NaN`).
pub uninterp spec fn float_lt(a: u64, b: u64) -> bool;

/// The double nearest to the 64-bit signed integer.
pub uninterp spec fn float_of_int(i: i64) -> u64;

/// The decimal text of the double, with enough digits to identify it.
pub uninterp spec fn float_text(bits: u64) -> Seq<char>;

/// Relies on `rustc_apfloat::ieee::Double::from_str`: parses decimal text
/// to the correctly rounded double, failing on malformed text.
#[verifier::external_body]
pub fn float_from_decimal(s: &str) -> (r: Option<u64>)
    ensures
        r == float_of_decimal(s@),
{
    match s.parse::<rustc_apfloat::ieee::Double>() {
        Ok(d) => Some(d.to_bits() as u64),
        Err(_) => None,
    }
}

/// Relies on `rustc_apfloat`'s `Add` for `ieee::Double`: IEEE-754 addition,
/// rounded to nearest.
#[verifier::external_body]
pub fn float_add_exec(a: u64, b: u64) -> (r: u64)
    ensures
        r == float_add(a, b),
{
    let x = rustc_apfloat::ieee::Double::from_bits(a as u128);
    let y = rustc_apfloat::ieee::Double::from_bits(b as u128);
    (x + y).value.to_bits() as u64
}

/// Relies on `rustc_apfloat`'s `Sub` for `ieee::Double`: IEEE-754
/// subtraction, rounded to nearest.
#[verifier::external_body]
pub fn float_sub_exec(a: u64, b: u64) -> (r: u64)
    ensures
        r == float_sub(a, b),
{
    let x = rustc_apfloat::ieee::Double::from_bits(a as u128);
    let y = rustc_apfloat::ieee::Double::from_bits(b as u128);
    (x - y).value.to_bits() as u64
}

/// Relies on `rustc_apfloat`'s `Mul` for `ieee::Double`: IEEE-754
/// multiplication, rounded to nearest.
#[verifier::external_body]
pub fn float_mul_exec(a: u64, b: u64) -> (r: u64)
    ensures
        r == float_mul(a, b),
{
    let x = rustc_apfloat::ieee::Double::from_bits(a as u128);
    let y = rustc_apfloat::ieee::Double::from_bits(b as u128);
    (x * y).value.to_bits() as u64
}

/// Relies on `rustc_apfloat`'s `Div` for `ieee::Double`: IEEE-754 division,
/// rounded to nearest.
#[verifier::external_body]
pub fn float_div_exec(a: u64, b: u64) -> (r: u64)
    ensures
        r == float_div(a, b),
{
    let x = rustc_apfloat::ieee::Double::from_bits(a as u128);
    let y = rustc_apfloat::ieee::Double::from_bits(b as u128);
    (x / y).value.to_bits() as u64
}

/// Relies on `rustc_apfloat`'s `PartialEq` for `ieee::Double`: IEEE-754
/// equality.
#[verifier::external_body]
pub fn float_eq_exec(a: u64, b: u64) -> (r: bool)
    ensures
        r == float_eq(a, b),
{
    let x = rustc_apfloat::ieee::Double::from_bits(a as u128);
    let y = rustc_apfloat::ieee::Double::from_bits(b as u128);
    x == y
}

/// Relies on `rustc_apfloat`'s `PartialOrd` for `ieee::Double`: IEEE-754
/// strict less-than.
#[verifier::external_body]
pub fn float_lt_exec(a: u64, b: u64) -> (r: bool)
    ensures
        r == float_lt(a, b),
{
    let x = rustc_apfloat::ieee::Double::from_bits(a as u128);
    let y = rustc_apfloat::ieee::Double::from_bits(b as u128);
    x < y
}

/// Relies on `rustc_apfloat::Float::from_i128`: conversion of a signed
/// integer to the nearest double.
#[verifier::external_body]
pub fn float_of_int_exec(i: i64) -> (r: u64)
    ensures
        r == float_of_int(i),
{
    rustc_apfloat::ieee::Double::from_i128(i as i128).value.to_bits() as u64
}

/// Relies on `rustc_apfloat`'s `Display` for `ieee::Double`: decimal text
/// with enough digits to identify the value, in plain (non-scientific)
/// notation at this width.
#[verifier::external_body]
pub fn float_to_string(bits: u64) -> (s: String)
    ensures
        s@ == float_text(bits),
{
    let d = rustc_apfloat::ieee::Double::from_bits(bits as u128);
    format!("{:10000}", d)
}

/// The bit pattern of the IEEE-754 negation: the sign bit flipped.
pub open spec fn float_neg(bits: u64) -> u64 {
    bits ^ F_NEG_ZERO
}

/// Exec mirror of [`float_neg`].
pub fn float_neg_exec(bits: u64) -> (r: u64)
    ensures
        r == float_neg(bits),
{
    bits ^ F_NEG_ZERO
}

} // verus!
