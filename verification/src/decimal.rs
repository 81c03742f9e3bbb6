//! Fixed-point decimals with eighteen fractional digits over 256 bits.
//!
//! A `Decimal` carries the big-endian bytes of its atomic units. All arithmetic
//! is done by `cosmwasm_std::Decimal256`; the contracts here say what each
//! operation yields in atomic units.

use cosmwasm_std::{Decimal256, Uint128, Uint256};
use std::str::FromStr;
use crate::text::{digit_char, digits};
use vstd::arithmetic::power::pow;
use vstd::prelude::*;

verus! {

/// Atomic units in `1.0`: ten to the eighteenth.
pub open spec fn fractional() -> nat {
    1_000_000_000_000_000_000
}

/// Two to the 256th: one more than the largest number of atomic units.
pub open spec fn atomics_limit() -> nat {
    0x1_0000_0000_0000_0000_0000_0000_0000_0000nat * 0x1_0000_0000_0000_0000_0000_0000_0000_0000nat
}

/// The number that a sequence of bytes spells, most significant byte first.
pub open spec fn be_value(bytes: Seq<u8>) -> nat
    decreases bytes.len(),
{
    if bytes.len() == 0 {
        0
    } else {
        be_value(bytes.drop_last()) * 256 + bytes.last() as nat
    }
}

/// The smallest whole number that is no less than `atomics / 10^18`.
pub open spec fn ceil_units(atomics: nat) -> nat {
    if atomics == 0 {
        0
    } else {
        1 + (atomics - 1) as nat / fractional()
    }
}

/// A non-negative decimal number with eighteen fractional digits.
#[derive(Clone, Copy, Debug, PartialEq, Eq)]
pub struct Decimal {
    /// The atomic units, as 32 bytes, most significant first.
    pub bytes: [u8; 32],
}

impl View for Decimal {
    type V = nat;

    /// The number of atomic units: the decimal's value times `10^18`.
    open spec fn view(&self) -> nat {
        be_value(self.bytes@)
    }
}

/// A sequence of `n` bytes spells a number below `256^n`.
pub proof fn lemma_be_value_bound(bytes: Seq<u8>)
    ensures
        be_value(bytes) < pow(256, bytes.len()),
    decreases bytes.len(),
{
    reveal(pow);
    if bytes.len() > 0 {
        lemma_be_value_bound(bytes.drop_last());
        let n = (bytes.len() - 1) as nat;
        assert(pow(256, bytes.len()) == 256 * pow(256, n));
        assert(be_value(bytes.drop_last()) + 1 <= pow(256, n));
        assert((be_value(bytes.drop_last()) + 1) * 256 <= pow(256, n) * 256) by (nonlinear_arith)
            requires
                be_value(bytes.drop_last()) + 1 <= pow(256, n),
        ;
    }
}

/// Every decimal lies below the limit of 256 bits.
pub proof fn lemma_decimal_bound(d: Decimal)
    ensures
        d@ < atomics_limit(),
{
    lemma_be_value_bound(d.bytes@);
    reveal_with_fuel(pow, 33);
    assert(pow(256, 32) == atomics_limit());
}

/// `Decimal256::from_ratio`: the ratio of two integers, rounded down to a
/// whole number of atomic units. The outside function panics on a zero
/// denominator, which `requires` leaves out; with 128-bit arguments the
/// result always fits.
#[verifier::external_body]
fn decimal256_from_ratio(numerator: u128, denominator: u128) -> (r: Decimal)
    requires
        denominator != 0,
    ensures
        r@ == (numerator as nat * fractional()) / (denominator as nat),
{
    Decimal { bytes: Decimal256::from_ratio(numerator, denominator).atomics().to_be_bytes() }
}

/// `Decimal256::one`: the decimal `1.0`.
#[verifier::external_body]
fn decimal256_one() -> (r: Decimal)
    ensures
        r@ == fractional(),
{
    Decimal { bytes: Decimal256::one().atomics().to_be_bytes() }
}

/// `Decimal256::percent`: `x` hundredths, that is `x * 10^16` atomic units.
#[verifier::external_body]
fn decimal256_percent(x: u64) -> (r: Decimal)
    ensures
        r@ == x as nat * 10_000_000_000_000_000,
{
    Decimal { bytes: Decimal256::percent(x).atomics().to_be_bytes() }
}

/// `Decimal256::checked_add`: the sum of the atomic units, or nothing where
/// the sum leaves 256 bits.
#[verifier::external_body]
fn decimal256_checked_add(a: Decimal, b: Decimal) -> (r: Option<Decimal>)
    ensures
        r.is_some() <==> a@ + b@ < atomics_limit(),
        r matches Some(d) ==> d@ == a@ + b@,
{
    let x = Decimal256::new(Uint256::from_be_bytes(a.bytes));
    let y = Decimal256::new(Uint256::from_be_bytes(b.bytes));
    match x.checked_add(y) {
        Ok(d) => Some(Decimal { bytes: d.atomics().to_be_bytes() }),
        Err(_) => None,
    }
}

/// `Decimal256::checked_sub`: the difference of the atomic units, or nothing
/// where the second operand is the larger.
#[verifier::external_body]
fn decimal256_checked_sub(a: Decimal, b: Decimal) -> (r: Option<Decimal>)
    ensures
        r.is_some() <==> b@ <= a@,
        r matches Some(d) ==> d@ == a@ - b@,
{
    let x = Decimal256::new(Uint256::from_be_bytes(a.bytes));
    let y = Decimal256::new(Uint256::from_be_bytes(b.bytes));
    match x.checked_sub(y) {
        Ok(d) => Some(Decimal { bytes: d.atomics().to_be_bytes() }),
        Err(_) => None,
    }
}

/// `Decimal256::checked_mul`: the product, computed in 512 bits and rounded
/// down to a whole number of atomic units, or nothing where the rounded
/// product leaves 256 bits.
#[verifier::external_body]
fn decimal256_checked_mul(a: Decimal, b: Decimal) -> (r: Option<Decimal>)
    ensures
        r.is_some() <==> (a@ * b@) / fractional() < atomics_limit(),
        r matches Some(d) ==> d@ == (a@ * b@) / fractional(),
{
    let x = Decimal256::new(Uint256::from_be_bytes(a.bytes));
    let y = Decimal256::new(Uint256::from_be_bytes(b.bytes));
    match x.checked_mul(y) {
        Ok(d) => Some(Decimal { bytes: d.atomics().to_be_bytes() }),
        Err(_) => None,
    }
}

/// `Decimal256::checked_div`: the quotient, rounded down to a whole number of
/// atomic units, or nothing where the divisor is zero or the quotient leaves
/// 256 bits.
#[verifier::external_body]
fn decimal256_checked_div(a: Decimal, b: Decimal) -> (r: Option<Decimal>)
    ensures
        r.is_some() == (b@ != 0 && (a@ * fractional()) / b@ < atomics_limit()),
        r matches Some(d) ==> d@ == (a@ * fractional()) / b@,
{
    let x = Decimal256::new(Uint256::from_be_bytes(a.bytes));
    let y = Decimal256::new(Uint256::from_be_bytes(b.bytes));
    match x.checked_div(y) {
        Ok(d) => Some(Decimal { bytes: d.atomics().to_be_bytes() }),
        Err(_) => None,
    }
}

/// `Decimal256::to_uint_floor`, narrowed to 128 bits: the whole part, or
/// nothing where it does not fit.
#[verifier::external_body]
fn decimal256_to_uint_floor(a: Decimal) -> (r: Option<u128>)
    ensures
        r.is_some() <==> a@ / fractional() <= u128::MAX,
        r matches Some(v) ==> v == a@ / fractional(),
{
    let whole = Decimal256::new(Uint256::from_be_bytes(a.bytes)).to_uint_floor();
    match Uint128::try_from(whole) {
        Ok(v) => Some(v.u128()),
        Err(_) => None,
    }
}

/// `Decimal256::to_uint_ceil`, narrowed to 128 bits: the value rounded up to
/// a whole number, or nothing where that does not fit.
#[verifier::external_body]
fn decimal256_to_uint_ceil(a: Decimal) -> (r: Option<u128>)
    ensures
        r.is_some() <==> ceil_units(a@) <= u128::MAX,
        r matches Some(v) ==> v == ceil_units(a@),
{
    let whole = Decimal256::new(Uint256::from_be_bytes(a.bytes)).to_uint_ceil();
    match Uint128::try_from(whole) {
        Ok(v) => Some(v.u128()),
        Err(_) => None,
    }
}

/// A number written with `width` digits, with zeros in front where it has
/// fewer.
pub open spec fn padded_digits(n: nat, width: nat) -> Seq<char>
    decreases width,
{
    if width == 0 {
        Seq::empty()
    } else {
        padded_digits(n / 10, (width - 1) as nat).push(digit_char(n % 10))
    }
}

/// A text without the zeros at its end.
pub open spec fn without_trailing_zeros(text: Seq<char>) -> Seq<char>
    decreases text.len(),
{
    if text.len() > 0 && text.last() == '0' {
        without_trailing_zeros(text.drop_last())
    } else {
        text
    }
}

/// A number of atomic units as text: the whole part in decimal and, where
/// there is a fraction, a dot and the fraction's eighteen digits without the
/// zeros at their end.
pub open spec fn decimal_text(atomics: nat) -> Seq<char> {
    if atomics % fractional() == 0 {
        digits(atomics / fractional())
    } else {
        digits(atomics / fractional()) + seq!['.'] + without_trailing_zeros(
            padded_digits(atomics % fractional(), 18),
        )
    }
}

/// The number of atomic units that `Decimal256` reads from a text, if it
/// reads one.
pub uninterp spec fn decimal_from_text(text: Seq<char>) -> Option<nat>;

/// `Decimal256::to_string`: the whole part in decimal; where the fraction
/// is not zero, a dot follows and the fraction, padded with zeros in front
/// to eighteen digits and with the zeros at its end taken off.
#[verifier::external_body]
fn decimal256_to_string(a: Decimal) -> (r: String)
    ensures
        r@ == decimal_text(a@),
{
    Decimal256::new(Uint256::from_be_bytes(a.bytes)).to_string()
}

/// `Decimal256::from_str`: the decimal that a text spells, or nothing where
/// the text spells none; which of the two, and which decimal, depends on
/// nothing but the text.
#[verifier::external_body]
fn decimal256_from_str(text: &str) -> (r: Option<Decimal>)
    ensures
        match decimal_from_text(text@) {
            Some(atomics) => r matches Some(d) && d@ == atomics,
            None => r.is_none(),
        },
{
    match Decimal256::from_str(text) {
        Ok(d) => Some(Decimal { bytes: d.atomics().to_be_bytes() }),
        Err(_) => None,
    }
}

/// The order of `Decimal256`, which is that of the atomic units.
#[verifier::external_body]
fn decimal256_lt(a: Decimal, b: Decimal) -> (r: bool)
    ensures
        r == (a@ < b@),
{
    Decimal256::new(Uint256::from_be_bytes(a.bytes)) < Decimal256::new(
        Uint256::from_be_bytes(b.bytes),
    )
}

impl Decimal {
    /// The decimal `1.0`.
    pub fn one() -> (r: Decimal)
        ensures
            r@ == fractional(),
    {
        decimal256_one()
    }

    /// `x` hundredths.
    pub fn percent(x: u64) -> (r: Decimal)
        ensures
            r@ == x as nat * 10_000_000_000_000_000,
    {
        decimal256_percent(x)
    }

    /// The ratio `numerator / denominator`, rounded down to a whole number of
    /// atomic units.
    pub fn from_ratio(numerator: u128, denominator: u128) -> (r: Decimal)
        requires
            denominator != 0,
        ensures
            r@ == (numerator as nat * fractional()) / (denominator as nat),
    {
        decimal256_from_ratio(numerator, denominator)
    }

    /// The whole number `n`.
    pub fn from_units(n: u128) -> (r: Decimal)
        ensures
            r@ == n as nat * fractional(),
    {
        let r = decimal256_from_ratio(n, 1);
        assert((n as nat * fractional()) / 1 == n as nat * fractional());
        r
    }

    /// The sum, where it fits in 256 bits.
    pub fn checked_add(self, other: Decimal) -> (r: Option<Decimal>)
        ensures
            r.is_some() <==> self@ + other@ < atomics_limit(),
            r matches Some(d) ==> d@ == self@ + other@,
    {
        decimal256_checked_add(self, other)
    }

    /// The difference, where `other` is not the larger.
    pub fn checked_sub(self, other: Decimal) -> (r: Option<Decimal>)
        ensures
            r.is_some() <==> other@ <= self@,
            r matches Some(d) ==> d@ == self@ - other@,
    {
        decimal256_checked_sub(self, other)
    }

    /// The product rounded down, where it fits in 256 bits.
    pub fn checked_mul(self, other: Decimal) -> (r: Option<Decimal>)
        ensures
            r.is_some() <==> (self@ * other@) / fractional() < atomics_limit(),
            r matches Some(d) ==> d@ == (self@ * other@) / fractional(),
    {
        decimal256_checked_mul(self, other)
    }

    /// The quotient rounded down, where the divisor is not zero and the
    /// quotient fits in 256 bits.
    pub fn checked_div(self, other: Decimal) -> (r: Option<Decimal>)
        ensures
            r.is_some() == (other@ != 0 && (self@ * fractional()) / other@ < atomics_limit()),
            r matches Some(d) ==> d@ == (self@ * fractional()) / other@,
    {
        decimal256_checked_div(self, other)
    }

    /// The whole part, where it fits in 128 bits.
    pub fn to_uint_floor(self) -> (r: Option<u128>)
        ensures
            r.is_some() <==> self@ / fractional() <= u128::MAX,
            r matches Some(v) ==> v == self@ / fractional(),
    {
        decimal256_to_uint_floor(self)
    }

    /// The value rounded up to a whole number, where that fits in 128 bits.
    pub fn to_uint_ceil(self) -> (r: Option<u128>)
        ensures
            r.is_some() <==> ceil_units(self@) <= u128::MAX,
            r matches Some(v) ==> v == ceil_units(self@),
    {
        decimal256_to_uint_ceil(self)
    }

    /// The decimal as text.
    pub fn to_string(&self) -> (r: String)
        ensures
            r@ == decimal_text(self@),
    {
        decimal256_to_string(*self)
    }

    /// The decimal that a text spells, if it spells one.
    pub fn parse(text: &str) -> (r: Option<Decimal>)
        ensures
            match decimal_from_text(text@) {
                Some(atomics) => r matches Some(d) && d@ == atomics,
                None => r.is_none(),
            },
    {
        decimal256_from_str(text)
    }

    /// Whether `self` is strictly less than `other`.
    pub fn lt(self, other: Decimal) -> (r: bool)
        ensures
            r == (self@ < other@),
    {
        decimal256_lt(self, other)
    }
}

} // verus!
