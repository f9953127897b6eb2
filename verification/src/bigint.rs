//! Arbitrary-precision naturals from `num-bigint`, as the verifier sees
//! them: an opaque `BigUint`, the digits it holds, the natural number that
//! those digits denote, and one contract for each operation the library
//! calls. None of these contracts is proved here; each states what the
//! operation is documented to do.

use num::FromPrimitive;
use num_bigint::BigUint;
use vstd::prelude::*;

verus! {

/// `num_bigint::BigUint`, an arbitrary-precision natural number. The
/// verifier sees nothing inside it.
#[verifier::external_type_specification]
#[verifier::external_body]
pub struct ExBigUint(num_bigint::BigUint);

/// The digits that a `BigUint` holds, in base 2^32, least significant
/// first and without zeros at the most significant end: what
/// `BigUint::to_u32_digits` returns.
pub uninterp spec fn big_digits(b: BigUint) -> Seq<u32>;

/// The number that a string of base-2^32 digits denotes, least significant
/// digit first.
pub open spec fn digits_value(digits: Seq<u32>) -> nat
    decreases digits.len(),
{
    if digits.len() == 0 {
        0
    } else {
        digits.first() as nat + 0x1_0000_0000 * digits_value(digits.drop_first())
    }
}

/// The natural number that a `BigUint` holds.
pub open spec fn big_value(b: BigUint) -> nat {
    digits_value(big_digits(b))
}

/// The number that a string of digits denotes in the given radix, most
/// significant digit first.
pub open spec fn radix_value(digits: Seq<u8>, radix: nat) -> nat
    decreases digits.len(),
{
    if digits.len() == 0 {
        0
    } else {
        radix_value(digits.drop_last(), radix) * radix + digits.last() as nat
    }
}

/// `FromPrimitive::from_u64` for `BigUint`: always `Some`, holding the
/// same number as the argument.
#[verifier::external_body]
pub(crate) fn big_from_u64(v: u64) -> (b: Option<BigUint>)
    ensures
        b is Some,
        big_value(b.unwrap()) == v,
{
    BigUint::from_u64(v)
}

/// `Add::add` on two `&BigUint`, written `x + y`: the sum.
#[verifier::external_body]
pub(crate) fn big_add(x: &BigUint, y: &BigUint) -> (sum: BigUint)
    ensures
        big_value(sum) == big_value(*x) + big_value(*y),
{
    x + y
}

/// `Sub::sub` on two `&BigUint`, written `x - y`: the difference. The
/// subtraction panics when the right operand is the larger, so that case
/// is excluded.
#[verifier::external_body]
pub(crate) fn big_sub(x: &BigUint, y: &BigUint) -> (difference: BigUint)
    requires
        big_value(*x) >= big_value(*y),
    ensures
        big_value(difference) == big_value(*x) - big_value(*y),
{
    x - y
}

/// `Mul::mul` on two `&BigUint`, written `x * y`: the product.
#[verifier::external_body]
pub(crate) fn big_mul(x: &BigUint, y: &BigUint) -> (product: BigUint)
    ensures
        big_value(product) == big_value(*x) * big_value(*y),
{
    x * y
}

/// `Div::div` on two `&BigUint`, written `x / y`: the quotient, rounded
/// down. The division panics on a zero divisor, so that case is excluded.
#[verifier::external_body]
pub(crate) fn big_div(x: &BigUint, y: &BigUint) -> (quotient: BigUint)
    requires
        big_value(*y) > 0,
    ensures
        big_value(quotient) == big_value(*x) / big_value(*y),
{
    x / y
}

/// `Rem::rem` on two `&BigUint`, written `x % y`: the remainder. The
/// operation panics on a zero divisor, so that case is excluded.
#[verifier::external_body]
pub(crate) fn big_rem(x: &BigUint, y: &BigUint) -> (remainder: BigUint)
    requires
        big_value(*y) > 0,
    ensures
        big_value(remainder) == big_value(*x) % big_value(*y),
{
    x % y
}

/// `PartialEq::eq` on two `BigUint`, written `x == y`: whether the two
/// hold the same number.
#[verifier::external_body]
pub(crate) fn big_eq(x: &BigUint, y: &BigUint) -> (same: bool)
    ensures
        same == (big_value(*x) == big_value(*y)),
{
    x == y
}

/// `BigUint::clone`: a copy that holds the same digits, and so the same
/// number.
#[verifier::external_body]
pub(crate) fn big_clone(x: &BigUint) -> (copy: BigUint)
    ensures
        big_digits(copy) == big_digits(*x),
{
    x.clone()
}

/// `BigUint::to_radix_be`: the digits of the number in the given radix,
/// most significant first, each digit below the radix, and at least one
/// digit (zero is the single digit 0). The radix must lie in `2..=256`.
#[verifier::external_body]
pub(crate) fn big_to_radix_be(x: &BigUint, radix: u32) -> (digits: Vec<u8>)
    requires
        2 <= radix <= 256,
    ensures
        digits@.len() >= 1,
        forall|i: int| 0 <= i < digits@.len() ==> (#[trigger] digits@[i] as nat) < radix,
        radix_value(digits@, radix as nat) == big_value(*x),
{
    x.to_radix_be(radix)
}

} // verus!
