//! Laws that relate the outcomes of the two entry points, proved from the
//! functions that their contracts are stated with.

use crate::arbitrary_precision::{big_outcome, bigfib_with_mod_spec};
use crate::bigint::big_value;
use crate::error::FibError;
use crate::fixed_width::fib_with_mod_spec;
use crate::model::{lemma_fib_mod_is_residue, lemma_fib_mod_recurrence};
use num_bigint::BigUint;
use vstd::prelude::*;

verus! {

/// Under every modulus of at least 1, `fib_with_mod` gives 0 for index 0
/// and 1 for index 1.
pub proof fn lemma_base_cases(modulo: u64)
    requires
        modulo >= 1,
    ensures
        fib_with_mod_spec(0, modulo) == Ok::<u64, FibError>(0),
        fib_with_mod_spec(1, modulo) == Ok::<u64, FibError>(1),
{
}

/// Under every modulus of at least 1, `bigfib_with_mod` gives 0 for index
/// 0 and 1 for index 1.
pub proof fn lemma_big_base_cases(modulo: nat)
    requires
        modulo >= 1,
    ensures
        bigfib_with_mod_spec(0, modulo) == Ok::<nat, FibError>(0),
        bigfib_with_mod_spec(1, modulo) == Ok::<nat, FibError>(1),
{
}

/// From index 2 on, under every modulus of at least 1, `fib_with_mod`
/// gives the sum of what it gives for the two indices before, reduced.
pub proof fn lemma_recurrence(n: u64, modulo: u64)
    requires
        n >= 2,
        modulo >= 1,
    ensures
        fib_with_mod_spec(n, modulo) matches Ok(value) && fib_with_mod_spec(
            (n - 1) as u64,
            modulo,
        ) matches Ok(previous) && fib_with_mod_spec((n - 2) as u64, modulo) matches Ok(before)
            && value == (previous + before) % (modulo as int),
{
    lemma_fib_mod_recurrence(n as nat, modulo as nat);
    lemma_fib_mod_is_residue(n as nat, modulo as nat);
    if n >= 3 {
        lemma_fib_mod_is_residue((n - 1) as nat, modulo as nat);
    }
    if n >= 4 {
        lemma_fib_mod_is_residue((n - 2) as nat, modulo as nat);
    }
}

/// From index 2 on, under every modulus of at least 1, `bigfib_with_mod`
/// gives the sum of what it gives for the two indices before, reduced.
pub proof fn lemma_big_recurrence(n: nat, modulo: nat)
    requires
        n >= 2,
        modulo >= 1,
    ensures
        bigfib_with_mod_spec(n, modulo) matches Ok(value) && bigfib_with_mod_spec(
            (n - 1) as nat,
            modulo,
        ) matches Ok(previous) && bigfib_with_mod_spec((n - 2) as nat, modulo) matches Ok(before)
            && value == (previous + before) % modulo,
{
    lemma_fib_mod_recurrence(n, modulo);
}

/// The two entry points agree: on an index and a modulus that fit in 64
/// bits, `bigfib_with_mod` gives the number that `fib_with_mod` gives, and
/// fails exactly when `fib_with_mod` fails, with the same error.
pub proof fn lemma_entry_points_agree(n: u64, modulo: u64)
    ensures
        bigfib_with_mod_spec(n as nat, modulo as nat) == match fib_with_mod_spec(n, modulo) {
            Ok(value) => Ok::<nat, FibError>(value as nat),
            Err(error) => Err::<nat, FibError>(error),
        },
{
    if modulo >= 1 && n >= 2 {
        lemma_fib_mod_is_residue(n as nat, modulo as nat);
    }
}

/// `fib_with_mod` is a function of its arguments: two calls on the same
/// index and modulus, each returning what the contract allows, return the
/// same.
pub proof fn lemma_repeatable(
    n: u64,
    modulo: u64,
    first: Result<u64, FibError>,
    second: Result<u64, FibError>,
)
    requires
        first == fib_with_mod_spec(n, modulo),
        second == fib_with_mod_spec(n, modulo),
    ensures
        first == second,
{
}

/// `bigfib_with_mod` is a function of the numbers that its arguments
/// hold: two calls on indices that hold the same number and moduli that
/// hold the same number, each returning what the contract allows, fail
/// alike or return results that hold the same number.
pub proof fn lemma_big_repeatable(
    n: BigUint,
    modulo: BigUint,
    first: Result<BigUint, FibError>,
    again_n: BigUint,
    again_modulo: BigUint,
    second: Result<BigUint, FibError>,
)
    requires
        big_value(n) == big_value(again_n),
        big_value(modulo) == big_value(again_modulo),
        big_outcome(first) == bigfib_with_mod_spec(big_value(n), big_value(modulo)),
        big_outcome(second) == bigfib_with_mod_spec(big_value(again_n), big_value(again_modulo)),
    ensures
        big_outcome(first) == big_outcome(second),
{
}

/// What `fib_with_mod` gives is a residue: it lies below the modulus, and
/// reducing it once more changes nothing. The one exception is index 1
/// under modulus 1, where the result is 1.
pub proof fn lemma_reduction_idempotent(n: u64, modulo: u64)
    requires
        modulo >= 1,
        !(n == 1 && modulo == 1),
    ensures
        fib_with_mod_spec(n, modulo) matches Ok(value) && value < modulo && value % modulo
            == value,
{
    lemma_fib_mod_is_residue(n as nat, modulo as nat);
}

/// What `bigfib_with_mod` gives is a residue: it lies below the modulus,
/// and reducing it once more changes nothing. The one exception is index
/// 1 under modulus 1, where the result is 1.
pub proof fn lemma_big_reduction_idempotent(n: nat, modulo: nat)
    requires
        modulo >= 1,
        !(n == 1 && modulo == 1),
    ensures
        bigfib_with_mod_spec(n, modulo) matches Ok(value) && value < modulo && value % modulo
            == value,
{
    lemma_fib_mod_is_residue(n, modulo);
}

/// `fib_with_mod` rejects a zero modulus, whatever the index, and nothing
/// else.
pub proof fn lemma_zero_modulus_rejected(n: u64, modulo: u64)
    ensures
        modulo == 0 <==> fib_with_mod_spec(n, modulo) == Err::<u64, FibError>(
            FibError::InvalidModulus,
        ),
        modulo == 0 <==> fib_with_mod_spec(n, modulo) is Err,
{
}

/// `bigfib_with_mod` rejects a zero modulus, whatever the index, and
/// nothing else.
pub proof fn lemma_big_zero_modulus_rejected(n: nat, modulo: nat)
    ensures
        modulo == 0 <==> bigfib_with_mod_spec(n, modulo) == Err::<nat, FibError>(
            FibError::InvalidModulus,
        ),
        modulo == 0 <==> bigfib_with_mod_spec(n, modulo) is Err,
{
}

} // verus!
