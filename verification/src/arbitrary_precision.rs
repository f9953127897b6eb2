//! The pipeline for indices and moduli of any size.
//!
//! Every number is a `BigUint`, so nothing can overflow. Every running sum
//! is still reduced before it is used again, which keeps the entries below
//! the modulus and the cost of each product in proportion to its size.

use crate::big_matrix::BigMatrix;
use crate::bigint::{
    big_add, big_clone, big_div, big_eq, big_from_u64, big_mul, big_rem, big_sub, big_value,
};
use crate::error::FibError;
use crate::model::{
    fib_mod, lemma_fib_step_power, lemma_power_add, lemma_power_one, lemma_reduce_of_reduced,
    lemma_reduce_power, lemma_reduce_times, Mat2,
};
use crate::progress::{
    lemma_dot_prefix_step, lemma_entry_finished, lemma_product_finished, lemma_product_started,
    lemma_row_finished, product_so_far,
};
use num_bigint::BigUint;
use vstd::prelude::*;

verus! {

/// What `bigfib_with_mod` returns, with the numbers that the arguments and
/// the result hold in place of the `BigUint`s: the invalid-modulus error
/// exactly when the modulus is zero, and otherwise `fib_mod` of the index
/// and the modulus.
pub open spec fn bigfib_with_mod_spec(n: nat, modulo: nat) -> Result<nat, FibError> {
    if modulo == 0 {
        Err(FibError::InvalidModulus)
    } else {
        Ok(fib_mod(n, modulo))
    }
}

/// An outcome of `bigfib_with_mod` with the number that the result holds in
/// place of the `BigUint`.
pub open spec fn big_outcome(result: Result<BigUint, FibError>) -> Result<nat, FibError> {
    match result {
        Ok(value) => Ok(big_value(value)),
        Err(error) => Err(error),
    }
}

/// The product of two 2×2 matrices, every entry reduced modulo `modulo`.
#[verifier::loop_isolation(false)]
fn bigfib_multiply(a: &BigMatrix, b: &BigMatrix, modulo: &BigUint) -> (product: BigMatrix)
    requires
        a.is_2x2(),
        b.is_2x2(),
        big_value(*modulo) >= 1,
    ensures
        product.is_2x2(),
        product@ == a@.times(b@).reduce(big_value(*modulo)),
        product@.is_reduced(big_value(*modulo)),
{
    let zero = big_from_u64(0).unwrap();
    let mut return_mat = BigMatrix::from_entries(
        big_clone(&zero),
        big_clone(&zero),
        big_clone(&zero),
        big_clone(&zero),
    );
    proof {
        lemma_product_started(a@, b@, big_value(*modulo));
    }
    let mut i: usize = 0;
    while i < 2
        invariant
            return_mat.is_2x2(),
            i <= 2,
            product_so_far(return_mat@, a@, b@, big_value(*modulo), i as int, 0, 0),
        decreases 2 - i,
    {
        let mut j: usize = 0;
        while j < 2
            invariant
                return_mat.is_2x2(),
                j <= 2,
                product_so_far(return_mat@, a@, b@, big_value(*modulo), i as int, j as int, 0),
            decreases 2 - j,
        {
            let mut k: usize = 0;
            while k < 2
                invariant
                    return_mat.is_2x2(),
                    k <= 2,
                    product_so_far(
                        return_mat@,
                        a@,
                        b@,
                        big_value(*modulo),
                        i as int,
                        j as int,
                        k as int,
                    ),
                decreases 2 - k,
            {
                let big_val = big_add(return_mat.get(i, j), &big_mul(a.get(i, k), b.get(k, j)));
                proof {
                    lemma_dot_prefix_step(a@, b@, big_value(*modulo), i as int, j as int, k as int);
                }
                return_mat.set(i, j, big_rem(&big_val, modulo));
                k = k + 1;
            }
            proof {
                lemma_entry_finished(return_mat@, a@, b@, big_value(*modulo), i as int, j as int);
            }
            j = j + 1;
        }
        proof {
            lemma_row_finished(return_mat@, a@, b@, big_value(*modulo), i as int);
        }
        i = i + 1;
    }
    proof {
        lemma_product_finished(return_mat@, a@, b@, big_value(*modulo));
    }
    return_mat
}

/// The `pow`-th power of a 2×2 matrix, every entry reduced modulo
/// `modulo`, in `O(log pow)` matrix products: an odd exponent peels off one
/// factor, an even one squares the power of half the exponent.
fn bigfib_matrix_power(mat: &BigMatrix, pow: &BigUint, modulo: &BigUint) -> (power: BigMatrix)
    requires
        mat.is_2x2(),
        mat@.is_reduced(big_value(*modulo)),
        big_value(*pow) >= 1,
        big_value(*modulo) >= 1,
    ensures
        power.is_2x2(),
        power@ == mat@.power(big_value(*pow)).reduce(big_value(*modulo)),
        power@.is_reduced(big_value(*modulo)),
    decreases big_value(*pow),
{
    let one = big_from_u64(1).unwrap();
    let two = big_from_u64(2).unwrap();
    if big_eq(pow, &one) {
        proof {
            lemma_power_one(mat@);
            lemma_reduce_of_reduced(mat@, big_value(*modulo));
        }
        return mat.duplicate();
    }
    if big_eq(&big_rem(pow, &two), &one) {
        let rest = bigfib_matrix_power(mat, &big_sub(pow, &one), modulo);
        proof {
            let m = big_value(*modulo);
            let tail = mat@.power((big_value(*pow) - 1) as nat);
            lemma_reduce_times(mat@, tail, m);
            lemma_reduce_of_reduced(mat@, m);
        }
        return bigfib_multiply(mat, &rest, modulo);
    }
    let x = bigfib_matrix_power(mat, &big_div(pow, &two), modulo);
    proof {
        let m = big_value(*modulo);
        let half = mat@.power(big_value(*pow) / 2);
        lemma_reduce_times(half, half, m);
        lemma_power_add(mat@, big_value(*pow) / 2, big_value(*pow) / 2);
    }
    bigfib_multiply(&x, &x, modulo)
}

/// The `n`-th Fibonacci number modulo `modulo`, for an index and a modulus
/// of any size, in `O(log n)` arithmetic operations.
///
/// A zero modulus is rejected with `FibError::InvalidModulus`, whatever the
/// index. For a modulus of at least 1, the indices 0 and 1 are answered
/// with themselves before any reduction, and every index from 2 on with
/// the residue of `F(n)`, which lies below the modulus.
pub fn bigfib_with_mod(n: &BigUint, modulo: &BigUint) -> (result: Result<BigUint, FibError>)
    ensures
        big_outcome(result) == bigfib_with_mod_spec(big_value(*n), big_value(*modulo)),
        big_value(*modulo) == 0 <==> result is Err,
        result matches Ok(value) ==> big_value(value) == fib_mod(
            big_value(*n),
            big_value(*modulo),
        ),
        result matches Ok(value) ==> (big_value(*n) <= 1 ==> big_value(value) == big_value(*n))
            && (big_value(*n) >= 2 ==> big_value(value) < big_value(*modulo)),
{
    let zero = big_from_u64(0).unwrap();
    let one = big_from_u64(1).unwrap();
    if big_eq(modulo, &zero) {
        return Err(FibError::InvalidModulus);
    }
    if big_eq(n, &zero) || big_eq(n, &one) {
        return Ok(big_clone(n));
    }
    let t = BigMatrix::from_entries(
        zero,
        big_rem(&one, modulo),
        big_rem(&one, modulo),
        big_rem(&one, modulo),
    );
    proof {
        assert(t@ == Mat2::fib_step().reduce(big_value(*modulo)));
    }
    let power_t = bigfib_matrix_power(&t, n, modulo);
    proof {
        lemma_reduce_power(Mat2::fib_step(), big_value(*n), big_value(*modulo));
        lemma_fib_step_power(big_value(*n));
    }
    Ok(big_clone(power_t.get(0, 1)))
}

} // verus!
