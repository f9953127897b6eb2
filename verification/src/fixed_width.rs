//! The pipeline for indices and moduli that fit in a `u64`.
//!
//! Matrix entries are stored as `u64`. Every product and every running sum
//! is formed in arbitrary precision and reduced there, and only the
//! residue, which lies below the modulus, is narrowed back to `u64`.

use crate::bigint::{
    big_add, big_from_u64, big_mul, big_rem, big_to_radix_be, big_value, radix_value,
};
use crate::error::FibError;
use crate::matrix::Matrix;
use crate::model::{
    fib_mod, lemma_fib_step_power, lemma_power_add, lemma_power_one, lemma_reduce_of_reduced,
    lemma_reduce_power, lemma_reduce_times, Mat2,
};
use crate::progress::{
    lemma_dot_prefix_step, lemma_entry_finished, lemma_product_finished, lemma_product_started,
    lemma_row_finished, product_so_far,
};
use num_bigint::BigUint;
use vstd::prelude::*;

verus! {

/// What `fib_with_mod` returns: the invalid-modulus error exactly when the
/// modulus is zero, and otherwise `fib_mod` of the index and the modulus.
pub open spec fn fib_with_mod_spec(n: u64, modulo: u64) -> Result<u64, FibError> {
    if modulo == 0 {
        Err(FibError::InvalidModulus)
    } else {
        Ok(fib_mod(n as nat, modulo as nat) as u64)
    }
}

/// A prefix of a digit string denotes no more than the whole string, and a
/// prefix that is not the whole string still denotes no more when it is
/// shifted up by one digit.
proof fn lemma_radix_prefix(digits: Seq<u8>, radix: nat, k: int)
    requires
        radix >= 1,
        0 <= k <= digits.len(),
    ensures
        radix_value(digits.take(k), radix) <= radix_value(digits, radix),
        k < digits.len() ==> radix_value(digits.take(k), radix) * radix <= radix_value(
            digits,
            radix,
        ),
    decreases digits.len(),
{
    if k == digits.len() {
        assert(digits.take(k) == digits);
    } else {
        let shorter = digits.drop_last();
        assert(shorter.take(k) == digits.take(k));
        lemma_radix_prefix(shorter, radix, k);
        let whole = radix_value(shorter, radix);
        let part = radix_value(digits.take(k), radix);
        assert(part * radix <= whole * radix) by (nonlinear_arith)
            requires
                part <= whole,
        ;
        assert(whole <= whole * radix) by (nonlinear_arith)
            requires
                radix >= 1,
        ;
    }
}

/// A string of digits with one more digit appended denotes `radix` times
/// the old number plus the new digit.
proof fn lemma_radix_extend(digits: Seq<u8>, radix: nat, k: int)
    requires
        0 <= k < digits.len(),
    ensures
        radix_value(digits.take(k + 1), radix) == radix_value(digits.take(k), radix) * radix
            + digits[k] as nat,
{
    assert(digits.take(k + 1).drop_last() == digits.take(k));
}

/// Narrows an arbitrary-precision number that fits in 64 bits to a `u64`,
/// by way of its decimal digits.
fn small_big_int_to_u64(big_int: &BigUint) -> (value: u64)
    requires
        big_value(*big_int) <= u64::MAX,
    ensures
        value == big_value(*big_int),
{
    let digits = big_to_radix_be(big_int, 10);
    let last: usize = digits.len() - 1;
    let mut result: u64 = 0;
    let mut i: usize = 0;
    while i < last
        invariant
            last == digits@.len() - 1,
            i <= last,
            result == radix_value(digits@.take(i as int), 10) * 10,
            radix_value(digits@, 10) <= u64::MAX,
        decreases last - i,
    {
        proof {
            lemma_radix_extend(digits@, 10, i as int);
            lemma_radix_prefix(digits@, 10, i + 1);
        }
        result = result + digits[i] as u64;
        result = result * 10;
        i = i + 1;
    }
    proof {
        lemma_radix_extend(digits@, 10, last as int);
        assert(digits@.take(last + 1) == digits@);
    }
    result + digits[last] as u64
}

/// The product of two 2×2 matrices, every entry reduced modulo `modulo`.
///
/// Each product of two entries, and each sum of such products, is formed
/// in arbitrary precision, so nothing is lost however close the entries
/// and the modulus are to `u64::MAX`.
#[verifier::loop_isolation(false)]
fn multiply_with_mod(a: &Matrix, b: &Matrix, modulo: u64) -> (product: Matrix)
    requires
        a.is_2x2(),
        b.is_2x2(),
        modulo >= 1,
    ensures
        product.is_2x2(),
        product@ == a@.times(b@).reduce(modulo as nat),
        product@.is_reduced(modulo as nat),
{
    let mut return_mat = Matrix::from_entries(0, 0, 0, 0);
    let big_mod = big_from_u64(modulo).unwrap();
    proof {
        lemma_product_started(a@, b@, modulo as nat);
    }
    let mut i: usize = 0;
    while i < 2
        invariant
            return_mat.is_2x2(),
            i <= 2,
            product_so_far(return_mat@, a@, b@, modulo as nat, i as int, 0, 0),
        decreases 2 - i,
    {
        let mut j: usize = 0;
        while j < 2
            invariant
                return_mat.is_2x2(),
                j <= 2,
                product_so_far(return_mat@, a@, b@, modulo as nat, i as int, j as int, 0),
            decreases 2 - j,
        {
            let mut k: usize = 0;
            while k < 2
                invariant
                    return_mat.is_2x2(),
                    k <= 2,
                    product_so_far(return_mat@, a@, b@, modulo as nat, i as int, j as int, k as int),
                decreases 2 - k,
            {
                let mat_ij = big_from_u64(return_mat.get(i, j)).unwrap();
                let a_ik = big_from_u64(a.get(i, k)).unwrap();
                let b_kj = big_from_u64(b.get(k, j)).unwrap();
                let big_val = big_rem(&big_add(&mat_ij, &big_mul(&a_ik, &b_kj)), &big_mod);
                proof {
                    lemma_dot_prefix_step(a@, b@, modulo as nat, i as int, j as int, k as int);
                }
                let entry: u64 = small_big_int_to_u64(&big_val);
                return_mat.set(i, j, entry);
                k = k + 1;
            }
            proof {
                lemma_entry_finished(return_mat@, a@, b@, modulo as nat, i as int, j as int);
            }
            j = j + 1;
        }
        proof {
            lemma_row_finished(return_mat@, a@, b@, modulo as nat, i as int);
        }
        i = i + 1;
    }
    proof {
        lemma_product_finished(return_mat@, a@, b@, modulo as nat);
    }
    return_mat
}

/// The `pow`-th power of a 2×2 matrix, every entry reduced modulo
/// `modulo`, in `O(log pow)` matrix products: an odd exponent peels off one
/// factor, an even one squares the power of half the exponent.
fn matrix_power_with_mod(mat: &Matrix, pow: u64, modulo: u64) -> (power: Matrix)
    requires
        mat.is_2x2(),
        mat@.is_reduced(modulo as nat),
        pow >= 1,
        modulo >= 1,
    ensures
        power.is_2x2(),
        power@ == mat@.power(pow as nat).reduce(modulo as nat),
        power@.is_reduced(modulo as nat),
    decreases pow,
{
    if pow == 1 {
        proof {
            lemma_power_one(mat@);
            lemma_reduce_of_reduced(mat@, modulo as nat);
        }
        return mat.duplicate();
    }
    if pow % 2 == 1 {
        let rest = matrix_power_with_mod(mat, pow - 1, modulo);
        proof {
            let m = modulo as nat;
            let tail = mat@.power((pow - 1) as nat);
            lemma_reduce_times(mat@, tail, m);
            lemma_reduce_of_reduced(mat@, m);
        }
        return multiply_with_mod(mat, &rest, modulo);
    }
    let x = matrix_power_with_mod(mat, pow / 2, modulo);
    proof {
        let m = modulo as nat;
        let half = mat@.power((pow / 2) as nat);
        lemma_reduce_times(half, half, m);
        lemma_power_add(mat@, (pow / 2) as nat, (pow / 2) as nat);
    }
    multiply_with_mod(&x, &x, modulo)
}

/// The `n`-th Fibonacci number modulo `modulo`, for an index and a modulus
/// that fit in 64 bits, in `O(log n)` arithmetic operations.
///
/// A zero modulus is rejected with `FibError::InvalidModulus`, whatever the
/// index. For a modulus of at least 1, the indices 0 and 1 are answered
/// with 0 and 1 before any reduction, and every index from 2 on with the
/// residue of `F(n)`, which lies below the modulus.
pub fn fib_with_mod(n: u64, modulo: u64) -> (result: Result<u64, FibError>)
    ensures
        result == fib_with_mod_spec(n, modulo),
        modulo == 0 <==> result is Err,
        result matches Ok(value) ==> value == fib_mod(n as nat, modulo as nat),
        result matches Ok(value) ==> (n == 0 ==> value == 0) && (n == 1 ==> value == 1) && (n >= 2
            ==> value < modulo),
{
    if modulo == 0 {
        return Err(FibError::InvalidModulus);
    }
    if n == 0 {
        return Ok(0);
    }
    if n == 1 {
        return Ok(1);
    }
    let t = Matrix::from_entries(0, 1 % modulo, 1 % modulo, 1 % modulo);
    proof {
        assert(t@ == Mat2::fib_step().reduce(modulo as nat));
    }
    let power_t = matrix_power_with_mod(&t, n, modulo);
    proof {
        lemma_reduce_power(Mat2::fib_step(), n as nat, modulo as nat);
        lemma_fib_step_power(n as nat);
    }
    Ok(power_t.get(0, 1))
}

} // verus!
