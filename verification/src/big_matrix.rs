//! Matrices of arbitrary-precision entries, held in an
//! `ndarray::Array2<BigUint>`.
//!
//! As with the matrices of `u64`, the array is kept in the private field
//! of a struct that is opaque to the verifier. What it holds is named by
//! [`big_matrix_rows`], entry by entry as the natural numbers that the
//! entries hold, and each operation on it that the library calls carries a
//! contract over that name. None of these contracts is proved here; each
//! states what `ndarray` is documented to do.

use crate::bigint::big_value;
use crate::model::Mat2;
use ndarray::{arr2, Array2};
use num_bigint::BigUint;
use vstd::prelude::*;

verus! {

/// A matrix of arbitrary-precision entries: an
/// `ndarray::Array2<BigUint>`, of which the verifier sees nothing.
#[verifier::external_body]
pub struct BigMatrix {
    cells: Array2<BigUint>,
}

/// The numbers that the entries of a matrix hold: its rows from top to
/// bottom, each from left to right.
pub uninterp spec fn big_matrix_rows(m: BigMatrix) -> Seq<Seq<nat>>;

impl BigMatrix {
    /// Whether the matrix has two rows of two entries.
    pub open spec fn is_2x2(self) -> bool {
        &&& big_matrix_rows(self).len() == 2
        &&& big_matrix_rows(self)[0].len() == 2
        &&& big_matrix_rows(self)[1].len() == 2
    }

    /// `ndarray::arr2` on the rows `[a, b]` and `[c, d]`: the matrix with
    /// exactly these rows.
    #[verifier::external_body]
    pub(crate) fn from_entries(a: BigUint, b: BigUint, c: BigUint, d: BigUint) -> (m: BigMatrix)
        ensures
            big_matrix_rows(m) == seq![
                seq![big_value(a), big_value(b)],
                seq![big_value(c), big_value(d)],
            ],
    {
        BigMatrix { cells: arr2(&[[a, b], [c, d]]) }
    }

    /// Indexing with `[[i, j]]`: the entry in row `i` and column `j`.
    /// Indexing panics out of bounds, so such indices are excluded.
    #[verifier::external_body]
    pub(crate) fn get(&self, i: usize, j: usize) -> (entry: &BigUint)
        requires
            i < big_matrix_rows(*self).len(),
            j < big_matrix_rows(*self)[i as int].len(),
        ensures
            big_value(*entry) == big_matrix_rows(*self)[i as int][j as int],
    {
        &self.cells[[i, j]]
    }

    /// Assignment through `[[i, j]]`: the entry in row `i` and column `j`
    /// becomes `entry`, and nothing else changes. Indexing panics out of
    /// bounds, so such indices are excluded.
    #[verifier::external_body]
    pub(crate) fn set(&mut self, i: usize, j: usize, entry: BigUint)
        requires
            i < big_matrix_rows(*old(self)).len(),
            j < big_matrix_rows(*old(self))[i as int].len(),
        ensures
            big_matrix_rows(*final(self)) == big_matrix_rows(*old(self)).update(
                i as int,
                big_matrix_rows(*old(self))[i as int].update(j as int, big_value(entry)),
            ),
    {
        self.cells[[i, j]] = entry;
    }

    /// `Array2::clone`: a matrix whose entries hold the same numbers.
    #[verifier::external_body]
    pub(crate) fn duplicate(&self) -> (copy: BigMatrix)
        ensures
            big_matrix_rows(copy) == big_matrix_rows(*self),
    {
        BigMatrix { cells: self.cells.clone() }
    }
}

impl View for BigMatrix {
    type V = Mat2;

    /// The numbers in a 2×2 matrix.
    open spec fn view(&self) -> Mat2 {
        Mat2 {
            a: big_matrix_rows(*self)[0][0],
            b: big_matrix_rows(*self)[0][1],
            c: big_matrix_rows(*self)[1][0],
            d: big_matrix_rows(*self)[1][1],
        }
    }
}

} // verus!
