//! Matrices of `u64` entries, held in an `ndarray::Array2<u64>`.
//!
//! The array type is bounded by traits of `ndarray` that the verifier
//! knows nothing of, so the array is kept in the private field of a struct
//! that is opaque to the verifier. What it holds is named by
//! [`matrix_rows`], and each operation on it that the library calls carries
//! a contract over that name. None of these contracts is proved here; each
//! states what `ndarray` is documented to do.

use crate::model::Mat2;
use ndarray::{arr2, Array2};
use vstd::prelude::*;

verus! {

/// A matrix of `u64` entries: an `ndarray::Array2<u64>`, of which the
/// verifier sees nothing.
#[verifier::external_body]
pub struct Matrix {
    cells: Array2<u64>,
}

/// The entries of a matrix: its rows from top to bottom, each from left to
/// right.
pub uninterp spec fn matrix_rows(m: Matrix) -> Seq<Seq<u64>>;

impl Matrix {
    /// Whether the matrix has two rows of two entries.
    pub open spec fn is_2x2(self) -> bool {
        &&& matrix_rows(self).len() == 2
        &&& matrix_rows(self)[0].len() == 2
        &&& matrix_rows(self)[1].len() == 2
    }

    /// `ndarray::arr2` on the rows `[a, b]` and `[c, d]`: the matrix with
    /// exactly these rows.
    #[verifier::external_body]
    pub(crate) fn from_entries(a: u64, b: u64, c: u64, d: u64) -> (m: Matrix)
        ensures
            matrix_rows(m) == seq![seq![a, b], seq![c, d]],
    {
        Matrix { cells: arr2(&[[a, b], [c, d]]) }
    }

    /// Indexing with `[[i, j]]`: the entry in row `i` and column `j`.
    /// Indexing panics out of bounds, so such indices are excluded.
    #[verifier::external_body]
    pub(crate) fn get(&self, i: usize, j: usize) -> (entry: u64)
        requires
            i < matrix_rows(*self).len(),
            j < matrix_rows(*self)[i as int].len(),
        ensures
            entry == matrix_rows(*self)[i as int][j as int],
    {
        self.cells[[i, j]]
    }

    /// Assignment through `[[i, j]]`: the entry in row `i` and column `j`
    /// becomes `entry`, and nothing else changes. Indexing panics out of
    /// bounds, so such indices are excluded.
    #[verifier::external_body]
    pub(crate) fn set(&mut self, i: usize, j: usize, entry: u64)
        requires
            i < matrix_rows(*old(self)).len(),
            j < matrix_rows(*old(self))[i as int].len(),
        ensures
            matrix_rows(*final(self)) == matrix_rows(*old(self)).update(
                i as int,
                matrix_rows(*old(self))[i as int].update(j as int, entry),
            ),
    {
        self.cells[[i, j]] = entry;
    }

    /// `Array2::clone`: a matrix with the same entries.
    #[verifier::external_body]
    pub(crate) fn duplicate(&self) -> (copy: Matrix)
        ensures
            matrix_rows(copy) == matrix_rows(*self),
    {
        Matrix { cells: self.cells.clone() }
    }
}

impl View for Matrix {
    type V = Mat2;

    /// The entries of a 2×2 matrix as natural numbers.
    open spec fn view(&self) -> Mat2 {
        Mat2 {
            a: matrix_rows(*self)[0][0] as nat,
            b: matrix_rows(*self)[0][1] as nat,
            c: matrix_rows(*self)[1][0] as nat,
            d: matrix_rows(*self)[1][1] as nat,
        }
    }
}

} // verus!
