//! How far the three nested loops of a modular matrix product have come.
//!
//! Both pipelines fill the product entry by entry, and each entry term by
//! term, reducing after every term. The invariants of their loops are
//! stated here once, over the mathematical matrices.

use crate::model::Mat2;
use vstd::arithmetic::div_mod::{lemma_add_mod_noop, lemma_mod_twice, lemma_small_mod};
use vstd::prelude::*;

verus! {

/// The first `k` terms of the entry in row `i` and column `j` of `x · y`.
pub open spec fn dot_prefix(x: Mat2, y: Mat2, i: int, j: int, k: int) -> nat {
    if k <= 0 {
        0
    } else if k == 1 {
        x.entry(i, 0) * y.entry(0, j)
    } else {
        x.entry(i, 0) * y.entry(0, j) + x.entry(i, 1) * y.entry(1, j)
    }
}

/// What the entry in row `p` and column `q` of the result holds when the
/// loops stand at row `i`, column `j`, with `k` terms of that entry added:
/// entries before `(i, j)` are finished, the entry at `(i, j)` holds its
/// first `k` terms, and entries after it are still zero.
pub open spec fn entry_so_far(x: Mat2, y: Mat2, m: nat, i: int, j: int, k: int, p: int, q: int) -> nat {
    if p < i || (p == i && q < j) {
        dot_prefix(x, y, p, q, 2) % m
    } else if p == i && q == j {
        dot_prefix(x, y, p, q, k) % m
    } else {
        0
    }
}

/// Whether `result` is the product of `x` and `y` modulo `m` as far as the
/// loops have come.
pub open spec fn product_so_far(result: Mat2, x: Mat2, y: Mat2, m: nat, i: int, j: int, k: int) -> bool {
    &&& result.a == entry_so_far(x, y, m, i, j, k, 0, 0)
    &&& result.b == entry_so_far(x, y, m, i, j, k, 0, 1)
    &&& result.c == entry_so_far(x, y, m, i, j, k, 1, 0)
    &&& result.d == entry_so_far(x, y, m, i, j, k, 1, 1)
}

/// Adding one more term to a reduced prefix and reducing again gives the
/// reduced prefix that is one term longer.
pub proof fn lemma_dot_prefix_step(x: Mat2, y: Mat2, m: nat, i: int, j: int, k: int)
    requires
        m > 0,
        0 <= i < 2,
        0 <= j < 2,
        0 <= k < 2,
    ensures
        (dot_prefix(x, y, i, j, k) % m + x.entry(i, k) * y.entry(k, j)) % m == dot_prefix(
            x,
            y,
            i,
            j,
            k + 1,
        ) % m,
{
    let prefix = dot_prefix(x, y, i, j, k) as int;
    let term = (x.entry(i, k) * y.entry(k, j)) as int;
    lemma_add_mod_noop(prefix, term, m as int);
    lemma_add_mod_noop(prefix % (m as int), term, m as int);
    lemma_mod_twice(prefix, m as int);
}

/// An entry with both of its terms added is finished: the loops stand at
/// the next entry of the row, with none of its terms added.
pub proof fn lemma_entry_finished(result: Mat2, x: Mat2, y: Mat2, m: nat, i: int, j: int)
    requires
        m > 0,
        product_so_far(result, x, y, m, i, j, 2),
    ensures
        product_so_far(result, x, y, m, i, j + 1, 0),
{
    lemma_small_mod(0, m);
}

/// A row with both of its entries finished is finished: the loops stand at
/// the first entry of the next row.
pub proof fn lemma_row_finished(result: Mat2, x: Mat2, y: Mat2, m: nat, i: int)
    requires
        m > 0,
        product_so_far(result, x, y, m, i, 2, 0),
    ensures
        product_so_far(result, x, y, m, i + 1, 0, 0),
{
    lemma_small_mod(0, m);
}

/// When the loops have run to their end, the result is the reduced
/// product.
pub proof fn lemma_product_finished(result: Mat2, x: Mat2, y: Mat2, m: nat)
    requires
        product_so_far(result, x, y, m, 2, 0, 0),
    ensures
        result == x.times(y).reduce(m),
{
}

/// Before the loops have run, the zero matrix is the product so far.
pub proof fn lemma_product_started(x: Mat2, y: Mat2, m: nat)
    requires
        m > 0,
    ensures
        product_so_far(Mat2::zero(), x, y, m, 0, 0, 0),
{
    lemma_small_mod(0, m);
}

} // verus!
