//! The mathematics the contracts speak of: the Fibonacci sequence, 2×2
//! matrices of natural numbers, and the facts that connect the two.

use vstd::arithmetic::div_mod::{
    lemma_add_mod_noop, lemma_mod_bound, lemma_mod_twice, lemma_mul_mod_noop_general,
    lemma_small_mod,
};
use vstd::arithmetic::mul::{
    lemma_mul_is_associative, lemma_mul_is_distributive_add,
    lemma_mul_is_distributive_add_other_way,
};
use vstd::prelude::*;

verus! {

/// The Fibonacci sequence: `F(0) = 0`, `F(1) = 1`, `F(n) = F(n-1) + F(n-2)`.
pub open spec fn fib(n: nat) -> nat
    decreases n,
{
    if n == 0 {
        0
    } else if n == 1 {
        1
    } else {
        fib((n - 1) as nat) + fib((n - 2) as nat)
    }
}

/// What the entry points return for index `n` and a modulus `m >= 1`: the
/// index itself for the two base cases, which are answered before any
/// reduction takes place, and the residue of `F(n)` from there on.
pub open spec fn fib_mod(n: nat, m: nat) -> nat {
    if n <= 1 {
        n
    } else {
        fib(n) % m
    }
}

/// A 2×2 matrix of natural numbers, `[[a, b], [c, d]]`.
pub struct Mat2 {
    pub a: nat,
    pub b: nat,
    pub c: nat,
    pub d: nat,
}

impl Mat2 {
    /// The matrix of zeros.
    pub open spec fn zero() -> Mat2 {
        Mat2 { a: 0, b: 0, c: 0, d: 0 }
    }

    /// The identity matrix.
    pub open spec fn identity() -> Mat2 {
        Mat2 { a: 1, b: 0, c: 0, d: 1 }
    }

    /// The matrix of the Fibonacci recurrence, `[[0, 1], [1, 1]]`.
    pub open spec fn fib_step() -> Mat2 {
        Mat2 { a: 0, b: 1, c: 1, d: 1 }
    }

    /// The entry in row `i` and column `j`, both 0 or 1.
    pub open spec fn entry(self, i: int, j: int) -> nat {
        if i == 0 {
            if j == 0 {
                self.a
            } else {
                self.b
            }
        } else {
            if j == 0 {
                self.c
            } else {
                self.d
            }
        }
    }

    /// The matrix product `self · rhs`.
    pub open spec fn times(self, rhs: Mat2) -> Mat2 {
        Mat2 {
            a: self.a * rhs.a + self.b * rhs.c,
            b: self.a * rhs.b + self.b * rhs.d,
            c: self.c * rhs.a + self.d * rhs.c,
            d: self.c * rhs.b + self.d * rhs.d,
        }
    }

    /// Every entry replaced by its residue modulo `m`.
    pub open spec fn reduce(self, m: nat) -> Mat2 {
        Mat2 { a: self.a % m, b: self.b % m, c: self.c % m, d: self.d % m }
    }

    /// Whether every entry lies in `[0, m)`.
    pub open spec fn is_reduced(self, m: nat) -> bool {
        self.a < m && self.b < m && self.c < m && self.d < m
    }

    /// The `p`-th power of the matrix; the zeroth power is the identity.
    pub open spec fn power(self, p: nat) -> Mat2
        decreases p,
    {
        if p == 0 {
            Mat2::identity()
        } else {
            self.times(self.power((p - 1) as nat))
        }
    }
}

/// The identity is neutral on both sides of a product.
pub proof fn lemma_times_identity(x: Mat2)
    ensures
        x.times(Mat2::identity()) == x,
        Mat2::identity().times(x) == x,
{
    assert(x.a * 1 + x.b * 0 == x.a) by (nonlinear_arith);
    assert(x.a * 0 + x.b * 1 == x.b) by (nonlinear_arith);
    assert(x.c * 1 + x.d * 0 == x.c) by (nonlinear_arith);
    assert(x.c * 0 + x.d * 1 == x.d) by (nonlinear_arith);
}

/// One entry of a product of three matrices, bracketed either way.
proof fn lemma_associative_entry(p: int, q: int, r: int, s: int, t: int, u: int, v: int, w: int)
    ensures
        (p * q + r * s) * t + (p * u + r * v) * w == p * (q * t + u * w) + r * (s * t + v * w),
{
    lemma_mul_is_distributive_add_other_way(t, p * q, r * s);
    lemma_mul_is_distributive_add_other_way(w, p * u, r * v);
    lemma_mul_is_distributive_add(p, q * t, u * w);
    lemma_mul_is_distributive_add(r, s * t, v * w);
    lemma_mul_is_associative(p, q, t);
    lemma_mul_is_associative(p, u, w);
    lemma_mul_is_associative(r, s, t);
    lemma_mul_is_associative(r, v, w);
}

/// The matrix product is associative.
pub proof fn lemma_times_associative(x: Mat2, y: Mat2, z: Mat2)
    ensures
        x.times(y).times(z) == x.times(y.times(z)),
{
    let (xa, xb, xc, xd) = (x.a as int, x.b as int, x.c as int, x.d as int);
    let (ya, yb, yc, yd) = (y.a as int, y.b as int, y.c as int, y.d as int);
    let (za, zb, zc, zd) = (z.a as int, z.b as int, z.c as int, z.d as int);
    lemma_associative_entry(xa, ya, xb, yc, za, yb, yd, zc);
    lemma_associative_entry(xa, ya, xb, yc, zb, yb, yd, zd);
    lemma_associative_entry(xc, ya, xd, yc, za, yb, yd, zc);
    lemma_associative_entry(xc, ya, xd, yc, zb, yb, yd, zd);
}

/// Powers of one matrix multiply by adding their exponents.
pub proof fn lemma_power_add(x: Mat2, p: nat, q: nat)
    ensures
        x.power(p).times(x.power(q)) == x.power(p + q),
    decreases p,
{
    if p == 0 {
        lemma_times_identity(x.power(q));
    } else {
        let r = (p - 1) as nat;
        lemma_power_add(x, r, q);
        lemma_times_associative(x, x.power(r), x.power(q));
        assert(x.power(p + q) == x.times(x.power((p + q - 1) as nat)));
    }
}

/// The first power of a matrix is the matrix itself.
pub proof fn lemma_power_one(x: Mat2)
    ensures
        x.power(1) == x,
{
    assert(x.power(1) == x.times(x.power(0)));
    lemma_times_identity(x);
}

/// A matrix whose entries lie below `m` is its own reduction.
pub proof fn lemma_reduce_of_reduced(x: Mat2, m: nat)
    requires
        x.is_reduced(m),
    ensures
        x.reduce(m) == x,
{
    lemma_small_mod(x.a, m);
    lemma_small_mod(x.b, m);
    lemma_small_mod(x.c, m);
    lemma_small_mod(x.d, m);
}

/// Reducing a matrix leaves every entry below the modulus.
pub proof fn lemma_reduce_is_reduced(x: Mat2, m: nat)
    requires
        m > 0,
    ensures
        x.reduce(m).is_reduced(m),
{
}

/// One term of a reduced product: the factors may be reduced beforehand.
proof fn lemma_dot_mod(p: int, q: int, r: int, s: int, m: int)
    requires
        m > 0,
    ensures
        ((p % m) * (q % m) + (r % m) * (s % m)) % m == (p * q + r * s) % m,
{
    lemma_mul_mod_noop_general(p, q, m);
    lemma_mul_mod_noop_general(r, s, m);
    lemma_add_mod_noop((p % m) * (q % m), (r % m) * (s % m), m);
    lemma_add_mod_noop(p * q, r * s, m);
}

/// Reduction commutes with the product: reducing the factors first does
/// not change the reduced product.
pub proof fn lemma_reduce_times(x: Mat2, y: Mat2, m: nat)
    requires
        m > 0,
    ensures
        x.reduce(m).times(y.reduce(m)).reduce(m) == x.times(y).reduce(m),
{
    let mi = m as int;
    lemma_dot_mod(x.a as int, y.a as int, x.b as int, y.c as int, mi);
    lemma_dot_mod(x.a as int, y.b as int, x.b as int, y.d as int, mi);
    lemma_dot_mod(x.c as int, y.a as int, x.d as int, y.c as int, mi);
    lemma_dot_mod(x.c as int, y.b as int, x.d as int, y.d as int, mi);
}

/// Reduction commutes with powers: the reduced power of a reduced matrix
/// is the reduced power of the matrix itself.
pub proof fn lemma_reduce_power(x: Mat2, p: nat, m: nat)
    requires
        m > 0,
    ensures
        x.reduce(m).power(p).reduce(m) == x.power(p).reduce(m),
    decreases p,
{
    if p > 0 {
        let r = (p - 1) as nat;
        let xr = x.reduce(m);
        lemma_reduce_power(x, r, m);
        // xr^p = xr · xr^r, and reducing either factor changes nothing.
        lemma_reduce_times(xr, xr.power(r), m);
        lemma_reduce_times(x, x.power(r), m);
        lemma_reduce_is_reduced(x, m);
        lemma_reduce_of_reduced(xr, m);
    }
}

/// The powers of the recurrence matrix hold consecutive Fibonacci numbers:
/// `[[0, 1], [1, 1]]^p = [[F(p-1), F(p)], [F(p), F(p+1)]]`.
pub proof fn lemma_fib_step_power(p: nat)
    requires
        p >= 1,
    ensures
        Mat2::fib_step().power(p) == (Mat2 {
            a: fib((p - 1) as nat),
            b: fib(p),
            c: fib(p),
            d: fib(p + 1),
        }),
    decreases p,
{
    let t = Mat2::fib_step();
    if p == 1 {
        lemma_power_one(t);
        assert(fib(2) == 1) by {
            reveal_with_fuel(fib, 3);
        }
    } else {
        let r = (p - 1) as nat;
        lemma_fib_step_power(r);
        let y = t.power(r);
        assert(t.power(p) == t.times(y));
        assert(0 * y.a + 1 * y.c == y.c) by (nonlinear_arith);
        assert(0 * y.b + 1 * y.d == y.d) by (nonlinear_arith);
        assert(1 * y.a + 1 * y.c == y.a + y.c) by (nonlinear_arith);
        assert(1 * y.b + 1 * y.d == y.b + y.d) by (nonlinear_arith);
    }
}

/// Whatever `fib_mod` gives is congruent to the Fibonacci number itself.
pub proof fn lemma_fib_mod_congruent(n: nat, m: nat)
    requires
        m >= 1,
    ensures
        fib_mod(n, m) % m == fib(n) % m,
{
    if n >= 2 {
        lemma_mod_twice(fib(n) as int, m as int);
    }
}

/// The residues obey the recurrence of the sequence: from index 2 on, each
/// is the sum of the two before it, reduced.
pub proof fn lemma_fib_mod_recurrence(n: nat, m: nat)
    requires
        n >= 2,
        m >= 1,
    ensures
        fib_mod(n, m) == (fib_mod((n - 1) as nat, m) + fib_mod((n - 2) as nat, m)) % m,
{
    let previous = (n - 1) as nat;
    let before = (n - 2) as nat;
    lemma_fib_mod_congruent(previous, m);
    lemma_fib_mod_congruent(before, m);
    lemma_add_mod_noop(fib_mod(previous, m) as int, fib_mod(before, m) as int, m as int);
    lemma_add_mod_noop(fib(previous) as int, fib(before) as int, m as int);
}

/// Apart from index 1 under modulus 1, which is answered with 1 before
/// any reduction, what `fib_mod` gives is a residue: it lies below the
/// modulus, and reducing it once more changes nothing.
pub proof fn lemma_fib_mod_is_residue(n: nat, m: nat)
    requires
        m >= 1,
        !(n == 1 && m == 1),
    ensures
        fib_mod(n, m) < m,
        fib_mod(n, m) % m == fib_mod(n, m),
{
    lemma_mod_bound(fib(n) as int, m as int);
    lemma_small_mod(fib_mod(n, m), m);
}

} // verus!
