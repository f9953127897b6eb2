//! Fibonacci numbers modulo `m` in `O(log n)` arithmetic operations, by
//! repeated squaring of the 2×2 matrix of the recurrence.
//!
//! Two entry points share one algorithm: [`fib_with_mod`] for indices and
//! moduli that fit in a `u64`, and [`bigfib_with_mod`] for indices and
//! moduli of any size. Both are verified against the Fibonacci sequence as
//! [`model::fib`] defines it.

pub mod arbitrary_precision;
mod big_matrix;
pub mod bigint;
pub mod error;
pub mod fixed_width;
pub mod laws;
mod matrix;
pub mod model;
mod progress;

pub use arbitrary_precision::bigfib_with_mod;
pub use error::FibError;
pub use fixed_width::fib_with_mod;
