//! The error of the two entry points.

use vstd::prelude::*;

verus! {

/// Why a Fibonacci residue could not be computed.
#[derive(Clone, Copy, Debug, PartialEq, Eq)]
pub enum FibError {
    /// The modulus was zero: there are no residues modulo zero.
    InvalidModulus,
}

} // verus!
