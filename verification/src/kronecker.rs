//! The Kronecker delta used throughout the overlap integrals.
use vstd::prelude::*;

verus! {

/// The Kronecker delta on mathematical integers.
pub open spec fn delta(i: int, j: int) -> int {
    if i == j { 1 } else { 0 }
}

/// Kronecker delta: 1 when the two indices are equal, 0 otherwise.
pub fn dij(i: i64, j: i64) -> (d: i64)
    ensures
        d == delta(i as int, j as int),
{
    if i == j { 1 } else { 0 }
}

} // verus!
