//! The lesser and the greater of two numbers.

use vstd::prelude::*;

verus! {

/// The least of two integers.
pub open spec fn least(x: int, y: int) -> int {
    if x <= y {
        x
    } else {
        y
    }
}

/// The greatest of two integers.
pub open spec fn greatest(x: int, y: int) -> int {
    if x <= y {
        y
    } else {
        x
    }
}

/// The smaller of two numbers.
pub fn smaller(a: usize, b: usize) -> (m: usize)
    ensures
        m == least(a as int, b as int),
{
    if a <= b {
        a
    } else {
        b
    }
}

} // verus!
