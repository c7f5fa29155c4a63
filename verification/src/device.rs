//! Host-testable arithmetic split out of an embedded demo.

use vstd::prelude::*;

verus! {

/// Sum of two numbers.
pub fn add(a: u32, b: u32) -> (r: u32)
    requires
        a + b <= u32::MAX,
    ensures
        r == a + b,
{
    a + b
}

} // verus!
