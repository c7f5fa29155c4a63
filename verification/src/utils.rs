//! Small standalone utilities.

use vstd::prelude::*;

verus! {

/// Returns the factorial of `n` (`0! == 1`).  The caller makes sure the
/// result fits the type.
pub fn factorial(n: u64) -> (r: u64)
    requires
        crate::math::fact_spec(n as nat) <= u64::MAX,
    ensures
        r == crate::math::fact_spec(n as nat),
{
    let mut result: u64 = 1;
    let mut i: u64 = 0;
    while i < n
        invariant
            i <= n,
            result == crate::math::fact_spec(i as nat),
            crate::math::fact_spec(n as nat) <= u64::MAX,
        decreases n - i,
    {
        let next = i + 1;
        proof {
            crate::math::lemma_fact_increases((i + 1) as nat, n as nat);
            crate::math::lemma_fact_pos((i + 1) as nat);
            assert(crate::math::fact_spec((i + 1) as nat) == (i + 1) * crate::math::fact_spec(
                i as nat,
            ));
            assert(result * next == crate::math::fact_spec((i + 1) as nat));
        }
        result = result * next;
        i = i + 1;
    }
    result
}

} // verus!
