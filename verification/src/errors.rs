//! Error-handling demonstration routines: a checked division and a
//! precondition guard.

use vstd::prelude::*;

verus! {

/// Divides two integers, returning an error if the divisor is zero.  The
/// quotient is the machine one, truncated toward zero.
pub fn divide(dividend: i32, divisor: i32) -> (r: Result<i32, String>)
    requires
        !(dividend == i32::MIN && divisor == -1),
    ensures
        match r {
            Ok(q) => divisor != 0 && q == crate::math::div_trunc(dividend as int, divisor as int),
            Err(m) => divisor == 0 && m@ == "Cannot divide by zero"@,
        },
{
    if divisor == 0 {
        Err("Cannot divide by zero".to_owned())
    } else {
        let q = crate::math::div_q(dividend as i64, divisor as i64);
        proof {
            // The quotient's magnitude never exceeds the dividend's, so it
            // fits back into the narrower type; the one magnitude that
            // would not, |i32::MIN| with a positive sign, would need the
            // divisor -1, which the caller rules out.
            let x = vstd::math::abs(dividend as int);
            let y = vstd::math::abs(divisor as int);
            let d = (x as int) / (y as int);
            vstd::arithmetic::div_mod::lemma_fundamental_div_mod(x as int, y as int);
            assert(d <= x && d >= 0) by (nonlinear_arith)
                requires
                    x >= 0,
                    y >= 1,
                    d == (x as int) / (y as int),
            ;
            if (dividend < 0) == (divisor < 0) && d > 0x7fff_ffff {
                if y >= 2 {
                    assert((y as int) * d >= 2 * d) by (nonlinear_arith)
                        requires
                            y >= 2,
                            d >= 0,
                    ;
                }
            }
        }
        Ok(q as i32)
    }
}

/// Callers must hand in a nonnegative number; a negative one is a fatal
/// misuse, so the check is theirs to make before calling.
pub fn ensure_positive(n: i32)
    requires
        n >= 0,
{
}

} // verus!
