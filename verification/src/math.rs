//! Signed-integer calculator routines with exact result contracts.
//!
//! Division and remainder follow the machine convention: quotients are
//! truncated toward zero and the remainder takes the dividend's sign, as
//! [`div_trunc`] and [`rem_trunc`] spell out.  Operations that are not
//! defined for an input (dividing by zero, a negative exponent or factorial
//! argument, the root of a negative number) report it through `Err`.

use vstd::arithmetic::div_mod::lemma_fundamental_div_mod;
use vstd::arithmetic::power::{lemma1_pow, lemma_pow_strictly_increases};
use vstd::prelude::*;

verus! {

/// Truncating division, as the division operator of the machine computes
/// it: the magnitudes are divided and the quotient keeps the sign rule of
/// multiplication.  (Plain `int` division in specifications is Euclidean,
/// which differs on negative dividends.)
pub open spec fn div_trunc(a: int, b: int) -> int
    recommends
        b != 0,
{
    if (a < 0) == (b < 0) {
        (vstd::math::abs(a) / vstd::math::abs(b)) as int
    } else {
        -((vstd::math::abs(a) / vstd::math::abs(b)) as int)
    }
}

/// The remainder that pairs with [`div_trunc`]: it satisfies
/// `a == b * div_trunc(a, b) + rem_trunc(a, b)` and takes the sign of the
/// dividend.
pub open spec fn rem_trunc(a: int, b: int) -> int
    recommends
        b != 0,
{
    a - b * div_trunc(a, b)
}

/// The factorial of `n`.
pub open spec fn fact_spec(n: nat) -> nat
    decreases n,
{
    if n == 0 {
        1
    } else {
        n * fact_spec((n - 1) as nat)
    }
}

/// Sum of two numbers.
pub fn add(a: i64, b: i64) -> (r: i64)
    requires
        i64::MIN <= a + b <= i64::MAX,
    ensures
        r == a + b,
{
    a + b
}

/// Difference of two numbers.
pub fn sub(a: i64, b: i64) -> (r: i64)
    requires
        i64::MIN <= a - b <= i64::MAX,
    ensures
        r == a - b,
{
    a - b
}

/// Product of two numbers.
pub fn mul(a: i64, b: i64) -> (r: i64)
    requires
        i64::MIN <= a * b <= i64::MAX,
    ensures
        r == a * b,
{
    a * b
}

/// Magnitude of a number, widened so that even `i64::MIN` has one.
fn abs_u64(a: i64) -> (r: u64)
    ensures
        r == vstd::math::abs(a as int),
{
    if a >= 0 {
        a as u64
    } else if a == i64::MIN {
        9223372036854775808u64
    } else {
        (-a) as u64
    }
}

/// Truncated quotient of two machine integers, computed on the magnitudes.
pub(crate) fn div_q(a: i64, b: i64) -> (q: i64)
    requires
        b != 0,
        !(a == i64::MIN && b == -1),
    ensures
        q == div_trunc(a as int, b as int),
{
    if b == 1 {
        proof {
            assert(vstd::math::abs(a as int) / 1 == vstd::math::abs(a as int));
        }
        return a;
    }
    if b == -1 {
        proof {
            assert(vstd::math::abs(a as int) / 1 == vstd::math::abs(a as int));
        }
        return 0 - a;
    }
    let x = abs_u64(a);
    let y = abs_u64(b);
    let m = x / y;
    proof {
        // |b| >= 2, so the magnitude of the quotient is at most 2^62 and
        // fits either sign of an i64.
        lemma_fundamental_div_mod(x as int, y as int);
        if m > 0x4000_0000_0000_0000u64 {
            assert((y as int) * (m as int) >= 2 * (m as int)) by (nonlinear_arith)
                requires
                    y >= 2,
                    m >= 0,
            ;
        }
    }
    if (a < 0) == (b < 0) {
        m as i64
    } else {
        -(m as i64)
    }
}

/// Truncated remainder of two machine integers, computed on the magnitudes.
pub(crate) fn rem_r(a: i64, b: i64) -> (r: i64)
    requires
        b != 0,
        !(a == i64::MIN && b == -1),
    ensures
        r == rem_trunc(a as int, b as int),
{
    let x = abs_u64(a);
    let y = abs_u64(b);
    let rm = x % y;
    proof {
        let xi = x as int;
        let yi = y as int;
        let d = xi / yi;
        lemma_fundamental_div_mod(xi, yi);
        assert(0 <= xi % yi < yi);
        // In every sign case, b times the truncated quotient is plus or
        // minus |b| * (|a| / |b|).
        assert((-yi) * (-d) == yi * d) by (nonlinear_arith);
        assert((-yi) * d == -(yi * d)) by (nonlinear_arith);
        assert(yi * (-d) == -(yi * d)) by (nonlinear_arith);
    }
    if a < 0 {
        -(rm as i64)
    } else {
        rm as i64
    }
}

/// Quotient of `a` by `b`, truncated toward zero; dividing by zero is
/// reported as an error.
pub fn div(a: i64, b: i64) -> (r: Result<i64, String>)
    requires
        !(a == i64::MIN && b == -1),
    ensures
        match r {
            Ok(q) => b != 0 && q == div_trunc(a as int, b as int),
            Err(m) => b == 0 && m@ == "Division by zero is not allowed"@,
        },
{
    if b == 0 {
        Err("Division by zero is not allowed".to_owned())
    } else {
        Ok(div_q(a, b))
    }
}

/// Remainder of `a` by `b` (sign of the dividend); a zero modulus is
/// reported as an error.
pub fn mode(a: i64, b: i64) -> (r: Result<i64, String>)
    requires
        !(a == i64::MIN && b == -1),
    ensures
        match r {
            Ok(m) => b != 0 && m == rem_trunc(a as int, b as int),
            Err(m) => b == 0 && m@ == "Modulo by zero is not allowed"@,
        },
{
    if b == 0 {
        Err("Modulo by zero is not allowed".to_owned())
    } else {
        Ok(rem_r(a, b))
    }
}

/// Magnitude of a number.  (`i64::MIN` has no magnitude of its own type and
/// is left out.)
pub fn abs(a: i64) -> (r: Result<i64, String>)
    requires
        a != i64::MIN,
    ensures
        r == Ok::<i64, String>(vstd::math::abs(a as int) as i64),
{
    if a < 0 {
        Ok(-a)
    } else {
        Ok(a)
    }
}

/// The magnitude of a product is the product of the magnitudes.
proof fn lemma_abs_mul(x: int, y: int)
    ensures
        vstd::math::abs(x * y) == vstd::math::abs(x) * vstd::math::abs(y),
{
    if x >= 0 && y >= 0 {
        assert(x * y >= 0) by (nonlinear_arith)
            requires
                x >= 0,
                y >= 0,
        ;
    } else if x >= 0 && y < 0 {
        assert(x * y <= 0 && -(x * y) == x * (-y)) by (nonlinear_arith)
            requires
                x >= 0,
                y < 0,
        ;
    } else if x < 0 && y >= 0 {
        assert(x * y <= 0 && -(x * y) == (-x) * y) by (nonlinear_arith)
            requires
                x < 0,
                y >= 0,
        ;
    } else {
        assert(x * y >= 0 && x * y == (-x) * (-y)) by (nonlinear_arith)
            requires
                x < 0,
                y < 0,
        ;
    }
}

/// The magnitude of a power is the power of the magnitude.
proof fn lemma_pow_abs(a: int, e: nat)
    ensures
        vstd::math::abs(vstd::arithmetic::power::pow(a, e)) == vstd::arithmetic::power::pow(
            vstd::math::abs(a) as int,
            e,
        ),
    decreases e,
{
    reveal(vstd::arithmetic::power::pow);
    if e > 0 {
        lemma_pow_abs(a, (e - 1) as nat);
        lemma_abs_mul(a, vstd::arithmetic::power::pow(a, (e - 1) as nat));
    }
}

/// `a` raised to the power `b`, by repeated multiplication.  A negative
/// exponent is reported as an error; for a nonnegative one the result is
/// owed, the caller having made sure it fits the type.
pub fn pow(a: i64, b: i64) -> (r: Result<i64, String>)
    requires
        b >= 0 ==> i64::MIN <= vstd::arithmetic::power::pow(a as int, b as nat) <= i64::MAX,
    ensures
        match r {
            Ok(v) => b >= 0 && v == vstd::arithmetic::power::pow(a as int, b as nat),
            Err(m) => b < 0 && m@ == "Negative exponent is not allowed"@,
        },
{
    if b < 0 {
        return Err("Negative exponent is not allowed".to_owned());
    }
    let e = b as u64;
    let mut result: i64 = 1;
    proof {
        reveal(vstd::arithmetic::power::pow);
        assert(vstd::arithmetic::power::pow(a as int, 0) == 1);
    }
    let mut i: u64 = 0;
    while i < e
        invariant
            i <= e,
            e == b,
            b >= 0,
            result == vstd::arithmetic::power::pow(a as int, i as nat),
            i64::MIN <= vstd::arithmetic::power::pow(a as int, e as nat) <= i64::MAX,
        decreases e - i,
    {
        proof {
            reveal(vstd::arithmetic::power::pow);
            let ai = a as int;
            let m = vstd::math::abs(ai);
            let up = (i + 1) as nat;
            assert(vstd::arithmetic::power::pow(ai, up) == ai * vstd::arithmetic::power::pow(
                ai,
                i as nat,
            ));
            lemma_pow_abs(ai, up);
            lemma_pow_abs(ai, e as nat);
            if i + 1 < e {
                // The magnitude of every intermediate power is bounded by
                // the magnitude of the final one.
                if m >= 2 {
                    lemma_pow_strictly_increases(m, up, e as nat);
                } else if m == 1 {
                    lemma1_pow(up);
                    lemma1_pow(e as nat);
                } else {
                    assert(ai * vstd::arithmetic::power::pow(ai, i as nat) == 0)
                        by (nonlinear_arith)
                        requires
                            ai == 0,
                    ;
                }
            }
        }
        result = result * a;
        i = i + 1;
    }
    Ok(result)
}

/// The factorial is always positive.
pub(crate) proof fn lemma_fact_pos(n: nat)
    ensures
        fact_spec(n) >= 1,
    decreases n,
{
    if n > 0 {
        lemma_fact_pos((n - 1) as nat);
        assert(n * fact_spec((n - 1) as nat) >= 1) by (nonlinear_arith)
            requires
                n >= 1,
                fact_spec((n - 1) as nat) >= 1,
        ;
    }
}

/// The factorial never shrinks as its argument grows.
pub(crate) proof fn lemma_fact_increases(i: nat, n: nat)
    requires
        i <= n,
    ensures
        fact_spec(i) <= fact_spec(n),
    decreases n,
{
    if i < n {
        lemma_fact_increases(i, (n - 1) as nat);
        lemma_fact_pos((n - 1) as nat);
        assert(n * fact_spec((n - 1) as nat) >= fact_spec((n - 1) as nat)) by (nonlinear_arith)
            requires
                n >= 1,
                fact_spec((n - 1) as nat) >= 0,
        ;
    }
}

/// The factorial of `a`.  A negative argument is reported as an error; for
/// a nonnegative one the result is owed, the caller having made sure it
/// fits the type.
pub fn fact(a: i64) -> (r: Result<i64, String>)
    requires
        a >= 0 ==> fact_spec(a as nat) <= i64::MAX,
    ensures
        match r {
            Ok(v) => a >= 0 && v == fact_spec(a as nat),
            Err(m) => a < 0 && m@ == "Cannot calculate factorial of a negative number"@,
        },
{
    if a < 0 {
        return Err("Cannot calculate factorial of a negative number".to_owned());
    }
    let n = a as u64;
    let mut result: i64 = 1;
    let mut i: u64 = 0;
    while i < n
        invariant
            i <= n,
            n == a,
            a >= 0,
            result == fact_spec(i as nat),
            fact_spec(n as nat) <= i64::MAX,
        decreases n - i,
    {
        let next = (i + 1) as i64;
        proof {
            lemma_fact_increases((i + 1) as nat, n as nat);
            lemma_fact_pos((i + 1) as nat);
            assert(fact_spec((i + 1) as nat) == (i + 1) * fact_spec(i as nat));
            assert(next == i + 1);
            assert(result * next == fact_spec((i + 1) as nat));
            assert(1 <= fact_spec((i + 1) as nat) <= i64::MAX);
        }
        result = result * next;
        i = i + 1;
    }
    Ok(result)
}

/// The integer square root of `a`: the largest number whose square does not
/// exceed `a`.  A negative argument is reported as an error.
pub fn sqrt(a: i64) -> (r: Result<i64, String>)
    ensures
        match r {
            Ok(s) => a >= 0 && 0 <= s && s * s <= a && (s + 1) * (s + 1) > a,
            Err(m) => a < 0 && m@ == "Cannot calculate square root of a negative number"@,
        },
{
    if a < 0 {
        return Err("Cannot calculate square root of a negative number".to_owned());
    }
    let n = a as u64;
    let mut root: u64 = 0;
    let mut i: u64 = 1;
    while i * i <= n
        invariant
            n == a,
            a >= 0,
            i == root + 1,
            root * root <= n,
            root <= n,
            i <= 3037000500,
            (i as int) * (i as int) <= u64::MAX,
        decreases n - root,
    {
        root = i;
        i = i + 1;
        proof {
            // The root of a value that fits the type stays well below the
            // overflow boundary of the squaring in the loop condition.
            assert(root <= 3037000499) by (nonlinear_arith)
                requires
                    root * root <= n,
                    n <= 0x7fff_ffff_ffff_ffffu64,
                    root >= 0,
            ;
            assert(root <= root * root) by (nonlinear_arith)
                requires
                    root >= 1,
            ;
            assert((i as int) * (i as int) <= u64::MAX) by (nonlinear_arith)
                requires
                    0 <= i <= 3037000500,
            ;
        }
    }
    Ok(root as i64)
}

} // verus!
