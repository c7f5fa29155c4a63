//! Dispatch of a named arithmetic operation.

use vstd::prelude::*;
use vstd::string::StringExecFns;

verus! {

/// Carry out the operation that `op` names on `a` and `b`.  The four
/// recognized names are `add`, `sub`, `mul` and `div`; any other name is
/// reported back verbatim, and so is a division by zero.
pub fn operate(op: &str, a: i64, b: i64) -> (r: Result<i64, String>)
    requires
        op@ == "add"@ ==> i64::MIN <= a + b <= i64::MAX,
        op@ == "sub"@ ==> i64::MIN <= a - b <= i64::MAX,
        op@ == "mul"@ ==> i64::MIN <= a * b <= i64::MAX,
        op@ == "div"@ ==> !(a == i64::MIN && b == -1),
    ensures
        op@ == "add"@ ==> r == Ok::<i64, String>((a + b) as i64),
        op@ == "sub"@ ==> r == Ok::<i64, String>((a - b) as i64),
        op@ == "mul"@ ==> r == Ok::<i64, String>((a * b) as i64),
        op@ == "div"@ && b != 0 ==> r == Ok::<i64, String>(
            crate::math::div_trunc(a as int, b as int) as i64,
        ),
        op@ == "div"@ && b == 0 ==> (r matches Err(m) && m@ == "Cannot divide by zero"@),
        !(op@ == "add"@ || op@ == "sub"@ || op@ == "mul"@ || op@ == "div"@) ==> (r matches Err(m)
            && m@ == "Unsupported operation: "@ + op@),
{
    proof {
        reveal_strlit("add");
        reveal_strlit("sub");
        reveal_strlit("mul");
        reveal_strlit("div");
        assert("add"@[0] == 'a' && "sub"@[0] == 's' && "mul"@[0] == 'm' && "div"@[0] == 'd');
        assert("add"@ != "sub"@ && "add"@ != "mul"@ && "add"@ != "div"@);
        assert("sub"@ != "mul"@ && "sub"@ != "div"@);
        assert("mul"@ != "div"@);
    }
    let name = op.to_owned();
    if name == "add".to_owned() {
        Ok(crate::math::add(a, b))
    } else if name == "sub".to_owned() {
        Ok(crate::math::sub(a, b))
    } else if name == "mul".to_owned() {
        Ok(crate::math::mul(a, b))
    } else if name == "div".to_owned() {
        if b == 0 {
            Err("Cannot divide by zero".to_owned())
        } else {
            Ok(crate::math::div_q(a, b))
        }
    } else {
        Err("Unsupported operation: ".to_owned().concat(op))
    }
}

} // verus!
