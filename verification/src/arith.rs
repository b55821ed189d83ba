//! Host-level 32-bit arithmetic helpers: the checked companions of the
//! language's own operators, usable directly from a host program.
use vstd::prelude::*;

verus! {

/// The sum of two 32-bit integers; the caller keeps the sum in range.
pub fn add(a: i32, b: i32) -> (r: i32)
    requires
        i32::MIN <= a + b <= i32::MAX,
    ensures
        r == a + b,
{
    a + b
}

/// The difference of two 32-bit integers; the caller keeps it in range.
pub fn subtract(a: i32, b: i32) -> (r: i32)
    requires
        i32::MIN <= a - b <= i32::MAX,
    ensures
        r == a - b,
{
    a - b
}

/// The product of two 32-bit integers; the caller keeps it in range.
pub fn multiply(a: i32, b: i32) -> (r: i32)
    requires
        i32::MIN <= a * b <= i32::MAX,
    ensures
        r == a * b,
{
    a * b
}

/// Division that refuses a zero divisor with an explanatory message
/// instead of failing.  The one overflowing dividend/divisor pair is left
/// to the caller.
pub fn divide(a: i32, b: i32) -> (r: Result<i32, String>)
    requires
        !(a == i32::MIN && b == -1),
    ensures
        b == 0 ==> (r matches Err(m) && m@ == "Error: Division by zero is not allowed."@),
        b != 0 ==> (r matches Ok(q) && q == crate::interp::int_div_trunc(a as i64, b as i64)),
{
    if b == 0 {
        Err(String::from_str("Error: Division by zero is not allowed."))
    } else {
        let q = crate::interp::int_div_trunc_exec(a as i64, b as i64);
        proof {
            let la = if a < 0 {
                -(a as int)
            } else {
                a as int
            };
            let ra = if b < 0 {
                -(b as int)
            } else {
                b as int
            };
            vstd::arithmetic::div_mod::lemma_fundamental_div_mod(la, ra);
            assert(la / ra <= la) by (nonlinear_arith)
                requires
                    ra >= 1,
                    la >= 0,
            ;
            if ra >= 2 {
                assert(ra * (la / ra) >= 2 * (la / ra)) by (nonlinear_arith)
                    requires
                        ra >= 2,
                        la / ra >= 0,
                ;
            }
            assert(i32::MIN <= crate::interp::int_div_trunc(a as i64, b as i64) <= i32::MAX);
        }
        Ok(q as i32)
    }
}

} // verus!
