//! Saturating arithmetic on the machine word.

use vstd::prelude::*;
use crate::bytecode::Int;

verus! {

/// The machine word nearest to `x`.
pub open spec fn saturate(x: int) -> Int {
    if x > Int::MAX {
        Int::MAX
    } else if x < Int::MIN {
        Int::MIN
    } else {
        x as Int
    }
}

/// The quotient of `a` by `b`, rounded toward zero.
pub open spec fn quotient(a: int, b: int) -> int
    recommends
        b != 0,
{
    if a >= 0 && b > 0 {
        a / b
    } else if a < 0 && b > 0 {
        -((-a) / b)
    } else if a >= 0 {
        -(a / (-b))
    } else {
        (-a) / (-b)
    }
}

/// What `Div` leaves in its register: the saturated quotient, and for a
/// zero divisor the bound on the dividend's side of zero.
pub open spec fn saturated_quotient(a: Int, b: Int) -> Int {
    if b != 0 {
        saturate(quotient(a as int, b as int))
    } else if a < 0 {
        Int::MIN
    } else {
        Int::MAX
    }
}

/// Saturation gives a machine word: the number itself where it is one,
/// and otherwise the bound on its side.
pub proof fn lemma_saturate(x: int)
    ensures
        Int::MIN <= saturate(x) <= Int::MAX,
        Int::MIN <= x <= Int::MAX ==> saturate(x) == x,
        x > Int::MAX ==> saturate(x) == Int::MAX,
        x < Int::MIN ==> saturate(x) == Int::MIN,
{
}

/// The quotient rounded toward zero is the number of that sign whose
/// product with the divisor comes nearest to the dividend without passing
/// it.
pub proof fn lemma_quotient(a: int, b: int)
    requires
        b != 0,
    ensures
        ({
            let q = quotient(a, b);
            let r = a - q * b;
            &&& (a >= 0 ==> 0 <= r)
            &&& (a <= 0 ==> r <= 0)
            &&& (b > 0 ==> -b < r < b)
            &&& (b < 0 ==> b < r < -b)
        }),
{
    let q = quotient(a, b);
    if a >= 0 && b > 0 {
        vstd::arithmetic::div_mod::lemma_fundamental_div_mod(a, b);
        vstd::arithmetic::div_mod::lemma_mod_bound(a, b);
        assert(b * (a / b) == (a / b) * b) by (nonlinear_arith);
    } else if a < 0 && b > 0 {
        vstd::arithmetic::div_mod::lemma_fundamental_div_mod(-a, b);
        vstd::arithmetic::div_mod::lemma_mod_bound(-a, b);
        assert((-((-a) / b)) * b == -(b * ((-a) / b))) by (nonlinear_arith);
    } else if a >= 0 {
        vstd::arithmetic::div_mod::lemma_fundamental_div_mod(a, -b);
        vstd::arithmetic::div_mod::lemma_mod_bound(a, -b);
        assert((-(a / (-b))) * b == (-b) * (a / (-b))) by (nonlinear_arith);
    } else {
        vstd::arithmetic::div_mod::lemma_fundamental_div_mod(-a, -b);
        vstd::arithmetic::div_mod::lemma_mod_bound(-a, -b);
        assert(((-a) / (-b)) * b == -((-b) * ((-a) / (-b)))) by (nonlinear_arith);
    }
}

fn clamp(x: i32) -> (r: Int)
    ensures
        r == saturate(x as int),
{
    if x > 32767 {
        32767
    } else if x < -32768 {
        -32768
    } else {
        x as Int
    }
}

/// Sum of two words, held to the word's bounds.
pub fn sat_add(a: Int, b: Int) -> (r: Int)
    ensures
        r == saturate(a + b),
{
    clamp(a as i32 + b as i32)
}

/// Difference of two words, held to the word's bounds.
pub fn sat_sub(a: Int, b: Int) -> (r: Int)
    ensures
        r == saturate(a - b),
{
    clamp(a as i32 - b as i32)
}

/// Product of two words, held to the word's bounds.
pub fn sat_mul(a: Int, b: Int) -> (r: Int)
    ensures
        r == saturate(a * b),
{
    assert(-0x4000_0000 <= a * b <= 0x4000_0000) by (nonlinear_arith)
        requires
            -0x8000 <= a <= 0x8000,
            -0x8000 <= b <= 0x8000,
    ;
    clamp((a as i32) * (b as i32))
}

/// For a dividend that is not negative, changing the divisor's sign changes
/// the quotient's sign.
proof fn lemma_div_negated_divisor(x: int, d: int)
    requires
        0 <= x,
        0 < d,
    ensures
        x / (-d) == -(x / d),
{
    let q = x / d;
    let r = x % d;
    assert(x == d * q + r && 0 <= r < d) by (nonlinear_arith)
        requires
            q == x / d,
            r == x % d,
            0 < d,
    ;
    assert(x / (-d) == -q) by (nonlinear_arith)
        requires
            x == d * q + r,
            0 <= r < d,
    ;
}

/// Quotient of two words rounded toward zero, held to the word's bounds.
/// Dividing by zero gives the largest word for a dividend that is not
/// negative and the smallest for one that is.
pub fn sat_div(a: Int, b: Int) -> (r: Int)
    ensures
        r == saturated_quotient(a, b),
{
    if b != 0 {
        let q: i32 = (a as i32) / (b as i32);
        proof {
            if b < 0 {
                if a >= 0 {
                    lemma_div_negated_divisor(a as int, -(b as int));
                } else {
                    lemma_div_negated_divisor(-(a as int), -(b as int));
                }
            }
        }
        clamp(q)
    } else if a < 0 {
        -32768
    } else {
        32767
    }
}

} // verus!
