//! Fixed-point numbers and floor division on them.
use vstd::prelude::*;
use vstd::arithmetic::div_mod::lemma_fundamental_div_mod;
use vstd::arithmetic::div_mod::lemma_fundamental_div_mod_converse;

verus! {

/// One unit in fixed point: the integer `v` stands for `v / FIX`.
pub const FIX: i64 = 65536;

/// The largest magnitude of a coordinate or matrix entry that the transform accepts.
pub const LIMIT: i64 = 16777216;

/// The mathematical floor of `a / b`, for any nonzero `b`.
pub open spec fn floor_div(a: int, b: int) -> int {
    if b > 0 {
        a / b
    } else {
        (-a) / (-b)
    }
}

/// The smallest integer not below `a / FIX`.
pub open spec fn ceil_fix(a: int) -> int {
    -((-a) / (FIX as int))
}

/// Floor division of two machine integers, rounding towards negative infinity.
pub fn div_floor(a: i64, b: i64) -> (q: i64)
    requires
        b != 0,
        a != i64::MIN,
        b != i64::MIN,
    ensures
        q == floor_div(a as int, b as int),
{
    let (n, d): (i64, i64) = if b > 0 { (a, b) } else { (-a, -b) };
    if n >= 0 {
        n / d
    } else {
        let m: i64 = -n - 1;
        let q: i64 = m / d;
        proof {
            let (mi, di, qi) = (m as int, d as int, q as int);
            lemma_fundamental_div_mod(mi, di);
            let r = mi % di;
            assert(n as int == (-qi - 1) * di + (di - r - 1)) by (nonlinear_arith)
                requires mi == di * qi + r, n as int == -mi - 1;
            lemma_fundamental_div_mod_converse(n as int, di, -qi - 1, di - r - 1);
        }
        -q - 1
    }
}

/// The smallest integer not below `a / FIX`.
pub fn ceil_of_fix(a: i64) -> (r: i64)
    requires
        a != i64::MIN,
    ensures
        r == ceil_fix(a as int),
{
    let q = div_floor(-a, FIX);
    -q
}

} // verus!
