use vstd::prelude::*;

verus! {

pub open spec fn abs(x: int) -> int {
    if x < 0 {
        -x
    } else {
        x
    }
}

/// Nearest integer to `n / d`; a half is rounded away from zero.
pub open spec fn round_div(n: int, d: int) -> int {
    let q = (2 * abs(n) + abs(d)) / (2 * abs(d));
    if (n >= 0) == (d > 0) {
        q
    } else {
        -q
    }
}

/// Largest magnitude that `div_round` takes for either operand.
pub const ROUNDING_LIMIT: i128 = 10_000_000_000_000_000_000_000_000_000_000_000_000;

/// `n / d` rounded to the nearest integer, a half away from zero.
pub fn div_round(n: i128, d: i128) -> (r: i128)
    requires
        d != 0,
        -ROUNDING_LIMIT <= n <= ROUNDING_LIMIT,
        -ROUNDING_LIMIT <= d <= ROUNDING_LIMIT,
    ensures
        r == round_div(n as int, d as int),
{
    let an: i128 = if n < 0 {
        -n
    } else {
        n
    };
    let ad: i128 = if d < 0 {
        -d
    } else {
        d
    };
    let q: i128 = (2 * an + ad) / (2 * ad);
    proof {
        assert(0 <= q <= 2 * an + ad) by (nonlinear_arith)
            requires
                ad >= 1,
                an >= 0,
                q == (2 * an + ad) / (2 * ad),
        ;
    }
    if (n >= 0) == (d > 0) {
        q
    } else {
        -q
    }
}

} // verus!
