//! Exact integer arithmetic for basis-point rates and proportional shares.
//!
//! Every quantity here is `floor(x * y / d)` with `0 <= y <= d`, so the result
//! never exceeds `x`. The product `x * y` itself may be far larger than any
//! machine integer, so it is never formed: the quotient is built up bit by bit
//! of `y`.

use vstd::prelude::*;
use vstd::arithmetic::div_mod::lemma_fundamental_div_mod_converse;

verus! {

/// Basis points in one whole: a rate of 10000 is 100%.
pub const BPS_DENOMINATOR: u32 = 10000;

/// `floor(x * y / d)` over the mathematical integers.
pub open spec fn mul_div(x: int, y: int, d: int) -> int {
    (x * y) / d
}

/// The part of `amount` that a rate in basis points stands for, rounded down.
pub open spec fn bps_share(amount: int, rate_bps: int) -> int {
    mul_div(amount, rate_bps, BPS_DENOMINATOR as int)
}

proof fn lemma_halving_step(x: int, y: int, d: int, q: int, r: int)
    by (nonlinear_arith)
    requires
        0 <= y,
        q * d + r == x * (y / 2),
    ensures
        y % 2 == 0 ==> (2 * q) * d + 2 * r == x * y,
        y % 2 == 1 ==> (2 * q) * d + 2 * r + x == x * y,
{
    assert(y == 2 * (y / 2) + y % 2);
}

proof fn lemma_quotient_bound(x: int, y: int, d: int, q: int, r: int)
    by (nonlinear_arith)
    requires
        0 <= x < d,
        0 <= y,
        0 <= r,
        q * d + r == x * y,
    ensures
        q <= y,
{
}

proof fn lemma_carry(q: int, d: int, r: int)
    by (nonlinear_arith)
    ensures
        (q + 1) * d + (r - d) == q * d + r,
{
}

/// Quotient and remainder of `x * y` by `d`, for `x < d`, without forming the product.
fn mul_div_rem(x: u128, y: u128, d: u128) -> (res: (u128, u128))
    requires
        x < d,
        d <= i128::MAX,
        y <= i128::MAX,
    ensures
        res.0 * d + res.1 == x * y,
        res.1 < d,
        res.0 <= y,
    decreases y,
{
    if y == 0 {
        return (0, 0);
    }
    let half: (u128, u128) = mul_div_rem(x, y / 2, d);
    let mut q: u128 = half.0 * 2;
    let mut r: u128 = half.1 * 2;
    proof {
        lemma_halving_step(x as int, y as int, d as int, half.0 as int, half.1 as int);
    }
    if r >= d {
        proof {
            lemma_carry(q as int, d as int, r as int);
        }
        r = r - d;
        q = q + 1;
    }
    if y % 2 == 1 {
        r = r + x;
        if r >= d {
            proof {
                lemma_carry(q as int, d as int, r as int);
            }
            r = r - d;
            q = q + 1;
        }
    }
    proof {
        lemma_quotient_bound(x as int, y as int, d as int, q as int, r as int);
    }
    (q, r)
}

proof fn lemma_split_product(x: int, y: int, d: int, xq: int, xr: int, q: int, r: int)
    by (nonlinear_arith)
    requires
        x == xq * d + xr,
        q * d + r == xr * y,
    ensures
        x * y == (xq * y + q) * d + r,
{
}

proof fn lemma_whole_part_bound(xq: int, y: int, d: int, x: int, xr: int)
    by (nonlinear_arith)
    requires
        0 <= xq,
        0 <= xr,
        0 <= y <= d,
        x == xq * d + xr,
    ensures
        0 <= xq * y <= x - xr,
{
}

/// Computes `floor(x * y / d)` exactly for `0 <= y <= d`, whatever the size of `x * y`.
pub fn mul_div_floor(x: i128, y: i128, d: i128) -> (res: i128)
    requires
        0 <= x,
        0 <= y <= d,
        0 < d,
    ensures
        res == mul_div(x as int, y as int, d as int),
        0 <= res <= x,
{
    let xq: i128 = x / d;
    let xr: i128 = x % d;
    proof {
        vstd::arithmetic::div_mod::lemma_fundamental_div_mod(x as int, d as int);
        lemma_whole_part_bound(xq as int, y as int, d as int, x as int, xr as int);
        assert(x as int == xq * d + xr) by (nonlinear_arith)
            requires
                x as int == d * xq + xr,
        ;
    }
    let whole: i128 = xq * y;
    let part: (u128, u128) = mul_div_rem(xr as u128, y as u128, d as u128);
    proof {
        lemma_split_product(
            x as int,
            y as int,
            d as int,
            xq as int,
            xr as int,
            part.0 as int,
            part.1 as int,
        );
        lemma_fundamental_div_mod_converse(
            x as int * y as int,
            d as int,
            whole as int + part.0 as int,
            part.1 as int,
        );
        lemma_quotient_bound(xr as int, y as int, d as int, part.0 as int, part.1 as int);
        assert(part.0 as int <= xr) by (nonlinear_arith)
            requires
                part.0 * d + part.1 == xr * y,
                0 <= y <= d,
                0 <= xr,
                0 <= part.1,
                0 < d,
        ;
    }
    whole + part.0 as i128
}

} // verus!
