//! Integer arithmetic that the pool's formulas rest on: the floor of a
//! square root, a rate in parts per thousand, and facts about the floor of a
//! quotient.

use vstd::prelude::*;

verus! {

/// Whether `r` is the floor of the square root of `n`.
pub open spec fn is_floor_sqrt(n: int, r: int) -> bool {
    0 <= r && r * r <= n && n < (r + 1) * (r + 1)
}

/// The floor of the square root of `n`, for `n >= 0`.
pub open spec fn floor_sqrt(n: int) -> int {
    choose|r: int| is_floor_sqrt(n, r)
}

/// `rate` parts per thousand of `amount`, rounded down.
pub open spec fn per_thousand_floor(rate: int, amount: int) -> int {
    amount * rate / 1000
}

/// A number has at most one floor of its square root.
pub proof fn lemma_floor_sqrt_unique(n: int, r: int, s: int)
    requires
        is_floor_sqrt(n, r),
        is_floor_sqrt(n, s),
    ensures
        r == s,
{
    assert(r < s + 1) by (nonlinear_arith)
        requires
            0 <= r,
            0 <= s,
            r * r < (s + 1) * (s + 1),
    ;
    assert(s < r + 1) by (nonlinear_arith)
        requires
            0 <= r,
            0 <= s,
            s * s < (r + 1) * (r + 1),
    ;
}

/// Every number from zero on has a floor of its square root, and
/// `floor_sqrt` is it.
pub proof fn lemma_floor_sqrt_exists(n: int)
    requires
        0 <= n,
    ensures
        is_floor_sqrt(n, floor_sqrt(n)),
    decreases n,
{
    if n == 0 {
        assert(is_floor_sqrt(0, 0));
    } else {
        lemma_floor_sqrt_exists(n - 1);
        let r = floor_sqrt(n - 1);
        if n < (r + 1) * (r + 1) {
            assert(is_floor_sqrt(n, r));
        } else {
            assert((r + 1) * (r + 1) < (r + 2) * (r + 2)) by (nonlinear_arith)
                requires
                    0 <= r,
            ;
            assert(is_floor_sqrt(n, r + 1));
        }
    }
}

/// A number that passes the test for the floor of the square root is
/// `floor_sqrt`.
pub proof fn lemma_floor_sqrt_is(n: int, r: int)
    requires
        is_floor_sqrt(n, r),
    ensures
        floor_sqrt(n) == r,
{
    lemma_floor_sqrt_unique(n, r, floor_sqrt(n));
}

/// The floor of a quotient, times the divisor, misses the dividend by less
/// than the divisor.
pub proof fn lemma_floor_div_bounds(x: int, d: int)
    requires
        0 <= x,
        0 < d,
    ensures
        0 <= x / d,
        d * (x / d) <= x < d * (x / d) + d,
{
    vstd::arithmetic::div_mod::lemma_fundamental_div_mod(x, d);
    vstd::arithmetic::div_mod::lemma_mod_bound(x, d);
    vstd::arithmetic::div_mod::lemma_div_pos_is_pos(x, d);
}

/// A dividend below `d * b` has a quotient below `b`.
pub proof fn lemma_floor_div_lt(x: int, d: int, b: int)
    requires
        0 <= x,
        0 < d,
        x < d * b,
    ensures
        x / d < b,
{
    lemma_floor_div_bounds(x, d);
    let q = x / d;
    assert(q < b) by (nonlinear_arith)
        requires
            0 < d,
            d * q <= x,
            x < d * b,
    ;
}

/// A dividend of at most `d * b` has a quotient of at most `b`.
pub proof fn lemma_floor_div_le(x: int, d: int, b: int)
    requires
        0 <= x,
        0 < d,
        x <= d * b,
    ensures
        x / d <= b,
{
    lemma_floor_div_bounds(x, d);
    let q = x / d;
    assert(q <= b) by (nonlinear_arith)
        requires
            0 < d,
            d * q <= x,
            x <= d * b,
    ;
}

/// The floor of the square root of `n`.
///
/// Trusted: the body calls `IntegerSquareRoot::integer_sqrt` of the crate
/// `integer-sqrt`, as `sp_runtime::traits` hands it on. Taken on trust is
/// that, for an unsigned argument, the call returns the largest integer
/// whose square does not exceed the argument, and does not panic.
#[verifier::external_body]
pub(crate) fn integer_sqrt(n: u128) -> (root: u128)
    ensures
        root * root <= n < (root + 1) * (root + 1),
{
    sp_runtime::traits::IntegerSquareRoot::integer_sqrt(&n)
}

/// `rate` parts per thousand of `amount`, rounded down.
///
/// Trusted: the body calls `Permill::from_perthousand` and then
/// `Permill::mul_floor` of `sp_runtime`. Taken on trust is that a rate of at
/// most one thousand is held exactly, that the product is rounded down to
/// a whole number, and that no intermediate step overflows.
#[verifier::external_body]
pub(crate) fn mul_floor_per_thousand(rate: u32, amount: u128) -> (part: u128)
    requires
        rate <= 1000,
    ensures
        part == per_thousand_floor(rate as int, amount as int),
{
    sp_runtime::Permill::from_perthousand(rate).mul_floor(amount)
}

} // verus!
