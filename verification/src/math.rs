use vstd::prelude::*;

verus! {

/// `r` is the integer square root of `x`: the largest integer whose square
/// does not exceed `x`.
pub open spec fn is_isqrt(x: int, r: int) -> bool {
    &&& 0 <= r
    &&& r * r <= x
    &&& x < (r + 1) * (r + 1)
}

/// The integer square root of a nonnegative integer (meaningful only for
/// `x >= 0`; see `lemma_isqrt_exists`).
pub open spec fn isqrt_spec(x: int) -> int {
    choose|r: int| is_isqrt(x, r)
}

pub proof fn lemma_isqrt_exists(x: int)
    requires
        0 <= x,
    ensures
        is_isqrt(x, isqrt_spec(x)),
    decreases x,
{
    if x == 0 {
        assert(is_isqrt(0, 0));
    } else {
        lemma_isqrt_exists(x - 1);
        let r = isqrt_spec(x - 1);
        assert(is_isqrt(x - 1, r));
        if (r + 1) * (r + 1) <= x {
            assert((r + 2) * (r + 2) > x) by (nonlinear_arith)
                requires
                    x - 1 < (r + 1) * (r + 1),
                    0 <= r,
            ;
            assert(is_isqrt(x, r + 1));
        } else {
            assert(is_isqrt(x, r));
        }
    }
}

pub proof fn lemma_isqrt_unique(x: int, r1: int, r2: int)
    requires
        is_isqrt(x, r1),
        is_isqrt(x, r2),
    ensures
        r1 == r2,
{
    assert(r1 == r2) by (nonlinear_arith)
        requires
            0 <= r1 && r1 * r1 <= x && x < (r1 + 1) * (r1 + 1),
            0 <= r2 && r2 * r2 <= x && x < (r2 + 1) * (r2 + 1),
    ;
}

/// Binary search for the integer square root.
pub fn isqrt(x: u128) -> (r: u128)
    ensures
        is_isqrt(x as int, r as int),
        r == isqrt_spec(x as int),
{
    let mut lo: u128 = 0;
    let mut hi: u128 = 0x1_0000_0000_0000_0000;
    assert((hi as int) * (hi as int) > x as int) by (nonlinear_arith)
        requires
            hi == 0x1_0000_0000_0000_0000u128,
            x <= u128::MAX,
    ;
    while lo + 1 < hi
        invariant
            lo < hi <= 0x1_0000_0000_0000_0000,
            (lo as int) * (lo as int) <= x as int,
            (x as int) < (hi as int) * (hi as int),
        decreases hi - lo,
    {
        let mid = lo + (hi - lo) / 2;
        assert((mid as int) * (mid as int) <= (0xffff_ffff_ffff_ffffu128 as int) * (0xffff_ffff_ffff_ffffu128 as int)) by (nonlinear_arith)
            requires
                mid <= 0xffff_ffff_ffff_ffffu128,
        ;
        let sq = mid * mid;
        if sq <= x {
            lo = mid;
        } else {
            hi = mid;
        }
    }
    proof {
        lemma_isqrt_exists(x as int);
        lemma_isqrt_unique(x as int, lo as int, isqrt_spec(x as int));
    }
    lo
}

/// Division of a signed value by a positive one, rounded toward zero.
pub open spec fn trunc_div(a: int, d: int) -> int
    recommends
        d >= 1,
{
    if a >= 0 {
        a / d
    } else {
        -((-a) / d)
    }
}

/// Truncating division on machine integers; the divisor must be positive and
/// the dividend must not be the minimum value (so its magnitude is
/// representable).
pub fn trunc_div_i128(a: i128, d: i128) -> (r: i128)
    requires
        d >= 1,
        a > i128::MIN,
    ensures
        r == trunc_div(a as int, d as int),
{
    if a >= 0 {
        let q: u128 = (a as u128) / (d as u128);
        assert(q <= a as u128);
        q as i128
    } else {
        let mag: u128 = (-a) as u128;
        let q: u128 = mag / (d as u128);
        assert(q <= mag);
        -(q as i128)
    }
}

} // verus!
