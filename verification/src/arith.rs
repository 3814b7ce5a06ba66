//! Integer arithmetic helpers: truncating signed division and the integer
//! (floor) square root, with the lemmas the curve code needs.

use vstd::prelude::*;
use vstd::arithmetic::div_mod::lemma_div_is_ordered_by_denominator;
use vstd::arithmetic::div_mod::lemma_div_basics_1;
use vstd::arithmetic::div_mod::lemma_div_multiples_vanish;
use vstd::arithmetic::div_mod::lemma_div_pos_is_pos;
use vstd::arithmetic::div_mod::lemma_div_is_ordered;

verus! {

/// Division that rounds toward zero. In spec code `/` is Euclidean division,
/// which differs on negative numerators; the executable code rounds toward
/// zero, so the model does too.
pub open spec fn trunc_div(n: int, d: int) -> int {
    if n >= 0 {
        n / d
    } else {
        -((-n) / d)
    }
}

/// Truncating division on wide signed integers.
pub fn trunc_div_i128(n: i128, d: i128) -> (r: i128)
    requires
        1 <= d,
        i128::MIN < n,
    ensures
        r == trunc_div(n as int, d as int),
{
    if n >= 0 {
        let q: u128 = (n as u128) / (d as u128);
        proof {
            lemma_div_is_ordered_by_denominator(n as int, 1, d as int);
            lemma_div_basics_1(n as int);
        }
        q as i128
    } else {
        let m: u128 = (-n) as u128;
        let q: u128 = m / (d as u128);
        proof {
            lemma_div_is_ordered_by_denominator(m as int, 1, d as int);
            lemma_div_basics_1(m as int);
        }
        -(q as i128)
    }
}

/// Dividing an exact multiple truncates to the exact quotient.
pub proof fn lemma_trunc_div_exact(x: int, d: int)
    requires
        1 <= d,
    ensures
        trunc_div(x * d, d) == x,
{
    if x >= 0 {
        assert(0 <= x * d && x * d == d * x) by (nonlinear_arith)
            requires
                0 <= x,
                1 <= d,
        ;
        lemma_div_multiples_vanish(x, d);
    } else {
        assert(x * d < 0 && -(x * d) == d * (-x)) by (nonlinear_arith)
            requires
                x < 0,
                1 <= d,
        ;
        lemma_div_multiples_vanish(-x, d);
    }
}

/// A truncated quotient whose numerator is within `m * d` of zero is within
/// `m` of zero.
pub proof fn lemma_trunc_div_bound(a: int, d: int, m: int)
    requires
        1 <= d,
        0 <= m,
        -(m * d) <= a <= m * d,
    ensures
        -m <= trunc_div(a, d) <= m,
{
    assert(m * d == d * m) by (nonlinear_arith);
    lemma_div_multiples_vanish(m, d);
    if a >= 0 {
        lemma_div_pos_is_pos(a, d);
        lemma_div_is_ordered(a, m * d, d);
    } else {
        lemma_div_pos_is_pos(-a, d);
        lemma_div_is_ordered(-a, m * d, d);
    }
}

/// The floor of the square root of `n`.
pub open spec fn isqrt_spec(n: nat) -> nat
    decreases n,
{
    if n == 0 {
        0
    } else {
        let r = isqrt_spec((n - 1) as nat);
        if (r as int + 1) * (r as int + 1) <= n as int {
            r + 1
        } else {
            r
        }
    }
}

/// `isqrt_spec(n)` is the unique `r` with `r * r <= n < (r + 1) * (r + 1)`.
pub proof fn lemma_isqrt_spec_bounds(n: nat)
    ensures
        (isqrt_spec(n) as int) * (isqrt_spec(n) as int) <= n as int,
        (n as int) < (isqrt_spec(n) as int + 1) * (isqrt_spec(n) as int + 1),
    decreases n,
{
    if n == 0 {
        assert(isqrt_spec(0) == 0);
    } else {
        lemma_isqrt_spec_bounds((n - 1) as nat);
        let r = isqrt_spec((n - 1) as nat) as int;
        assert(r * r <= n - 1);
        assert(n - 1 < (r + 1) * (r + 1));
        if (r + 1) * (r + 1) <= n as int {
            assert(isqrt_spec(n) == r + 1);
            let s = isqrt_spec(n) as int;
            assert(s * s <= n) by (nonlinear_arith)
                requires
                    s == r + 1,
                    (r + 1) * (r + 1) <= n,
            ;
            assert(n < (s + 1) * (s + 1)) by (nonlinear_arith)
                requires
                    0 <= r,
                    s == r + 1,
                    n <= (r + 1) * (r + 1),
            ;
        } else {
            assert(isqrt_spec(n) == r);
        }
    }
}

/// Any `r` in the floor-square-root range of `n` is `isqrt_spec(n)`.
pub proof fn lemma_isqrt_unique(n: nat, r: int)
    requires
        0 <= r,
        r * r <= n as int,
        (n as int) < (r + 1) * (r + 1),
    ensures
        r == isqrt_spec(n),
{
    lemma_isqrt_spec_bounds(n);
    let s = isqrt_spec(n) as int;
    if r < s {
        assert((r + 1) * (r + 1) <= s * s) by (nonlinear_arith)
            requires
                0 <= r,
                r + 1 <= s,
        ;
    } else if s < r {
        assert((s + 1) * (s + 1) <= r * r) by (nonlinear_arith)
            requires
                0 <= s,
                s + 1 <= r,
        ;
    }
}

/// The floor of the square root, by binary search.
pub fn isqrt(v: u128) -> (r: u64)
    requires
        v < 85070591730234615865843651857942052864,  // 2^126
    ensures
        r == isqrt_spec(v as nat),
        (r as int) * (r as int) <= v as int,
        (v as int) < (r as int + 1) * (r as int + 1),
{
    let mut lo: u64 = 0;
    let mut hi: u64 = 0x8000_0000_0000_0000;
    proof {
        assert((0x8000_0000_0000_0000int) * (0x8000_0000_0000_0000int)
            == 85070591730234615865843651857942052864int) by (nonlinear_arith);
    }
    while lo + 1 < hi
        invariant
            lo < hi <= 0x8000_0000_0000_0000,
            (lo as int) * (lo as int) <= v as int,
            (v as int) < (hi as int) * (hi as int),
        decreases hi - lo,
    {
        let mid: u64 = lo + (hi - lo) / 2;
        proof {
            assert((mid as int) * (mid as int) <= 85070591730234615865843651857942052864int)
                by (nonlinear_arith)
                requires
                    0 <= mid as int,
                    mid as int <= 0x8000_0000_0000_0000int,
            ;
        }
        if (mid as u128) * (mid as u128) <= v {
            lo = mid;
        } else {
            hi = mid;
        }
    }
    proof {
        lemma_isqrt_unique(v as nat, lo as int);
    }
    lo
}

} // verus!
