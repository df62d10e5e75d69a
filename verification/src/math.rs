use vstd::prelude::*;

verus! {

/// The largest natural number whose square does not exceed `n`.
pub open spec fn isqrt(n: nat) -> nat
    decreases n,
{
    if n == 0 {
        0
    } else {
        let r = isqrt((n - 1) as nat);
        if (r + 1) * (r + 1) <= n {
            r + 1
        } else {
            r
        }
    }
}

/// `isqrt(n)` is a root from below: its square fits in `n`, the next square
/// does not.
pub proof fn lemma_isqrt_bounds(n: nat)
    ensures
        isqrt(n) * isqrt(n) <= n,
        n < (isqrt(n) + 1) * (isqrt(n) + 1),
    decreases n,
{
    let s = isqrt(n);
    if n == 0 {
        assert(s == 0);
        assert(s * s == 0 && (s + 1) * (s + 1) == 1) by (nonlinear_arith)
            requires
                s == 0,
        ;
    } else {
        let r = isqrt((n - 1) as nat);
        lemma_isqrt_bounds((n - 1) as nat);
        if (r + 1) * (r + 1) <= n {
            assert(s == r + 1);
            assert((s + 1) * (s + 1) > s * s) by (nonlinear_arith)
                requires
                    s >= 0,
            ;
        } else {
            assert(s == r);
        }
    }
}

/// Squaring is strictly monotone on the natural numbers.
pub proof fn lemma_square_strictly_monotone(a: nat, b: nat)
    requires
        a < b,
    ensures
        a * a < b * b,
{
    assert(a * a < b * b) by (nonlinear_arith)
        requires
            0 <= a < b,
    ;
}

/// Only one number lies between the bounds of `lemma_isqrt_bounds`.
pub proof fn lemma_isqrt_unique(n: nat, r: nat)
    requires
        r * r <= n,
        n < (r + 1) * (r + 1),
    ensures
        r == isqrt(n),
{
    let s = isqrt(n);
    lemma_isqrt_bounds(n);
    if r < s {
        if r + 1 < s {
            lemma_square_strictly_monotone(r + 1, s);
        }
    } else if s < r {
        if s + 1 < r {
            lemma_square_strictly_monotone(s + 1, r);
        }
    }
}

/// Integer square root, rounded down.
pub fn integer_sqrt(n: u64) -> (root: u64)
    ensures
        root == isqrt(n as nat),
{
    let mut low: u64 = 0;
    let mut high: u64 = 0x1_0000_0000;
    while high - low > 1
        invariant
            low < high <= 0x1_0000_0000,
            low * low <= n,
            n < high * high,
        decreases high - low,
    {
        let mid: u64 = low + (high - low) / 2;
        assert(mid * mid <= 0xffff_ffff * 0xffff_ffff) by (nonlinear_arith)
            requires
                0 <= mid <= 0xffff_ffff,
        ;
        if mid * mid <= n {
            low = mid;
        } else {
            high = mid;
        }
    }
    proof {
        lemma_isqrt_unique(n as nat, low as nat);
    }
    low
}

} // verus!
