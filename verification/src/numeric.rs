//! Integer arithmetic that the machine integers do not offer: division
//! that rounds down, and square roots.

use vstd::arithmetic::div_mod::{lemma_fundamental_div_mod, lemma_fundamental_div_mod_converse};
use vstd::prelude::*;

verus! {

/// Whether `r` is the integer square root of `n`: the largest natural number
/// whose square does not exceed `n`.
pub open spec fn is_floor_sqrt(r: nat, n: nat) -> bool {
    r * r <= n < (r + 1) * (r + 1)
}

/// The integer square root of `n`.
pub open spec fn floor_sqrt(n: nat) -> nat {
    choose|r: nat| is_floor_sqrt(r, n)
}

/// Every natural number has an integer square root.
pub proof fn lemma_floor_sqrt_exists(n: nat) -> (r: nat)
    ensures
        is_floor_sqrt(r, n),
    decreases n,
{
    if n == 0 {
        assert(is_floor_sqrt(0, 0)) by (nonlinear_arith);
        0
    } else {
        let below: nat = lemma_floor_sqrt_exists((n - 1) as nat);
        let next: nat = below + 1;
        if next * next <= n {
            assert(n < (next + 1) * (next + 1)) by (nonlinear_arith)
                requires
                    next * next == n,
            ;
            next
        } else {
            below
        }
    }
}

/// Squaring is strictly monotonic on the natural numbers.
pub proof fn lemma_square_monotonic(a: nat, b: nat)
    by (nonlinear_arith)
    ensures
        a <= b ==> a * a <= b * b,
        a < b ==> a * a < b * b,
{
}

/// The integer square root is unique.
pub proof fn lemma_floor_sqrt_unique(r1: nat, r2: nat, n: nat)
    requires
        is_floor_sqrt(r1, n),
        is_floor_sqrt(r2, n),
    ensures
        r1 == r2,
{
    if r1 < r2 {
        lemma_square_monotonic(r1 + 1, r2);
    } else if r2 < r1 {
        lemma_square_monotonic(r2 + 1, r1);
    }
}

/// `floor_sqrt(n)` is the integer square root of `n`, and nothing else is.
pub proof fn lemma_floor_sqrt(n: nat)
    ensures
        is_floor_sqrt(floor_sqrt(n), n),
        forall|r: nat| is_floor_sqrt(r, n) ==> r == floor_sqrt(n),
{
    lemma_floor_sqrt_exists(n);
    assert forall|r: nat| is_floor_sqrt(r, n) implies r == floor_sqrt(n) by {
        lemma_floor_sqrt_unique(r, floor_sqrt(n), n);
    }
}

/// Computes the integer square root by bisection.
pub fn isqrt(n: u128) -> (r: u64)
    ensures
        r == floor_sqrt(n as nat),
{
    let mut lo: u128 = 0;
    let mut hi: u128 = 0x1_0000_0000_0000_0000;
    assert(n < hi * hi) by (nonlinear_arith)
        requires
            hi == 0x1_0000_0000_0000_0000,
            n <= u128::MAX,
    ;
    while hi - lo > 1
        invariant
            lo < hi <= 0x1_0000_0000_0000_0000,
            lo * lo <= n < hi * hi,
        decreases hi - lo,
    {
        let mid: u128 = lo + (hi - lo) / 2;
        assert(mid * mid <= u128::MAX) by (nonlinear_arith)
            requires
                mid < 0x1_0000_0000_0000_0000,
        ;
        if mid * mid <= n {
            lo = mid;
        } else {
            hi = mid;
        }
    }
    proof {
        lemma_floor_sqrt(n as nat);
        assert(is_floor_sqrt(lo as nat, n as nat));
    }
    lo as u64
}

/// Divides, rounding toward negative infinity.
pub fn floor_div(n: i64, d: i64) -> (q: i64)
    requires
        d > 0,
    ensures
        q == n / d,
{
    if n >= 0 {
        n / d
    } else {
        let below: i64 = -(n + 1);
        let k: i64 = below / d;
        proof {
            lemma_fundamental_div_mod(below as int, d as int);
            let r = below as int % d as int;
            assert(n == (-1 - k) * d + (d - 1 - r)) by (nonlinear_arith)
                requires
                    below == d * k + r,
                    below == -(n + 1),
            ;
            lemma_fundamental_div_mod_converse(n as int, d as int, -1 - k, d - 1 - r);
        }
        -1 - k
    }
}

} // verus!
