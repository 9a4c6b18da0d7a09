//! Exact integer arithmetic underlying the optical formulas: square roots
//! and base-two logarithms of ratios, each with a characterisation that
//! pins the returned value down completely.

use vstd::prelude::*;
use vstd::arithmetic::power2::lemma2_to64;
use vstd::arithmetic::power2::lemma2_to64_rest;
use vstd::arithmetic::power2::lemma_pow2_adds;
use vstd::arithmetic::power2::lemma_pow2_pos;
use vstd::arithmetic::power2::pow2;

verus! {

/// `r` is the square root of `n` rounded down: the largest integer whose
/// square does not exceed `n`. For a given `n` exactly one `r` satisfies
/// this ([`crate::laws::lemma_sqrt_floor_unique`]).
pub open spec fn is_sqrt_floor(n: int, r: int) -> bool {
    &&& 0 <= r
    &&& r * r <= n
    &&& n < (r + 1) * (r + 1)
}

/// `r` is the square root of `n` rounded up: the smallest integer whose
/// square is at least `n`.
pub open spec fn is_sqrt_ceil(n: int, r: int) -> bool {
    &&& 0 <= r
    &&& n <= r * r
    &&& (r >= 1 ==> (r - 1) * (r - 1) < n)
    &&& (r == 0 ==> n <= 0)
}

/// `r` is the base-two logarithm of the ratio `a / b` rounded down, that is
/// `2^r <= a / b < 2^(r + 1)` over the rationals, written multiplicatively
/// so that negative `r` is covered as well. For positive `a` and `b` exactly
/// one `r` satisfies this ([`crate::laws::lemma_log2_floor_unique`]).
pub open spec fn is_log2_floor(a: int, b: int, r: int) -> bool {
    if r >= 0 {
        b * pow2(r as nat) <= a && a < b * pow2((r + 1) as nat)
    } else {
        a * pow2((-r - 1) as nat) < b && b <= a * pow2((-r) as nat)
    }
}

/// The powers of two just above the `u64` range, as literals.
proof fn lemma_pow2_u128_range()
    ensures
        pow2(126) == 0x4000_0000_0000_0000_0000_0000_0000_0000,
        pow2(127) == 0x8000_0000_0000_0000_0000_0000_0000_0000,
{
    lemma2_to64_rest();
    lemma_pow2_adds(63, 63);
    lemma_pow2_adds(126, 1);
    lemma2_to64();
}

/// A power of two below another forces the same order on the exponents.
pub proof fn lemma_pow2_lt_exp(k: nat, e: nat)
    requires
        pow2(k) < pow2(e),
    ensures
        k < e,
{
    if k >= e {
        lemma_pow2_adds(e, (k - e) as nat);
        lemma_pow2_pos((k - e) as nat);
        lemma_pow2_pos(e);
        assert(pow2(e) * pow2((k - e) as nat) >= pow2(e) * 1) by (nonlinear_arith)
            requires
                pow2((k - e) as nat) >= 1,
                pow2(e) >= 1,
        ;
    }
}

/// Square root of `n`, rounded down, by bisection.
pub fn isqrt(n: u128) -> (r: u128)
    requires
        n < 0x4000_0000_0000_0000_0000_0000_0000_0000,
    ensures
        is_sqrt_floor(n as int, r as int),
{
    let mut lo: u128 = 0;
    let mut hi: u128 = 0x8000_0000_0000_0000;
    while lo + 1 < hi
        invariant
            lo < hi <= 0x8000_0000_0000_0000,
            lo * lo <= n,
            n < hi * hi,
        decreases hi - lo,
    {
        let mid: u128 = lo + (hi - lo) / 2;
        assert(mid * mid < 0x4000_0000_0000_0000_0000_0000_0000_0000) by (nonlinear_arith)
            requires
                mid < 0x8000_0000_0000_0000,
        ;
        let sq: u128 = mid * mid;
        if sq <= n {
            lo = mid;
        } else {
            hi = mid;
        }
    }
    lo
}

/// Square root of `n`, rounded up.
pub fn isqrt_ceil(n: u128) -> (r: u128)
    requires
        n < 0x4000_0000_0000_0000_0000_0000_0000_0000,
    ensures
        is_sqrt_ceil(n as int, r as int),
{
    let root: u128 = isqrt(n);
    assert(root < 0x8000_0000_0000_0000) by (nonlinear_arith)
        requires
            root * root < 0x4000_0000_0000_0000_0000_0000_0000_0000,
    ;
    let r: u128 = if root * root == n {
        root
    } else {
        root + 1
    };
    proof {
        if root >= 1 {
            assert((root - 1) * (root - 1) < root * root) by (nonlinear_arith)
                requires
                    root >= 1,
            ;
        }
        assert(root == 0 ==> root * root == 0) by (nonlinear_arith);
        assert(is_sqrt_ceil(n as int, r as int));
    }
    r
}

/// Base-two logarithm of the ratio `a / b`, rounded down. Exact for every
/// pair of positive arguments in range, including ratios below one, whose
/// logarithm is negative.
pub fn ilog2_floor(a: u128, b: u128) -> (r: i64)
    requires
        1 <= a < 0x8000_0000_0000_0000_0000_0000_0000_0000,
        1 <= b < 0x8000_0000_0000_0000_0000_0000_0000_0000,
    ensures
        is_log2_floor(a as int, b as int, r as int),
{
    proof {
        lemma2_to64();
        lemma_pow2_u128_range();
    }
    if a >= b {
        let mut k: i64 = 0;
        let mut cur: u128 = b;
        proof {
            assert(b * pow2(0) == b) by (nonlinear_arith)
                requires
                    pow2(0) == 1,
            ;
        }
        while cur <= a / 2
            invariant
                1 <= b <= cur <= a < 0x8000_0000_0000_0000_0000_0000_0000_0000,
                0 <= k <= 126,
                cur == b * pow2(k as nat),
            decreases a - cur,
        {
            proof {
                lemma_pow2_u128_range();
                lemma_pow2_pos(k as nat);
                assert(pow2(k as nat) <= b * pow2(k as nat)) by (nonlinear_arith)
                    requires
                        b >= 1,
                        pow2(k as nat) >= 1,
                ;
                lemma_pow2_lt_exp(k as nat, 126);
                lemma_pow2_adds(k as nat, 1);
                lemma2_to64();
                assert(b * pow2((k + 1) as nat) == 2 * (b * pow2(k as nat))) by (nonlinear_arith)
                    requires
                        pow2((k + 1) as nat) == 2 * pow2(k as nat),
                ;
            }
            cur = cur * 2;
            k = k + 1;
        }
        proof {
            lemma_pow2_adds(k as nat, 1);
            lemma2_to64();
            assert(b * pow2((k + 1) as nat) == 2 * (b * pow2(k as nat))) by (nonlinear_arith)
                requires
                    pow2((k + 1) as nat) == 2 * pow2(k as nat),
            ;
        }
        k
    } else {
        let mut k: i64 = 1;
        let mut cur: u128 = a * 2;
        proof {
            lemma2_to64();
            assert(a * pow2(1) == 2 * a) by (nonlinear_arith)
                requires
                    pow2(1) == 2,
            ;
            assert(a * pow2(0) == a) by (nonlinear_arith)
                requires
                    pow2(0) == 1,
            ;
        }
        while cur < b
            invariant
                1 <= a < b < 0x8000_0000_0000_0000_0000_0000_0000_0000,
                1 <= k <= 127,
                cur == a * pow2(k as nat),
                a * pow2((k - 1) as nat) < b,
            decreases 2 * b - cur,
        {
            proof {
                lemma_pow2_u128_range();
                lemma_pow2_pos(k as nat);
                assert(pow2(k as nat) <= a * pow2(k as nat)) by (nonlinear_arith)
                    requires
                        a >= 1,
                        pow2(k as nat) >= 1,
                ;
                lemma_pow2_lt_exp(k as nat, 127);
                lemma_pow2_adds(k as nat, 1);
                lemma2_to64();
                assert(a * pow2((k + 1) as nat) == 2 * (a * pow2(k as nat))) by (nonlinear_arith)
                    requires
                        pow2((k + 1) as nat) == 2 * pow2(k as nat),
                ;
            }
            cur = cur * 2;
            k = k + 1;
        }
        -k
    }
}

} // verus!
