use vstd::prelude::*;
use vstd::arithmetic::power::pow;
use crate::utils::bignat::BigNat;

verus! {

/// A power of a number that is not negative is not negative.
pub proof fn lemma_pow_nonnegative(b: int, e: nat)
    requires
        b >= 0,
    ensures
        pow(b, e) >= 0,
    decreases e,
{
    reveal(pow);
    if e > 0 {
        lemma_pow_nonnegative(b, (e - 1) as nat);
        assert(b * pow(b, (e - 1) as nat) >= 0) by (nonlinear_arith)
            requires
                b >= 0,
                pow(b, (e - 1) as nat) >= 0,
        ;
    }
}

/// Powers grow with their base.
pub proof fn lemma_pow_base_increases(a: int, b: int, e: nat)
    requires
        0 <= a <= b,
    ensures
        0 <= pow(a, e) <= pow(b, e),
    decreases e,
{
    reveal(pow);
    if e > 0 {
        lemma_pow_base_increases(a, b, (e - 1) as nat);
        let x = pow(a, (e - 1) as nat);
        let y = pow(b, (e - 1) as nat);
        assert(0 <= a * x <= b * y) by (nonlinear_arith)
            requires
                0 <= a <= b,
                0 <= x <= y,
        ;
    }
}

/// Powers with a positive exponent grow strictly with their base.
pub proof fn lemma_pow_base_strictly_increases(a: int, b: int, e: nat)
    requires
        0 <= a < b,
        e >= 1,
    ensures
        pow(a, e) < pow(b, e),
{
    reveal(pow);
    lemma_pow_base_increases(a, b, (e - 1) as nat);
    lemma_pow_at_least_one(b, (e - 1) as nat);
    let x = pow(a, (e - 1) as nat);
    let y = pow(b, (e - 1) as nat);
    assert(a * x < b * y) by (nonlinear_arith)
        requires
            0 <= a < b,
            0 <= x <= y,
            1 <= y,
    ;
}

/// A power of a positive number is positive.
pub proof fn lemma_pow_at_least_one(b: int, e: nat)
    requires
        b >= 1,
    ensures
        pow(b, e) >= 1,
    decreases e,
{
    reveal(pow);
    if e > 0 {
        lemma_pow_at_least_one(b, (e - 1) as nat);
        assert(b * pow(b, (e - 1) as nat) >= 1) by (nonlinear_arith)
            requires
                b >= 1,
                pow(b, (e - 1) as nat) >= 1,
        ;
    }
}

/// A positive number is at most each of its powers with a positive exponent.
pub proof fn lemma_pow_at_least_base(b: int, e: nat)
    requires
        b >= 1,
        e >= 1,
    ensures
        pow(b, e) >= b,
{
    reveal(pow);
    lemma_pow_at_least_one(b, (e - 1) as nat);
    assert(b * pow(b, (e - 1) as nat) >= b) by (nonlinear_arith)
        requires
            b >= 1,
            pow(b, (e - 1) as nat) >= 1,
    ;
}

/// Whether `r` is the integer part of the tenth root of `x`.
pub open spec fn is_floor_root10(x: int, r: int) -> bool {
    0 <= r && pow(r, 10) <= x < pow(r + 1, 10)
}

/// The integer part of the tenth root of `x`, for `x` that is not negative.
pub open spec fn floor_root10(x: int) -> int {
    choose|r: int| is_floor_root10(x, r)
}

proof fn lemma_root_at_most(x: int, k: nat)
    requires
        0 <= x < pow(k as int + 1, 10),
    ensures
        exists|r: int| is_floor_root10(x, r),
    decreases k,
{
    if pow(k as int, 10) <= x {
        assert(is_floor_root10(x, k as int));
    } else {
        if k == 0 {
            assert(pow(0, 10) == 0) by {
                reveal(pow);
            }
        } else {
            lemma_root_at_most(x, (k - 1) as nat);
        }
    }
}

/// Every number that is not negative has a tenth root with an integer part.
pub proof fn lemma_floor_root10_exists(x: int)
    requires
        x >= 0,
    ensures
        is_floor_root10(x, floor_root10(x)),
{
    lemma_pow_at_least_base(x + 1, 10);
    lemma_root_at_most(x, x as nat);
}

/// The integer part of the tenth root is unique.
pub proof fn lemma_floor_root10_unique(x: int, r: int, s: int)
    requires
        is_floor_root10(x, r),
        is_floor_root10(x, s),
    ensures
        r == s,
{
    if r < s {
        lemma_pow_base_increases(r + 1, s, 10);
    }
    if s < r {
        lemma_pow_base_increases(s + 1, r, 10);
    }
}

/// The integer part of the tenth root of `x`, found by bisection below
/// `bound`.
pub fn floor_root10_of(x: &BigNat, bound: u64) -> (root: u64)
    requires
        x@ < pow(bound as int, 10),
    ensures
        root == floor_root10(x@ as int),
        is_floor_root10(x@ as int, root as int),
        root < bound,
{
    let mut lo: u64 = 0;
    let mut hi: u64 = bound;
    proof {
        assert(pow(0, 10) == 0) by {
            reveal(pow);
        }
    }
    while hi - lo > 1
        invariant
            lo < hi <= bound,
            pow(lo as int, 10) <= x@ < pow(hi as int, 10),
        decreases hi - lo,
    {
        let mid: u64 = lo + (hi - lo) / 2;
        let power = BigNat::pow_of(mid, 10);
        if power.le(x) {
            lo = mid;
        } else {
            hi = mid;
        }
    }
    proof {
        assert(is_floor_root10(x@ as int, lo as int));
        lemma_floor_root10_exists(x@ as int);
        lemma_floor_root10_unique(x@ as int, floor_root10(x@ as int), lo as int);
    }
    lo
}

/// The integer part of the root is at least every number whose tenth power
/// does not exceed `x`.
pub proof fn lemma_floor_root10_at_least(x: int, r: int, low: int)
    requires
        is_floor_root10(x, r),
        0 <= low,
        pow(low, 10) <= x,
    ensures
        low <= r,
{
    if r < low {
        lemma_pow_base_increases(r + 1, low, 10);
    }
}

/// For `a` of at least `2 * k`, the `k`-th power of `a + 2` times `a - 2 * k`
/// is at most the next power of `a`: a step of two raises the `k`-th power
/// by a factor of at most `a / (a - 2 * k)`.
pub proof fn lemma_step_of_two(a: int, k: nat)
    requires
        a >= 2 * k,
    ensures
        pow(a + 2, k) * (a - 2 * k) <= pow(a, k + 1),
    decreases k,
{
    reveal(pow);
    if k == 0 {
        assert(pow(a, 1) == a * pow(a, 0));
    } else {
        let j = (k - 1) as nat;
        lemma_step_of_two(a, j);
        lemma_pow_nonnegative(a + 2, j);
        let p = pow(a + 2, j);
        let q = pow(a, k);
        assert(pow(a + 2, k) == (a + 2) * p);
        assert(pow(a, k + 1) == a * q);
        assert(((a + 2) * p) * (a - 2 * k) <= a * q) by (nonlinear_arith)
            requires
                p >= 0,
                a >= 2 * k,
                k >= 1,
                p * (a - 2 * (k - 1)) <= q,
        {
            assert((a + 2) * (a - 2 * k) <= a * (a - 2 * (k - 1)));
            assert(p * ((a + 2) * (a - 2 * k)) <= p * (a * (a - 2 * (k - 1))));
            assert(p * (a * (a - 2 * (k - 1))) == a * (p * (a - 2 * (k - 1))));
            assert(a * (p * (a - 2 * (k - 1))) <= a * q);
        }
    }
}

} // verus!
