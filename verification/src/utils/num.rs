use vstd::prelude::*;

verus! {

/// Fixed-point unit: the rational value 1.0 is represented by this integer.
/// Pixel values, threshold-matrix entries and palette coefficients are all
/// rationals scaled by `UNIT`.
pub const UNIT: i64 = 65536;

/// Largest power of two that is at most `n`, for `n >= 1` (and 1 for `n < 1`).
pub open spec fn lower_pow_2(n: nat) -> nat
    decreases n,
{
    if n < 2 {
        1
    } else {
        2 * lower_pow_2(n / 2)
    }
}

/// The power of two closest to `n`: ties are resolved toward the lower power,
/// zero maps to one, and values whose upper power would not fit in `usize`
/// map to the lower power.
pub open spec fn closest_pow_2_spec(n: nat) -> nat {
    if n == 0 {
        1
    } else {
        let l = lower_pow_2(n);
        if l > usize::MAX as nat / 2 {
            l
        } else if 2 * n <= 3 * l {
            l
        } else {
            2 * l
        }
    }
}

pub proof fn lemma_lower_pow_2_bounds(n: nat)
    requires
        n >= 1,
    ensures
        1 <= lower_pow_2(n) <= n,
        n < 2 * lower_pow_2(n),
    decreases n,
{
    if n >= 2 {
        lemma_lower_pow_2_bounds(n / 2);
    }
}

/// A power of two `p` with `p <= n < 2p` is the largest power of two at most `n`.
proof fn lemma_lower_pow_2_unique(n: nat, p: nat)
    requires
        n >= 1,
        is_pow_2(p),
        p <= n < 2 * p,
    ensures
        p == lower_pow_2(n),
    decreases n,
{
    if n < 2 {
        assert(p == 1);
    } else {
        assert(p >= 2) by {
            if p < 2 {
                assert(p == 1);
            }
        }
        assert(is_pow_2(p / 2) && p == 2 * (p / 2)) by {
            lemma_pow_2_halves(p);
        }
        assert(p / 2 <= n / 2);
        assert(n / 2 < 2 * (p / 2));
        lemma_lower_pow_2_unique(n / 2, p / 2);
    }
}

/// `p` is a power of two.
pub open spec fn is_pow_2(p: nat) -> bool
    decreases p,
{
    if p == 0 {
        false
    } else if p == 1 {
        true
    } else {
        p % 2 == 0 && is_pow_2(p / 2)
    }
}

proof fn lemma_pow_2_halves(p: nat)
    requires
        is_pow_2(p),
        p >= 2,
    ensures
        is_pow_2(p / 2),
        p == 2 * (p / 2),
{
}

pub proof fn lemma_lower_pow_2_is_pow_2(n: nat)
    requires
        n >= 1,
    ensures
        is_pow_2(lower_pow_2(n)),
    decreases n,
{
    if n >= 2 {
        lemma_lower_pow_2_is_pow_2(n / 2);
        let h = lower_pow_2(n / 2);
        lemma_lower_pow_2_bounds(n / 2);
        assert(lower_pow_2(n) == 2 * h);
        assert((2 * h) % 2 == 0);
        assert((2 * h) / 2 == h);
    }
}

/// The closest power of two is itself a power of two.
pub proof fn lemma_closest_pow_2_is_pow_2(n: nat)
    ensures
        is_pow_2(closest_pow_2_spec(n)),
{
    if n == 0 {
    } else {
        lemma_lower_pow_2_is_pow_2(n);
        let l = lower_pow_2(n);
        if !(l > usize::MAX as nat / 2) && !(2 * n <= 3 * l) {
            assert((2 * l) % 2 == 0);
            assert((2 * l) / 2 == l);
        }
    }
}

/// Returns the closest power of 2 to an unsigned integer, choosing between
/// the previous and next powers of 2, with preference for the lower one.
pub fn closest_pow_2(n: usize) -> (r: usize)
    ensures
        r == closest_pow_2_spec(n as nat),
{
    if n == 0 {
        return 1;
    }
    let mut lower: usize = 1;
    while lower <= n / 2
        invariant
            n >= 1,
            1 <= lower <= n,
            is_pow_2(lower as nat),
        decreases n - lower,
    {
        lower = lower * 2;
    }
    proof {
        assert(n < 2 * lower);
        lemma_lower_pow_2_unique(n as nat, lower as nat);
    }
    if lower > usize::MAX / 2 {
        return lower;
    }
    let upper = lower * 2;
    if n - lower <= upper - n {
        lower
    } else {
        upper
    }
}

} // verus!
