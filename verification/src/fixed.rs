//! Integer arithmetic on lengths measured in thousandths of a voxel.

use vstd::prelude::*;

verus! {

/// Number of length units in one voxel edge.
pub const MILLIS_PER_VOXEL: i64 = 1000;

/// `r` is the square root of `n`, rounded down.
pub open spec fn is_sqrt_floor(n: nat, r: nat) -> bool {
    r * r <= n && n < (r + 1) * (r + 1)
}

/// The square root of `n`, rounded down.
pub open spec fn sqrt_floor(n: nat) -> nat {
    choose|r: nat| is_sqrt_floor(n, r)
}

/// A number has at most one rounded-down square root.
pub proof fn lemma_sqrt_floor_unique(n: nat, r1: nat, r2: nat)
    requires
        is_sqrt_floor(n, r1),
        is_sqrt_floor(n, r2),
    ensures
        r1 == r2,
{
    if r1 < r2 {
        assert((r1 + 1) * (r1 + 1) <= r2 * r2) by (nonlinear_arith)
            requires
                r1 + 1 <= r2,
        ;
    } else if r2 < r1 {
        assert((r2 + 1) * (r2 + 1) <= r1 * r1) by (nonlinear_arith)
            requires
                r2 + 1 <= r1,
        ;
    }
}

/// Whoever holds one rounded-down square root of `n` holds `sqrt_floor(n)`.
pub proof fn lemma_sqrt_floor_is(n: nat, r: nat)
    requires
        is_sqrt_floor(n, r),
    ensures
        sqrt_floor(n) == r,
{
    let c = sqrt_floor(n);
    assert(is_sqrt_floor(n, c));
    lemma_sqrt_floor_unique(n, c, r);
}

/// Square root of a 128-bit number, rounded down.
pub fn isqrt(n: u128) -> (r: u64)
    ensures
        is_sqrt_floor(n as nat, r as nat),
        r as nat == sqrt_floor(n as nat),
{
    let mut lo: u128 = 0;
    let mut hi: u128 = 0x1_0000_0000_0000_0000;
    assert(0x1_0000_0000_0000_0000int * 0x1_0000_0000_0000_0000int > u128::MAX) by (nonlinear_arith);
    while hi - lo > 1
        invariant
            lo < hi <= 0x1_0000_0000_0000_0000,
            lo * lo <= n,
            n < hi * hi,
        decreases hi - lo,
    {
        let mid: u128 = lo + (hi - lo) / 2;
        assert(mid * mid <= 0xffff_ffff_ffff_ffff * 0xffff_ffff_ffff_ffff) by (nonlinear_arith)
            requires
                0 <= mid <= 0xffff_ffff_ffff_ffff,
        ;
        assert(0xffff_ffff_ffff_ffffint * 0xffff_ffff_ffff_ffffint <= u128::MAX) by (nonlinear_arith);
        if mid * mid <= n {
            lo = mid;
        } else {
            hi = mid;
        }
    }
    proof {
        assert(hi == lo + 1);
        lemma_sqrt_floor_is(n as nat, lo as nat);
    }
    lo as u64
}

} // verus!
