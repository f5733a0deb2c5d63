use vstd::prelude::*;

verus! {

/// `m` is `floor(0.5 + sqrt(r2))`: over integers, `m^2 - m < r2 <= m^2 + m`,
/// or `m == 0 == r2`. No integer `r2` lies on a half-integer root, so there
/// is never a tie.
pub open spec fn rounds_to_sqrt(r2: int, m: int) -> bool {
    &&& 0 <= m
    &&& r2 <= m * m + m
    &&& (m == 0 || m * m - m < r2)
}

/// The least `m >= start` with `r2 <= m^2 + m`.
pub open spec fn round_sqrt_from(r2: nat, start: nat) -> nat
    decreases r2 - start,
{
    if r2 <= start * start + start {
        start
    } else {
        round_sqrt_from(r2, start + 1)
    }
}

/// `floor(0.5 + sqrt(r2))`, the radius `sqrt(r2)` rounded half up.
pub open spec fn round_sqrt(r2: nat) -> nat {
    round_sqrt_from(r2, 0)
}

proof fn lemma_round_sqrt_from_rounds(r2: nat, start: nat)
    requires
        start == 0 || start * start - start < r2,
    ensures
        rounds_to_sqrt(r2 as int, round_sqrt_from(r2, start) as int),
    decreases r2 - start,
{
    assert(start <= start * start + start) by (nonlinear_arith);
    if r2 > start * start + start {
        assert((start + 1) * (start + 1) - (start + 1) == start * start + start) by (nonlinear_arith);
        lemma_round_sqrt_from_rounds(r2, start + 1);
    }
}

proof fn lemma_round_sqrt_from_unique(r2: nat, start: nat, m: nat)
    requires
        start <= m,
        rounds_to_sqrt(r2 as int, m as int),
    ensures
        round_sqrt_from(r2, start) == m,
    decreases m - start,
{
    if start < m {
        assert(start * start + start <= m * m - m) by (nonlinear_arith)
            requires
                start < m,
        ;
        assert(start <= start * start + start) by (nonlinear_arith);
        lemma_round_sqrt_from_unique(r2, start + 1, m);
    }
}

/// `round_sqrt` is the one value that satisfies `rounds_to_sqrt`.
pub proof fn lemma_round_sqrt(r2: nat)
    ensures
        rounds_to_sqrt(r2 as int, round_sqrt(r2) as int),
        forall|m: nat| rounds_to_sqrt(r2 as int, m as int) ==> m == round_sqrt(r2),
{
    lemma_round_sqrt_from_rounds(r2, 0);
    assert forall|m: nat| rounds_to_sqrt(r2 as int, m as int) implies m == round_sqrt(r2) by {
        lemma_round_sqrt_from_unique(r2, 0, m);
    }
}

/// Rounding the square root keeps the order of its argument.
pub proof fn lemma_round_sqrt_monotonic(a: nat, b: nat)
    requires
        a <= b,
    ensures
        round_sqrt(a) <= round_sqrt(b),
{
    lemma_round_sqrt(a);
    lemma_round_sqrt(b);
    let x = round_sqrt(a);
    let y = round_sqrt(b);
    if x > y {
        assert(y * y + y <= x * x - x) by (nonlinear_arith)
            requires
                y < x,
        ;
    }
}

/// Computes `floor(0.5 + sqrt(r2))` exactly, without floating point.
pub fn round_sqrt_u64(r2: u64) -> (m: u64)
    requires
        r2 < 0x4000_0000_0000_0000,
    ensures
        m == round_sqrt(r2 as nat),
{
    let mut lo: u64 = 0;
    let mut hi: u64 = if r2 < 0x8000_0000 {
        r2
    } else {
        0x8000_0000
    };
    assert(r2 <= hi * hi + hi) by (nonlinear_arith)
        requires
            hi == r2 || (hi == 0x8000_0000 && r2 < 0x4000_0000_0000_0000),
    ;
    while lo < hi
        invariant
            lo <= hi <= 0x8000_0000,
            r2 <= hi * hi + hi,
            lo == 0 || (lo - 1) * (lo - 1) + (lo - 1) < r2,
        decreases hi - lo,
    {
        let mid: u64 = lo + (hi - lo) / 2;
        assert(mid * mid + mid <= 0x8000_0000 * 0x8000_0000 + 0x8000_0000) by (nonlinear_arith)
            requires
                mid <= 0x8000_0000,
        ;
        if r2 <= mid * mid + mid {
            hi = mid;
        } else {
            lo = mid + 1;
        }
    }
    proof {
        assert((lo - 1) * (lo - 1) + (lo - 1) == lo * lo - lo) by (nonlinear_arith);
        assert(rounds_to_sqrt(r2 as int, lo as int));
        lemma_round_sqrt(r2 as nat);
        assert(lo as nat == round_sqrt(r2 as nat));
    }
    lo
}

} // verus!
