use vstd::arithmetic::div_mod::{lemma_multiply_divide_lt, lemma_mod_bound};
use vstd::prelude::*;

use crate::shell::{lemma_round_sqrt_monotonic, round_sqrt, round_sqrt_u64};
use crate::wavenumber::{fold_index, folded, frequency, signed_frequency, MAX_NGRID};

verus! {

/// The largest folded index on an axis of side `n`.
pub open spec fn max_fold(n: int) -> int {
    n - n / 2
}

/// A grid side the estimator accepts: positive, within `MAX_NGRID`, and
/// small enough relative to its corner radius that every shell index of a
/// cell is below `n`, so that `n` bins hold every cell.
pub open spec fn valid_ngrid(n: int) -> bool {
    &&& 0 < n <= MAX_NGRID
    &&& round_sqrt((3 * max_fold(n) * max_fold(n)) as nat) < n
}

/// Squared grid distance of cell `(i, j, k)` from the origin, after folding.
pub open spec fn shell_radius2(n: int, i: int, j: int, k: int) -> int {
    folded(i, n) * folded(i, n) + folded(j, n) * folded(j, n) + folded(k, n) * folded(k, n)
}

/// Squared wavenumber of cell `(i, j, k)`, in units of the fundamental mode.
pub open spec fn power_radius2(n: int, i: int, j: int, k: int) -> int {
    signed_frequency(i, n) * signed_frequency(i, n) + signed_frequency(j, n) * signed_frequency(
        j,
        n,
    ) + signed_frequency(k, n) * signed_frequency(k, n)
}

/// The shell that counts cell `(i, j, k)` among its samples.
pub open spec fn shell_of(n: int, i: int, j: int, k: int) -> nat {
    round_sqrt(shell_radius2(n, i, j, k) as nat)
}

/// The bin that receives the power of cell `(i, j, k)`: none for the DC mode.
pub open spec fn power_of(n: int, i: int, j: int, k: int) -> Option<nat> {
    if power_radius2(n, i, j, k) == 0 {
        None
    } else {
        Some(round_sqrt(power_radius2(n, i, j, k) as nat))
    }
}

/// Position of `(i, j, k)` in the flattened grid.
pub open spec fn flat(n: int, i: int, j: int, k: int) -> int {
    k + n * (j + n * i)
}

/// First axis index of flattened cell `c`.
pub open spec fn cell_i(n: int, c: int) -> int {
    c / n / n
}

/// Second axis index of flattened cell `c`.
pub open spec fn cell_j(n: int, c: int) -> int {
    (c / n) % n
}

/// Third axis index of flattened cell `c`.
pub open spec fn cell_k(n: int, c: int) -> int {
    c % n
}

/// The shell of flattened cell `c`.
pub open spec fn cell_shell(n: int, c: int) -> nat {
    shell_of(n, cell_i(n, c), cell_j(n, c), cell_k(n, c))
}

/// The power bin of flattened cell `c`.
pub open spec fn cell_power(n: int, c: int) -> Option<nat> {
    power_of(n, cell_i(n, c), cell_j(n, c), cell_k(n, c))
}

/// How many of the flattened cells `0..upto` fall in shell `m`.
pub open spec fn shell_count(n: int, m: nat, upto: nat) -> nat
    decreases upto,
{
    if upto == 0 {
        0
    } else {
        shell_count(n, m, (upto - 1) as nat) + if cell_shell(n, upto - 1) == m {
            1nat
        } else {
            0nat
        }
    }
}

/// How many of the flattened cells `0..upto` put their power in bin `m`.
pub open spec fn power_count(n: int, m: nat, upto: nat) -> nat
    decreases upto,
{
    if upto == 0 {
        0
    } else {
        power_count(n, m, (upto - 1) as nat) + if cell_power(n, upto - 1) == Some(m) {
            1nat
        } else {
            0nat
        }
    }
}

proof fn lemma_fold_bound(i: int, n: int)
    requires
        0 <= i < n,
    ensures
        0 <= folded(i, n) <= max_fold(n),
{
}

proof fn lemma_shell_bound(n: int, i: int, j: int, k: int)
    requires
        valid_ngrid(n),
        0 <= i < n,
        0 <= j < n,
        0 <= k < n,
    ensures
        0 <= shell_radius2(n, i, j, k) <= 3 * max_fold(n) * max_fold(n),
        shell_of(n, i, j, k) < n,
{
    lemma_fold_bound(i, n);
    lemma_fold_bound(j, n);
    lemma_fold_bound(k, n);
    let (a, b, c, f) = (folded(i, n), folded(j, n), folded(k, n), max_fold(n));
    assert(0 <= a * a + b * b + c * c <= 3 * f * f) by (nonlinear_arith)
        requires
            0 <= a <= f,
            0 <= b <= f,
            0 <= c <= f,
    ;
    lemma_round_sqrt_monotonic(
        shell_radius2(n, i, j, k) as nat,
        (3 * max_fold(n) * max_fold(n)) as nat,
    );
}

proof fn lemma_power_bound(n: int, i: int, j: int, k: int)
    requires
        valid_ngrid(n),
        0 <= i < n,
        0 <= j < n,
        0 <= k < n,
    ensures
        0 <= power_radius2(n, i, j, k) <= 3 * max_fold(n) * max_fold(n),
        round_sqrt(power_radius2(n, i, j, k) as nat) < n,
{
    let (a, b, c, f) = (
        signed_frequency(i, n),
        signed_frequency(j, n),
        signed_frequency(k, n),
        max_fold(n),
    );
    assert(0 <= a * a + b * b + c * c <= 3 * f * f) by (nonlinear_arith)
        requires
            -f <= a <= f,
            -f <= b <= f,
            -f <= c <= f,
    ;
    lemma_round_sqrt_monotonic(
        power_radius2(n, i, j, k) as nat,
        (3 * max_fold(n) * max_fold(n)) as nat,
    );
}

/// Tells whether the estimator accepts a grid of side `ngrid`.
pub fn check_ngrid(ngrid: u64) -> (r: bool)
    ensures
        r == valid_ngrid(ngrid as int),
{
    if ngrid == 0 || ngrid > MAX_NGRID {
        return false;
    }
    let f: u64 = ngrid - ngrid / 2;
    assert(3 * f * f <= 3 * MAX_NGRID * MAX_NGRID) by (nonlinear_arith)
        requires
            f <= MAX_NGRID,
    ;
    round_sqrt_u64(3 * f * f) < ngrid
}

/// Position of cell `(i, j, k)` in a flattened grid of side `ngrid`.
pub fn flat_index(ngrid: u64, i: u64, j: u64, k: u64) -> (r: u64)
    requires
        ngrid <= MAX_NGRID,
        i < ngrid,
        j < ngrid,
        k < ngrid,
    ensures
        r == flat(ngrid as int, i as int, j as int, k as int),
        r < ngrid * ngrid * ngrid,
{
    let n = ngrid;
    assert(n * n <= MAX_NGRID * MAX_NGRID && n * i <= n * n && j + n * i < n * n + n && n * (j + n * i) <= n * n * n - n && k + n
        * (j + n * i) < n * n * n && n * n * n <= MAX_NGRID * MAX_NGRID * MAX_NGRID)
        by (nonlinear_arith)
        requires
            i < n,
            j < n,
            k < n,
            n <= MAX_NGRID,
    ;
    k + n * (j + n * i)
}

/// The shell that counts cell `(i, j, k)`: its folded grid distance from the
/// origin, rounded half up.
pub fn shell_bin(ngrid: u64, i: u64, j: u64, k: u64) -> (r: u64)
    requires
        valid_ngrid(ngrid as int),
        i < ngrid,
        j < ngrid,
        k < ngrid,
    ensures
        r == shell_of(ngrid as int, i as int, j as int, k as int),
        r < ngrid,
{
    let a = fold_index(i, ngrid);
    let b = fold_index(j, ngrid);
    let c = fold_index(k, ngrid);
    proof {
        lemma_shell_bound(ngrid as int, i as int, j as int, k as int);
        assert(3 * max_fold(ngrid as int) * max_fold(ngrid as int) <= 3 * MAX_NGRID * MAX_NGRID)
            by (nonlinear_arith)
            requires
                0 <= max_fold(ngrid as int) <= MAX_NGRID,
        ;
        assert(0 <= a * a + b * b + c * c <= 3 * MAX_NGRID * MAX_NGRID) by (nonlinear_arith)
            requires
                a <= MAX_NGRID,
                b <= MAX_NGRID,
                c <= MAX_NGRID,
        ;
    }
    round_sqrt_u64(a * a + b * b + c * c)
}

/// The bin that receives the power of cell `(i, j, k)`: `None` for the DC
/// mode, else its wavenumber magnitude in units of the fundamental mode,
/// rounded half up.
pub fn power_bin(ngrid: u64, i: u64, j: u64, k: u64) -> (r: Option<u64>)
    requires
        valid_ngrid(ngrid as int),
        i < ngrid,
        j < ngrid,
        k < ngrid,
    ensures
        r is None <==> power_of(ngrid as int, i as int, j as int, k as int) is None,
        r matches Some(b) ==> b < ngrid && power_of(ngrid as int, i as int, j as int, k as int)
            == Some(b as nat),
{
    let a = frequency(i, ngrid);
    let b = frequency(j, ngrid);
    let c = frequency(k, ngrid);
    proof {
        lemma_power_bound(ngrid as int, i as int, j as int, k as int);
        assert(3 * max_fold(ngrid as int) * max_fold(ngrid as int) <= 3 * MAX_NGRID * MAX_NGRID)
            by (nonlinear_arith)
            requires
                0 <= max_fold(ngrid as int) <= MAX_NGRID,
        ;
        let f = max_fold(ngrid as int);
        assert(a * a <= f * f && b * b <= f * f && c * c <= f * f && f * f <= MAX_NGRID * MAX_NGRID)
            by (nonlinear_arith)
            requires
                -f <= a <= f,
                -f <= b <= f,
                -f <= c <= f,
                0 <= f <= MAX_NGRID,
        ;
    }
    let g: i64 = a * a + b * b + c * c;
    if g == 0 {
        None
    } else {
        Some(round_sqrt_u64(g as u64))
    }
}

/// Flattened cell `c` of a grid of side `n` has all three axis indices in
/// `0..n`.
pub proof fn lemma_cell_in_range(n: int, c: int)
    requires
        0 < n,
        0 <= c < n * n * n,
    ensures
        0 <= cell_i(n, c) < n,
        0 <= cell_j(n, c) < n,
        0 <= cell_k(n, c) < n,
{
    assert(n * n * n == n * (n * n)) by (nonlinear_arith);
    assert(0 < n * n) by (nonlinear_arith)
        requires
            0 < n,
    ;
    lemma_multiply_divide_lt(c, n, n * n);
    lemma_multiply_divide_lt(c / n, n, n);
    lemma_mod_bound(c / n, n);
    lemma_mod_bound(c, n);
}

/// Counts, for each shell `m` in `0..ngrid`, the cells of the grid whose
/// folded grid distance rounds to `m`: the per-shell sample counts.
pub fn shell_weights(ngrid: u64) -> (w: Vec<u64>)
    requires
        valid_ngrid(ngrid as int),
    ensures
        w.len() == ngrid,
        forall|m: int|
            0 <= m < ngrid ==> #[trigger] w[m] == shell_count(
                ngrid as int,
                m as nat,
                (ngrid * ngrid * ngrid) as nat,
            ),
{
    let n = ngrid;
    assert(n * n <= MAX_NGRID * MAX_NGRID && n * n * n <= MAX_NGRID * MAX_NGRID * MAX_NGRID)
        by (nonlinear_arith)
        requires
            n <= MAX_NGRID,
    ;
    let total: u64 = n * n * n;
    let mut w: Vec<u64> = Vec::new();
    let mut m: u64 = 0;
    while m < n
        invariant
            m <= n,
            w.len() == m,
            forall|x: int| 0 <= x < m ==> #[trigger] w[x] == 0,
        decreases n - m,
    {
        w.push(0);
        m = m + 1;
    }
    let mut c: u64 = 0;
    while c < total
        invariant
            valid_ngrid(n as int),
            total == n * n * n,
            total <= MAX_NGRID * MAX_NGRID * MAX_NGRID,
            c <= total,
            w.len() == n,
            forall|x: int|
                0 <= x < n ==> #[trigger] w[x] == shell_count(n as int, x as nat, c as nat),
            forall|x: int| 0 <= x < n ==> #[trigger] w[x] <= c,
        decreases total - c,
    {
        proof {
            lemma_cell_in_range(n as int, c as int);
        }
        let i = c / n / n;
        let j = (c / n) % n;
        let k = c % n;
        let b = shell_bin(n, i, j, k);
        assert(b == cell_shell(n as int, c as int));
        w.set(b as usize, w[b as usize] + 1);
        assert forall|x: int| 0 <= x < n implies #[trigger] w[x] == shell_count(
            n as int,
            x as nat,
            (c + 1) as nat,
        ) && w[x] <= c + 1 by {
            assert(shell_count(n as int, x as nat, (c + 1) as nat) == shell_count(
                n as int,
                x as nat,
                c as nat,
            ) + if cell_shell(n as int, c as int) == x as nat {
                1nat
            } else {
                0nat
            });
        }
        c = c + 1;
    }
    w
}

/// The DC mode never receives power: cell `(0, 0, 0)` has no power bin,
/// and it is the only cell without one.
pub proof fn lemma_dc_excluded(n: int, i: int, j: int, k: int)
    requires
        valid_ngrid(n),
        0 <= i < n,
        0 <= j < n,
        0 <= k < n,
    ensures
        power_of(n, 0, 0, 0) is None,
        power_of(n, i, j, k) is None <==> (i == 0 && j == 0 && k == 0),
{
    assert(signed_frequency(0, n) == 0);
    assert(power_radius2(n, 0, 0, 0) == 0);
    let (a, b, c) = (signed_frequency(i, n), signed_frequency(j, n), signed_frequency(k, n));
    assert(a * a + b * b + c * c == 0 <==> (a == 0 && b == 0 && c == 0)) by (nonlinear_arith);
}

proof fn lemma_axis_square(n: int, x: int)
    requires
        0 < n,
        n % 2 == 0,
        0 <= x < n,
    ensures
        folded(x, n) * folded(x, n) == signed_frequency(x, n) * signed_frequency(x, n),
{
    let (a, b) = (folded(x, n), signed_frequency(x, n));
    assert(a == b || a == -b);
    assert(a * a == b * b) by (nonlinear_arith)
        requires
            a == b || a == -b,
    ;
}

proof fn lemma_round_sqrt_positive(r2: nat)
    requires
        r2 > 0,
    ensures
        round_sqrt(r2) > 0,
{
    crate::shell::lemma_round_sqrt(r2);
}

/// On a grid of even side, a cell other than the DC mode puts its power in
/// the very shell that counts it among its samples: the physical wavenumber
/// bin and the grid distance bin agree.
pub proof fn lemma_bins_agree(n: int, i: int, j: int, k: int)
    requires
        valid_ngrid(n),
        n % 2 == 0,
        0 <= i < n,
        0 <= j < n,
        0 <= k < n,
        !(i == 0 && j == 0 && k == 0),
    ensures
        power_of(n, i, j, k) == Some(shell_of(n, i, j, k)),
        shell_of(n, i, j, k) > 0,
{
    lemma_axis_square(n, i);
    lemma_axis_square(n, j);
    lemma_axis_square(n, k);
    assert(shell_radius2(n, i, j, k) == power_radius2(n, i, j, k));
    lemma_dc_excluded(n, i, j, k);
    lemma_round_sqrt_positive(power_radius2(n, i, j, k) as nat);
}

proof fn lemma_counts_agree(n: int, b: nat, upto: nat)
    requires
        valid_ngrid(n),
        n % 2 == 0,
        upto <= n * n * n,
    ensures
        b > 0 ==> power_count(n, b, upto) == shell_count(n, b, upto),
        power_count(n, 0, upto) == 0,
    decreases upto,
{
    if upto > 0 {
        let c = upto - 1;
        lemma_counts_agree(n, b, (upto - 1) as nat);
        lemma_cell_in_range(n, c);
        let (i, j, k) = (cell_i(n, c), cell_j(n, c), cell_k(n, c));
        if i == 0 && j == 0 && k == 0 {
            lemma_dc_excluded(n, i, j, k);
            assert(cell_shell(n, c) == 0) by {
                assert(shell_radius2(n, i, j, k) == 0);
                crate::shell::lemma_round_sqrt(0);
                assert(crate::shell::rounds_to_sqrt(0, 0));
            }
        } else {
            lemma_bins_agree(n, i, j, k);
        }
    }
}

/// On a grid of even side, each shell but the DC one receives power from
/// exactly as many cells as it counts samples, and the DC shell from none.
/// So a flat spectrum, such as that of a unit impulse, gives every non-DC
/// shell the same power per sample.
pub proof fn lemma_flat_spectrum_shells(n: int, b: nat)
    requires
        valid_ngrid(n),
        n % 2 == 0,
    ensures
        b > 0 ==> power_count(n, b, (n * n * n) as nat) == shell_count(n, b, (n * n * n) as nat),
        power_count(n, 0, (n * n * n) as nat) == 0,
{
    assert(0 <= n * n * n) by (nonlinear_arith)
        requires
            0 < n,
    ;
    lemma_counts_agree(n, b, (n * n * n) as nat);
}

proof fn lemma_count_positive(n: int, m: nat, c: nat, upto: nat)
    requires
        c < upto,
        cell_shell(n, c as int) == m,
    ensures
        shell_count(n, m, upto) >= 1,
    decreases upto,
{
    if c < upto - 1 {
        lemma_count_positive(n, m, c, (upto - 1) as nat);
    }
}

/// No shell below `ngrid / 2` is empty, so normalising those shells by
/// their sample counts never divides by zero.
pub proof fn lemma_low_shells_populated(n: int, m: nat)
    requires
        valid_ngrid(n),
        m < n / 2,
    ensures
        shell_count(n, m, (n * n * n) as nat) >= 1,
{
    assert(m < n * n && n * n <= n * n * n) by (nonlinear_arith)
        requires
            0 < n,
            m < n,
    ;
    vstd::arithmetic::div_mod::lemma_small_mod(m, n as nat);
    assert(m as int / n == 0) by (nonlinear_arith)
        requires
            0 <= m < n,
    ;
    assert(cell_i(n, m as int) == 0 && cell_j(n, m as int) == 0 && cell_k(n, m as int) == m);
    assert(folded(0, n) == 0 && folded(m as int, n) == m);
    assert(shell_radius2(n, 0, 0, m as int) == m * m);
    crate::shell::lemma_round_sqrt((m * m) as nat);
    assert(crate::shell::rounds_to_sqrt((m * m) as int, m as int)) by (nonlinear_arith)
        requires
            0 <= m,
    ;
    lemma_count_positive(n, m, m, (n * n * n) as nat);
}

/// Sum of the counts of shells `0..bins` over the flattened cells `0..upto`.
pub open spec fn shells_total(n: int, bins: nat, upto: nat) -> nat
    decreases bins,
{
    if bins == 0 {
        0
    } else {
        shells_total(n, (bins - 1) as nat, upto) + shell_count(n, (bins - 1) as nat, upto)
    }
}

proof fn lemma_shells_total_step(n: int, bins: nat, upto: nat)
    ensures
        shells_total(n, bins, upto + 1) == shells_total(n, bins, upto) + if cell_shell(
            n,
            upto as int,
        ) < bins {
            1nat
        } else {
            0nat
        },
    decreases bins,
{
    if bins > 0 {
        lemma_shells_total_step(n, (bins - 1) as nat, upto);
        assert(shell_count(n, (bins - 1) as nat, upto + 1) == shell_count(
            n,
            (bins - 1) as nat,
            upto,
        ) + if cell_shell(n, upto as int) == bins - 1 {
            1nat
        } else {
            0nat
        });
    }
}

proof fn lemma_shells_total_upto(n: int, upto: nat)
    requires
        valid_ngrid(n),
        upto <= n * n * n,
    ensures
        shells_total(n, n as nat, upto) == upto,
    decreases upto,
{
    if upto == 0 {
        lemma_shells_total_zero(n, n as nat);
    } else {
        let c = (upto - 1) as nat;
        lemma_shells_total_upto(n, c);
        lemma_shells_total_step(n, n as nat, c);
        lemma_cell_in_range(n, c as int);
        lemma_shell_bound(n, cell_i(n, c as int), cell_j(n, c as int), cell_k(n, c as int));
    }
}

proof fn lemma_shells_total_zero(n: int, bins: nat)
    ensures
        shells_total(n, bins, 0) == 0,
    decreases bins,
{
    if bins > 0 {
        lemma_shells_total_zero(n, (bins - 1) as nat);
    }
}

/// Every cell lies in exactly one of the shells `0..ngrid`: their sample
/// counts add up to `ngrid^3`.
pub proof fn lemma_weights_total(n: int)
    requires
        valid_ngrid(n),
    ensures
        shells_total(n, n as nat, (n * n * n) as nat) == n * n * n,
{
    assert(0 <= n * n * n) by (nonlinear_arith)
        requires
            0 < n,
    ;
    lemma_shells_total_upto(n, (n * n * n) as nat);
}

} // verus!
