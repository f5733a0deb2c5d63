use vstd::math::abs;
use vstd::prelude::*;

verus! {

/// Largest grid side accepted: keeps `ngrid^3` cell indices well inside `u64`.
pub const MAX_NGRID: u64 = 1048576;

/// Index `i` on an axis of side `n`, folded onto its unaliased magnitude.
/// Indices from `n / 2` on fold to `n - i`; `n / 2` folds to `n - n / 2`.
pub open spec fn folded(i: int, n: int) -> int {
    if i >= n / 2 {
        n - i
    } else {
        i
    }
}

/// The FFT frequency of index `i` on an axis of side `n`, in units of the
/// fundamental mode: `0..=n/2` map to themselves, the rest to `i - n`.
pub open spec fn signed_frequency(i: int, n: int) -> int {
    if i <= n / 2 {
        i
    } else {
        i - n
    }
}

/// The wavenumber table of a grid of side `n`, each entry in units of
/// `kf = 2 pi / boxsize`.
pub open spec fn frequency_table(n: int) -> Seq<i64> {
    Seq::new(n as nat, |i: int| signed_frequency(i, n) as i64)
}

/// Folds index `i` of an axis of side `ngrid` onto its unaliased magnitude.
pub fn fold_index(i: u64, ngrid: u64) -> (r: u64)
    requires
        i < ngrid,
    ensures
        r == folded(i as int, ngrid as int),
{
    if i >= ngrid / 2 {
        ngrid - i
    } else {
        i
    }
}

/// The signed frequency of index `i` on an axis of side `ngrid`.
pub fn frequency(i: u64, ngrid: u64) -> (r: i64)
    requires
        i < ngrid,
        ngrid <= MAX_NGRID,
    ensures
        r == signed_frequency(i as int, ngrid as int),
{
    if i <= ngrid / 2 {
        i as i64
    } else {
        (i as i64) - (ngrid as i64)
    }
}

/// Builds the wavenumber table of a grid of side `ngrid`, in units of the
/// fundamental mode `kf = 2 pi / boxsize`: the physical table is `kf` times
/// each entry.
pub fn frequency_indices(ngrid: u64) -> (w: Vec<i64>)
    requires
        ngrid <= MAX_NGRID,
    ensures
        w@ == frequency_table(ngrid as int),
{
    let mut w: Vec<i64> = Vec::new();
    let mut i: u64 = 0;
    while i < ngrid
        invariant
            i <= ngrid,
            ngrid <= MAX_NGRID,
            w@ =~= Seq::new(i as nat, |x: int| signed_frequency(x, ngrid as int) as i64),
        decreases ngrid - i,
    {
        w.push(frequency(i, ngrid));
        i = i + 1;
    }
    assert(w@ =~= frequency_table(ngrid as int));
    w
}

/// On a grid of even side, the wavenumber table has one entry per index,
/// starts at zero, and each entry's magnitude is the folded index, so that
/// ordering indices by their fold orders the table's magnitudes the same way.
pub proof fn lemma_frequency_table(ngrid: int)
    requires
        0 < ngrid <= MAX_NGRID,
        ngrid % 2 == 0,
    ensures
        frequency_table(ngrid).len() == ngrid,
        frequency_table(ngrid)[0] == 0,
        forall|i: int|
            0 <= i < ngrid ==> abs(#[trigger] frequency_table(ngrid)[i] as int) == folded(i, ngrid),
        forall|i: int, j: int|
            0 <= i < ngrid && 0 <= j < ngrid && folded(i, ngrid) <= folded(j, ngrid) ==> abs(
                #[trigger] frequency_table(ngrid)[i] as int,
            ) <= abs(#[trigger] frequency_table(ngrid)[j] as int),
{
}

/// Folding is idempotent on a grid of even side, and a folded index lies in
/// `0..=ngrid / 2`.
pub proof fn lemma_fold_idempotent(i: int, ngrid: int)
    requires
        0 < ngrid,
        ngrid % 2 == 0,
        0 <= i < ngrid,
    ensures
        0 <= folded(i, ngrid) <= ngrid / 2,
        folded(folded(i, ngrid), ngrid) == folded(i, ngrid),
{
}

} // verus!
