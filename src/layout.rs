use vstd::prelude::*;

use crate::binning::{power_bin, power_of, shell_bin, shell_count, shell_of, shell_weights, valid_ngrid, check_ngrid};
use crate::wavenumber::{frequency_indices, frequency_table};

verus! {

/// Why a grid side cannot be binned.
#[derive(Clone, Copy, Debug, PartialEq, Eq, Structural)]
pub enum LayoutError {
    /// Zero, too large, or so small that a corner cell's shell index
    /// reaches past the last bin.
    UnsupportedSide,
}

/// The per-run tables of the estimator for a grid of side `ngrid`: the
/// wavenumber table in units of the fundamental mode and the sample count
/// of each radial shell.
pub struct ShellLayout {
    ngrid: u64,
    freqs: Vec<i64>,
    weights: Vec<u64>,
}

impl ShellLayout {
    /// The grid side.
    pub closed spec fn side(&self) -> int {
        self.ngrid as int
    }

    /// The tables match the grid side, and the side is one the estimator
    /// accepts.
    pub closed spec fn wf(&self) -> bool {
        &&& valid_ngrid(self.ngrid as int)
        &&& self.freqs@ == frequency_table(self.ngrid as int)
        &&& self.weights.len() == self.ngrid
        &&& forall|m: int|
            0 <= m < self.ngrid ==> #[trigger] self.weights[m] == shell_count(
                self.ngrid as int,
                m as nat,
                (self.ngrid * self.ngrid * self.ngrid) as nat,
            )
    }

    /// Builds the tables for a grid of side `ngrid`, or tells why that side
    /// cannot be binned.
    pub fn new(ngrid: u64) -> (r: Result<ShellLayout, LayoutError>)
        ensures
            r is Ok <==> valid_ngrid(ngrid as int),
            r matches Ok(l) ==> l.wf() && l.side() == ngrid,
            r matches Err(e) ==> e == LayoutError::UnsupportedSide,
    {
        if !check_ngrid(ngrid) {
            return Err(LayoutError::UnsupportedSide);
        }
        let freqs = frequency_indices(ngrid);
        let weights = shell_weights(ngrid);
        Ok(ShellLayout { ngrid, freqs, weights })
    }

    /// The grid side.
    pub fn ngrid(&self) -> (r: u64)
        ensures
            r == self.side(),
    {
        self.ngrid
    }

    /// How many shells the output reports: `ngrid / 2`.
    pub fn nhalf(&self) -> (r: u64)
        ensures
            r == self.side() / 2,
    {
        self.ngrid / 2
    }

    /// Entry `i` of the wavenumber table, in units of the fundamental mode.
    pub fn frequency(&self, i: u64) -> (r: i64)
        requires
            self.wf(),
            i < self.side(),
        ensures
            r == frequency_table(self.side())[i as int],
    {
        self.freqs[i as usize]
    }

    /// How many cells shell `m` counts.
    pub fn weight(&self, m: u64) -> (r: u64)
        requires
            self.wf(),
            m < self.side(),
        ensures
            r == shell_count(self.side(), m as nat, (self.side() * self.side() * self.side()) as nat),
    {
        self.weights[m as usize]
    }

    /// The shell that counts cell `(i, j, k)`.
    pub fn shell_bin(&self, i: u64, j: u64, k: u64) -> (r: u64)
        requires
            self.wf(),
            i < self.side(),
            j < self.side(),
            k < self.side(),
        ensures
            r == shell_of(self.side(), i as int, j as int, k as int),
            r < self.side(),
    {
        shell_bin(self.ngrid, i, j, k)
    }

    /// The bin that receives the power of cell `(i, j, k)`, `None` for the
    /// DC mode.
    pub fn power_bin(&self, i: u64, j: u64, k: u64) -> (r: Option<u64>)
        requires
            self.wf(),
            i < self.side(),
            j < self.side(),
            k < self.side(),
        ensures
            r is None <==> power_of(self.side(), i as int, j as int, k as int) is None,
            r matches Some(b) ==> b < self.side() && power_of(
                self.side(),
                i as int,
                j as int,
                k as int,
            ) == Some(b as nat),
    {
        power_bin(self.ngrid, i, j, k)
    }

    /// The wavenumber table, one entry per axis index.
    pub fn frequencies(&self) -> (r: Vec<i64>)
        requires
            self.wf(),
        ensures
            r@ == frequency_table(self.side()),
    {
        self.freqs.clone()
    }

    /// The sample count of every shell `0..ngrid`.
    pub fn weights(&self) -> (r: Vec<u64>)
        requires
            self.wf(),
        ensures
            r.len() == self.side(),
            forall|m: int|
                0 <= m < self.side() ==> #[trigger] r[m] == shell_count(
                    self.side(),
                    m as nat,
                    (self.side() * self.side() * self.side()) as nat,
                ),
    {
        self.weights.clone()
    }
}

} // verus!
