use vstd::prelude::*;

use crate::wavenumber::MAX_NGRID;

verus! {

/// Width of one stored sample in a grid file.
#[derive(Clone, Copy, Debug, PartialEq, Eq, Structural)]
pub enum SampleWidth {
    /// 4-byte IEEE floats.
    Single,
    /// 8-byte IEEE floats.
    Double,
}

/// Which of the two input grids to load.
#[derive(Clone, Copy, Debug, PartialEq, Eq, Structural)]
pub enum GridSlot {
    First,
    Second,
}

/// Why a grid cannot be loaded.
#[derive(Clone, Copy, Debug, PartialEq, Eq, Structural)]
pub enum GridError {
    /// Only grids 1 and 2 exist.
    NoSuchGrid,
    /// The grid side is not one the estimator accepts.
    BadSide,
    /// The file ends before `ngrid^3` samples were read.
    Truncated,
}

/// Bytes per sample of a width.
pub open spec fn width_bytes(width: SampleWidth) -> nat {
    match width {
        SampleWidth::Single => 4,
        SampleWidth::Double => 8,
    }
}

/// Bytes of a grid of side `n` stored at a width.
pub open spec fn grid_bytes(n: nat, width: SampleWidth) -> nat {
    n * n * n * width_bytes(width)
}

impl SampleWidth {
    /// Bytes per sample.
    pub fn bytes(&self) -> (r: u64)
        ensures
            r == width_bytes(*self),
    {
        match self {
            SampleWidth::Single => 4,
            SampleWidth::Double => 8,
        }
    }
}

/// Selects grid `num`: 1 is the first input, 2 the second, anything else is
/// an error.
pub fn grid_slot(num: u64) -> (r: Result<GridSlot, GridError>)
    ensures
        num == 1 ==> r == Ok::<GridSlot, GridError>(GridSlot::First),
        num == 2 ==> r == Ok::<GridSlot, GridError>(GridSlot::Second),
        num != 1 && num != 2 ==> r == Err::<GridSlot, GridError>(GridError::NoSuchGrid),
{
    if num == 1 {
        Ok(GridSlot::First)
    } else if num == 2 {
        Ok(GridSlot::Second)
    } else {
        Err(GridError::NoSuchGrid)
    }
}

/// Checks that a file of `len` bytes holds a grid of side `ngrid` at the
/// given width, and returns how many of its bytes the grid takes. Bytes past
/// the last sample are ignored.
pub fn grid_extent(ngrid: u64, width: SampleWidth, len: u64) -> (r: Result<u64, GridError>)
    ensures
        (ngrid == 0 || ngrid > MAX_NGRID) ==> r == Err::<u64, GridError>(GridError::BadSide),
        0 < ngrid <= MAX_NGRID && len < grid_bytes(ngrid as nat, width) ==> r == Err::<
            u64,
            GridError,
        >(GridError::Truncated),
        0 < ngrid <= MAX_NGRID && len >= grid_bytes(ngrid as nat, width) ==> r == Ok::<
            u64,
            GridError,
        >(grid_bytes(ngrid as nat, width) as u64),
{
    if ngrid == 0 || ngrid > MAX_NGRID {
        return Err(GridError::BadSide);
    }
    let n = ngrid;
    let b = width.bytes();
    assert(n * n * n * b <= MAX_NGRID * MAX_NGRID * MAX_NGRID * 8 && n * n <= MAX_NGRID
        * MAX_NGRID && n * n * n <= MAX_NGRID * MAX_NGRID * MAX_NGRID) by (nonlinear_arith)
        requires
            n <= MAX_NGRID,
            b <= 8,
    ;
    let need: u64 = n * n * n * b;
    if len < need {
        Err(GridError::Truncated)
    } else {
        Ok(need)
    }
}

} // verus!
