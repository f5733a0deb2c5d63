use vstd::prelude::*;

verus! {

/// Which mass-assignment smoothing to undo, chosen at run time.
#[derive(Clone, Copy, Debug, PartialEq, Eq, Structural)]
pub enum CorrectionMode {
    /// Power is accumulated as it is.
    Uncorrected,
    /// Nearest-grid-point assignment, undone on one field.
    NgpSingle,
    /// Cloud-in-cell assignment, undone on one field.
    CicSingle,
    /// Nearest-grid-point assignment, undone on both fields.
    NgpBoth,
    /// Cloud-in-cell assignment, undone on both fields.
    CicBoth,
}

/// Power of the per-axis sinc window that one field's assignment kernel
/// contributes: one for nearest grid point, two for cloud in cell.
pub open spec fn kernel_power(mode: CorrectionMode) -> nat {
    match mode {
        CorrectionMode::Uncorrected => 0,
        CorrectionMode::NgpSingle | CorrectionMode::NgpBoth => 1,
        CorrectionMode::CicSingle | CorrectionMode::CicBoth => 2,
    }
}

/// How many of the two fields are corrected.
pub open spec fn corrected_fields(mode: CorrectionMode) -> nat {
    match mode {
        CorrectionMode::Uncorrected => 0,
        CorrectionMode::NgpSingle | CorrectionMode::CicSingle => 1,
        CorrectionMode::NgpBoth | CorrectionMode::CicBoth => 2,
    }
}

impl CorrectionMode {
    /// The power `p` of the window `W` that a contribution is divided by:
    /// `W^p`, with `W` the product of the three per-axis sinc factors.
    /// Uncorrected power is divided by `W^0`, that is by one.
    pub fn window_exponent(&self) -> (p: u32)
        ensures
            p == kernel_power(*self) * corrected_fields(*self),
            *self == CorrectionMode::Uncorrected ==> p == 0,
            *self == CorrectionMode::NgpSingle ==> p == 1,
            *self == CorrectionMode::CicSingle ==> p == 2,
            *self == CorrectionMode::NgpBoth ==> p == 2,
            *self == CorrectionMode::CicBoth ==> p == 4,
    {
        match self {
            CorrectionMode::Uncorrected => 0,
            CorrectionMode::NgpSingle => 1,
            CorrectionMode::CicSingle => 2,
            CorrectionMode::NgpBoth => 2,
            CorrectionMode::CicBoth => 4,
        }
    }

    /// Whether contributions are divided by a window at all.
    pub fn is_corrected(&self) -> (r: bool)
        ensures
            r == (*self != CorrectionMode::Uncorrected),
            !r ==> kernel_power(*self) * corrected_fields(*self) == 0,
    {
        !matches!(self, CorrectionMode::Uncorrected)
    }
}

} // verus!
