//! Integer core of a cross power spectrum estimator for two cubic grids:
//! frequency folding, the wavenumber table in units of the fundamental mode,
//! radial shell assignment, shell sample counts and mass-assignment
//! correction exponents. Floating-point arithmetic (the spectra themselves)
//! stays with the caller; everything that decides where a grid cell's power
//! goes is proved here.

pub mod wavenumber;
pub mod shell;
pub mod binning;
pub mod correction;
pub mod grid;
pub mod layout;
