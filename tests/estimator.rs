use crosscorr::correction::CorrectionMode;
use crosscorr::grid::{grid_extent, grid_slot, GridError, GridSlot, SampleWidth};
use crosscorr::layout::{LayoutError, ShellLayout};

/// Accumulates `Re(a conj b + conj a b) / 2` of each non-DC cell into its
/// power bin and normalises the first `ngrid / 2` shells.
fn spectrum(layout: &ShellLayout, re1: &[f64], im1: &[f64], re2: &[f64], im2: &[f64], boxsize: f64) -> (Vec<f64>, Vec<f64>) {
    let n = layout.ngrid();
    let mut pow_sum = vec![0.0f64; n as usize];
    for i in 0..n {
        for j in 0..n {
            for k in 0..n {
                let idx = (k + n * (j + n * i)) as usize;
                if let Some(b) = layout.power_bin(i, j, k) {
                    let contrib = 2.0 * (re1[idx] * re2[idx] + im1[idx] * im2[idx]);
                    pow_sum[b as usize] += contrib / 2.0;
                }
            }
        }
    }
    let kf = 2.0 * std::f64::consts::PI / boxsize;
    let mut pow_spec = Vec::new();
    let mut deltasqk = Vec::new();
    for m in 0..layout.nhalf() {
        let p = pow_sum[m as usize] * boxsize.powi(3) / (n as f64).powi(6) / layout.weight(m) as f64;
        let w = kf * layout.frequency(m) as f64;
        pow_spec.push(p);
        deltasqk.push(w.powf(3.0) * p / (2.0 * std::f64::consts::PI * std::f64::consts::PI));
    }
    (pow_spec, deltasqk)
}

#[test]
fn layout_rejects_unsupported_sides() {
    for n in [0u64, 1, 2, 3, 5, 7, 9] {
        assert_eq!(ShellLayout::new(n).err(), Some(LayoutError::UnsupportedSide));
    }
}

#[test]
fn layout_tables() {
    let l = ShellLayout::new(8).unwrap();
    assert_eq!(l.ngrid(), 8);
    assert_eq!(l.nhalf(), 4);
    assert_eq!(l.frequencies(), vec![0, 1, 2, 3, 4, -3, -2, -1]);
    assert_eq!(l.weights(), vec![1, 18, 62, 98, 171, 128, 33, 1]);
    assert_eq!(l.weight(3), 98);
    assert_eq!(l.frequency(6), -2);
    assert_eq!(l.shell_bin(7, 0, 0), 1);
    assert_eq!(l.power_bin(0, 0, 0), None);
}

#[test]
fn low_shells_are_never_empty() {
    for n in [4u64, 6, 8, 10, 11, 16] {
        let l = ShellLayout::new(n).unwrap();
        for m in 0..l.nhalf() {
            assert!(l.weight(m) > 0);
        }
    }
}

#[test]
fn zero_grids_give_zero_spectrum() {
    let l = ShellLayout::new(4).unwrap();
    let zeros = vec![0.0f64; 64];
    let (pow_spec, deltasqk) = spectrum(&l, &zeros, &zeros, &zeros, &zeros, 100.0);
    assert_eq!(pow_spec, vec![0.0, 0.0]);
    assert_eq!(deltasqk, vec![0.0, 0.0]);
    assert_eq!(l.weights().iter().sum::<u64>(), 64);
}

#[test]
fn impulse_gives_flat_spectrum() {
    let n = 8usize;
    let l = ShellLayout::new(n as u64).unwrap();
    let n3 = n * n * n;
    let mut grid = vec![0.0f64; n3];
    grid[0] = 1.0;
    // Unnormalised forward DFT of the impulse, written out directly.
    let mut re = vec![0.0f64; n3];
    let mut im = vec![0.0f64; n3];
    for i in 0..n {
        for j in 0..n {
            for k in 0..n {
                let mut sr = 0.0;
                let mut si = 0.0;
                for x in 0..n3 {
                    if grid[x] != 0.0 {
                        let (a, b, c) = (x / (n * n), (x / n) % n, x % n);
                        let phase = -2.0 * std::f64::consts::PI * ((i * a + j * b + k * c) as f64) / n as f64;
                        sr += grid[x] * phase.cos();
                        si += grid[x] * phase.sin();
                    }
                }
                re[k + n * (j + n * i)] = sr;
                im[k + n * (j + n * i)] = si;
            }
        }
    }
    let boxsize = 50.0;
    let (pow_spec, _) = spectrum(&l, &re, &im, &re, &im, boxsize);
    let expected = boxsize.powi(3) / (n as f64).powi(6);
    assert_eq!(pow_spec[0], 0.0);
    for m in 1..pow_spec.len() {
        assert!((pow_spec[m] - expected).abs() < 1e-12 * expected, "shell {}", m);
    }
}

#[test]
fn correction_exponents() {
    assert_eq!(CorrectionMode::Uncorrected.window_exponent(), 0);
    assert_eq!(CorrectionMode::NgpSingle.window_exponent(), 1);
    assert_eq!(CorrectionMode::CicSingle.window_exponent(), 2);
    assert_eq!(CorrectionMode::NgpBoth.window_exponent(), 2);
    assert_eq!(CorrectionMode::CicBoth.window_exponent(), 4);
    assert!(!CorrectionMode::Uncorrected.is_corrected());
    assert!(CorrectionMode::CicBoth.is_corrected());
}

#[test]
fn uncorrected_divides_by_one() {
    let window: f64 = 0.73;
    let contrib: f64 = 2.5;
    assert_eq!(contrib / window.powi(CorrectionMode::Uncorrected.window_exponent() as i32), contrib);
}

#[test]
fn grid_slots() {
    assert_eq!(grid_slot(1), Ok(GridSlot::First));
    assert_eq!(grid_slot(2), Ok(GridSlot::Second));
    assert_eq!(grid_slot(0), Err(GridError::NoSuchGrid));
    assert_eq!(grid_slot(3), Err(GridError::NoSuchGrid));
}

#[test]
fn grid_extents() {
    assert_eq!(SampleWidth::Single.bytes(), 4);
    assert_eq!(SampleWidth::Double.bytes(), 8);
    assert_eq!(grid_extent(4, SampleWidth::Single, 256), Ok(256));
    assert_eq!(grid_extent(4, SampleWidth::Single, 300), Ok(256));
    assert_eq!(grid_extent(4, SampleWidth::Double, 256), Err(GridError::Truncated));
    assert_eq!(grid_extent(4, SampleWidth::Double, 512), Ok(512));
    assert_eq!(grid_extent(0, SampleWidth::Single, 0), Err(GridError::BadSide));
}
