use crosscorr::binning::{check_ngrid, flat_index, power_bin, shell_bin, shell_weights};
use crosscorr::shell::round_sqrt_u64;
use crosscorr::wavenumber::{fold_index, frequency, frequency_indices};

#[test]
fn frequency_table_of_eight() {
    assert_eq!(frequency_indices(8), vec![0, 1, 2, 3, 4, -3, -2, -1]);
    assert_eq!(frequency_indices(4), vec![0, 1, 2, -1]);
}

#[test]
fn frequency_table_length_and_origin() {
    for n in [2u64, 4, 6, 8, 16] {
        let w = frequency_indices(n);
        assert_eq!(w.len() as u64, n);
        assert_eq!(w[0], 0);
        for i in 0..n {
            assert_eq!(w[i as usize].unsigned_abs(), fold_index(i, n));
        }
    }
}

#[test]
fn nyquist_frequency_is_positive() {
    assert_eq!(frequency(4, 8), 4);
    assert_eq!(frequency(5, 8), -3);
}

#[test]
fn fold_values_and_idempotence() {
    let folds: Vec<u64> = (0..8).map(|i| fold_index(i, 8)).collect();
    assert_eq!(folds, vec![0, 1, 2, 3, 4, 3, 2, 1]);
    for n in [2u64, 4, 8, 10] {
        for i in 0..n {
            let f = fold_index(i, n);
            assert!(f <= n / 2);
            assert_eq!(fold_index(f, n), f);
        }
    }
}

#[test]
fn fold_of_odd_side_leaves_half_range() {
    assert_eq!(fold_index(1, 3), 2);
    assert_eq!(fold_index(2, 3), 1);
}

#[test]
fn round_sqrt_rounds_half_up() {
    let cases = [(0u64, 0u64), (1, 1), (2, 1), (3, 2), (4, 2), (6, 2), (7, 3), (12, 3), (13, 4), (48, 7)];
    for (r2, m) in cases {
        assert_eq!(round_sqrt_u64(r2), m, "r2 = {}", r2);
    }
    assert_eq!(round_sqrt_u64(1u64 << 40), 1u64 << 20);
    assert_eq!(round_sqrt_u64((1u64 << 62) - 1), 1u64 << 31);
}

#[test]
fn accepted_sides() {
    for n in [4u64, 6, 8, 10, 11, 12, 64, 1024] {
        assert!(check_ngrid(n), "n = {}", n);
    }
    for n in [0u64, 1, 2, 3, 5, 7, 9, 1048577] {
        assert!(!check_ngrid(n), "n = {}", n);
    }
}

#[test]
fn flat_index_is_row_major() {
    assert_eq!(flat_index(4, 0, 0, 0), 0);
    assert_eq!(flat_index(4, 0, 0, 3), 3);
    assert_eq!(flat_index(4, 0, 1, 0), 4);
    assert_eq!(flat_index(4, 1, 0, 0), 16);
    assert_eq!(flat_index(4, 3, 3, 3), 63);
}

#[test]
fn shell_bins_of_small_cells() {
    assert_eq!(shell_bin(8, 0, 0, 0), 0);
    assert_eq!(shell_bin(8, 1, 1, 0), 1);
    assert_eq!(shell_bin(8, 7, 7, 7), 2);
    assert_eq!(shell_bin(8, 4, 4, 4), 7);
    assert_eq!(power_bin(8, 4, 4, 4), Some(7));
    assert_eq!(power_bin(8, 1, 7, 0), Some(1));
}

#[test]
fn dc_mode_has_no_power_bin() {
    for n in [4u64, 6, 8] {
        assert_eq!(power_bin(n, 0, 0, 0), None);
        assert_eq!(shell_bin(n, 0, 0, 0), 0);
    }
    assert_eq!(power_bin(4, 0, 0, 1), Some(1));
}

#[test]
fn shell_weights_of_four() {
    let w = shell_weights(4);
    assert_eq!(w, vec![1, 18, 35, 10]);
    assert_eq!(w.iter().sum::<u64>(), 64);
}

#[test]
fn shell_weights_of_six_and_eight() {
    assert_eq!(shell_weights(6), vec![1, 18, 62, 71, 57, 7]);
    let w = shell_weights(8);
    assert_eq!(w, vec![1, 18, 62, 98, 171, 128, 33, 1]);
    assert_eq!(w.iter().sum::<u64>(), 512);
}

#[test]
fn power_bins_match_shells_off_dc() {
    let n = 8u64;
    let mut counts = vec![0u64; n as usize];
    for i in 0..n {
        for j in 0..n {
            for k in 0..n {
                match power_bin(n, i, j, k) {
                    Some(b) => {
                        assert_eq!(b, shell_bin(n, i, j, k));
                        counts[b as usize] += 1;
                    }
                    None => assert_eq!((i, j, k), (0, 0, 0)),
                }
            }
        }
    }
    assert_eq!(counts, vec![0, 18, 62, 98, 171, 128, 33, 1]);
}
