//! Stacking and binning index maps, held against the accumulation they
//! drive: placement with clipping, and flux-conserving block binning.

use eyepiece::{bin_sources, shift_and_add_map};

/// The reference binning of a flat square buffer: trim the side margins,
/// transpose, and block-sum m-by-m cells.
fn binning_oracle(intensity_sampling: usize, m: usize, buffer: &[f64]) -> Vec<f64> {
    let n = intensity_sampling / m;
    let n_buffer = n * m;
    let h = (intensity_sampling - n_buffer) / 2;
    let mut image = vec![0f64; n * n];
    for i in 0..n {
        for j in 0..n {
            let mut bin = 0f64;
            for ib in 0..m {
                for jb in 0..m {
                    let row = j * m + jb + h;
                    let col = i * m + ib + h;
                    bin += buffer[row * intensity_sampling + col];
                }
            }
            image[i * n + j] = bin;
        }
    }
    image
}

fn ramp(len: usize) -> Vec<f64> {
    (0..len).map(|k| 1.0 + (k as f64) * 0.25).collect()
}

fn bin_with_map(sampling: usize, m: usize, buffer: &[f64]) -> Vec<f64> {
    let n = sampling / m;
    let mut image = vec![0f64; n * n];
    for i in 0..n {
        for j in 0..n {
            let sources = bin_sources(sampling, m, i, j);
            image[i * n + j] = sources.iter().map(|&k| buffer[k]).sum();
        }
    }
    image
}

#[test]
fn binning_matches_reference() {
    for &(sampling, m) in &[(12usize, 3usize), (12, 4), (13, 3), (21, 2), (10, 10)] {
        let buffer = ramp(sampling * sampling);
        assert_eq!(
            bin_with_map(sampling, m, &buffer),
            binning_oracle(sampling, m, &buffer),
            "sampling {sampling}, bin {m}"
        );
    }
}

#[test]
fn binning_conserves_energy() {
    // the bin size divides the buffer side: nothing is trimmed and the
    // binned image carries exactly the buffer total
    for &(sampling, m) in &[(12usize, 3usize), (16, 4), (21, 3), (20, 2)] {
        let buffer = ramp(sampling * sampling);
        let total: f64 = buffer.iter().sum();
        let binned = bin_with_map(sampling, m, &buffer);
        let binned_total: f64 = binned.iter().sum();
        assert!(
            (total - binned_total).abs() < 1e-9 * total,
            "sampling {sampling}, bin {m}: {total} != {binned_total}"
        );
    }
}

#[test]
fn binning_draws_each_cell_once() {
    let sampling = 15usize;
    let m = 5usize;
    let n = sampling / m;
    let mut hits = vec![0usize; sampling * sampling];
    for i in 0..n {
        for j in 0..n {
            for &k in bin_sources(sampling, m, i, j).iter() {
                hits[k] += 1;
            }
        }
    }
    assert!(hits.iter().all(|&h| h == 1));
}

#[test]
fn stacking_without_offset_is_identity() {
    let n = 5usize;
    let map = shift_and_add_map(n, 0, 0);
    assert_eq!(map.len(), n * n);
    for (k, dest) in map.iter().enumerate() {
        assert_eq!(*dest, Some(k));
    }
}

#[test]
fn stacking_clips_at_the_buffer_edge() {
    let n = 4usize;
    let map = shift_and_add_map(n, 2, -1);
    let mut buffer = vec![0f64; n * n];
    let tile: Vec<f64> = (0..n * n).map(|k| (k + 1) as f64).collect();
    for (k, dest) in map.iter().enumerate() {
        let i = k / n;
        let j = k % n;
        let expected = if i + 2 < n && j >= 1 {
            Some((i + 2) * n + j - 1)
        } else {
            None
        };
        assert_eq!(*dest, expected, "tile cell ({i},{j})");
        if let Some(kk) = dest {
            buffer[*kk] += tile[k];
        }
    }
    // the clipped accumulation carries over exactly the in-bounds tile cells
    let expected_total: f64 = (0..n * n)
        .filter(|k| k / n + 2 < n && k % n >= 1)
        .map(|k| (k + 1) as f64)
        .sum();
    assert_eq!(buffer.iter().sum::<f64>(), expected_total);
}

#[test]
fn stacking_far_offset_leaves_nothing() {
    let n = 3usize;
    let map = shift_and_add_map(n, 10, 0);
    assert!(map.iter().all(|d| d.is_none()));
}
