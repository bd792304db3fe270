//! The zero-padded DFT grid engine, driven with real complex samples and
//! the spectral passes of rustfft.

use eyepiece::ZpDft;
use num_complex::Complex;
use rustfft::{Fft, FftPlanner};
use std::sync::Arc;

type Cpx = Complex<f64>;

const ZERO: Cpx = Complex::new(0f64, 0f64);

/// Storage index that cell (i, j) of a centered n-sided input occupies in a
/// len-sided grid.
fn embed_index(i: usize, j: usize, n: usize, len: usize) -> usize {
    let wrap = |k: usize| if k < n / 2 { k + len - n / 2 } else { k - n / 2 };
    wrap(i) * len + wrap(j)
}

/// Runs the 1D transform along each row of the grid.
fn pass_rows(grid: &mut ZpDft<Cpx>, fft: &Arc<dyn Fft<f64>>) {
    let len = grid.len();
    let mut buffer = grid.buffer();
    buffer.chunks_mut(len).for_each(|row| fft.process(row));
    grid.zero_padding(buffer, len);
}

/// The 2D transform: a 1D pass along rows, a transpose, a second pass, and
/// for the forward direction a division of every sample by the grid side.
fn process(grid: &mut ZpDft<Cpx>, forward: bool) {
    let len = grid.len();
    let mut planner = FftPlanner::new();
    let fft = if forward {
        planner.plan_fft_forward(len)
    } else {
        planner.plan_fft_inverse(len)
    };
    pass_rows(grid, &fft);
    grid.transpose();
    pass_rows(grid, &fft);
    if forward {
        let mut buffer = grid.buffer();
        buffer.iter_mut().for_each(|c| *c /= len as f64);
        grid.zero_padding(buffer, len);
    }
}

#[test]
fn zero_padding() {
    let n = 8;
    let n_fft = 16;
    let mut zp_dft: ZpDft<Cpx> = ZpDft::new(n_fft, ZERO);
    let buffer: Vec<Cpx> = vec![Complex::new(1f64, 0f64); n * n];
    zp_dft.zero_padding(buffer, n);
    let real: Vec<f64> = zp_dft.buffer().iter().map(|c| c.re).collect();
    println!("REAL");
    real.chunks(n_fft).for_each(|c| println!("{c:?}"));
    // every input cell sits at its wrapped position, everything else is zero
    let mut ones = 0usize;
    for (k, r) in real.iter().enumerate() {
        let written = (0..n).any(|i| (0..n).any(|j| embed_index(i, j, n, n_fft) == k));
        assert_eq!(*r, if written { 1.0 } else { 0.0 });
        ones += written as usize;
    }
    assert_eq!(ones, n * n);
    process(&mut zp_dft, true);
    let norm: Vec<f64> = zp_dft.buffer().iter().map(|c| c.norm()).collect();
    println!("NORM");
    norm.chunks(n_fft).for_each(|c| println!("{c:+7.2?}"));
    // DC sample: the input total over the grid side
    assert!((norm[0] - (n * n) as f64 / n_fft as f64).abs() < 1e-9);
}

#[test]
fn zpdft_zero_padding() {
    let n = 9;
    let n_fft = 12;
    let mut zp_dft: ZpDft<Cpx> = ZpDft::new(n_fft, ZERO);
    let buffer: Vec<Cpx> = vec![Complex::new(1f64, 0f64); n * n];
    zp_dft.zero_padding(buffer, n);
    let real: Vec<f64> = zp_dft.buffer().iter().map(|c| c.re).collect();
    println!("REAL");
    real.chunks(n_fft).for_each(|c| println!("{c:?}"));
    assert_eq!(real.iter().sum::<f64>(), (n * n) as f64);
    process(&mut zp_dft, true);
    let real: Vec<f64> = zp_dft.buffer().iter().map(|c| c.re).collect();
    println!("REAL");
    real.chunks(n_fft).for_each(|c| println!("{c:+7.2?}"));
    assert!((real[0] - (n * n) as f64 / n_fft as f64).abs() < 1e-9);
}

#[test]
fn cropping() {
    let n = 8;
    let n_fft = 16;
    let mut zp_dft: ZpDft<Cpx> = ZpDft::new(n_fft, ZERO);
    let buffer: Vec<Cpx> = vec![Complex::new(1f64, 0f64); n * n];
    zp_dft.zero_padding(buffer, n);
    process(&mut zp_dft, true);
    let full = zp_dft.buffer();
    zp_dft.crop(7);
    assert_eq!(zp_dft.len(), 7);
    let cropped = zp_dft.buffer();
    assert_eq!(cropped.len(), 49);
    let ij0 = n_fft / 2 - 7 / 2;
    for i in 0..7 {
        for j in 0..7 {
            assert_eq!(cropped[i * 7 + j], full[(i + ij0) * n_fft + j + ij0]);
        }
    }
    let norm: Vec<f64> = cropped.iter().map(|c| c.norm()).collect();
    println!("NORM");
    norm.chunks(7).for_each(|c| println!("{c:+7.2?}"));
}

#[test]
fn resizing() {
    let n = 7;
    let n_fft = 12;
    let mut zp_dft: ZpDft<Cpx> = ZpDft::new(n_fft, ZERO);
    let buffer: Vec<Cpx> = vec![Complex::new(1f64, 0f64); n * n];
    zp_dft.zero_padding(buffer, n);
    process(&mut zp_dft, true);
    let full = zp_dft.buffer();
    let new_len = 18;
    zp_dft.resize(new_len, ZERO);
    assert_eq!(zp_dft.len(), new_len);
    let grown = zp_dft.buffer();
    assert_eq!(grown.len(), new_len * new_len);
    let ij0 = (new_len - n_fft) / 2;
    for a in 0..new_len {
        for b in 0..new_len {
            let inside = a >= ij0 && a < ij0 + n_fft && b >= ij0 && b < ij0 + n_fft;
            let expected = if inside {
                full[(a - ij0) * n_fft + (b - ij0)]
            } else {
                ZERO
            };
            assert_eq!(grown[a * new_len + b], expected);
        }
    }
    let norm: Vec<f64> = grown.iter().map(|c| c.norm()).collect();
    println!("NORM");
    norm.chunks(new_len).for_each(|c| println!("{c:+7.2?}"));
}

#[test]
fn frequency_shift_moves_dc_to_center() {
    let len = 6;
    let mut grid: ZpDft<Cpx> = ZpDft::new(len, ZERO);
    let mut buffer = vec![ZERO; len * len];
    buffer[0] = Complex::new(42.0, -1.0);
    grid.zero_padding(buffer, len);
    grid.shift();
    let shifted = grid.buffer();
    let center = (len / 2) * len + len / 2;
    for (k, c) in shifted.iter().enumerate() {
        let expected = if k == center {
            Complex::new(42.0, -1.0)
        } else {
            ZERO
        };
        assert_eq!(*c, expected);
    }
}

/// Forward transform then inverse transform, with matching zero-padding and
/// centering, recovers the input within floating-point tolerance.
fn round_trip(n: usize, len: usize) {
    // a deterministic, structure-free input
    let buffer: Vec<Cpx> = (0..n * n)
        .map(|k| {
            let x = (k as f64 * 0.37).sin();
            let y = (k as f64 * 0.11).cos();
            Complex::new(1.0 + x, y - 0.5)
        })
        .collect();
    let mut forward: ZpDft<Cpx> = ZpDft::new(len, ZERO);
    forward.zero_padding(buffer.clone(), n);
    process(&mut forward, true);
    let mut inverse: ZpDft<Cpx> = ZpDft::new(len, ZERO);
    inverse.zero_padding(forward.into_buffer(), len);
    process(&mut inverse, false);
    // forward divides by len once; the unnormalized inverse multiplies by
    // len squared: the embedded input comes back scaled by len
    let recovered = inverse.into_buffer();
    for i in 0..n {
        for j in 0..n {
            // an input filling the whole grid is moved in without recentering
            let at = if n == len {
                i * n + j
            } else {
                embed_index(i, j, n, len)
            };
            let got = recovered[at] / len as f64;
            let want = buffer[i * n + j];
            assert!(
                (got - want).norm() < 1e-9,
                "cell ({i},{j}) of {n} in {len}: {got} != {want}"
            );
        }
    }
}

#[test]
fn dft_round_trip_7() {
    round_trip(7, 12);
}

#[test]
fn dft_round_trip_8() {
    round_trip(8, 16);
}

#[test]
fn dft_round_trip_12() {
    round_trip(12, 12);
}

#[test]
fn dft_round_trip_16() {
    round_trip(16, 16);
}

#[test]
fn grow_then_crop_restores_the_grid() {
    // the two sides agree in parity: the round trip is the identity
    for &(side, big_side) in &[(6usize, 12usize), (7, 13), (5, 5)] {
        let buffer: Vec<Cpx> = (0..side * side)
            .map(|k| Complex::new(k as f64, -(k as f64)))
            .collect();
        let mut grid: ZpDft<Cpx> = ZpDft::new(side, ZERO);
        grid.zero_padding(buffer.clone(), side);
        grid.resize(big_side, ZERO);
        grid.crop(side);
        assert_eq!(grid.into_buffer(), buffer, "{side} -> {big_side}");
    }
}
