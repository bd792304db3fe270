//! A whole field evaluation assembled from the verified kernel: a single
//! star at the center of a circular 8 m aperture, Nyquist-sampled in the V
//! band over 21 pixels, one second of noiseless exposure.

use eyepiece::{image_plan, Photometry, PixelScale, ZpDft};
use num_complex::Complex;
use rustfft::{Fft, FftPlanner};
use std::sync::Arc;

type Cpx = Complex<f64>;

const ZERO: Cpx = Complex::new(0f64, 0f64);

/// Runs the 1D transform along each row of the grid.
fn pass_rows(grid: &mut ZpDft<Cpx>, fft: &Arc<dyn Fft<f64>>) {
    let len = grid.len();
    let mut buffer = grid.buffer();
    buffer.chunks_mut(len).for_each(|row| fft.process(row));
    grid.zero_padding(buffer, len);
}

/// The forward 2D transform: two 1D passes around a transpose, every sample
/// divided by the grid side.
fn forward(grid: &mut ZpDft<Cpx>) {
    let len = grid.len();
    let mut planner = FftPlanner::new();
    let fft = planner.plan_fft_forward(len);
    pass_rows(grid, &fft);
    grid.transpose();
    pass_rows(grid, &fft);
    let mut buffer = grid.buffer();
    buffer.iter_mut().for_each(|c| *c /= len as f64);
    grid.zero_padding(buffer, len);
}

#[test]
fn diffraction_limited_on_axis_star() {
    // the telescope: a circular unobstructed 8 m aperture, 2.5 cm sampling
    let diameter = 8f64;
    let resolution = 2.5e-2;
    // V band, from the verified table
    let photometry = Photometry::try_new("V").unwrap();
    let wavelength = photometry.data().wavelength_pm as f64 * 1e-12;
    let zeropoint = photometry.data().zeropoint_1e7 as f64 * 1e7;
    // pixel scale at Nyquist, field of view 21 pixels, magnitude 0, 1 s
    let b = PixelScale::Nyquist(1).to_nyquist_clamped_ratio() as usize;
    let pixel_scale = 0.5 * wavelength / diameter;
    let fov_px = 21usize;
    let exposure = 1f64;
    let n_photon = zeropoint * 1.0 * exposure * resolution * resolution;
    // the sampling plan
    let pupil_size = b as f64 * wavelength / pixel_scale;
    let n_dft_raw = (pupil_size / resolution).ceil() as usize;
    let plan = image_plan(b, fov_px, n_dft_raw);
    assert_eq!(plan.intensity_sampling, 21);
    assert!(!plan.half_pixel_shift);
    // the pupil: unit amplitude inside the aperture, normalized so that the
    // star's image carries exactly its photon count
    let n_px = (diameter / resolution).round() as usize + 1;
    let l = (n_px - 1) as f64;
    let mut pupil = vec![ZERO; n_px * n_px];
    let mut inside = 0usize;
    for i in 0..n_px {
        let y = (i as f64 / l - 0.5) * diameter;
        for j in 0..n_px {
            let x = (j as f64 / l - 0.5) * diameter;
            if x.hypot(y) <= diameter * 0.5 {
                pupil[i * n_px + j] = Complex::new(1f64, 0f64);
                inside += 1;
            }
        }
    }
    let amplitude = (n_photon / inside as f64).sqrt();
    pupil.iter_mut().for_each(|p| *p *= amplitude);
    // the point-spread function on the working grid
    let mut grid: ZpDft<Cpx> = ZpDft::new(plan.n_dft, ZERO);
    grid.zero_padding(pupil, n_px);
    forward(&mut grid);
    grid.shift();
    grid.resize(plan.intensity_sampling, ZERO);
    let intensity: Vec<f64> = grid.buffer().iter().map(|c| c.norm_sqr()).collect();
    // the output: 21 x 21 pixels
    assert_eq!(intensity.len(), 21 * 21);
    // the peak sits at the center pixel
    let peak = intensity
        .iter()
        .enumerate()
        .max_by(|a, b| a.1.partial_cmp(b.1).unwrap())
        .unwrap()
        .0;
    assert_eq!(peak, 10 * 21 + 10);
    // radially symmetric about the center
    for di in 0..10usize {
        for dj in 0..10usize {
            let q1 = intensity[(10 + di) * 21 + 10 + dj];
            let q2 = intensity[(10 - di) * 21 + 10 - dj];
            let q3 = intensity[(10 + di) * 21 + 10 - dj];
            let q4 = intensity[(10 - di) * 21 + 10 + dj];
            for q in [q2, q3, q4] {
                assert!((q1 - q).abs() <= 1e-9 * q1.max(1e-30), "({di},{dj})");
            }
        }
    }
    // photon conservation: the total carries the photon count, short only
    // of the diffraction-wing energy outside the 21-pixel field
    let total: f64 = intensity.iter().sum();
    assert!(total <= n_photon * (1.0 + 1e-9), "{total} vs {n_photon}");
    assert!(total >= n_photon * 0.9, "{total} vs {n_photon}");
}
