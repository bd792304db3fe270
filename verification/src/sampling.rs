//! Sampling plan for one field evaluation: the oversampled intensity grid
//! and the DFT grid size it is served by.

use vstd::prelude::*;

verus! {

/// Adjusts the DFT grid size so that, whenever the intensity grid is the
/// larger of the two, both grids have the same parity.
///
/// Embedding a DFT result of one parity into a larger working grid of the
/// other parity would misregister the image center by half a pixel; growing
/// the DFT grid by one sample avoids that without changing the sampling.
pub fn parity_matched_dft_size(intensity_sampling: usize, n_dft: usize) -> (r: usize)
    requires
        n_dft < usize::MAX,
    ensures
        r == n_dft || r == n_dft + 1,
        (r == n_dft + 1) <==> (intensity_sampling > n_dft && intensity_sampling % 2 != n_dft % 2),
        intensity_sampling <= r || intensity_sampling % 2 == r % 2,
{
    if intensity_sampling > n_dft && intensity_sampling % 2 != n_dft % 2 {
        n_dft + 1
    } else {
        n_dft
    }
}

/// Pixel scale in its integer-exact representations: a multiple or a
/// fraction of the Nyquist sampling criterion λ/2D, at the field's own band
/// or at a named one.  An absolute sky angle is a continuous quantity and
/// is resolved by the caller.
#[derive(Clone, Debug)]
pub enum PixelScale {
    /// A multiple of the Nyquist criterion.
    Nyquist(u32),
    /// A multiple of the Nyquist criterion in the named band.
    NyquistAt(u32, String),
    /// A fraction of the Nyquist criterion.
    NyquistFraction(u32),
    /// A fraction of the Nyquist criterion in the named band.
    NyquistFractionAt(u32, String),
}

impl PixelScale {
    /// Oversampling factor the scale asks of the working grid: the Nyquist
    /// multiple, and one for any scale at or below Nyquist.
    pub open spec fn spec_nyquist_multiple(&self) -> u32 {
        match self {
            PixelScale::Nyquist(n) => *n,
            PixelScale::NyquistAt(n, _) => *n,
            PixelScale::NyquistFraction(_) => 1,
            PixelScale::NyquistFractionAt(_, _) => 1,
        }
    }

    /// The multiple or fraction is at least one.
    pub open spec fn valid(&self) -> bool {
        match self {
            PixelScale::Nyquist(n) => *n >= 1,
            PixelScale::NyquistAt(n, _) => *n >= 1,
            PixelScale::NyquistFraction(n) => *n >= 1,
            PixelScale::NyquistFractionAt(n, _) => *n >= 1,
        }
    }

    /// Ratio of the requested pixel scale to the Nyquist-limited scale,
    /// clamped below at one: the oversampling factor `b` of the working
    /// grid.
    pub fn to_nyquist_clamped_ratio(&self) -> (r: u32)
        requires
            self.valid(),
        ensures
            r == self.spec_nyquist_multiple(),
            r >= 1,
    {
        match self {
            PixelScale::Nyquist(n) => *n,
            PixelScale::NyquistAt(n, _) => *n,
            PixelScale::NyquistFraction(_) => 1,
            PixelScale::NyquistFractionAt(_, _) => 1,
        }
    }
}

/// Sampling plan of one field evaluation: the oversampled working grid and
/// the DFT grid that serves it.
#[derive(Clone, Copy, Debug, PartialEq, Eq, Structural)]
pub struct ImagePlan {
    /// Oversampling factor `b` of the working grid over the requested pixel
    /// scale.
    pub oversampling: usize,
    /// Side of the oversampled working grid.
    pub intensity_sampling: usize,
    /// Side of the DFT grid, parity-matched to the working grid.
    pub n_dft: usize,
    /// Whether sub-pixel positioning needs the half-pixel pre-offset that
    /// centers an even working grid.
    pub half_pixel_shift: bool,
}

/// Lays out one field evaluation: the working grid is the field of view
/// oversampled by `b`, and the DFT grid is grown by one sample when a
/// larger working grid would disagree with it in parity.
pub fn image_plan(oversampling: usize, fov_px: usize, n_dft_raw: usize) -> (r: ImagePlan)
    requires
        0 < oversampling,
        oversampling * fov_px <= usize::MAX,
        n_dft_raw < usize::MAX,
    ensures
        r.oversampling == oversampling,
        r.intensity_sampling == oversampling * fov_px,
        r.n_dft == n_dft_raw || r.n_dft == n_dft_raw + 1,
        (r.n_dft == n_dft_raw + 1) <==> (r.intensity_sampling > n_dft_raw
            && r.intensity_sampling % 2 != n_dft_raw % 2),
        r.intensity_sampling <= r.n_dft || r.intensity_sampling % 2 == r.n_dft % 2,
        r.half_pixel_shift == (r.intensity_sampling % 2 == 0),
{
    let intensity_sampling = oversampling * fov_px;
    let n_dft = parity_matched_dft_size(intensity_sampling, n_dft_raw);
    ImagePlan {
        oversampling,
        intensity_sampling,
        n_dft,
        half_pixel_shift: intensity_sampling % 2 == 0,
    }
}

} // verus!
