//! Atmospheric-seeing and adaptive-optics configuration: the validity
//! guards that every correction must pass before any computation, the exact
//! arithmetic of the GLAO Fried-parameter adjustment, and the fixed
//! turbulence profile of the anisoplanatism model.
//!
//! Ratios are held in thousandths, which represents the guarded boundary
//! values exactly.

use vstd::prelude::*;

use crate::error::EyepieceError;

verus! {

/// Adaptive-optics correction quality: the target Strehl ratio, in
/// thousandths.  The fitting-error model is not validated below a Strehl
/// ratio of one half, so construction enforces the floor.
#[derive(Clone, Copy, Debug, PartialEq, Eq, Structural)]
pub struct AdaptiveOpticsCorrection {
    strehl_ratio_permille: u32,
}

impl AdaptiveOpticsCorrection {
    /// The Strehl ratio is at least one half and at most one.
    pub open spec fn valid(self) -> bool {
        500 <= self.spec_strehl_ratio_permille() <= 1000
    }

    /// Correction with the given target Strehl ratio; below one half the
    /// fitting-error model does not apply and the correction is rejected.
    pub fn new(strehl_ratio_permille: u32) -> (r: Result<AdaptiveOpticsCorrection, EyepieceError>)
        ensures
            r.is_ok() <==> 500 <= strehl_ratio_permille <= 1000,
            r matches Ok(c) ==> c.valid() && c.spec_strehl_ratio_permille()
                == strehl_ratio_permille,
            r is Err ==> r == Err::<AdaptiveOpticsCorrection, EyepieceError>(
                EyepieceError::StrehlRatioTooLow,
            ),
    {
        if strehl_ratio_permille < 500 || strehl_ratio_permille > 1000 {
            Err(EyepieceError::StrehlRatioTooLow)
        } else {
            Ok(AdaptiveOpticsCorrection { strehl_ratio_permille })
        }
    }

    /// Target Strehl ratio, in thousandths.
    pub closed spec fn spec_strehl_ratio_permille(self) -> u32 {
        self.strehl_ratio_permille
    }

    /// Target Strehl ratio, in thousandths.
    pub fn strehl_ratio_permille(&self) -> (r: u32)
        ensures
            r == self.spec_strehl_ratio_permille(),
    {
        self.strehl_ratio_permille
    }
}

/// Fraction of the seeing corrected by a ground-layer adaptive-optics
/// system, in thousandths; a fraction of one or more is rejected.
#[derive(Clone, Copy, Debug, PartialEq, Eq, Structural)]
pub struct GlaoFraction {
    permille: u32,
}

impl GlaoFraction {
    /// The corrected fraction is below one.
    pub open spec fn valid(self) -> bool {
        self.spec_permille() < 1000
    }

    /// Corrected fraction of the seeing; one or more is rejected.
    pub fn new(permille: u32) -> (r: Result<GlaoFraction, EyepieceError>)
        ensures
            r.is_ok() <==> permille < 1000,
            r matches Ok(f) ==> f.valid() && f.spec_permille() == permille,
            r is Err ==> r == Err::<GlaoFraction, EyepieceError>(
                EyepieceError::GlaoFractionTooLarge,
            ),
    {
        if permille >= 1000 {
            Err(EyepieceError::GlaoFractionTooLarge)
        } else {
            Ok(GlaoFraction { permille })
        }
    }

    /// Corrected fraction, in thousandths.
    pub closed spec fn spec_permille(self) -> u32 {
        self.permille
    }

    /// Corrected fraction, in thousandths.
    pub fn permille(&self) -> (r: u32)
        ensures
            r == self.spec_permille(),
    {
        self.permille
    }
}

/// Fried parameter adjusted for a GLAO corrected fraction `f`, as the exact
/// rational `r0 / (1 - f)`: the pair `(1000 * r0, 1000 - permille)` of
/// numerator and denominator, in whatever unit `r0` is given in.
pub fn glao_adjusted_fried(r0: u64, fraction: &GlaoFraction) -> (r: (u64, u64))
    requires
        r0 * 1000 <= u64::MAX,
        fraction.valid(),
    ensures
        r.0 == 1000 * r0,
        r.1 == 1000 - fraction.spec_permille(),
        r.1 > 0,
{
    (r0 * 1000, 1000 - fraction.permille() as u64)
}

/// A larger GLAO corrected fraction leaves a larger effective Fried
/// parameter, degrading the seeing less: for fractions `f1 < f2 < 1`, the
/// adjusted parameters `1000 * r0 / (1000 - f)` satisfy `adjusted(f1) <
/// adjusted(f2)`, stated by cross-multiplying the two exact rationals.
pub proof fn lemma_glao_monotonic(r0: nat, f1: nat, f2: nat)
    requires
        0 < r0,
        f1 < f2 < 1000,
    ensures
        (1000 * r0) * (1000 - f2) < (1000 * r0) * (1000 - f1),
{
    assert((1000 * r0) * (1000 - f2) < (1000 * r0) * (1000 - f1)) by (nonlinear_arith)
        requires
            0 < r0,
            f1 < f2 < 1000,
    ;
}

/// The fixed seven-layer turbulence profile of the anisoplanatism model:
/// layer heights in meters, paired with relative weights in units of one
/// ten-thousandth.  The weights sum to one exactly.
pub struct TurbulenceProfile {
    /// Layer heights above the telescope, in meters.
    pub height_m: Vec<u64>,
    /// Relative layer weights, in units of 1/10000.
    pub weight_1e4: Vec<u64>,
}

impl TurbulenceProfile {
    /// The standard seven-layer profile, heights from 25 m to 13 km.
    pub fn new() -> (r: TurbulenceProfile)
        ensures
            r.height_m@ =~= seq![25u64, 275, 425, 1250, 4000, 8000, 13000],
            r.weight_1e4@ =~= seq![1257u64, 874, 666, 3498, 2273, 681, 751],
            r.weight_1e4@[0] + r.weight_1e4@[1] + r.weight_1e4@[2] + r.weight_1e4@[3]
                + r.weight_1e4@[4] + r.weight_1e4@[5] + r.weight_1e4@[6] == 10000,
    {
        let height_m = vec![25u64, 275, 425, 1250, 4000, 8000, 13000];
        let weight_1e4 = vec![1257u64, 874, 666, 3498, 2273, 681, 751];
        TurbulenceProfile { height_m, weight_1e4 }
    }

    /// Number of layers.
    pub fn len(&self) -> (r: usize)
        ensures
            r == self.height_m@.len(),
    {
        self.height_m.len()
    }
}

} // verus!
