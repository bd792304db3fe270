//! Configuration errors: every way a field, seeing or adaptive-optics setup
//! can be rejected before any computation starts.

use vstd::prelude::*;

verus! {

/// Invalid configuration, detected at construction time.
#[derive(Clone, Copy, Debug, PartialEq, Eq, Structural)]
pub enum EyepieceError {
    /// The photometric band name is not one of V, R, I, J, H, K.
    UnknownBand,
    /// The Strehl ratio is below the 0.5 floor of the fitting-error model.
    StrehlRatioTooLow,
    /// The GLAO corrected fraction is not below one.
    GlaoFractionTooLarge,
    /// The pupil sampling step is finer than the 2.5 cm floor of the
    /// adaptive-optics transfer-function model.
    PupilSamplingTooFine,
}

impl EyepieceError {
    /// Description of the rejected parameter, for reporting to the caller.
    pub fn message(&self) -> (r: &'static str)
        ensures
            self is UnknownBand ==> r@ == "expected the photometric band: V, R, I, J, H or K"@,
            self is StrehlRatioTooLow ==> r@ == "Strehl ratio must be at least 0.5 or higher"@,
            self is GlaoFractionTooLarge ==> r@
                == "GLAO fraction of correction should be less than 1"@,
            self is PupilSamplingTooFine ==> r@
                == "pupil sampling is too small, must be greater or equal to 2.5cm"@,
            r@.len() > 0,
    {
        let r = match self {
            EyepieceError::UnknownBand => "expected the photometric band: V, R, I, J, H or K",
            EyepieceError::StrehlRatioTooLow => "Strehl ratio must be at least 0.5 or higher",
            EyepieceError::GlaoFractionTooLarge => "GLAO fraction of correction should be less than 1",
            EyepieceError::PupilSamplingTooFine => "pupil sampling is too small, must be greater or equal to 2.5cm",
        };
        proof {
            reveal_strlit("expected the photometric band: V, R, I, J, H or K");
            reveal_strlit("Strehl ratio must be at least 0.5 or higher");
            reveal_strlit("GLAO fraction of correction should be less than 1");
            reveal_strlit("pupil sampling is too small, must be greater or equal to 2.5cm");
        }
        r
    }
}

} // verus!
