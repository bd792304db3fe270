//! Seeing and adaptive-optics configuration guards, the GLAO adjustment,
//! and the turbulence profile.

use eyepiece::{
    glao_adjusted_fried, AdaptiveOpticsCorrection, EyepieceError, GlaoFraction, TurbulenceProfile,
};

#[test]
fn strehl_ratio_guard() {
    // a Strehl ratio of 0.49 must fail, 0.5 must succeed
    assert_eq!(
        AdaptiveOpticsCorrection::new(490),
        Err(EyepieceError::StrehlRatioTooLow)
    );
    let correction = AdaptiveOpticsCorrection::new(500).unwrap();
    assert_eq!(correction.strehl_ratio_permille(), 500);
    assert!(AdaptiveOpticsCorrection::new(750).is_ok());
    assert!(AdaptiveOpticsCorrection::new(1000).is_ok());
    assert_eq!(
        AdaptiveOpticsCorrection::new(1001),
        Err(EyepieceError::StrehlRatioTooLow)
    );
}

#[test]
fn glao_fraction_guard() {
    assert_eq!(
        GlaoFraction::new(1000),
        Err(EyepieceError::GlaoFractionTooLarge)
    );
    assert_eq!(
        GlaoFraction::new(1500),
        Err(EyepieceError::GlaoFractionTooLarge)
    );
    assert_eq!(GlaoFraction::new(999).unwrap().permille(), 999);
    assert_eq!(GlaoFraction::new(0).unwrap().permille(), 0);
}

#[test]
fn glao_correction_enlarges_the_fried_parameter() {
    // Fried parameter 16 cm, in micrometers
    let r0 = 160000u64;
    let f1 = GlaoFraction::new(300).unwrap();
    let f2 = GlaoFraction::new(600).unwrap();
    let (n1, d1) = glao_adjusted_fried(r0, &f1);
    let (n2, d2) = glao_adjusted_fried(r0, &f2);
    // the exact rationals n/d order as the floats do
    assert!(n1 * d2 < n2 * d1);
    let adjusted1 = n1 as f64 / d1 as f64;
    let adjusted2 = n2 as f64 / d2 as f64;
    assert!(adjusted1 < adjusted2);
    assert!((adjusted1 - 160000.0 / 0.7).abs() < 1e-6);
    assert!((adjusted2 - 160000.0 / 0.4).abs() < 1e-6);
}

#[test]
fn turbulence_profile_is_normalized() {
    let profile = TurbulenceProfile::new();
    assert_eq!(profile.len(), 7);
    assert_eq!(
        profile.height_m,
        vec![25u64, 275, 425, 1250, 4000, 8000, 13000]
    );
    assert_eq!(
        profile.weight_1e4,
        vec![1257u64, 874, 666, 3498, 2273, 681, 751]
    );
    assert_eq!(profile.weight_1e4.iter().sum::<u64>(), 10000);
}
