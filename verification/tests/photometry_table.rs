//! The photometric band table: six known bands with exact constants, and
//! rejection of every other name.

use eyepiece::{EyepieceError, GaiaPhotometry, PhotometricBands, Photometry};

#[test]
fn the_six_bands_carry_the_table() {
    // (band, wavelength [pm], zero point [1e7 ph/s/m^2], bandwidth [pm])
    let table = [
        ("V", 550000u64, 897u64, 90000u64),
        ("R", 640000, 1087, 150000),
        ("I", 790000, 734, 150000),
        ("J", 1215000, 516, 260000),
        ("H", 1654000, 299, 290000),
        ("K", 2179000, 190, 410000),
    ];
    for (name, wavelength_pm, zeropoint_1e7, bandwidth_pm) in table {
        let photometry = Photometry::try_new(name).unwrap();
        assert_eq!(photometry.letter().to_string(), name);
        let data = photometry.data();
        assert_eq!(data.wavelength_pm, wavelength_pm, "{name}");
        assert_eq!(data.zeropoint_1e7, zeropoint_1e7, "{name}");
        assert_eq!(data.bandwidth_pm, bandwidth_pm, "{name}");
    }
}

#[test]
fn unknown_bands_are_rejected() {
    for name in ["X", "v", "", "VR", "Z", "W"] {
        assert_eq!(
            Photometry::try_new(name),
            Err(EyepieceError::UnknownBand),
            "{name:?}"
        );
        assert_eq!(
            GaiaPhotometry::try_new(name),
            Err(EyepieceError::UnknownBand),
            "{name:?}"
        );
    }
}

#[test]
fn gaia_bands_mirror_the_band_letters() {
    for name in ["V", "R", "I", "J", "H", "K"] {
        let gaia = GaiaPhotometry::try_new(name).unwrap();
        assert_eq!(gaia.letter().to_string(), name);
    }
}

#[test]
fn the_default_band_list_names_all_six() {
    let bands = PhotometricBands::default();
    assert_eq!(bands.0, ["V", "R", "I", "J", "H", "K"]);
    for name in bands.0 {
        assert!(Photometry::try_new(name).is_ok());
    }
}

#[test]
fn error_messages_name_the_parameter() {
    assert!(EyepieceError::UnknownBand.message().contains("band"));
    assert!(EyepieceError::StrehlRatioTooLow.message().contains("Strehl"));
    assert!(EyepieceError::GlaoFractionTooLarge.message().contains("GLAO"));
    assert!(EyepieceError::PupilSamplingTooFine.message().contains("sampling"));
}
