//! Star photometry: the fixed table of the six photometric bands V, R, I,
//! J, H and K.
//!
//! The physical constants of each band are exact in integer units: the
//! wavelength and spectral bandwidth in picometers, and the zero-point flux
//! in units of ten million photons per second per square meter.  Any other
//! band name is a construction-time error.

use vstd::prelude::*;

use crate::error::EyepieceError;

verus! {

/// Physical constants of one photometric band.
#[derive(Clone, Copy, Debug, PartialEq, Eq, Structural)]
pub struct PhotometryData {
    /// Band center wavelength, in picometers.
    pub wavelength_pm: u64,
    /// Zero-point flux at magnitude 0, in units of 10^7 photons/s/m^2.
    pub zeropoint_1e7: u64,
    /// Spectral bandwidth, in picometers.
    pub bandwidth_pm: u64,
}

/// Star photometry in one of the six known bands.
#[derive(Clone, Copy, Debug, PartialEq, Eq, Structural)]
pub enum Photometry {
    V(PhotometryData),
    R(PhotometryData),
    I(PhotometryData),
    J(PhotometryData),
    H(PhotometryData),
    K(PhotometryData),
}

/// Whether a band name is one of the six known single-letter bands.
pub open spec fn known_band(s: Seq<char>) -> bool {
    s.len() == 1 && (s[0] == 'V' || s[0] == 'R' || s[0] == 'I' || s[0] == 'J' || s[0] == 'H'
        || s[0] == 'K')
}

/// The table: photometry of each known band letter.
pub open spec fn photometry_of(c: char) -> Photometry {
    if c == 'V' {
        Photometry::V(PhotometryData { wavelength_pm: 550000, zeropoint_1e7: 897, bandwidth_pm: 90000 })
    } else if c == 'R' {
        Photometry::R(PhotometryData { wavelength_pm: 640000, zeropoint_1e7: 1087, bandwidth_pm: 150000 })
    } else if c == 'I' {
        Photometry::I(PhotometryData { wavelength_pm: 790000, zeropoint_1e7: 734, bandwidth_pm: 150000 })
    } else if c == 'J' {
        Photometry::J(PhotometryData { wavelength_pm: 1215000, zeropoint_1e7: 516, bandwidth_pm: 260000 })
    } else if c == 'H' {
        Photometry::H(PhotometryData { wavelength_pm: 1654000, zeropoint_1e7: 299, bandwidth_pm: 290000 })
    } else {
        Photometry::K(PhotometryData { wavelength_pm: 2179000, zeropoint_1e7: 190, bandwidth_pm: 410000 })
    }
}

impl Photometry {
    /// Band letter of this photometry.
    pub open spec fn spec_letter(self) -> char {
        match self {
            Photometry::V(_) => 'V',
            Photometry::R(_) => 'R',
            Photometry::I(_) => 'I',
            Photometry::J(_) => 'J',
            Photometry::H(_) => 'H',
            Photometry::K(_) => 'K',
        }
    }

    /// Physical constants of this photometry.
    pub open spec fn spec_data(self) -> PhotometryData {
        match self {
            Photometry::V(d) => d,
            Photometry::R(d) => d,
            Photometry::I(d) => d,
            Photometry::J(d) => d,
            Photometry::H(d) => d,
            Photometry::K(d) => d,
        }
    }

    /// The constants agree with the table for this band.
    pub open spec fn valid(self) -> bool {
        self == photometry_of(self.spec_letter())
    }

    /// Photometry of the named band; any name but V, R, I, J, H, K is
    /// rejected.
    pub fn try_new(band: &str) -> (r: Result<Photometry, EyepieceError>)
        ensures
            r.is_ok() <==> known_band(band@),
            r matches Ok(p) ==> p == photometry_of(band@[0]) && p.valid(),
            r is Err ==> r == Err::<Photometry, EyepieceError>(EyepieceError::UnknownBand),
    {
        if band.unicode_len() != 1 {
            return Err(EyepieceError::UnknownBand);
        }
        let c = band.get_char(0);
        if c == 'V' {
            Ok(Photometry::V(PhotometryData { wavelength_pm: 550000, zeropoint_1e7: 897, bandwidth_pm: 90000 }))
        } else if c == 'R' {
            Ok(Photometry::R(PhotometryData { wavelength_pm: 640000, zeropoint_1e7: 1087, bandwidth_pm: 150000 }))
        } else if c == 'I' {
            Ok(Photometry::I(PhotometryData { wavelength_pm: 790000, zeropoint_1e7: 734, bandwidth_pm: 150000 }))
        } else if c == 'J' {
            Ok(Photometry::J(PhotometryData { wavelength_pm: 1215000, zeropoint_1e7: 516, bandwidth_pm: 260000 }))
        } else if c == 'H' {
            Ok(Photometry::H(PhotometryData { wavelength_pm: 1654000, zeropoint_1e7: 299, bandwidth_pm: 290000 }))
        } else if c == 'K' {
            Ok(Photometry::K(PhotometryData { wavelength_pm: 2179000, zeropoint_1e7: 190, bandwidth_pm: 410000 }))
        } else {
            Err(EyepieceError::UnknownBand)
        }
    }

    /// Band letter.
    pub fn letter(&self) -> (r: char)
        ensures
            r == self.spec_letter(),
    {
        match self {
            Photometry::V(_) => 'V',
            Photometry::R(_) => 'R',
            Photometry::I(_) => 'I',
            Photometry::J(_) => 'J',
            Photometry::H(_) => 'H',
            Photometry::K(_) => 'K',
        }
    }

    /// Physical constants of the band.
    pub fn data(&self) -> (r: PhotometryData)
        ensures
            r == self.spec_data(),
    {
        match self {
            Photometry::V(d) => *d,
            Photometry::R(d) => *d,
            Photometry::I(d) => *d,
            Photometry::J(d) => *d,
            Photometry::H(d) => *d,
            Photometry::K(d) => *d,
        }
    }
}

/// The names of the six photometric bands with known star photometry.
pub struct PhotometricBands<'a>(pub [&'a str; 6]);

impl<'a> Default for PhotometricBands<'a> {
    /// The array `["V", "R", "I", "J", "H", "K"]`.
    fn default() -> (r: Self)
        ensures
            r.0[0]@ =~= seq!['V'],
            r.0[1]@ =~= seq!['R'],
            r.0[2]@ =~= seq!['I'],
            r.0[3]@ =~= seq!['J'],
            r.0[4]@ =~= seq!['H'],
            r.0[5]@ =~= seq!['K'],
    {
        proof {
            reveal_strlit("V");
            reveal_strlit("R");
            reveal_strlit("I");
            reveal_strlit("J");
            reveal_strlit("H");
            reveal_strlit("K");
        }
        PhotometricBands(["V", "R", "I", "J", "H", "K"])
    }
}

/// GAIA photometric bands, for magnitudes converted from the GAIA survey.
#[derive(Clone, Copy, Debug, PartialEq, Eq, Structural)]
pub enum GaiaPhotometry {
    V,
    R,
    I,
    J,
    H,
    K,
}

impl GaiaPhotometry {
    /// Band letter of this GAIA photometry.
    pub open spec fn spec_letter(self) -> char {
        match self {
            GaiaPhotometry::V => 'V',
            GaiaPhotometry::R => 'R',
            GaiaPhotometry::I => 'I',
            GaiaPhotometry::J => 'J',
            GaiaPhotometry::H => 'H',
            GaiaPhotometry::K => 'K',
        }
    }

    /// GAIA photometry of the named band; any name but V, R, I, J, H, K is
    /// rejected.
    pub fn try_new(band: &str) -> (r: Result<GaiaPhotometry, EyepieceError>)
        ensures
            r.is_ok() <==> known_band(band@),
            r matches Ok(g) ==> g.spec_letter() == band@[0],
            r is Err ==> r == Err::<GaiaPhotometry, EyepieceError>(EyepieceError::UnknownBand),
    {
        if band.unicode_len() != 1 {
            return Err(EyepieceError::UnknownBand);
        }
        let c = band.get_char(0);
        if c == 'V' {
            Ok(GaiaPhotometry::V)
        } else if c == 'R' {
            Ok(GaiaPhotometry::R)
        } else if c == 'I' {
            Ok(GaiaPhotometry::I)
        } else if c == 'J' {
            Ok(GaiaPhotometry::J)
        } else if c == 'H' {
            Ok(GaiaPhotometry::H)
        } else if c == 'K' {
            Ok(GaiaPhotometry::K)
        } else {
            Err(EyepieceError::UnknownBand)
        }
    }

    /// Band letter.
    pub fn letter(&self) -> (r: char)
        ensures
            r == self.spec_letter(),
    {
        match self {
            GaiaPhotometry::V => 'V',
            GaiaPhotometry::R => 'R',
            GaiaPhotometry::I => 'I',
            GaiaPhotometry::J => 'J',
            GaiaPhotometry::H => 'H',
            GaiaPhotometry::K => 'K',
        }
    }
}

} // verus!
