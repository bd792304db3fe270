//! Fourier-optics image formation for star fields: a verified kernel.
//!
//! The crate holds the discrete machinery of a telescope image simulator:
//! the zero-padded DFT grid bookkeeping (centering, frequency shift,
//! cropping, resizing), the sampling plan that matches the DFT grid to the
//! intensity grid, the index maps used to stack star images and to bin the
//! oversampled buffer down to the requested pixel scale, the photometric
//! band table, and the configuration guards for seeing and adaptive-optics
//! parameters.

mod error;
mod image;
mod observing;
mod photometry;
mod sampling;
mod seeing;
mod telescope;
mod transfer;
mod zpdft;

pub use error::EyepieceError;
pub use image::{bin_margin, bin_source, bin_sources, lemma_bin_sources_cover,
    lemma_bin_sources_distinct, shift_and_add_map};
pub use observing::{AdaptiveOptics, Builder, DiffractionLimited, DiffractionModes,
    ObservingModes, SeeingLimited, SeeingModes};
pub use photometry::{GaiaPhotometry, PhotometricBands, Photometry, PhotometryData};
pub use sampling::{ImagePlan, PixelScale, image_plan, parity_matched_dft_size};
pub use seeing::{AdaptiveOpticsCorrection, GlaoFraction, TurbulenceProfile, glao_adjusted_fried,
    lemma_glao_monotonic};
pub use telescope::Gmt;
pub use transfer::{covariance_decimation, fold_row, frequency_offsets, transfer_grid_size,
    transfer_sampling_stride};
pub use zpdft::{embed_pos, embed_written, flat, lemma_grow_crop_round_trip, shift_dest,
    shift_src, wrap_center, ZpDft};
