//! Observing modes: the three strategies a field's intensity can be
//! computed with, fixed at field construction, and the builder interface
//! the field constructors share.
//!
//! The marker types index the observing state; the mode-specific work —
//! which transfer function feeds the DFT engine, and whether it is rebuilt
//! per star — is dispatched on them.

use vstd::prelude::*;

verus! {

/// Constructor-to-product interface of the field builders.
pub trait Builder<F> {
    /// Builds the product of this configuration.
    fn build(self) -> F;
}

/// Diffraction-limited observing mode: no atmosphere, the pupil's own
/// diffraction pattern is the image.
pub struct DiffractionLimited {}

/// Seeing-limited observing mode: the long-exposure atmospheric transfer
/// function blurs every star alike.
pub struct SeeingLimited {}

/// Adaptive-optics observing mode: seeing partially corrected, with a
/// fitting-error cutoff and a per-star anisoplanatism penalty.
pub struct AdaptiveOptics {}

/// The observing modes.
pub trait ObservingModes {}

impl ObservingModes for DiffractionLimited {}

impl ObservingModes for SeeingLimited {}

impl ObservingModes for AdaptiveOptics {}

/// The modes whose transfer function is the pupil's alone.
pub trait DiffractionModes: ObservingModes {}

impl DiffractionModes for DiffractionLimited {}

/// The modes that fold an atmospheric transfer function into the image.
pub trait SeeingModes: ObservingModes {}

impl SeeingModes for SeeingLimited {}

impl SeeingModes for AdaptiveOptics {}

} // verus!
