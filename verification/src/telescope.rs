//! Telescopes with integer-exact geometry.  A telescope is consumed through
//! the observer capability — diameter, pupil sampling step and a
//! point-inclusion test — and all but the diameter are continuous
//! quantities resolved by the caller.

use vstd::prelude::*;

verus! {

/// Giant Magellan Telescope: seven 8.365 m segments on a 25.5 m envelope.
#[derive(Clone, Copy, Debug, PartialEq, Eq, Structural)]
pub struct Gmt;

impl Gmt {
    /// A Giant Magellan Telescope.
    pub fn new() -> Gmt {
        Gmt
    }

    /// Envelope diameter of the segmented primary mirror, in millimeters.
    pub fn diameter_mm(&self) -> (r: u64)
        ensures
            r == 25500,
    {
        25500
    }
}

} // verus!
