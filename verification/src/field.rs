//! The field model: the set of metaball sources and the global shaping
//! parameters, plus the count rule of the random generator.
//!
//! A field is generated once from random draws and replaced wholesale on a
//! randomize trigger; only `goo` and `threshold` are mutated in place, by
//! the control protocol. The random draws themselves — a count drawn from
//! an exponential distribution, and each source's strength and location —
//! are real-valued samples the driver takes; the count rule and the
//! assembly of the drawn sources are verified here.

use vstd::prelude::*;
use crate::geometry::Point;
use crate::scalar::Scalar;

verus! {

/// The fewest sources a generated field may hold, whatever the draws.
pub const MIN_METABALL_COUNT: u32 = 3;

/// A single influence source: a location and a signed strength.
#[derive(Copy, Clone, PartialEq, Eq, Structural, Debug)]
pub struct Metaball {
    pub location: Point,
    pub size: Scalar,
}

/// The whole field: shaping parameters, raster dimensions, and the sources.
#[derive(Clone, Debug)]
pub struct MetaballData {
    pub goo: Scalar,
    pub threshold: Scalar,
    pub width: u32,
    pub height: u32,
    pub metaballs: Vec<Metaball>,
}

impl MetaballData {
    /// A well-formed field holds at least the minimum number of sources.
    pub open spec fn wf(self) -> bool {
        self.metaballs@.len() >= MIN_METABALL_COUNT
    }

    /// Assemble a freshly generated field from the sources the driver drew.
    ///
    /// The draws are real-valued random samples, so the driver takes them;
    /// `random_count_metaballs` bounds how many it must take. The assembled
    /// field carries the given parameters and dimensions unchanged and is
    /// well formed.
    pub fn from_random(
        goo: Scalar,
        threshold: Scalar,
        width: u32,
        height: u32,
        metaballs: Vec<Metaball>,
    ) -> (d: MetaballData)
        requires
            metaballs@.len() >= MIN_METABALL_COUNT,
        ensures
            d.goo == goo,
            d.threshold == threshold,
            d.width == width,
            d.height == height,
            d.metaballs@ == metaballs@,
            d.wf(),
    {
        MetaballData { goo, width, height, threshold, metaballs }
    }
}

/// The number of sources to generate, given the floored exponential draw:
/// the draw plus the fixed minimum, so the count is at least
/// `MIN_METABALL_COUNT` no matter what was drawn.
pub fn random_count_metaballs(extra: u32) -> (n: u32)
    requires
        extra <= u32::MAX - MIN_METABALL_COUNT,
    ensures
        n == extra + MIN_METABALL_COUNT,
        n >= MIN_METABALL_COUNT,
{
    extra + MIN_METABALL_COUNT
}

} // verus!
