//! One finished generation, as a batch driver sees it: the generation index
//! and the fitness statistics harvested at its boundary.

use vstd::prelude::*;

use crate::statistics::Statistics;

verus! {

/// A generation index paired with its population statistics. How the pair
/// is logged or serialized is the calling driver's concern.
#[derive(Clone, Debug)]
pub struct GenerationSummary {
    pub generation_idx: usize,
    pub statistics: Statistics,
}

} // verus!
