//! Food: a position in the toroidal unit square. Eaten food is not removed
//! but repositioned, so the food count never changes.

use vstd::prelude::*;

use crate::fx::SCALE;
use crate::rng::gen_range_i64;

verus! {

/// One food item.
#[derive(Clone, Debug)]
pub struct Food {
    pub x: i64,
    pub y: i64,
}

impl Food {
    /// Both coordinates lie in the world square `[0, SCALE)`.
    pub open spec fn valid(&self) -> bool {
        &&& 0 <= self.x < SCALE
        &&& 0 <= self.y < SCALE
    }

    /// A food item at a uniformly random spot.
    pub fn random(rng: &mut rand::rngs::StdRng) -> (f: Food)
        ensures
            f.valid(),
    {
        let x = gen_range_i64(rng, 0, SCALE);
        let y = gen_range_i64(rng, 0, SCALE);
        Food { x, y }
    }

    /// The position as a coordinate pair, in millionths of the world width.
    pub fn position(&self) -> (p: (i64, i64))
        ensures
            p.0 == self.x,
            p.1 == self.y,
    {
        (self.x, self.y)
    }
}

} // verus!
