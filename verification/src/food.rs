//! Food: a point that an animal can eat.

use crate::geometry::Point;
use rand_chacha::ChaCha8Rng;
use vstd::prelude::*;

verus! {

#[derive(Clone, Copy, Debug, PartialEq, Eq, Structural)]
pub struct Food {
    pub position: Point,
}

impl Food {
    /// A piece of food at a drawn place of the arena.
    pub fn random(rng: &mut ChaCha8Rng) -> (food: Food)
        ensures
            food.position.drawn(),
            food.position.in_arena(),
    {
        Food { position: Point::random(rng) }
    }

    pub fn position(&self) -> (position: Point)
        ensures
            position == self.position,
    {
        self.position
    }
}

} // verus!
