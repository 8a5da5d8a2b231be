//! The animals and the food of one generation.

use crate::animal::{Animal, SPEED_AT_START};
use crate::entropy::signed_units;
use crate::eye::Eye;
use crate::food::Food;
use rand_chacha::ChaCha8Rng;
use vstd::prelude::*;

verus! {

/// How many animals a drawn world has.
pub const ANIMALS: usize = 40;

/// How many pieces of food a drawn world has.
pub const FOODS: usize = 60;

#[derive(Debug)]
pub struct World {
    pub animals: Vec<Animal>,
    pub foods: Vec<Food>,
}

impl World {
    /// There is an animal; every animal is in order, has the eye that is
    /// usual, lies in the arena and goes at a speed within the bounds; and
    /// every piece of food lies in the arena.
    pub open spec fn wf(&self) -> bool {
        &&& self.animals.len() > 0
        &&& forall|i: int|
            0 <= i < self.animals.len() ==> {
                &&& (#[trigger] self.animals[i]).wf()
                &&& self.animals[i].eye == Eye::usual()
                &&& self.animals[i].position.in_arena()
                &&& self.animals[i].paced()
            }
        &&& forall|j: int| 0 <= j < self.foods.len() ==> (#[trigger] self.foods[j]).position.in_arena()
    }

    /// The world is as it is drawn: forty drawn animals, none of which has
    /// eaten, and sixty pieces of food at drawn places.
    pub open spec fn fresh(&self) -> bool {
        &&& self.wf()
        &&& self.animals.len() == ANIMALS
        &&& self.foods.len() == FOODS
        &&& forall|i: int|
            0 <= i < self.animals.len() ==> {
                &&& (#[trigger] self.animals[i]).ate == 0
                &&& self.animals[i].posed()
                &&& self.animals[i].speed@ == SPEED_AT_START
                &&& signed_units(self.animals[i].brain.nn.parameters())
            }
        &&& forall|j: int| 0 <= j < self.foods.len() ==> (#[trigger] self.foods[j]).position.drawn()
    }

    /// A world of drawn animals and drawn food; the animals are drawn first.
    pub fn random(rng: &mut ChaCha8Rng) -> (world: World)
        ensures
            world.fresh(),
    {
        let mut animals: Vec<Animal> = Vec::new();
        while animals.len() < ANIMALS
            invariant
                animals.len() <= ANIMALS,
                forall|i: int|
                    0 <= i < animals.len() ==> {
                        &&& (#[trigger] animals[i]).wf()
                        &&& animals[i].eye == Eye::usual()
                        &&& animals[i].ate == 0
                        &&& animals[i].posed()
                        &&& animals[i].position.in_arena()
                        &&& animals[i].paced()
                        &&& animals[i].speed@ == SPEED_AT_START
                        &&& signed_units(animals[i].brain.nn.parameters())
                    },
            decreases ANIMALS - animals.len(),
        {
            animals.push(Animal::random(rng));
        }
        let mut foods: Vec<Food> = Vec::new();
        while foods.len() < FOODS
            invariant
                foods.len() <= FOODS,
                forall|j: int|
                    0 <= j < foods.len() ==> (#[trigger] foods[j]).position.drawn()
                        && foods[j].position.in_arena(),
            decreases FOODS - foods.len(),
        {
            foods.push(Food::random(rng));
        }
        World { animals, foods }
    }

    pub fn animals(&self) -> (animals: &Vec<Animal>)
        ensures
            animals == &self.animals,
    {
        &self.animals
    }

    pub fn foods(&self) -> (foods: &Vec<Food>)
        ensures
            foods == &self.foods,
    {
        &self.foods
    }
}

} // verus!
