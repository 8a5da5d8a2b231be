//! An animal as the genetic algorithm sees it.

use crate::animal::{Animal, SPEED_AT_START};
use crate::brain::Brain;
use crate::chromosome::Chromosome;
use crate::eye::Eye;
use crate::fixed::{saturated, Fixed, SCALE};
use crate::genetic::Individual;
use crate::network::topology_size;
use crate::neuron::DecodeError;
use rand_chacha::ChaCha8Rng;
use vstd::prelude::*;

verus! {

pub struct AnimalIndividual {
    fitness: Fixed,
    chromosome: Chromosome,
}

impl AnimalIndividual {
    /// What the genetic algorithm is to know of `animal`: its fitness is the
    /// number of pieces of food that it has eaten, and its chromosome holds
    /// the parameters of its brain.
    pub fn from_animal(animal: &Animal) -> (individual: Self)
        ensures
            individual.fitness_value() == saturated(animal.ate * SCALE),
            individual.genome() == animal.brain.nn.parameters(),
    {
        AnimalIndividual {
            fitness: Fixed::from_count(animal.ate),
            chromosome: animal.as_chromosome(),
        }
    }

    /// The animal that the chromosome holds the brain of, at a drawn place.
    /// It fails where the chromosome has too few genes for the brain.
    pub fn into_animal(self, rng: &mut ChaCha8Rng) -> (decoded: Result<Animal, DecodeError>)
        ensures
            decoded is Ok <==> topology_size(Brain::layout(Eye::usual()))
                <= self.genome().len(),
            decoded matches Ok(animal) ==> {
                &&& animal.wf()
                &&& animal.eye == Eye::usual()
                &&& animal.brain.nn.parameters() == self.genome().take(
                    topology_size(Brain::layout(Eye::usual())) as int,
                )
                &&& animal.posed()
                &&& animal.position.in_arena()
                &&& animal.speed@ == SPEED_AT_START
                &&& animal.paced()
                &&& animal.ate == 0
            },
    {
        Animal::from_chromosome(self.chromosome, rng)
    }
}

impl Individual for AnimalIndividual {
    closed spec fn fitness_value(&self) -> int {
        self.fitness@
    }

    closed spec fn genome(&self) -> Seq<Fixed> {
        self.chromosome@
    }

    fn fitness(&self) -> (fitness: Fixed) {
        self.fitness
    }

    fn chromosome(&self) -> (chromosome: &Chromosome) {
        &self.chromosome
    }

    /// An individual with the given chromosome that has earned nothing yet.
    fn from_chromosome(chromosome: Chromosome) -> (individual: Self)
        ensures
            individual.fitness_value() == 0,
    {
        AnimalIndividual { fitness: Fixed::zero(), chromosome }
    }
}

} // verus!
