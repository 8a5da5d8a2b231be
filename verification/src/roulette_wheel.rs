//! Selection in proportion to fitness.

use crate::entropy::draw;
use crate::genetic::{Individual, SelectionMethod};
use rand::distributions::WeightedError;
use rand::seq::SliceRandom;
use rand_chacha::ChaCha8Rng;
use vstd::prelude::*;

verus! {

/// Why a weighted draw failed, `rand::distributions::WeightedError`: nothing
/// is known of what it holds.
#[verifier::external_type_specification]
#[verifier::external_body]
pub struct ExWeightedError(WeightedError);

/// Some member of `population` has a fitness above zero.
pub open spec fn any_fit<I: Individual>(population: Seq<I>) -> bool {
    exists|i: int| 0 <= i < population.len() && (#[trigger] population[i]).fitness_value() > 0
}

/// The weight with which an individual takes part in the draw: its raw
/// fitness, and nothing where that is below zero.
pub fn weight_of<I: Individual>(individual: &I) -> (weight: u128)
    ensures
        weight == if individual.fitness_value() < 0 {
            0
        } else {
            individual.fitness_value()
        },
{
    let fitness = individual.fitness();
    if fitness.raw < 0 {
        0
    } else {
        fitness.raw as u128
    }
}

/// `SliceRandom::choose_weighted` with `weight_of` as the weight of each
/// member.  Believed of it: it fails exactly where no weight is above zero,
/// and what it picks is a member whose weight is above zero.
#[verifier::external_body]
fn choose_weighted<'a, I: Individual>(rng: &mut ChaCha8Rng, population: &'a [I]) -> (chosen: Result<
    &'a I,
    WeightedError,
>)
    ensures
        chosen is Ok <==> any_fit(population@),
        chosen matches Ok(one) ==> exists|i: int|
            0 <= i < population.len() && *one == #[trigger] population[i] && population[i].fitness_value()
                > 0,
{
    population.choose_weighted(rng, |individual| weight_of(individual))
}

/// Picks a parent with a chance in proportion to its fitness; a fitness
/// below zero counts as none.  Where no member has any fitness, every member
/// is as likely as any other.
pub struct RouletteWheelSelection;

impl RouletteWheelSelection {
    pub fn new() -> (method: Self) {
        RouletteWheelSelection
    }
}

impl SelectionMethod for RouletteWheelSelection {
    /// Where any member has a fitness above zero, only such a member is
    /// picked; where none has, any member may be.
    open spec fn may_pick(&self, fitness: Seq<int>, index: int) -> bool {
        (exists|j: int| 0 <= j < fitness.len() && #[trigger] fitness[j] > 0) ==> fitness[index] > 0
    }

    fn select<'a, I: Individual>(&self, rng: &mut ChaCha8Rng, population: &'a [I]) -> (chosen: &'a I)
        ensures
            any_fit(population@) ==> chosen.fitness_value() > 0,
    {
        match choose_weighted(rng, population) {
            Ok(one) => one,
            Err(_) => {
                let last = population.len() - 1;
                let bound: i64 = if last as u128 > i64::MAX as u128 {
                    i64::MAX
                } else {
                    last as i64
                };
                let index = draw(rng, 0, bound) as usize;
                &population[index]
            },
        }
    }
}

} // verus!
