//! The genetic algorithm: what can evolve, the three strategies that drive a
//! generation, and the engine that applies them.

use crate::chromosome::Chromosome;
use crate::fixed::Fixed;
use crate::statistics::Statistics;
use rand_chacha::ChaCha8Rng;
use vstd::prelude::*;

verus! {

/// Something that can evolve: it has a fitness, a chromosome, and can be made
/// anew from a chromosome.
pub trait Individual: Sized {
    /// The raw value of the fitness.  An implementation states its own; one
    /// that states none is held to a fitness of zero.
    open spec fn fitness_value(&self) -> int {
        0
    }

    /// The genes of the chromosome.  An implementation states its own; one
    /// that states none is held to an empty chromosome.
    open spec fn genome(&self) -> Seq<Fixed> {
        Seq::empty()
    }

    fn fitness(&self) -> (fitness: Fixed)
        ensures
            fitness@ == self.fitness_value(),
    ;

    fn chromosome(&self) -> (chromosome: &Chromosome)
        ensures
            chromosome@ == self.genome(),
    ;

    fn from_chromosome(chromosome: Chromosome) -> (individual: Self)
        ensures
            individual.genome() == chromosome@,
    ;
}

/// The raw fitness of each member of `population`, in order.
pub open spec fn fitness_values<I: Individual>(population: Seq<I>) -> Seq<int> {
    Seq::new(population.len(), |i: int| population[i].fitness_value())
}

/// The genes of each member of `population`, in order.
pub open spec fn genomes<I: Individual>(population: Seq<I>) -> Seq<Seq<Fixed>> {
    Seq::new(population.len(), |i: int| population[i].genome())
}

/// All chromosomes of `population` have the same length.
pub open spec fn same_lengths<I: Individual>(population: Seq<I>) -> bool {
    forall|i: int, j: int|
        0 <= i < population.len() && 0 <= j < population.len() ==> (#[trigger] population[i]).genome().len()
            == (#[trigger] population[j]).genome().len()
}

/// A way to pick a parent.
pub trait SelectionMethod {
    /// The member at `index` is one that the method may pick of a population
    /// whose members have the raw fitness values `fitness`.  An
    /// implementation states its own bounds; one that states none may pick
    /// any member.
    open spec fn may_pick(&self, fitness: Seq<int>, index: int) -> bool {
        true
    }

    fn select<'a, I: Individual>(&self, rng: &mut ChaCha8Rng, population: &'a [I]) -> (chosen: &'a I)
        requires
            population.len() > 0,
        ensures
            exists|i: int|
                0 <= i < population.len() && *chosen == #[trigger] population[i] && self.may_pick(
                    fitness_values(population@),
                    i,
                ),
    ;
}

/// A way to make one chromosome of two.
pub trait CrossoverMethod {
    /// `child` is a chromosome that the method may make of the two parents.
    /// An implementation states its own bounds; one that states none may
    /// make any chromosome of the parents' length.
    open spec fn may_yield(&self, parent_a: Seq<Fixed>, parent_b: Seq<Fixed>, child: Seq<Fixed>) -> bool {
        true
    }

    fn crossover(&self, rng: &mut ChaCha8Rng, parent_a: &Chromosome, parent_b: &Chromosome) -> (child:
        Chromosome)
        requires
            parent_a@.len() == parent_b@.len(),
        ensures
            child@.len() == parent_a@.len(),
            self.may_yield(parent_a@, parent_b@, child@),
    ;
}

/// A way to alter a chromosome in place.
pub trait MutationMethod {
    /// `after` is a chromosome that the method may leave where it found
    /// `before`.  An implementation states its own bounds; one that states
    /// none may leave any chromosome of the same length.
    open spec fn may_leave(&self, before: Seq<Fixed>, after: Seq<Fixed>) -> bool {
        true
    }

    fn mutate(&self, rng: &mut ChaCha8Rng, child: &mut Chromosome)
        ensures
            final(child)@.len() == old(child)@.len(),
            self.may_leave(old(child)@, final(child)@),
    ;
}

pub struct GeneticAlgorithm<S, C, M> {
    pub selection_method: S,
    pub crossover_method: C,
    pub mutation_method: M,
}

impl<S: SelectionMethod, C: CrossoverMethod, M: MutationMethod> GeneticAlgorithm<S, C, M> {
    /// `child` can come in one generation of parents with the genes
    /// `parents` and the raw fitness values `fitness`: it is what the
    /// mutation may leave of a chromosome that the crossover may make of two
    /// parents that the selection may pick, which may be one and the same.
    pub open spec fn breeds(&self, parents: Seq<Seq<Fixed>>, fitness: Seq<int>, child: Seq<Fixed>) -> bool {
        exists|a: int, b: int, crossed: Seq<Fixed>|
            {
                &&& 0 <= a < parents.len()
                &&& 0 <= b < parents.len()
                &&& self.selection_method.may_pick(fitness, a)
                &&& self.selection_method.may_pick(fitness, b)
                &&& #[trigger] self.crossover_method.may_yield(parents[a], parents[b], crossed)
                &&& self.mutation_method.may_leave(crossed, child)
            }
    }

    pub fn new(selection_method: S, crossover_method: C, mutation_method: M) -> (engine: Self)
        ensures
            engine.selection_method == selection_method,
            engine.crossover_method == crossover_method,
            engine.mutation_method == mutation_method,
    {
        GeneticAlgorithm { selection_method, crossover_method, mutation_method }
    }

    /// One generation: as many children as `population` has members, each
    /// bred of two parents that the selection picked one after the other,
    /// and beside them the fitness statistics of `population` itself.
    pub fn evolve<I: Individual>(&self, rng: &mut ChaCha8Rng, population: &[I]) -> (outcome: (
        Vec<I>,
        Statistics,
    ))
        requires
            population.len() > 0,
            same_lengths(population@),
        ensures
            outcome.0.len() == population.len(),
            forall|k: int|
                0 <= k < outcome.0.len() ==> {
                    &&& (#[trigger] outcome.0[k]).genome().len() == population[0].genome().len()
                    &&& self.breeds(
                        genomes(population@),
                        fitness_values(population@),
                        outcome.0[k].genome(),
                    )
                },
            outcome.1.summarizes(fitness_values(population@)),
    {
        let statistics = Statistics::new(population);
        let mut children: Vec<I> = Vec::new();
        while children.len() < population.len()
            invariant
                population.len() > 0,
                same_lengths(population@),
                children.len() <= population.len(),
                forall|k: int|
                    0 <= k < children.len() ==> {
                        &&& (#[trigger] children[k]).genome().len() == population[0].genome().len()
                        &&& self.breeds(
                            genomes(population@),
                            fitness_values(population@),
                            children[k].genome(),
                        )
                    },
            decreases population.len() - children.len(),
        {
            let parent_a = self.selection_method.select(rng, population);
            let parent_b = self.selection_method.select(rng, population);
            let ghost a = choose|i: int|
                0 <= i < population.len() && *parent_a == #[trigger] population[i]
                    && self.selection_method.may_pick(fitness_values(population@), i);
            let ghost b = choose|i: int|
                0 <= i < population.len() && *parent_b == #[trigger] population[i]
                    && self.selection_method.may_pick(fitness_values(population@), i);
            let mut child = self.crossover_method.crossover(
                rng,
                parent_a.chromosome(),
                parent_b.chromosome(),
            );
            let ghost crossed = child@;
            self.mutation_method.mutate(rng, &mut child);
            let ghost mutated = child@;
            let individual = I::from_chromosome(child);
            proof {
                let parents = genomes(population@);
                assert(self.crossover_method.may_yield(parents[a], parents[b], crossed));
                assert(self.breeds(parents, fitness_values(population@), mutated));
            }
            children.push(individual);
        }
        (children, statistics)
    }
}

} // verus!
