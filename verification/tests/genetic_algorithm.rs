use lib_simulation::chromosome::Chromosome;
use lib_simulation::fixed::Fixed;
use lib_simulation::gaussian_mutation::GaussianMutation;
use lib_simulation::genetic::{
    CrossoverMethod, GeneticAlgorithm, Individual, MutationMethod, SelectionMethod,
};
use lib_simulation::roulette_wheel::{weight_of, RouletteWheelSelection};
use lib_simulation::statistics::Statistics;
use lib_simulation::uniform_crossover::UniformCrossover;
use rand::SeedableRng;
use rand_chacha::ChaCha8Rng;
use std::collections::BTreeMap;

fn fixed(value: f64) -> Fixed {
    Fixed::from_raw((value * 1e9).round() as i64)
}

fn float(value: Fixed) -> f32 {
    (value.raw() as f64 / 1e9) as f32
}

fn relative_eq(actual: f32, expected: f32) -> bool {
    let difference = (actual - expected).abs();
    if difference <= f32::EPSILON {
        return true;
    }
    let largest = actual.abs().max(expected.abs());
    difference <= largest * f32::EPSILON
}

fn chromosome(genes: &[f64]) -> Chromosome {
    Chromosome::new(genes.iter().map(|&gene| fixed(gene)).collect())
}

#[derive(Clone, Debug)]
struct TestIndividual {
    fitness: Fixed,
    chromosome: Chromosome,
}

impl TestIndividual {
    fn new(fitness: f64) -> Self {
        Self { fitness: fixed(fitness), chromosome: chromosome(&[]) }
    }
}

impl Individual for TestIndividual {
    fn fitness(&self) -> Fixed {
        self.fitness
    }

    fn chromosome(&self) -> &Chromosome {
        &self.chromosome
    }

    fn from_chromosome(chromosome: Chromosome) -> Self {
        let fitness = chromosome
            .genes()
            .iter()
            .fold(Fixed::zero(), |total, gene| total.plus(*gene));
        Self { fitness, chromosome }
    }
}

fn individual(genes: &[f64]) -> TestIndividual {
    TestIndividual::from_chromosome(chromosome(genes))
}

fn mutated(chance: f64, coefficient: f64) -> Vec<f32> {
    let mut child = chromosome(&[1.0, 2.0, 3.0, 4.0, 5.0]);
    let mut rng = ChaCha8Rng::from_seed(Default::default());
    GaussianMutation::new(fixed(chance), fixed(coefficient)).mutate(&mut rng, &mut child);
    child.into_genes().into_iter().map(float).collect()
}

fn assert_all_relative_eq(actual: &[f32], expected: &[f32]) {
    assert_eq!(actual.len(), expected.len());
    for (actual, expected) in actual.iter().zip(expected.iter()) {
        assert!(relative_eq(*actual, *expected), "{} is not {}", actual, expected);
    }
}

#[test]
fn does_not_change_genes() {
    assert_all_relative_eq(&mutated(0.0, 0.0), &[1.0, 2.0, 3.0, 4.0, 5.0]);
}

#[test]
fn gaussian_mutation_does_not_change_genes() {
    assert_all_relative_eq(&mutated(0.0, 0.5), &[1.0, 2.0, 3.0, 4.0, 5.0]);
}

#[test]
fn given_50_50_chance_and_zero_coefficient_does_not_change_genes() {
    assert_all_relative_eq(&mutated(0.5, 0.0), &[1.0, 2.0, 3.0, 4.0, 5.0]);
}

#[test]
fn given_max_chance_and_zero_coefficient_does_not_change_genes() {
    assert_all_relative_eq(&mutated(1.0, 0.0), &[1.0, 2.0, 3.0, 4.0, 5.0]);
}

#[test]
fn slightly_changes_not_change_genes() {
    assert_all_relative_eq(&mutated(0.5, 0.5), &[1.0, 2.2243752, 3.0, 3.8403194, 5.0]);
}

#[test]
fn entirely_changes_genes() {
    assert_all_relative_eq(
        &mutated(1.0, 3.0),
        &[-1.7271891, 1.3027526, 4.3462505, 4.296925, 7.1678534],
    );
}

#[test]
fn mutation_without_chance_or_coefficient_is_the_identity() {
    let genes = [-7.5, 0.0, 0.000000001, 3.25, 1e9];
    for seed in 0..20u8 {
        for (chance, coefficient) in [(0.0, 0.0), (0.0, 123.0), (0.0, -4.0), (0.3, 0.0), (1.0, 0.0)] {
            let mut rng = ChaCha8Rng::from_seed([seed; 32]);
            let mut child = chromosome(&genes);
            GaussianMutation::new(fixed(chance), fixed(coefficient)).mutate(&mut rng, &mut child);
            assert_eq!(child.into_genes(), chromosome(&genes).into_genes());
        }
    }
}

#[test]
fn a_touched_gene_moves_by_a_share_of_the_coefficient() {
    let method = GaussianMutation::new(fixed(1.0), fixed(0.5));
    assert_eq!(method.perturbed(fixed(2.0), true, fixed(0.5)), fixed(2.25));
    assert_eq!(method.perturbed(fixed(2.0), false, fixed(0.5)), fixed(1.75));
    assert_eq!(method.perturbed(fixed(2.0), true, fixed(0.0)), fixed(2.0));
    assert_eq!(method.perturbed(fixed(-1.0), false, Fixed::from_raw(999_999_940)).raw(), -1_499_999_970);
}

#[test]
fn a_sure_mutation_moves_every_gene_by_less_than_the_coefficient() {
    let genes = [1.0, 2.0, 3.0, 4.0, 5.0];
    let mut rng = ChaCha8Rng::from_seed([9; 32]);
    let mut child = chromosome(&genes);
    GaussianMutation::new(fixed(1.0), fixed(3.0)).mutate(&mut rng, &mut child);
    assert_eq!(child.len(), genes.len());
    for (index, &gene) in genes.iter().enumerate() {
        let moved = child.gene(index).raw() - fixed(gene).raw();
        assert!(moved != 0);
        assert!(moved.abs() < 3_000_000_000);
    }
}

#[test]
fn a_chromosome_keeps_its_genes_in_order() {
    let mut genes = chromosome(&[3.0, 1.0, 2.0]);
    assert_eq!(genes.len(), 3);
    assert_eq!(genes.gene(0), fixed(3.0));
    assert_eq!(genes.gene(1), fixed(1.0));
    assert_eq!(genes.gene(2), fixed(2.0));
    assert_eq!(genes.genes(), &vec![fixed(3.0), fixed(1.0), fixed(2.0)]);
    genes.set(1, fixed(-4.0));
    assert_eq!(genes.len(), 3);
    assert_eq!(genes.into_genes(), vec![fixed(3.0), fixed(-4.0), fixed(2.0)]);
}

#[test]
fn crossover_takes_each_gene_as_the_toss_says() {
    let parent_a = chromosome(&[1.0, 2.0, 3.0, 4.0]);
    let parent_b = chromosome(&[-1.0, -2.0, -3.0, -4.0]);
    let child = UniformCrossover::combine(&parent_a, &parent_b, &vec![true, false, false, true]);
    assert_eq!(child.into_genes(), chromosome(&[1.0, -2.0, -3.0, 4.0]).into_genes());
    let child = UniformCrossover::combine(&parent_a, &parent_b, &vec![false; 4]);
    assert_eq!(child.into_genes(), parent_b.genes().clone());
}

#[test]
fn crossover_takes_every_gene_from_a_parent() {
    let mut rng = ChaCha8Rng::from_seed(Default::default());
    let parent_a: Vec<f64> = (1..=100).map(|n| n as f64).collect();
    let parent_b: Vec<f64> = (1..=100).map(|n| -(n as f64)).collect();
    let child = UniformCrossover::new().crossover(
        &mut rng,
        &chromosome(&parent_a),
        &chromosome(&parent_b),
    );
    assert_eq!(child.len(), 100);
    let mut from_a = 0;
    for index in 0..100 {
        let gene = child.gene(index);
        assert!(gene == fixed(parent_a[index]) || gene == fixed(parent_b[index]));
        if gene == fixed(parent_a[index]) {
            from_a += 1;
        }
    }
    assert!(30 <= from_a && from_a <= 70);
}

#[test]
fn test_selection() {
    let mut rng = ChaCha8Rng::from_seed(Default::default());
    let method = RouletteWheelSelection::new();

    let population = vec![
        TestIndividual::new(2.0),
        TestIndividual::new(1.0),
        TestIndividual::new(4.0),
        TestIndividual::new(3.0),
    ];

    let mut histogram: BTreeMap<i64, i32> = BTreeMap::new();
    for _ in 0..1_000 {
        let chosen = method.select(&mut rng, &population);
        *histogram.entry(chosen.fitness().raw() / 1_000_000_000).or_default() += 1;
    }

    let expected_histogram: BTreeMap<i64, i32> =
        vec![(1, 96), (2, 212), (3, 287), (4, 405)].into_iter().collect();
    assert_eq!(histogram, expected_histogram);

    for (fitness, count) in histogram {
        let share = 100 * fitness as i32;
        assert!((count - share).abs() <= 50, "{} was picked {} times", fitness, count);
    }
}

#[test]
fn selection_never_picks_a_member_without_fitness_while_another_has_some() {
    let mut rng = ChaCha8Rng::from_seed([1; 32]);
    let method = RouletteWheelSelection::new();
    let population = vec![
        TestIndividual::new(0.0),
        TestIndividual::new(-2.0),
        TestIndividual::new(0.5),
        TestIndividual::new(0.0),
    ];
    for _ in 0..500 {
        assert_eq!(method.select(&mut rng, &population).fitness(), fixed(0.5));
    }
}

#[test]
fn selection_among_members_without_fitness_is_even() {
    let mut rng = ChaCha8Rng::from_seed([2; 32]);
    let method = RouletteWheelSelection::new();
    let population: Vec<TestIndividual> =
        (0..4).map(|n| individual(&[n as f64, -(n as f64)])).collect();
    let mut counts = [0; 4];
    for _ in 0..1_000 {
        let chosen = method.select(&mut rng, &population);
        assert_eq!(chosen.fitness(), Fixed::zero());
        counts[(chosen.chromosome.gene(0).raw() / 1_000_000_000) as usize] += 1;
    }
    for count in counts {
        assert!((count as i32 - 250).abs() <= 60, "{:?}", counts);
    }
}

#[test]
fn a_fitness_below_zero_weighs_nothing() {
    assert_eq!(weight_of(&TestIndividual::new(2.5)), 2_500_000_000);
    assert_eq!(weight_of(&TestIndividual::new(0.0)), 0);
    assert_eq!(weight_of(&TestIndividual::new(-2.5)), 0);
}

#[test]
fn statistics_of_a_population() {
    let population = vec![
        TestIndividual::new(2.0),
        TestIndividual::new(1.0),
        TestIndividual::new(4.0),
        TestIndividual::new(3.0),
    ];
    let statistics = Statistics::new(&population);
    assert_eq!(statistics.min_fitness(), fixed(1.0));
    assert_eq!(statistics.max_fitness(), fixed(4.0));
    assert_eq!(statistics.avg_fitness(), fixed(2.5));
}

#[test]
fn the_average_rounds_toward_zero() {
    let population = vec![
        TestIndividual { fitness: Fixed::from_raw(1), chromosome: chromosome(&[]) },
        TestIndividual { fitness: Fixed::from_raw(2), chromosome: chromosome(&[]) },
    ];
    assert_eq!(Statistics::new(&population).avg_fitness().raw(), 1);
    let population = vec![
        TestIndividual { fitness: Fixed::from_raw(-1), chromosome: chromosome(&[]) },
        TestIndividual { fitness: Fixed::from_raw(-2), chromosome: chromosome(&[]) },
    ];
    let statistics = Statistics::new(&population);
    assert_eq!(statistics.avg_fitness().raw(), -1);
    assert_eq!(statistics.min_fitness().raw(), -2);
    assert_eq!(statistics.max_fitness().raw(), -1);
    let population = vec![TestIndividual { fitness: Fixed::from_raw(i64::MAX), chromosome: chromosome(&[]) }; 3];
    assert_eq!(Statistics::new(&population).avg_fitness().raw(), i64::MAX);
}

#[test]
fn a_generation_is_as_large_as_the_one_before() {
    let mut rng = ChaCha8Rng::from_seed([5; 32]);
    let ga = GeneticAlgorithm::new(
        RouletteWheelSelection::new(),
        UniformCrossover::new(),
        GaussianMutation::new(fixed(0.5), fixed(0.5)),
    );
    for size in 1..12 {
        let population: Vec<TestIndividual> =
            (0..size).map(|n| individual(&[n as f64, 1.0, 2.0])).collect();
        let (children, statistics) = ga.evolve(&mut rng, &population);
        assert_eq!(children.len(), size);
        assert!(children.iter().all(|child| child.chromosome.len() == 3));
        assert_eq!(statistics.min_fitness(), fixed(3.0));
        assert_eq!(statistics.max_fitness(), fixed(size as f64 + 2.0));
    }
}

#[test]
fn children_without_mutation_hold_only_genes_of_the_population() {
    let mut rng = ChaCha8Rng::from_seed([6; 32]);
    let ga = GeneticAlgorithm::new(
        RouletteWheelSelection::new(),
        UniformCrossover::new(),
        GaussianMutation::new(fixed(0.0), fixed(10.0)),
    );
    let population = vec![
        individual(&[1.0, 10.0, 100.0]),
        individual(&[2.0, 20.0, 200.0]),
        individual(&[3.0, 30.0, 300.0]),
    ];
    let (children, _) = ga.evolve(&mut rng, &population);
    for child in children {
        for index in 0..3 {
            let gene = child.chromosome.gene(index);
            assert!(population.iter().any(|parent| parent.chromosome.gene(index) == gene));
        }
    }
}

#[test]
fn test_mutation() {
    let mut rng = ChaCha8Rng::from_seed(Default::default());

    let ga = GeneticAlgorithm::new(
        RouletteWheelSelection::new(),
        UniformCrossover::new(),
        GaussianMutation::new(fixed(0.5), fixed(0.5)),
    );

    let mut population = vec![
        individual(&[0.0, 0.0, 0.0]),
        individual(&[1.0, 1.0, 1.0]),
        individual(&[1.0, 2.0, 1.0]),
        individual(&[1.0, 2.0, 4.0]),
    ];

    for _ in 0..10 {
        let (children, _) = ga.evolve(&mut rng, &population);
        population = children;
    }

    let actual: Vec<Vec<i64>> = population
        .iter()
        .map(|one| one.chromosome.genes().iter().map(|gene| gene.raw()).collect())
        .collect();
    let expected: Vec<Vec<i64>> = vec![
        vec![1_260_897_308, 1_280_107_828, 4_258_672_833],
        vec![1_260_897_308, 1_577_015_580, 4_258_672_833],
        vec![975_764_483, 1_885_700_912, 4_625_383_793],
        vec![676_700_026, 2_451_299_578, 3_944_962_650],
    ];
    assert_eq!(actual, expected);
}

struct PickLast;

impl SelectionMethod for PickLast {
    fn select<'a, I: Individual>(&self, _rng: &mut ChaCha8Rng, population: &'a [I]) -> &'a I {
        &population[population.len() - 1]
    }
}

struct TakeFirstParent;

impl CrossoverMethod for TakeFirstParent {
    fn crossover(
        &self,
        _rng: &mut ChaCha8Rng,
        parent_a: &Chromosome,
        _parent_b: &Chromosome,
    ) -> Chromosome {
        Chromosome::new(parent_a.genes().clone())
    }
}

struct AddOne;

impl MutationMethod for AddOne {
    fn mutate(&self, _rng: &mut ChaCha8Rng, child: &mut Chromosome) {
        for index in 0..child.len() {
            child.set(index, child.gene(index).plus(Fixed::one()));
        }
    }
}

#[test]
fn the_engine_applies_the_strategies_it_is_given() {
    let mut rng = ChaCha8Rng::from_seed(Default::default());
    let ga = GeneticAlgorithm::new(PickLast, TakeFirstParent, AddOne);
    let population = vec![
        individual(&[1.0, 2.0]),
        individual(&[3.0, 4.0]),
        individual(&[5.0, 6.0]),
    ];
    let (children, statistics) = ga.evolve(&mut rng, &population);
    assert_eq!(children.len(), 3);
    for child in &children {
        assert_eq!(child.chromosome.genes(), &vec![fixed(6.0), fixed(7.0)]);
        assert_eq!(child.fitness(), fixed(13.0));
    }
    assert_eq!(statistics.min_fitness(), fixed(3.0));
    assert_eq!(statistics.max_fitness(), fixed(11.0));
    assert_eq!(statistics.avg_fitness(), fixed(7.0));
}
