use lib_simulation::animal::{Animal, SPEED_AT_START, SPEED_MAX, SPEED_MIN};
use lib_simulation::animal_individual::AnimalIndividual;
use lib_simulation::brain::Brain;
use lib_simulation::chromosome::Chromosome;
use lib_simulation::eye::Eye;
use lib_simulation::fixed::{Fixed, SCALE};
use lib_simulation::food::Food;
use lib_simulation::genetic::Individual;
use lib_simulation::geometry::{Heading, Point, PI};
use lib_simulation::network::LayerTopology;
use lib_simulation::neuron::DecodeError;
use lib_simulation::world::{World, ANIMALS, FOODS};
use rand::SeedableRng;
use rand_chacha::ChaCha8Rng;

fn fixed(value: f64) -> Fixed {
    Fixed::from_raw((value * 1e9).round() as i64)
}

fn chromosome(genes: &[f64]) -> Chromosome {
    Chromosome::new(genes.iter().map(|&gene| fixed(gene)).collect())
}

/// An animal with an eye of one cell whose brain answers whatever it sees
/// with the given two numbers.
fn steady_animal(speed_answer: f64, rotation_answer: f64) -> Animal {
    let eye = Eye::new(fixed(0.25), fixed(1.0), 1);
    let genes = [
        1.0,
        0.0,
        1.0,
        0.0,
        speed_answer,
        0.0,
        0.0,
        rotation_answer,
        0.0,
        0.0,
    ];
    let brain = Brain::from_chromosome(chromosome(&genes), &eye).unwrap();
    let mut rng = ChaCha8Rng::from_seed(Default::default());
    Animal::new(eye, brain, &mut rng)
}

#[test]
fn the_brain_is_as_wide_as_the_eye_asks() {
    let eye = Eye::default();
    assert_eq!(
        Brain::topology(&eye),
        vec![
            LayerTopology { neurons: 9 },
            LayerTopology { neurons: 18 },
            LayerTopology { neurons: 2 },
        ]
    );
    let mut rng = ChaCha8Rng::from_seed(Default::default());
    let brain = Brain::random(&mut rng, &eye);
    assert_eq!(brain.nn.layers.len(), 2);
    assert_eq!(brain.nn.layers[0].neurons.len(), 18);
    assert_eq!(brain.nn.layers[1].neurons.len(), 2);
    assert!(brain.nn.admits(9));
    assert_eq!(brain.as_chromosome().len(), 18 * 10 + 2 * 19);
}

#[test]
fn a_brain_comes_back_from_its_chromosome() {
    let eye = Eye::default();
    let mut rng = ChaCha8Rng::from_seed([4; 32]);
    let brain = Brain::random(&mut rng, &eye);
    let genes = brain.as_chromosome().into_genes();
    let again = Brain::from_chromosome(Chromosome::new(genes.clone()), &eye).unwrap();
    assert_eq!(again.as_chromosome().into_genes(), genes);
    for (layer, other) in brain.nn.layers.iter().zip(again.nn.layers.iter()) {
        for (neuron, twin) in layer.neurons.iter().zip(other.neurons.iter()) {
            assert_eq!(neuron.bias, twin.bias);
            assert_eq!(neuron.weights, twin.weights);
        }
    }
}

#[test]
fn a_short_chromosome_makes_no_brain() {
    let eye = Eye::default();
    let genes = vec![Fixed::zero(); 217];
    assert_eq!(
        Brain::from_chromosome(Chromosome::new(genes), &eye).err(),
        Some(DecodeError::MissingWeights)
    );
    let mut rng = ChaCha8Rng::from_seed(Default::default());
    assert_eq!(
        Animal::from_chromosome(chromosome(&[1.0, 2.0]), &mut rng).err(),
        Some(DecodeError::MissingWeights)
    );
    let genes = vec![Fixed::zero(); 218];
    assert!(Animal::from_chromosome(Chromosome::new(genes), &mut rng).is_ok());
}

#[test]
fn a_new_animal() {
    let animal = steady_animal(0.0, 0.0);
    assert_eq!(animal.speed().raw(), SPEED_AT_START);
    assert_eq!(animal.speed(), fixed(0.002));
    assert!(SPEED_MIN <= animal.speed().raw() && animal.speed().raw() <= SPEED_MAX);
    assert_eq!(animal.ate, 0);
    assert!(0 <= animal.position().x.raw() && animal.position().x.raw() < SCALE);
    assert!(0 <= animal.position().y.raw() && animal.position().y.raw() < SCALE);
    assert!(-PI <= animal.rotation().raw() && animal.rotation().raw() < PI);
}

#[test]
fn a_drawn_animal() {
    let mut rng = ChaCha8Rng::from_seed([8; 32]);
    let animal = Animal::random(&mut rng);
    assert_eq!(animal.speed().raw(), SPEED_AT_START);
    assert_eq!(animal.speed(), fixed(0.002));
    assert_eq!(animal.eye, Eye::default());
    assert_eq!(animal.ate, 0);
    assert_eq!(animal.as_chromosome().len(), 218);
    let other = Animal::random(&mut rng);
    assert!(animal.position() != other.position());
    assert!(animal.rotation() != other.rotation());
}

#[test]
fn the_answer_of_the_brain_sets_speed_and_rotation() {
    let mut animal = steady_animal(0.001, 0.5);
    animal.speed = fixed(0.002);
    animal.rotation = fixed(1.0);
    let place = animal.position();
    animal.respond(&vec![], &vec![]);
    assert_eq!(animal.speed(), fixed(0.003));
    assert_eq!(animal.rotation(), fixed(1.5));
    assert_eq!(animal.position(), place);
    assert_eq!(animal.ate, 0);
}

#[test]
fn the_speed_stays_within_its_bounds() {
    let mut animal = steady_animal(0.0, 0.0);
    animal.respond(&vec![], &vec![]);
    assert_eq!(animal.speed(), fixed(0.002));
    animal.speed = fixed(0.02);
    animal.respond(&vec![], &vec![]);
    assert_eq!(animal.speed(), fixed(0.005));
    animal.speed = fixed(0.0);
    animal.respond(&vec![], &vec![]);
    assert_eq!(animal.speed(), fixed(0.001));
    let mut animal = steady_animal(7.0, 0.0);
    animal.speed = fixed(-1.0);
    animal.respond(&vec![], &vec![]);
    assert_eq!(animal.speed(), fixed(0.001));
    animal.speed = fixed(-0.197);
    animal.respond(&vec![], &vec![]);
    assert_eq!(animal.speed(), fixed(0.003));
}

#[test]
fn the_rotation_turns_by_a_quarter_turn_at_most_and_wraps() {
    let mut animal = steady_animal(0.0, 5.0);
    animal.rotation = fixed(0.25);
    animal.respond(&vec![], &vec![]);
    assert_eq!(animal.rotation().raw(), 250_000_000 + 1_570_796_327);
    let mut animal = steady_animal(0.0, 0.5);
    animal.rotation = fixed(3.0);
    animal.respond(&vec![], &vec![]);
    assert_eq!(animal.rotation().raw(), -2_783_185_308);
}

#[test]
fn what_the_eye_sees_reaches_the_brain() {
    let eye = Eye::new(fixed(0.25), fixed(1.0), 1);
    let genes = [0.0, 1.0, 0.0, 0.0, 0.0, 0.002, 0.0, 0.0, 1.0, 0.0];
    let brain = Brain::from_chromosome(chromosome(&genes), &eye).unwrap();
    let mut rng = ChaCha8Rng::from_seed(Default::default());
    let mut animal = Animal::new(eye, brain, &mut rng);
    animal.speed = fixed(0.001);
    animal.rotation = fixed(0.0);
    animal.position = Point::new(fixed(0.5), fixed(0.5));
    let foods = vec![
        Food { position: Point::new(fixed(0.5), fixed(0.625)) },
        Food { position: Point::new(fixed(0.375), fixed(0.5)) },
    ];
    animal.respond(&foods, &vec![fixed(0.25), fixed(2.0)]);
    assert_eq!(animal.speed(), fixed(0.002));
    assert_eq!(animal.rotation(), fixed(0.5));
}

#[test]
fn an_animal_moves_along_its_heading_and_around_the_arena() {
    let mut animal = steady_animal(0.0, 0.0);
    animal.position = Point::new(fixed(0.998), fixed(0.5));
    animal.speed = fixed(0.005);
    let rotation = animal.rotation();
    animal.advance(Heading { x: fixed(0.6), y: fixed(-0.8) });
    assert_eq!(animal.position(), Point::new(fixed(0.001), fixed(0.496)));
    assert_eq!(animal.speed(), fixed(0.005));
    assert_eq!(animal.rotation(), rotation);
}

#[test]
fn an_individual_stands_for_its_animal() {
    let mut rng = ChaCha8Rng::from_seed([11; 32]);
    let mut animal = Animal::random(&mut rng);
    animal.ate = 7;
    let genes = animal.as_chromosome().into_genes();
    let individual = AnimalIndividual::from_animal(&animal);
    assert_eq!(individual.fitness(), fixed(7.0));
    assert_eq!(individual.chromosome().genes(), &genes);
    let reborn = individual.into_animal(&mut rng).unwrap();
    assert_eq!(reborn.as_chromosome().into_genes(), genes);
    assert_eq!(reborn.ate, 0);
    assert_eq!(reborn.speed(), fixed(0.002));
}

#[test]
fn an_individual_from_a_chromosome_has_earned_nothing() {
    let individual = AnimalIndividual::from_chromosome(chromosome(&[1.0, 2.0, 3.0]));
    assert_eq!(individual.fitness(), Fixed::zero());
    assert_eq!(individual.chromosome().len(), 3);
    let mut rng = ChaCha8Rng::from_seed(Default::default());
    assert_eq!(individual.into_animal(&mut rng).err(), Some(DecodeError::MissingWeights));
}

#[test]
fn drawn_food_lies_in_the_arena() {
    let mut rng = ChaCha8Rng::from_seed([12; 32]);
    let mut seen = Vec::new();
    for _ in 0..200 {
        let food = Food::random(&mut rng);
        assert!(0 <= food.position().x.raw() && food.position().x.raw() < SCALE);
        assert!(0 <= food.position().y.raw() && food.position().y.raw() < SCALE);
        seen.push(food.position());
    }
    assert!(seen.iter().any(|place| *place != seen[0]));
}

#[test]
fn a_drawn_world() {
    let mut rng = ChaCha8Rng::from_seed([13; 32]);
    let world = World::random(&mut rng);
    assert_eq!(world.animals().len(), ANIMALS);
    assert_eq!(world.foods().len(), FOODS);
    assert_eq!(ANIMALS, 40);
    assert_eq!(FOODS, 60);
    assert!(world.animals().iter().all(|animal| animal.ate == 0));
    assert!(world.animals().iter().all(|animal| animal.eye == Eye::default()));
}
