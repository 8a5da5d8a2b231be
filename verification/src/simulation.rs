//! The driver: one tick after another, and a new generation at a fixed
//! number of ticks.
//!
//! A tick has three parts.  The animals eat what they touch; their brains
//! answer what their eyes see; they move.  How the food lies as seen from an
//! animal, and where a rotation points, is worked out by whoever drives the
//! simulation and handed to it: `step` says after each part what it needs
//! next.

use crate::animal::{Animal, SPEED_AT_START};
use crate::animal_individual::AnimalIndividual;
use crate::brain::Brain;
use crate::entropy::fraction_of;
use crate::eye::Eye;
use crate::fixed::{saturated, Fixed, SCALE};
use crate::gaussian_mutation::GaussianMutation;
use crate::genetic::{fitness_values, genomes, GeneticAlgorithm, Individual};
use crate::geometry::{Heading, Point};
use crate::network::{lemma_shaped_size, topology_size};
use crate::roulette_wheel::RouletteWheelSelection;
use crate::statistics::Statistics;
use crate::uniform_crossover::UniformCrossover;
use crate::world::World;
use rand_chacha::ChaCha8Rng;
use vstd::arithmetic::div_mod::{lemma_fundamental_div_mod, lemma_fundamental_div_mod_converse};
use vstd::prelude::*;

verus! {

/// After how many ticks a generation ends.
pub const GENERATION_LENGTH: usize = 2500;

/// The raw value of the distance from which an animal eats a piece of food.
pub const PICKUP_REACH: i64 = 10_000_000;

/// The raw value of the chance that a gene of a child is touched.
pub const MUTATION_CHANCE: i64 = 10_000_000;

/// The raw value of the most by which a touched gene moves.
pub const MUTATION_COEFFICIENT: i64 = 300_000_000;

/// The engine that breeds the animals.
pub type Engine = GeneticAlgorithm<RouletteWheelSelection, UniformCrossover, GaussianMutation>;

/// What the simulation waits for.
#[derive(Clone, Copy, Debug, PartialEq, Eq, Structural)]
pub enum Phase {
    /// The next tick.
    Resting,
    /// What the animals see, now that they have eaten.
    Looking,
    /// Where the animals head, now that their brains have answered.
    Turning,
}

/// What is handed to the simulation.
#[derive(Debug)]
pub enum Event {
    /// A tick begins.
    Tick,
    /// For each animal, in order, the angle at which each piece of food lies
    /// as seen from it, in the order of the food.  The angle is that between
    /// the first axis of the arena and the straight line to the food, in
    /// radians.
    Seen(Vec<Vec<Fixed>>),
    /// For each animal, in order, the direction in which its rotation points.
    Headed(Vec<Heading>),
}

/// What the simulation asks for next.
#[derive(Debug)]
pub enum Action {
    /// The angles of the food as seen from the animals, in the world as it
    /// is now.
    Look,
    /// The headings of the animals as they are now.
    Head,
    /// Nothing: the tick is over.  It carries the statistics of the
    /// generation where the tick ended one.
    Rest(Option<Statistics>),
}

/// Some animal of `world` lies within reach of some piece of its food.
pub open spec fn touches(world: World) -> bool {
    exists|i: int, j: int|
        0 <= i < world.animals.len() && 0 <= j < world.foods.len() && (#[trigger] world.animals[i]).position.near(
            (#[trigger] world.foods[j]).position,
            PICKUP_REACH as int,
        )
}

/// What eating changes: how much each animal has eaten, and where each
/// piece of food lies.
pub struct Table {
    pub ate: Seq<nat>,
    pub foods: Seq<Point>,
}

/// What `world` holds of what eating changes.
pub open spec fn table_of(world: World) -> Table {
    Table {
        ate: Seq::new(world.animals.len() as nat, |i: int| world.animals[i].ate as nat),
        foods: Seq::new(world.foods.len() as nat, |j: int| world.foods[j].position),
    }
}

/// Where each animal of `world` is.
pub open spec fn positions_of(world: World) -> Seq<Point> {
    Seq::new(world.animals.len() as nat, |i: int| world.animals[i].position)
}

/// The table after the animal at `positions[i]` has had its chance at the
/// food `j`: where the food lies within reach, the animal has eaten one
/// piece more, as far as the machine counts, and the food lies at `place`.
pub open spec fn bite(positions: Seq<Point>, table: Table, i: int, j: int, place: Point) -> Table {
    if positions[i].near(table.foods[j], PICKUP_REACH as int) {
        Table {
            ate: table.ate.update(
                i,
                if table.ate[i] < usize::MAX {
                    table.ate[i] + 1
                } else {
                    table.ate[i]
                },
            ),
            foods: table.foods.update(j, place),
        }
    } else {
        table
    }
}

/// The table after the first `count` chances: the animals take their turns
/// in order, and each animal goes through the food in order.  The chance
/// with the number `k` moves the food, if it is eaten, to `places[k]`.
pub open spec fn sweep(positions: Seq<Point>, table: Table, places: Seq<Point>, count: nat) -> Table
    decreases count,
{
    if count == 0 {
        table
    } else {
        let k = count - 1;
        let foods = table.foods.len() as int;
        bite(positions, sweep(positions, table, places, k as nat), k / foods, k % foods, places[k])
    }
}

/// What a sweep makes of a table depends on no place beyond the chances
/// taken.
pub proof fn lemma_sweep_prefix(
    positions: Seq<Point>,
    table: Table,
    places: Seq<Point>,
    longer: Seq<Point>,
    count: nat,
)
    requires
        count <= places.len() <= longer.len(),
        forall|k: int| 0 <= k < places.len() ==> longer[k] == places[k],
    ensures
        sweep(positions, table, longer, count) == sweep(positions, table, places, count),
    decreases count,
{
    if count > 0 {
        lemma_sweep_prefix(positions, table, places, longer, (count - 1) as nat);
    }
}

/// Where no animal lies within reach of any food, a sweep changes nothing.
pub proof fn lemma_sweep_without_touch(world: World, places: Seq<Point>, count: nat)
    requires
        !touches(world),
        count <= world.animals.len() * world.foods.len(),
    ensures
        sweep(positions_of(world), table_of(world), places, count) == table_of(world),
    decreases count,
{
    if count > 0 {
        let k = count - 1;
        let foods = world.foods.len() as int;
        lemma_sweep_without_touch(world, places, k as nat);
        lemma_chance(world.animals.len() as int, foods, k);
        let i = k / foods;
        let j = k % foods;
        assert(!world.animals[i].position.near(world.foods[j].position, PICKUP_REACH as int));
    }
}

/// The chance with the number `k` is that of one animal at one food.
pub proof fn lemma_chance(animals: int, foods: int, k: int)
    requires
        0 <= k < animals * foods,
        0 <= animals,
        0 <= foods,
    ensures
        0 <= k / foods < animals,
        0 <= k % foods < foods,
{
    assert(foods > 0) by (nonlinear_arith)
        requires
            0 <= k < animals * foods,
            0 <= foods,
    ;
    lemma_fundamental_div_mod(k, foods);
    let q = k / foods;
    assert(0 <= q < animals) by (nonlinear_arith)
        requires
            k == foods * q + k % foods,
            0 <= k % foods < foods,
            0 <= k < animals * foods,
    ;
}

/// `after` is what the animals' eating can make of `before`: no animal
/// changes but in what it has eaten, and there is a place that can be drawn
/// for each chance of an animal at a piece of food such that `after` holds
/// what the sweep with those places makes of `before`.
pub open spec fn collided(before: World, after: World) -> bool {
    &&& after.animals.len() == before.animals.len()
    &&& after.foods.len() == before.foods.len()
    &&& forall|i: int|
        0 <= i < before.animals.len() ==> {
            &&& (#[trigger] after.animals[i]).position == before.animals[i].position
            &&& after.animals[i].rotation == before.animals[i].rotation
            &&& after.animals[i].speed == before.animals[i].speed
            &&& after.animals[i].eye == before.animals[i].eye
            &&& after.animals[i].brain == before.animals[i].brain
        }
    &&& exists|places: Seq<Point>|
        {
            &&& places.len() == before.animals.len() * before.foods.len()
            &&& forall|k: int| 0 <= k < places.len() ==> (#[trigger] places[k]).drawn()
            &&& table_of(after) == #[trigger] sweep(
                positions_of(before),
                table_of(before),
                places,
                places.len(),
            )
        }
}

/// `angles` has a row for each animal of `world`, and each row an angle for
/// each piece of its food.
pub open spec fn covers(angles: Seq<Vec<Fixed>>, world: World) -> bool {
    &&& angles.len() == world.animals.len()
    &&& forall|i: int| 0 <= i < angles.len() ==> (#[trigger] angles[i]).len() == world.foods.len()
}

/// `after` is `before` once each animal's brain has answered what its eye
/// sees of the food, which lies at the angles of the animal's row of
/// `angles`: speed and rotation are set by the answer, and nothing else
/// changes.
pub open spec fn responded(before: World, angles: Seq<Vec<Fixed>>, after: World) -> bool {
    &&& after.foods@ == before.foods@
    &&& after.animals.len() == before.animals.len()
    &&& forall|i: int|
        0 <= i < before.animals.len() ==> {
            &&& (#[trigger] after.animals[i]).speed@ == before.animals[i].next_speed(
                before.foods@,
                angles[i]@,
            )
            &&& after.animals[i].rotation@ == before.animals[i].next_rotation(
                before.foods@,
                angles[i]@,
            )
            &&& after.animals[i].position == before.animals[i].position
            &&& after.animals[i].eye == before.animals[i].eye
            &&& after.animals[i].brain == before.animals[i].brain
            &&& after.animals[i].ate == before.animals[i].ate
        }
}

/// `after` is `before` once each animal has moved by its speed along its
/// heading, around the arena where it leaves it; nothing else changes.
pub open spec fn moved(before: World, headings: Seq<Heading>, after: World) -> bool {
    &&& after.foods@ == before.foods@
    &&& after.animals.len() == before.animals.len()
    &&& forall|i: int|
        0 <= i < before.animals.len() ==> {
            &&& (#[trigger] after.animals[i]).position == before.animals[i].position.moved(
                before.animals[i].speed,
                headings[i],
            )
            &&& after.animals[i].position.in_arena()
            &&& after.animals[i].rotation == before.animals[i].rotation
            &&& after.animals[i].speed == before.animals[i].speed
            &&& after.animals[i].eye == before.animals[i].eye
            &&& after.animals[i].brain == before.animals[i].brain
            &&& after.animals[i].ate == before.animals[i].ate
        }
}

/// The raw fitness of each animal: the number of pieces of food that it has
/// eaten.
pub open spec fn harvest(animals: Seq<Animal>) -> Seq<int> {
    Seq::new(animals.len(), |i: int| saturated(animals[i].ate * SCALE))
}

/// The parameters of each animal's brain.
pub open spec fn heritage(animals: Seq<Animal>) -> Seq<Seq<Fixed>> {
    Seq::new(animals.len(), |i: int| animals[i].brain.nn.parameters())
}

/// `animals` are a generation that `engine` can breed of `parents`: as
/// many animals, each with the eye that is usual and a brain bred of the
/// brains of two of `parents` that the selection may pick by what they have
/// eaten.  Each is placed as a drawn animal is, goes at the speed at which
/// every animal starts, and has eaten nothing.
pub open spec fn bred(engine: Engine, parents: Seq<Animal>, animals: Seq<Animal>) -> bool {
    &&& animals.len() == parents.len()
    &&& forall|k: int|
        0 <= k < animals.len() ==> {
            &&& (#[trigger] animals[k]).wf()
            &&& animals[k].eye == Eye::usual()
            &&& engine.breeds(
                heritage(parents),
                harvest(parents),
                animals[k].brain.nn.parameters(),
            )
            &&& animals[k].posed()
            &&& animals[k].position.in_arena()
            &&& animals[k].speed@ == SPEED_AT_START
            &&& animals[k].paced()
            &&& animals[k].ate == 0
        }
}

/// `after` is a world that `engine` can make of `before` at the end of a
/// generation: its animals are bred of those of `before`, and it has as much
/// food, at drawn places.
pub open spec fn renewed(engine: Engine, before: World, after: World) -> bool {
    &&& bred(engine, before.animals@, after.animals@)
    &&& after.foods.len() == before.foods.len()
    &&& forall|j: int|
        0 <= j < after.foods.len() ==> (#[trigger] after.foods[j]).position.drawn()
            && after.foods[j].position.in_arena()
}

pub struct Simulation {
    world: World,
    ga: Engine,
    age: usize,
    phase: Phase,
}

impl Simulation {
    /// The world as it is.
    pub closed spec fn world_view(&self) -> World {
        self.world
    }

    /// The engine that breeds the animals.
    pub closed spec fn engine(&self) -> Engine {
        self.ga
    }

    /// How many ticks of the generation are over.
    pub closed spec fn age_view(&self) -> nat {
        self.age as nat
    }

    /// What the simulation waits for.
    pub closed spec fn phase_view(&self) -> Phase {
        self.phase
    }

    /// The world is in order and the generation is not over.
    pub closed spec fn wf(&self) -> bool {
        self.world.wf() && self.age < GENERATION_LENGTH
    }

    /// While the simulation is in order its generation is not over, and its
    /// world is in order: there is an animal, every animal lies in the arena
    /// and goes at a speed within the bounds, and all food lies in the arena.
    pub proof fn lemma_age_bounded(&self)
        requires
            self.wf(),
        ensures
            self.age_view() < GENERATION_LENGTH,
            self.world_view().wf(),
    {
    }

    /// What the simulation asks for while it waits in `phase`.
    pub open spec fn pending(phase: Phase) -> Action {
        match phase {
            Phase::Resting => Action::Rest(None),
            Phase::Looking => Action::Look,
            Phase::Turning => Action::Head,
        }
    }

    /// A simulation of a drawn world, at the start of a generation.
    pub fn random(rng: &mut ChaCha8Rng) -> (simulation: Simulation)
        ensures
            simulation.wf(),
            simulation.age_view() == 0,
            simulation.phase_view() == Phase::Resting,
            simulation.world_view().fresh(),
            simulation.engine().mutation_method.chance_value() == MUTATION_CHANCE,
            simulation.engine().mutation_method.coefficient_value() == MUTATION_COEFFICIENT,
    {
        let world = World::random(rng);
        let ga = GeneticAlgorithm::new(
            RouletteWheelSelection::new(),
            UniformCrossover::new(),
            GaussianMutation::new(
                Fixed { raw: MUTATION_CHANCE },
                Fixed { raw: MUTATION_COEFFICIENT },
            ),
        );
        Simulation { world, ga, age: 0, phase: Phase::Resting }
    }

    pub fn world(&self) -> (world: &World)
        ensures
            *world == self.world_view(),
    {
        &self.world
    }

    pub fn age(&self) -> (age: usize)
        ensures
            age == self.age_view(),
    {
        self.age
    }

    pub fn phase(&self) -> (phase: Phase)
        ensures
            phase == self.phase_view(),
    {
        self.phase
    }

    /// Takes the simulation one part of a tick further, if `event` is what
    /// it waits for, and says what it needs next.  An event that it does not
    /// wait for, or one that has not one entry for each animal, or for
    /// each animal and each piece of food, changes nothing and is answered
    /// by what is still needed.
    ///
    /// Whatever the event, the world keeps its number of animals and of
    /// pieces of food.  In a tick the animals first eat, then their brains
    /// answer, then they move.  The tick that makes the age reach the length of a generation
    /// ends with a new generation in place of the old, the age back at zero,
    /// and the statistics of the old generation as the answer.
    pub fn step(&mut self, rng: &mut ChaCha8Rng, event: Event) -> (action: Action)
        requires
            old(self).wf(),
        ensures
            final(self).wf(),
            final(self).engine() == old(self).engine(),
            final(self).world_view().animals.len() == old(self).world_view().animals.len(),
            final(self).world_view().foods.len() == old(self).world_view().foods.len(),
            match (old(self).phase_view(), event) {
                (Phase::Resting, Event::Tick) => {
                    &&& action == Action::Look
                    &&& final(self).phase_view() == Phase::Looking
                    &&& final(self).age_view() == old(self).age_view()
                    &&& collided(old(self).world_view(), final(self).world_view())
                },
                (Phase::Looking, Event::Seen(angles)) if covers(angles@, old(self).world_view()) => {
                    &&& action == Action::Head
                    &&& final(self).phase_view() == Phase::Turning
                    &&& final(self).age_view() == old(self).age_view()
                    &&& responded(old(self).world_view(), angles@, final(self).world_view())
                },
                (Phase::Turning, Event::Headed(headings)) if headings.len() == old(
                    self,
                ).world_view().animals.len() => {
                    &&& final(self).phase_view() == Phase::Resting
                    &&& if old(self).age_view() + 1 < GENERATION_LENGTH {
                        &&& action == Action::Rest(None)
                        &&& final(self).age_view() == old(self).age_view() + 1
                        &&& moved(old(self).world_view(), headings@, final(self).world_view())
                    } else {
                        &&& final(self).age_view() == 0
                        &&& action matches Action::Rest(Some(statistics))
                        &&& statistics.summarizes(harvest(old(self).world_view().animals@))
                        &&& 0 <= statistics.min_fitness@ <= statistics.avg_fitness@
                            <= statistics.max_fitness@
                        &&& renewed(old(self).engine(), old(self).world_view(), final(self).world_view())
                    }
                },
                _ => {
                    &&& action == Self::pending(old(self).phase_view())
                    &&& final(self).phase_view() == old(self).phase_view()
                    &&& final(self).age_view() == old(self).age_view()
                    &&& final(self).world_view() == old(self).world_view()
                },
            },
    {
        match (self.phase, event) {
            (Phase::Resting, Event::Tick) => {
                self.process_collisions(rng);
                self.phase = Phase::Looking;
                Action::Look
            },
            (Phase::Looking, Event::Seen(angles)) => {
                if !self.covered_by(&angles) {
                    return Action::Look;
                }
                self.process_brain(&angles);
                self.phase = Phase::Turning;
                Action::Head
            },
            (Phase::Turning, Event::Headed(headings)) => {
                if headings.len() != self.world.animals.len() {
                    return Action::Head;
                }
                self.process_movement(&headings);
                self.phase = Phase::Resting;
                self.age += 1;
                if self.age >= GENERATION_LENGTH {
                    proof {
                        assert(harvest(self.world.animals@) =~= harvest(old(self).world.animals@));
                        assert(heritage(self.world.animals@) =~= heritage(old(self).world.animals@));
                    }
                    let statistics = self.evolve(rng);
                    Action::Rest(Some(statistics))
                } else {
                    Action::Rest(None)
                }
            },
            (Phase::Resting, _) => Action::Rest(None),
            (Phase::Looking, _) => Action::Look,
            (Phase::Turning, _) => Action::Head,
        }
    }

    /// Whether `angles` has a row for each animal and in each row an angle
    /// for each piece of food.
    fn covered_by(&self, angles: &Vec<Vec<Fixed>>) -> (whole: bool)
        ensures
            whole == covers(angles@, self.world),
    {
        if angles.len() != self.world.animals.len() {
            return false;
        }
        let mut i: usize = 0;
        while i < angles.len()
            invariant
                i <= angles.len(),
                forall|k: int| 0 <= k < i ==> (#[trigger] angles[k]).len() == self.world.foods.len(),
            decreases angles.len() - i,
        {
            if angles[i].len() != self.world.foods.len() {
                return false;
            }
            i += 1;
        }
        true
    }

    fn process_collisions(&mut self, rng: &mut ChaCha8Rng)
        requires
            old(self).world.wf(),
        ensures
            collided(old(self).world, final(self).world),
            final(self).world.wf(),
            final(self).ga == old(self).ga,
            final(self).age == old(self).age,
            final(self).phase == old(self).phase,
    {
        let ghost before = self.world;
        let ghost positions = positions_of(before);
        let ghost start = table_of(before);
        let ghost mut places: Seq<Point> = Seq::empty();
        let mut i: usize = 0;
        proof {
            assert(0 * before.foods.len() == 0) by (nonlinear_arith);
        }
        while i < self.world.animals.len()
            invariant
                self.ga == old(self).ga,
                self.age == old(self).age,
                self.phase == old(self).phase,
                before == old(self).world,
                positions == positions_of(before),
                start == table_of(before),
                before.wf(),
                forall|f: int|
                    0 <= f < self.world.foods.len() ==> (#[trigger] self.world.foods[f]).position.in_arena(),
                forall|k: int|
                    0 <= k < before.animals.len() ==> (#[trigger] self.world.animals[k]).wf()
                        && self.world.animals[k].paced(),
                i <= before.animals.len(),
                self.world.animals.len() == before.animals.len(),
                self.world.foods.len() == before.foods.len(),
                places.len() == i * before.foods.len(),
                forall|k: int| 0 <= k < places.len() ==> (#[trigger] places[k]).drawn(),
                table_of(self.world) == sweep(positions, start, places, places.len()),
                forall|k: int|
                    0 <= k < before.animals.len() ==> {
                        &&& (#[trigger] self.world.animals[k]).position == before.animals[k].position
                        &&& self.world.animals[k].rotation == before.animals[k].rotation
                        &&& self.world.animals[k].speed == before.animals[k].speed
                        &&& self.world.animals[k].eye == before.animals[k].eye
                        &&& self.world.animals[k].brain == before.animals[k].brain
                    },
            decreases before.animals.len() - i,
        {
            let mut j: usize = 0;
            while j < self.world.foods.len()
                invariant
                    self.ga == old(self).ga,
                    self.age == old(self).age,
                    self.phase == old(self).phase,
                    before == old(self).world,
                    positions == positions_of(before),
                    start == table_of(before),
                    before.wf(),
                    forall|f: int|
                        0 <= f < self.world.foods.len() ==> (#[trigger] self.world.foods[f]).position.in_arena(),
                    forall|k: int|
                        0 <= k < before.animals.len() ==> (#[trigger] self.world.animals[k]).wf()
                            && self.world.animals[k].paced(),
                    i < before.animals.len(),
                    j <= before.foods.len(),
                    self.world.animals.len() == before.animals.len(),
                    self.world.foods.len() == before.foods.len(),
                    places.len() == i * before.foods.len() + j,
                    forall|k: int| 0 <= k < places.len() ==> (#[trigger] places[k]).drawn(),
                    table_of(self.world) == sweep(positions, start, places, places.len()),
                    forall|k: int|
                        0 <= k < before.animals.len() ==> {
                            &&& (#[trigger] self.world.animals[k]).position
                                == before.animals[k].position
                            &&& self.world.animals[k].rotation == before.animals[k].rotation
                            &&& self.world.animals[k].speed == before.animals[k].speed
                            &&& self.world.animals[k].eye == before.animals[k].eye
                            &&& self.world.animals[k].brain == before.animals[k].brain
                        },
                decreases before.foods.len() - j,
            {
                let ghost table = table_of(self.world);
                let ghost chance = places.len();
                proof {
                    assert(i * before.foods.len() == before.foods.len() * i) by (nonlinear_arith);
                    lemma_fundamental_div_mod_converse(
                        chance as int,
                        before.foods.len() as int,
                        i as int,
                        j as int,
                    );
                    assert(positions[i as int] == self.world.animals[i as int].position);
                    assert(table.foods[j as int] == self.world.foods[j as int].position);
                    assert(table.ate[i as int] == self.world.animals[i as int].ate);
                }
                let place = self.world.animals[i].position;
                if place.within(&self.world.foods[j].position, Fixed { raw: PICKUP_REACH }) {
                    if self.world.animals[i].ate < usize::MAX {
                        self.world.animals[i].ate += 1;
                    }
                    let drawn = Point::random(rng);
                    self.world.foods[j].position = drawn;
                    proof {
                        let longer = places.push(drawn);
                        lemma_sweep_prefix(positions, start, places, longer, chance);
                        let next = bite(positions, table, i as int, j as int, drawn);
                        assert(table_of(self.world).ate =~= next.ate);
                        assert(table_of(self.world).foods =~= next.foods);
                        places = longer;
                    }
                } else {
                    proof {
                        let spare = Point { x: Fixed { raw: 0 }, y: Fixed { raw: 0 } };
                        assert(spare.drawn()) by {
                            assert(fraction_of(0u32 as int) == 0);
                        }
                        let longer = places.push(spare);
                        lemma_sweep_prefix(positions, start, places, longer, chance);
                        places = longer;
                    }
                }
                j += 1;
            }
            proof {
                assert(i * before.foods.len() + before.foods.len() == (i + 1) * before.foods.len())
                    by (nonlinear_arith);
            }
            i += 1;
        }
    }

    fn process_brain(&mut self, angles: &Vec<Vec<Fixed>>)
        requires
            old(self).world.wf(),
            covers(angles@, old(self).world),
        ensures
            responded(old(self).world, angles@, final(self).world),
            final(self).world.wf(),
            final(self).ga == old(self).ga,
            final(self).age == old(self).age,
            final(self).phase == old(self).phase,
    {
        let ghost before = self.world;
        let mut i: usize = 0;
        while i < self.world.animals.len()
            invariant
                self.ga == old(self).ga,
                self.age == old(self).age,
                self.phase == old(self).phase,
                before == old(self).world,
                before.wf(),
                covers(angles@, before),
                i <= before.animals.len(),
                self.world.foods == before.foods,
                self.world.animals.len() == before.animals.len(),
                forall|k: int| i <= k < before.animals.len() ==> self.world.animals[k] == before.animals[k],
                forall|k: int|
                    0 <= k < i ==> {
                        &&& (#[trigger] self.world.animals[k]).speed@ == before.animals[k].next_speed(
                            before.foods@,
                            angles[k]@,
                        )
                        &&& self.world.animals[k].rotation@ == before.animals[k].next_rotation(
                            before.foods@,
                            angles[k]@,
                        )
                        &&& self.world.animals[k].position == before.animals[k].position
                        &&& self.world.animals[k].eye == before.animals[k].eye
                        &&& self.world.animals[k].brain == before.animals[k].brain
                        &&& self.world.animals[k].ate == before.animals[k].ate
                    },
            decreases before.animals.len() - i,
        {
            assert(self.world.animals[i as int] == before.animals[i as int]);
            assert(before.animals[i as int].wf());
            self.world.animals[i].respond(&self.world.foods, &angles[i]);
            i += 1;
        }
    }

    fn process_movement(&mut self, headings: &Vec<Heading>)
        requires
            old(self).world.wf(),
            headings.len() == old(self).world.animals.len(),
        ensures
            moved(old(self).world, headings@, final(self).world),
            final(self).world.wf(),
            final(self).ga == old(self).ga,
            final(self).age == old(self).age,
            final(self).phase == old(self).phase,
    {
        let ghost before = self.world;
        let mut i: usize = 0;
        while i < self.world.animals.len()
            invariant
                self.ga == old(self).ga,
                self.age == old(self).age,
                self.phase == old(self).phase,
                before == old(self).world,
                headings.len() == before.animals.len(),
                i <= before.animals.len(),
                self.world.foods == before.foods,
                self.world.animals.len() == before.animals.len(),
                forall|k: int| i <= k < before.animals.len() ==> self.world.animals[k] == before.animals[k],
                forall|k: int|
                    0 <= k < i ==> {
                        &&& (#[trigger] self.world.animals[k]).position == before.animals[k].position.moved(
                            before.animals[k].speed,
                            headings[k],
                        )
                        &&& self.world.animals[k].position.in_arena()
                        &&& self.world.animals[k].rotation == before.animals[k].rotation
                        &&& self.world.animals[k].speed == before.animals[k].speed
                        &&& self.world.animals[k].eye == before.animals[k].eye
                        &&& self.world.animals[k].brain == before.animals[k].brain
                        &&& self.world.animals[k].ate == before.animals[k].ate
                    },
            decreases before.animals.len() - i,
        {
            self.world.animals[i].advance(headings[i]);
            i += 1;
        }
    }

    fn evolve(&mut self, rng: &mut ChaCha8Rng) -> (statistics: Statistics)
        requires
            old(self).world.wf(),
        ensures
            final(self).age == 0,
            final(self).ga == old(self).ga,
            final(self).phase == old(self).phase,
            final(self).world.wf(),
            statistics.summarizes(harvest(old(self).world.animals@)),
            0 <= statistics.min_fitness@ <= statistics.avg_fitness@ <= statistics.max_fitness@,
            renewed(old(self).ga, old(self).world, final(self).world),
    {
        self.age = 0;
        let ghost before = self.world;
        let mut current_population: Vec<AnimalIndividual> = Vec::new();
        while current_population.len() < self.world.animals.len()
            invariant
                *self == (Simulation { age: 0, ..*old(self) }),
                current_population.len() <= self.world.animals.len(),
                forall|k: int|
                    0 <= k < current_population.len() ==> {
                        &&& (#[trigger] current_population[k]).fitness_value() == saturated(
                            self.world.animals[k].ate * SCALE,
                        )
                        &&& current_population[k].genome() == self.world.animals[k].brain.nn.parameters()
                    },
            decreases self.world.animals.len() - current_population.len(),
        {
            let individual = AnimalIndividual::from_animal(
                &self.world.animals[current_population.len()],
            );
            current_population.push(individual);
        }
        let ghost size = topology_size(Brain::layout(Eye::usual()));
        proof {
            assert(fitness_values(current_population@) =~= harvest(before.animals@));
            assert(genomes(current_population@) =~= heritage(before.animals@));
            assert forall|k: int| 0 <= k < current_population.len() implies (
            #[trigger] current_population[k]).genome().len() == size by {
                lemma_shaped_size(before.animals[k].brain.nn.layers@, Brain::layout(Eye::usual()));
            }
        }
        let (evolved_population, statistics) = self.ga.evolve(rng, current_population.as_slice());
        let mut waiting = evolved_population;
        let ghost children = waiting@;
        let mut animals: Vec<Animal> = Vec::new();
        while waiting.len() > 0
            invariant
                *self == (Simulation { age: 0, ..*old(self) }),
                before == old(self).world,
                children.len() == before.animals.len(),
                animals.len() <= children.len(),
                size == topology_size(Brain::layout(Eye::usual())),
                waiting@ == children.skip(animals.len() as int),
                forall|k: int|
                    0 <= k < children.len() ==> {
                        &&& (#[trigger] children[k]).genome().len() == size
                        &&& self.ga.breeds(
                            heritage(before.animals@),
                            harvest(before.animals@),
                            children[k].genome(),
                        )
                    },
                forall|k: int|
                    0 <= k < animals.len() ==> {
                        &&& (#[trigger] animals[k]).wf()
                        &&& animals[k].eye == Eye::usual()
                        &&& self.ga.breeds(
                            heritage(before.animals@),
                            harvest(before.animals@),
                            animals[k].brain.nn.parameters(),
                        )
                        &&& animals[k].posed()
                        &&& animals[k].position.in_arena()
                        &&& animals[k].speed@ == SPEED_AT_START
                        &&& animals[k].paced()
                        &&& animals[k].ate == 0
                    },
            decreases waiting.len(),
        {
            let individual = waiting.remove(0);
            let ghost genome = individual.genome();
            proof {
                assert(children.skip(animals.len() as int)[0] == children[animals.len() as int]);
                assert(individual == children[animals.len() as int]);
                assert(waiting@ =~= children.skip(animals.len() + 1));
                assert(genome.len() == size);
                assert(genome.take(size as int) =~= genome);
            }
            match individual.into_animal(rng) {
                Ok(animal) => {
                    animals.push(animal);
                },
                Err(_) => {
                    unreached::<()>();
                },
            }
        }
        self.world.animals = animals;
        let mut j: usize = 0;
        while j < self.world.foods.len()
            invariant
                self.ga == old(self).ga,
                self.age == 0,
                self.phase == old(self).phase,
                before == old(self).world,
                self.world.foods.len() == before.foods.len(),
                j <= self.world.foods.len(),
                bred(self.ga, before.animals@, self.world.animals@),
                forall|f: int|
                    0 <= f < j ==> (#[trigger] self.world.foods[f]).position.drawn()
                        && self.world.foods[f].position.in_arena(),
            decreases self.world.foods.len() - j,
        {
            self.world.foods[j].position = Point::random(rng);
            j += 1;
        }
        proof {
            statistics.lemma_ordered(harvest(before.animals@));
        }
        statistics
    }
}

} // verus!
