//! One animal: where it is, where it looks, how fast it goes, and how much
//! it has eaten.

use crate::brain::Brain;
use crate::chromosome::Chromosome;
use crate::entropy::{bits, part, part_of, signed_units};
use crate::eye::{sightings_of, Eye};
use crate::fixed::{clamped, sum_of, Fixed};
use crate::food::Food;
use crate::geometry::{wrap, wrapped, Heading, Point, FRAC_PI_2, PI, TWO_PI};
use crate::network::topology_size;
use crate::neuron::DecodeError;
use rand_chacha::ChaCha8Rng;
use vstd::prelude::*;

verus! {

/// The raw value of the least speed of an animal.
pub const SPEED_MIN: i64 = 1_000_000;

/// The raw value of the greatest speed of an animal.
pub const SPEED_MAX: i64 = 5_000_000;

/// The raw value of the most by which the speed changes in one tick.
pub const SPEED_ACCEL: i64 = 200_000_000;

/// The raw value of the most by which the rotation changes in one tick.
pub const ROTATION_ACCEL: i64 = FRAC_PI_2;

/// The raw value of the speed at which every animal starts.
pub const SPEED_AT_START: i64 = 2_000_000;

#[derive(Debug)]
pub struct Animal {
    pub position: Point,
    /// The angle, in radians, between the first axis of the arena and the
    /// direction in which the animal looks and moves.
    pub rotation: Fixed,
    pub speed: Fixed,
    pub eye: Eye,
    pub brain: Brain,
    /// How many pieces of food the animal has eaten.
    pub ate: usize,
}

/// `rotation` is one that can be drawn: the part of a whole turn that some
/// 32 bits stand for, brought between minus half a turn and half a turn.
pub open spec fn drawn_rotation(rotation: Fixed) -> bool {
    exists|bits: u32|
        rotation@ == wrapped(#[trigger] part_of(bits as int, TWO_PI as int), -PI as int, PI as int)
}

impl Animal {
    /// The animal is where, and looks as, a drawn animal can.
    pub open spec fn posed(&self) -> bool {
        self.position.drawn() && drawn_rotation(self.rotation)
    }

    /// A drawn animal is in the arena, and its rotation lies between minus
    /// half a turn and half a turn.
    pub proof fn lemma_posed(&self)
        requires
            self.posed(),
        ensures
            self.position.in_arena(),
            -PI <= self.rotation@ < PI,
    {
        self.position.lemma_drawn_in_arena();
    }

    /// The speed lies within the bounds of an animal's speed.
    pub open spec fn paced(&self) -> bool {
        SPEED_MIN <= self.speed@ <= SPEED_MAX
    }

    /// The eye is in order and the brain is the one that goes with it.
    pub open spec fn wf(&self) -> bool {
        self.eye.wf() && self.brain.fits(self.eye)
    }

    /// What the brain answers to what the eye makes of `foods`, each piece
    /// of which lies at the angle that `angles` gives for it.
    pub open spec fn response(&self, foods: Seq<Food>, angles: Seq<Fixed>) -> Seq<Fixed> {
        self.brain.nn.response(
            self.eye.vision(self.rotation, sightings_of(self.position, foods, angles)),
        )
    }

    /// The raw value of the speed after the brain has answered: the first
    /// answer, held to the greatest change of speed, is added, and the sum
    /// is held to the speeds of an animal.
    pub open spec fn next_speed(&self, foods: Seq<Food>, angles: Seq<Fixed>) -> int {
        let change = clamped(
            self.response(foods, angles)[0]@,
            -SPEED_ACCEL as int,
            SPEED_ACCEL as int,
        );
        clamped(sum_of(self.speed@, change), SPEED_MIN as int, SPEED_MAX as int)
    }

    /// The raw value of the rotation after the brain has answered: the
    /// second answer, held to the greatest change of rotation, is added, and
    /// the sum is brought back between minus half a turn and half a turn.
    pub open spec fn next_rotation(&self, foods: Seq<Food>, angles: Seq<Fixed>) -> int {
        let change = clamped(
            self.response(foods, angles)[1]@,
            -ROTATION_ACCEL as int,
            ROTATION_ACCEL as int,
        );
        wrapped(self.rotation@ + change, -PI as int, PI as int)
    }

    /// An animal with the given eye and brain at a drawn place, looking in
    /// a drawn direction; the place is drawn first.
    pub fn new(eye: Eye, brain: Brain, rng: &mut ChaCha8Rng) -> (animal: Animal)
        requires
            eye.wf(),
            brain.fits(eye),
        ensures
            animal.wf(),
            animal.eye == eye,
            animal.brain == brain,
            animal.posed(),
            animal.position.in_arena(),
            animal.speed@ == SPEED_AT_START,
            animal.paced(),
            animal.ate == 0,
    {
        let position = Point::random(rng);
        let rotation = Self::random_rotation(rng);
        Animal { position, rotation, speed: Fixed { raw: SPEED_AT_START }, eye, brain, ate: 0 }
    }

    /// An animal with the eye that is usual and a drawn brain, place and
    /// direction, drawn in that order.
    pub fn random(rng: &mut ChaCha8Rng) -> (animal: Animal)
        ensures
            animal.wf(),
            animal.eye == Eye::usual(),
            signed_units(animal.brain.nn.parameters()),
            animal.posed(),
            animal.position.in_arena(),
            animal.speed@ == SPEED_AT_START,
            animal.paced(),
            animal.ate == 0,
    {
        let eye = Eye::default();
        let brain = Brain::random(rng, &eye);
        let position = Point::random(rng);
        let rotation = Self::random_rotation(rng);
        Animal { position, rotation, speed: Fixed { raw: SPEED_AT_START }, eye, brain, ate: 0 }
    }

    /// A rotation drawn from the whole turn.
    fn random_rotation(rng: &mut ChaCha8Rng) -> (rotation: Fixed)
        ensures
            drawn_rotation(rotation),
    {
        let turn = part(bits(rng), Fixed { raw: TWO_PI });
        wrap(turn.raw as i128, -PI, PI)
    }

    pub fn position(&self) -> (position: Point)
        ensures
            position == self.position,
    {
        self.position
    }

    pub fn rotation(&self) -> (rotation: Fixed)
        ensures
            rotation == self.rotation,
    {
        self.rotation
    }

    pub fn speed(&self) -> (speed: Fixed)
        ensures
            speed == self.speed,
    {
        self.speed
    }

    /// The parameters of the brain as a chromosome.
    pub fn as_chromosome(&self) -> (chromosome: Chromosome)
        ensures
            chromosome@ == self.brain.nn.parameters(),
    {
        self.brain.as_chromosome()
    }

    /// An animal with the eye that is usual and the brain that `chromosome`
    /// holds, at a drawn place.  It fails where the chromosome has too few
    /// genes for such a brain, and then draws nothing.
    pub fn from_chromosome(chromosome: Chromosome, rng: &mut ChaCha8Rng) -> (decoded: Result<
        Animal,
        DecodeError,
    >)
        ensures
            decoded is Ok <==> topology_size(Brain::layout(Eye::usual()))
                <= chromosome@.len(),
            decoded matches Ok(animal) ==> {
                &&& animal.wf()
                &&& animal.eye == Eye::usual()
                &&& animal.brain.nn.parameters() == chromosome@.take(
                    topology_size(Brain::layout(Eye::usual())) as int,
                )
                &&& animal.posed()
                &&& animal.position.in_arena()
                &&& animal.speed@ == SPEED_AT_START
                &&& animal.paced()
                &&& animal.ate == 0
            },
    {
        let eye = Eye::default();
        match Brain::from_chromosome(chromosome, &eye) {
            Ok(brain) => Ok(Self::new(eye, brain, rng)),
            Err(error) => Err(error),
        }
    }

    /// Lets the brain answer what the eye makes of `foods`, each piece of
    /// which lies at the angle that `angles` gives for it, and sets speed
    /// and rotation by the answer.
    pub fn respond(&mut self, foods: &Vec<Food>, angles: &Vec<Fixed>)
        requires
            old(self).wf(),
            angles.len() == foods.len(),
        ensures
            final(self).speed@ == old(self).next_speed(foods@, angles@),
            final(self).rotation@ == old(self).next_rotation(foods@, angles@),
            final(self).position == old(self).position,
            final(self).eye == old(self).eye,
            final(self).brain == old(self).brain,
            final(self).ate == old(self).ate,
            final(self).paced(),
            -PI <= final(self).rotation@ < PI,
    {
        let vision = self.eye.process_vision(self.position, self.rotation, foods, angles);
        proof {
            self.brain.nn.lemma_shaped_accepts(Brain::layout(self.eye));
        }
        let response = self.brain.nn.propagate(vision);
        let speed = response[0].clamp(Fixed { raw: -SPEED_ACCEL }, Fixed { raw: SPEED_ACCEL });
        let rotation = response[1].clamp(
            Fixed { raw: -ROTATION_ACCEL },
            Fixed { raw: ROTATION_ACCEL },
        );
        self.speed = self.speed.plus(speed).clamp(Fixed { raw: SPEED_MIN }, Fixed { raw: SPEED_MAX });
        self.rotation = wrap(self.rotation.raw as i128 + rotation.raw as i128, -PI, PI);
    }

    /// Moves the animal by its speed along `heading`, around the arena where
    /// it leaves it.
    pub fn advance(&mut self, heading: Heading)
        ensures
            final(self).position == old(self).position.moved(old(self).speed, heading),
            final(self).position.in_arena(),
            final(self).rotation == old(self).rotation,
            final(self).speed == old(self).speed,
            final(self).eye == old(self).eye,
            final(self).brain == old(self).brain,
            final(self).ate == old(self).ate,
    {
        self.position = self.position.advanced(self.speed, heading);
    }
}

} // verus!
