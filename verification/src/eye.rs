//! The sensor: what an animal sees of the food around it.

use crate::fixed::{difference_of, ratio_of, sum_of, Fixed};
use crate::food::Food;
use crate::geometry::{wrap, wrapped, Point, Sighting, PI};
use vstd::prelude::*;

verus! {

/// The raw value of the furthest that an eye sees, unless it is told otherwise.
pub const FOV_RANGE: i64 = 250_000_000;

/// The raw value of the angle, in radians, that the field of view spans,
/// unless the eye is told otherwise: five eighths of a turn.
pub const FOV_ANGLE: i64 = 3_926_990_817;

/// The number of cells of an eye, unless it is told otherwise.
pub const CELLS: usize = 9;

/// How each piece of `foods` lies as seen from `position`: as far as the
/// straight line to it is long, and at the angle that `angles` gives for it.
pub open spec fn sightings_of(position: Point, foods: Seq<Food>, angles: Seq<Fixed>) -> Seq<Sighting>
    recommends
        angles.len() == foods.len(),
{
    Seq::new(
        foods.len(),
        |j: int| Sighting { distance: Fixed { raw: position.distance_to(foods[j].position) as i64 }, angle: angles[j] },
    )
}

/// The field of view lies around the direction in which the animal looks and
/// is cut into cells of equal angle, the first at its lower edge.
#[derive(Clone, Copy, Debug, PartialEq, Eq, Structural)]
pub struct Eye {
    pub fov_range: Fixed,
    pub fov_angle: Fixed,
    pub cells: usize,
}

impl Eye {
    /// The eye sees some way, over some angle, in at least one cell, and twice
    /// its number of cells is still a number of the machine.
    pub open spec fn wf(&self) -> bool {
        &&& self.fov_range@ > 0
        &&& self.fov_angle@ > 0
        &&& 0 < self.cells <= usize::MAX / 2
    }

    /// The angle at which the eye, looking along `rotation`, finds what lies
    /// at `angle`: between minus half a turn and half a turn.
    pub open spec fn bearing(rotation: Fixed, angle: Fixed) -> int {
        wrapped(angle@ - rotation@, -PI as int, PI as int)
    }

    /// The eye, looking along `rotation`, sees what `sighting` tells of: it
    /// lies no further than the range and within the field of view.
    pub open spec fn sees(&self, rotation: Fixed, sighting: Sighting) -> bool {
        let half = self.fov_angle@ / 2;
        let bearing = Self::bearing(rotation, sighting.angle);
        sighting.distance@ <= self.fov_range@ && -half <= bearing <= half
    }

    /// The cell in which the eye, looking along `rotation`, finds what lies
    /// at `angle` within its field of view.
    pub open spec fn cell_of(&self, rotation: Fixed, angle: Fixed) -> int {
        let half = self.fov_angle@ / 2;
        let cell = (Self::bearing(rotation, angle) + half) * self.cells / self.fov_angle@;
        if cell < self.cells {
            cell
        } else {
            self.cells - 1
        }
    }

    /// How strongly the eye notes something at `distance`: fully where it is
    /// at the eye, not at all at the end of the range, and evenly less in
    /// between.
    pub open spec fn energy(&self, distance: Fixed) -> int {
        ratio_of(difference_of(self.fov_range@, distance@), self.fov_range@)
    }

    /// What the cells hold once the eye, looking along `rotation`, has taken
    /// in `sightings` one after the other: each sighting that it sees adds
    /// its energy to its cell.
    pub open spec fn vision(&self, rotation: Fixed, sightings: Seq<Sighting>) -> Seq<Fixed>
        decreases sightings.len(),
    {
        if sightings.len() == 0 {
            Seq::new(self.cells as nat, |i: int| Fixed { raw: 0 })
        } else {
            let before = self.vision(rotation, sightings.drop_last());
            let sighting = sightings.last();
            if self.sees(rotation, sighting) {
                let cell = self.cell_of(rotation, sighting.angle);
                before.update(
                    cell,
                    Fixed { raw: sum_of(before[cell]@, self.energy(sighting.distance)) as i64 },
                )
            } else {
                before
            }
        }
    }

    /// The eye that is usual.
    pub open spec fn usual() -> Eye {
        Eye { fov_range: Fixed { raw: FOV_RANGE }, fov_angle: Fixed { raw: FOV_ANGLE }, cells: CELLS }
    }

    pub fn new(fov_range: Fixed, fov_angle: Fixed, cells: usize) -> (eye: Eye)
        requires
            fov_range@ > 0,
            fov_angle@ > 0,
            0 < cells <= usize::MAX / 2,
        ensures
            eye.wf(),
            eye.fov_range == fov_range,
            eye.fov_angle == fov_angle,
            eye.cells == cells,
    {
        Eye { fov_range, fov_angle, cells }
    }

    pub fn cells(&self) -> (cells: usize)
        ensures
            cells == self.cells,
    {
        self.cells
    }

    /// The cell, if any, in which the eye sees what `sighting` tells of.
    fn cell_for(&self, rotation: Fixed, sighting: &Sighting) -> (cell: Option<usize>)
        requires
            self.wf(),
        ensures
            cell is Some <==> self.sees(rotation, *sighting),
            cell matches Some(index) ==> index == self.cell_of(rotation, sighting.angle) && index
                < self.cells,
    {
        if sighting.distance.raw > self.fov_range.raw {
            return None;
        }
        let bearing = wrap(sighting.angle.raw as i128 - rotation.raw as i128, -PI, PI);
        let half: i64 = self.fov_angle.raw / 2;
        if bearing.raw < -half || bearing.raw > half {
            return None;
        }
        let turned: i128 = bearing.raw as i128 + half as i128;
        assert(0 <= turned * self.cells <= 0x8000_0000_0000_0000 * 0x8000_0000_0000_0000)
            by (nonlinear_arith)
            requires
                0 <= turned <= 0x8000_0000_0000_0000,
                0 <= self.cells <= 0x8000_0000_0000_0000,
        ;
        let cell: i128 = turned * (self.cells as i128) / (self.fov_angle.raw as i128);
        if cell < self.cells as i128 {
            Some(cell as usize)
        } else {
            Some(self.cells - 1)
        }
    }

    /// What the eye of an animal that is at `position` and looks along
    /// `rotation` makes of `foods`, given the angle at which each piece of
    /// food lies from there.
    pub fn process_vision(
        &self,
        position: Point,
        rotation: Fixed,
        foods: &Vec<Food>,
        angles: &Vec<Fixed>,
    ) -> (cells: Vec<Fixed>)
        requires
            self.wf(),
            angles.len() == foods.len(),
        ensures
            cells@ == self.vision(rotation, sightings_of(position, foods@, angles@)),
            cells.len() == self.cells,
    {
        let ghost all = sightings_of(position, foods@, angles@);
        let mut sightings: Vec<Sighting> = Vec::new();
        while sightings.len() < foods.len()
            invariant
                angles.len() == foods.len(),
                sightings.len() <= foods.len(),
                all == sightings_of(position, foods@, angles@),
                sightings@ == all.take(sightings.len() as int),
            decreases foods.len() - sightings.len(),
        {
            let index = sightings.len();
            let sighting = Sighting {
                distance: position.distance(&foods[index].position),
                angle: angles[index],
            };
            proof {
                assert(sightings@.push(sighting) =~= all.take(index + 1));
            }
            sightings.push(sighting);
        }
        proof {
            assert(all.take(sightings.len() as int) =~= all);
        }
        self.perceive(rotation, &sightings)
    }

    /// What the eye of an animal that looks along `rotation` makes of
    /// `sightings`.
    pub fn perceive(&self, rotation: Fixed, sightings: &Vec<Sighting>) -> (cells: Vec<Fixed>)
        requires
            self.wf(),
        ensures
            cells@ == self.vision(rotation, sightings@),
            cells.len() == self.cells,
    {
        let mut cells: Vec<Fixed> = Vec::new();
        while cells.len() < self.cells
            invariant
                cells.len() <= self.cells,
                forall|k: int| 0 <= k < cells.len() ==> #[trigger] cells[k] == (Fixed { raw: 0 }),
            decreases self.cells - cells.len(),
        {
            cells.push(Fixed::zero());
        }
        let mut i: usize = 0;
        proof {
            assert(sightings@.take(0) =~= Seq::<Sighting>::empty());
            assert(cells@ =~= self.vision(rotation, sightings@.take(0)));
        }
        while i < sightings.len()
            invariant
                self.wf(),
                i <= sightings.len(),
                cells.len() == self.cells,
                cells@ == self.vision(rotation, sightings@.take(i as int)),
            decreases sightings.len() - i,
        {
            proof {
                let next = i + 1;
                assert(sightings@.take(next).drop_last() =~= sightings@.take(i as int));
                assert(sightings@.take(next).last() == sightings[i as int]);
            }
            let sighting = &sightings[i];
            match self.cell_for(rotation, sighting) {
                Some(cell) => {
                    let energy = self.fov_range.minus(sighting.distance).over(self.fov_range);
                    let lit = cells[cell].plus(energy);
                    cells.set(cell, lit);
                },
                None => {},
            }
            i += 1;
        }
        proof {
            assert(sightings@.take(i as int) =~= sightings@);
        }
        cells
    }
}

impl Default for Eye {
    fn default() -> (eye: Eye)
        ensures
            eye == Eye::usual(),
            eye.wf(),
    {
        Eye { fov_range: Fixed { raw: FOV_RANGE }, fov_angle: Fixed { raw: FOV_ANGLE }, cells: CELLS }
    }
}

} // verus!
