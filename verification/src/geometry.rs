//! Places, directions and angles on the unit torus.

use crate::entropy::{bits, fraction, is_fraction, lemma_fraction_range};
use crate::fixed::{product_of, saturated, sum_of, Fixed, SCALE};
use rand_chacha::ChaCha8Rng;
use vstd::arithmetic::div_mod::{lemma_fundamental_div_mod, lemma_fundamental_div_mod_converse};
use vstd::prelude::*;

verus! {

/// The raw value of half a turn, in radians.
pub const PI: i64 = 3_141_592_654;

/// The raw value of a whole turn, in radians.
pub const TWO_PI: i64 = 6_283_185_307;

/// The raw value of a quarter of a turn, in radians.
pub const FRAC_PI_2: i64 = 1_570_796_327;

/// `x` brought into the range from `low` up to, but not including, `high` by
/// whole steps of the width of the range.
pub open spec fn wrapped(x: int, low: int, high: int) -> int
    recommends
        low < high,
{
    low + (x - low) % (high - low)
}

/// `root` is the whole number whose square is the greatest that does not
/// exceed `square`.
pub open spec fn is_root(square: int, root: int) -> bool {
    root >= 0 && root * root <= square < (root + 1) * (root + 1)
}

/// The square root of `square`, rounded down.
pub open spec fn root_of(square: int) -> int {
    choose|root: int| is_root(square, root)
}

/// No number has two rounded square roots.
pub proof fn lemma_root_is_unique(square: int, root: int)
    requires
        is_root(square, root),
    ensures
        root_of(square) == root,
{
    let other = root_of(square);
    assert(is_root(square, other));
    if other < root {
        assert((other + 1) * (other + 1) <= root * root) by (nonlinear_arith)
            requires
                0 <= other + 1 <= root,
        ;
    }
    if root < other {
        assert((root + 1) * (root + 1) <= other * other) by (nonlinear_arith)
            requires
                0 <= root + 1 <= other,
        ;
    }
}

/// Every number that is not negative has a rounded square root.
pub proof fn lemma_root_exists(square: int)
    requires
        square >= 0,
    ensures
        is_root(square, root_of(square)),
    decreases square,
{
    if square == 0 {
        assert(is_root(0, 0));
    } else {
        lemma_root_exists(square - 1);
        let before = root_of(square - 1);
        if (before + 1) * (before + 1) <= square {
            assert((before + 1) * (before + 1) == square);
            assert(square < (before + 2) * (before + 2)) by (nonlinear_arith)
                requires
                    (before + 1) * (before + 1) == square,
                    before >= 0,
            ;
            assert(is_root(square, before + 1));
        } else {
            assert(is_root(square, before));
        }
    }
}

/// The square root of `square`, rounded down.
pub fn root(square: u128) -> (root: u64)
    ensures
        is_root(square as int, root as int),
        root == root_of(square as int),
{
    let mut low: u128 = 0;
    let mut high: u128 = 0x1_0000_0000_0000_0000;
    assert(0x1_0000_0000_0000_0000int * 0x1_0000_0000_0000_0000int
        == 0x1_0000_0000_0000_0000_0000_0000_0000_0000int) by (nonlinear_arith);
    while high - low > 1
        invariant
            low < high <= 0x1_0000_0000_0000_0000,
            low * low <= square < high * high,
        decreases high - low,
    {
        let middle: u128 = low + (high - low) / 2;
        assert(middle * middle <= 0xffff_ffff_ffff_ffff * 0xffff_ffff_ffff_ffff) by (nonlinear_arith)
            requires
                0 <= middle <= 0xffff_ffff_ffff_ffff,
        ;
        if middle * middle <= square {
            low = middle;
        } else {
            high = middle;
        }
    }
    proof {
        lemma_root_is_unique(square as int, low as int);
    }
    low as u64
}

/// A place in the arena.
#[derive(Clone, Copy, Debug, PartialEq, Eq, Structural)]
pub struct Point {
    pub x: Fixed,
    pub y: Fixed,
}

/// A direction, as the step that one unit of speed makes along it.
#[derive(Clone, Copy, Debug, PartialEq, Eq, Structural)]
pub struct Heading {
    pub x: Fixed,
    pub y: Fixed,
}

/// Where one thing lies as seen from another: how far, and at which angle
/// against the first axis of the arena.
#[derive(Clone, Copy, Debug, PartialEq, Eq, Structural)]
pub struct Sighting {
    pub distance: Fixed,
    pub angle: Fixed,
}

/// The remainder of `value - low` by `high - low`, counted up from `low`.
pub fn wrap(value: i128, low: i64, high: i64) -> (inside: Fixed)
    requires
        low < high,
        -0x4000_0000_0000_0000_0000_0000_0000_0000 <= value
            <= 0x4000_0000_0000_0000_0000_0000_0000_0000,
    ensures
        inside@ == wrapped(value as int, low as int, high as int),
        low <= inside@ < high,
{
    let width: i128 = high as i128 - low as i128;
    let offset: i128 = value - low as i128;
    let rest: i128 = if offset >= 0 {
        offset % width
    } else {
        let back: i128 = (-offset) % width;
        let ghost steps = (-offset) / width as int;
        proof {
            lemma_fundamental_div_mod(-offset as int, width as int);
            assert(width * steps == steps * width) by (nonlinear_arith);
        }
        if back == 0 {
            proof {
                assert(offset == (-steps) * width + 0) by (nonlinear_arith)
                    requires
                        -offset == steps * width + back,
                        back == 0,
                ;
                lemma_fundamental_div_mod_converse(offset as int, width as int, -steps, 0);
            }
            0
        } else {
            proof {
                assert(offset == (-steps - 1) * width + (width - back)) by (nonlinear_arith)
                    requires
                        -offset == steps * width + back,
                ;
                lemma_fundamental_div_mod_converse(
                    offset as int,
                    width as int,
                    -steps - 1,
                    width - back,
                );
            }
            width - back
        }
    };
    Fixed { raw: (low as i128 + rest) as i64 }
}

impl Point {
    /// The two places lie no further than `reach` from each other.
    pub open spec fn near(&self, other: Point, reach: int) -> bool {
        let across = self.x@ - other.x@;
        let along = self.y@ - other.y@;
        reach >= 0 && across * across + along * along <= reach * reach
    }

    /// How far the two places lie from each other along the straight line,
    /// rounded down to a raw unit.
    pub open spec fn distance_to(&self, other: Point) -> int {
        let across = self.x@ - other.x@;
        let along = self.y@ - other.y@;
        saturated(root_of(across * across + along * along))
    }

    /// The place reached from this one by a step of `speed` along `heading`,
    /// each coordinate brought back into the arena.
    pub open spec fn moved(&self, speed: Fixed, heading: Heading) -> Point {
        Point {
            x: Fixed {
                raw: wrapped(sum_of(self.x@, product_of(speed@, heading.x@)), 0, SCALE as int) as i64,
            },
            y: Fixed {
                raw: wrapped(sum_of(self.y@, product_of(speed@, heading.y@)), 0, SCALE as int) as i64,
            },
        }
    }

    /// Both coordinates lie from zero up to, but not including, one.
    pub open spec fn in_arena(&self) -> bool {
        0 <= self.x@ < SCALE && 0 <= self.y@ < SCALE
    }

    /// The place is one that can be drawn: each coordinate is the fraction
    /// that some 32 bits stand for.
    pub open spec fn drawn(&self) -> bool {
        is_fraction(self.x) && is_fraction(self.y)
    }

    /// A place that can be drawn lies in the arena.
    pub proof fn lemma_drawn_in_arena(&self)
        requires
            self.drawn(),
        ensures
            self.in_arena(),
    {
        lemma_fraction_range(self.x);
        lemma_fraction_range(self.y);
    }

    /// From wherever a step starts, however fast and whichever way it
    /// goes, it ends in the arena.
    pub proof fn lemma_moved_in_arena(&self, speed: Fixed, heading: Heading)
        ensures
            self.moved(speed, heading).in_arena(),
    {
    }

    pub fn new(x: Fixed, y: Fixed) -> (point: Point)
        ensures
            point.x == x,
            point.y == y,
    {
        Point { x, y }
    }

    /// A place in the arena, its first coordinate drawn before its second.
    pub fn random(rng: &mut ChaCha8Rng) -> (point: Point)
        ensures
            point.drawn(),
            point.in_arena(),
    {
        let x = fraction(bits(rng));
        let y = fraction(bits(rng));
        Point { x, y }
    }

    /// Whether the two places lie no further than `reach` from each other.
    pub fn within(&self, other: &Point, reach: Fixed) -> (close: bool)
        ensures
            close == self.near(*other, reach@),
    {
        if reach.raw < 0 {
            return false;
        }
        let limit: i128 = reach.raw as i128;
        let across: i128 = self.x.raw as i128 - other.x.raw as i128;
        let along: i128 = self.y.raw as i128 - other.y.raw as i128;
        if across > limit || across < -limit || along > limit || along < -limit {
            proof {
                assert(across * across > limit * limit || along * along > limit * limit)
                    by (nonlinear_arith)
                    requires
                        limit >= 0,
                        across > limit || across < -limit || along > limit || along < -limit,
                ;
                assert(across * across >= 0 && along * along >= 0) by (nonlinear_arith);
            }
            return false;
        }
        proof {
            assert(0 <= across * across <= 0x4000_0000_0000_0000_0000_0000_0000_0000
                && 0 <= along * along <= 0x4000_0000_0000_0000_0000_0000_0000_0000
                && 0 <= limit * limit <= 0x4000_0000_0000_0000_0000_0000_0000_0000)
                by (nonlinear_arith)
                requires
                    0 <= limit <= 0x8000_0000_0000_0000,
                    -limit <= across <= limit,
                    -limit <= along <= limit,
            ;
        }
        let square: u128 = (across * across) as u128 + (along * along) as u128;
        square <= (limit * limit) as u128
    }

    /// How far the two places lie from each other.
    pub fn distance(&self, other: &Point) -> (distance: Fixed)
        ensures
            distance@ == self.distance_to(*other),
    {
        let across: i128 = self.x.raw as i128 - other.x.raw as i128;
        let along: i128 = self.y.raw as i128 - other.y.raw as i128;
        let limit: i128 = 0x7fff_ffff_ffff_ffff;
        if across > limit || across < -limit || along > limit || along < -limit {
            proof {
                let square = across * across + along * along;
                let found = root_of(square as int);
                assert(square >= 0x8000_0000_0000_0000 * 0x8000_0000_0000_0000) by (nonlinear_arith)
                    requires
                        square == across * across + along * along,
                        across >= 0x8000_0000_0000_0000 || across <= -0x8000_0000_0000_0000 || along
                            >= 0x8000_0000_0000_0000 || along <= -0x8000_0000_0000_0000,
                ;
                lemma_root_exists(square as int);
                if found < 0x8000_0000_0000_0000 {
                    assert((found + 1) * (found + 1) <= 0x8000_0000_0000_0000
                        * 0x8000_0000_0000_0000) by (nonlinear_arith)
                        requires
                            0 <= found + 1 <= 0x8000_0000_0000_0000,
                    ;
                }
            }
            return Fixed { raw: i64::MAX };
        }
        assert(0 <= across * across <= 0x7fff_ffff_ffff_ffff * 0x7fff_ffff_ffff_ffff && 0 <= along
            * along <= 0x7fff_ffff_ffff_ffff * 0x7fff_ffff_ffff_ffff) by (nonlinear_arith)
            requires
                -0x7fff_ffff_ffff_ffff <= across <= 0x7fff_ffff_ffff_ffff,
                -0x7fff_ffff_ffff_ffff <= along <= 0x7fff_ffff_ffff_ffff,
        ;
        let square: u128 = (across * across) as u128 + (along * along) as u128;
        let found = root(square);
        if found > 0x7fff_ffff_ffff_ffff {
            Fixed { raw: i64::MAX }
        } else {
            Fixed { raw: found as i64 }
        }
    }

    /// The place reached by a step of `speed` along `heading`.
    pub fn advanced(&self, speed: Fixed, heading: Heading) -> (point: Point)
        ensures
            point == self.moved(speed, heading),
            point.in_arena(),
    {
        let x = self.x.plus(speed.times(heading.x));
        let y = self.y.plus(speed.times(heading.y));
        Point { x: wrap(x.raw as i128, 0, SCALE), y: wrap(y.raw as i128, 0, SCALE) }
    }
}

} // verus!
