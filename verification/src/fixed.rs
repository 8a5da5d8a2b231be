//! Decimal fixed-point numbers.
//!
//! Every real quantity of the simulation (genes, fitness, positions, angles,
//! speeds) is held as a whole number of billionths.  Results that leave the
//! range of the representation stick to its nearest end, and products and
//! quotients drop what lies beyond the ninth decimal place.

use vstd::prelude::*;

verus! {

/// Raw units that make up the value one.
pub const SCALE: i64 = 1_000_000_000;

/// The integer `x` moved to the nearest raw value that can be represented.
pub open spec fn saturated(x: int) -> int {
    if x < i64::MIN as int {
        i64::MIN as int
    } else if x > i64::MAX as int {
        i64::MAX as int
    } else {
        x
    }
}

/// The distance of `x` from zero.
pub open spec fn magnitude(x: int) -> int {
    if x < 0 {
        -x
    } else {
        x
    }
}

/// The quotient of `n` by `d`, rounded toward zero.
pub open spec fn quotient(n: int, d: int) -> int
    recommends
        d != 0,
{
    if (n < 0) == (d < 0) {
        magnitude(n) / magnitude(d)
    } else {
        -(magnitude(n) / magnitude(d))
    }
}

/// Raw value of the sum of two fixed-point numbers.
pub open spec fn sum_of(a: int, b: int) -> int {
    saturated(a + b)
}

/// Raw value of the difference of two fixed-point numbers.
pub open spec fn difference_of(a: int, b: int) -> int {
    saturated(a - b)
}

/// Raw value of the product of two fixed-point numbers.
pub open spec fn product_of(a: int, b: int) -> int {
    saturated(quotient(a * b, SCALE as int))
}

/// Raw value of the quotient of two fixed-point numbers.
pub open spec fn ratio_of(a: int, b: int) -> int
    recommends
        b != 0,
{
    saturated(quotient(a * SCALE, b))
}

/// `x` held between `low` and `high`; `low` wins where the bounds cross.
pub open spec fn clamped(x: int, low: int, high: int) -> int {
    if x < low {
        low
    } else if x > high {
        high
    } else {
        x
    }
}

/// A number with nine decimal places.  Its view is its raw value, the number
/// of billionths it stands for.
#[derive(Clone, Copy, Debug, PartialEq, Eq, Structural)]
pub struct Fixed {
    pub raw: i64,
}

impl View for Fixed {
    type V = int;

    open spec fn view(&self) -> int {
        self.raw as int
    }
}

proof fn lemma_product_bound(a: int, b: int)
    requires
        -0x8000_0000_0000_0000 <= a <= 0x8000_0000_0000_0000,
        -0x8000_0000_0000_0000 <= b <= 0x8000_0000_0000_0000,
    ensures
        -0x4000_0000_0000_0000_0000_0000_0000_0000 <= a * b
            <= 0x4000_0000_0000_0000_0000_0000_0000_0000,
{
    assert(-0x4000_0000_0000_0000_0000_0000_0000_0000 <= a * b
        <= 0x4000_0000_0000_0000_0000_0000_0000_0000) by (nonlinear_arith)
        requires
            -0x8000_0000_0000_0000 <= a <= 0x8000_0000_0000_0000,
            -0x8000_0000_0000_0000 <= b <= 0x8000_0000_0000_0000,
    ;
}

fn narrowed(x: i128) -> (r: Fixed)
    ensures
        r@ == saturated(x as int),
{
    if x < i64::MIN as i128 {
        Fixed { raw: i64::MIN }
    } else if x > i64::MAX as i128 {
        Fixed { raw: i64::MAX }
    } else {
        Fixed { raw: x as i64 }
    }
}

fn truncated_quotient(n: i128, d: i128) -> (q: i128)
    requires
        d != 0,
        -0x4000_0000_0000_0000_0000_0000_0000_0000 <= n
            <= 0x4000_0000_0000_0000_0000_0000_0000_0000,
    ensures
        q == quotient(n as int, d as int),
        magnitude(q as int) <= magnitude(n as int),
{
    let n_abs: u128 = if n < 0 {
        (-n) as u128
    } else {
        n as u128
    };
    let d_abs: u128 = if d < 0 {
        if d == i128::MIN {
            0x8000_0000_0000_0000_0000_0000_0000_0000u128
        } else {
            (-d) as u128
        }
    } else {
        d as u128
    };
    let q_abs: u128 = n_abs / d_abs;
    assert(q_abs <= n_abs) by (nonlinear_arith)
        requires
            q_abs == n_abs / d_abs,
            d_abs >= 1,
    ;
    if (n < 0) == (d < 0) {
        q_abs as i128
    } else {
        -(q_abs as i128)
    }
}

impl Fixed {
    /// The number that `raw` billionths stand for.
    pub fn from_raw(raw: i64) -> (r: Fixed)
        ensures
            r@ == raw,
    {
        Fixed { raw }
    }

    /// The number of billionths that the number stands for.
    pub fn raw(self) -> (raw: i64)
        ensures
            raw == self@,
    {
        self.raw
    }

    pub fn zero() -> (r: Fixed)
        ensures
            r@ == 0,
    {
        Fixed { raw: 0 }
    }

    pub fn one() -> (r: Fixed)
        ensures
            r@ == SCALE,
    {
        Fixed { raw: SCALE }
    }

    /// The whole number `count`, or the largest number where it is beyond reach.
    pub fn from_count(count: usize) -> (r: Fixed)
        ensures
            r@ == saturated(count * SCALE),
    {
        assert(0 <= count * SCALE <= 0x1_0000_0000_0000_0000 * 1_000_000_000) by (nonlinear_arith)
            requires
                0 <= count <= 0x1_0000_0000_0000_0000,
                SCALE == 1_000_000_000,
        ;
        let wide: i128 = (count as i128) * (SCALE as i128);
        narrowed(wide)
    }

    pub fn plus(self, other: Fixed) -> (r: Fixed)
        ensures
            r@ == sum_of(self@, other@),
    {
        narrowed(self.raw as i128 + other.raw as i128)
    }

    pub fn minus(self, other: Fixed) -> (r: Fixed)
        ensures
            r@ == difference_of(self@, other@),
    {
        narrowed(self.raw as i128 - other.raw as i128)
    }

    pub fn times(self, other: Fixed) -> (r: Fixed)
        ensures
            r@ == product_of(self@, other@),
    {
        proof {
            lemma_product_bound(self@, other@);
        }
        let wide: i128 = (self.raw as i128) * (other.raw as i128);
        narrowed(truncated_quotient(wide, SCALE as i128))
    }

    pub fn over(self, other: Fixed) -> (r: Fixed)
        requires
            other@ != 0,
        ensures
            r@ == ratio_of(self@, other@),
    {
        proof {
            lemma_product_bound(self@, SCALE as int);
        }
        let wide: i128 = (self.raw as i128) * (SCALE as i128);
        narrowed(truncated_quotient(wide, other.raw as i128))
    }

    /// The number with the opposite sign; the least number gives the greatest.
    pub fn negated(self) -> (r: Fixed)
        ensures
            r@ == saturated(-self@),
    {
        narrowed(-(self.raw as i128))
    }

    /// The number held between `low` and `high`.
    pub fn clamp(self, low: Fixed, high: Fixed) -> (r: Fixed)
        ensures
            r@ == clamped(self@, low@, high@),
    {
        if self.raw < low.raw {
            low
        } else if self.raw > high.raw {
            high
        } else {
            self
        }
    }

    /// The larger of the two numbers.
    pub fn at_least(self, floor: Fixed) -> (r: Fixed)
        ensures
            r@ == if self@ < floor@ { floor@ } else { self@ },
    {
        if self.raw < floor.raw {
            floor
        } else {
            self
        }
    }
}

} // verus!
