//! What a generation achieved, in three numbers.

use crate::fixed::{quotient, Fixed};
use crate::genetic::{fitness_values, Individual};
use vstd::prelude::*;

verus! {

/// The numbers of `values` added up.
pub open spec fn total(values: Seq<int>) -> int
    decreases values.len(),
{
    if values.len() == 0 {
        0
    } else {
        total(values.drop_last()) + values.last()
    }
}

/// The least, the greatest and the average fitness of a population.
#[derive(Clone, Copy, Debug, PartialEq, Eq, Structural)]
pub struct Statistics {
    pub min_fitness: Fixed,
    pub max_fitness: Fixed,
    pub avg_fitness: Fixed,
}

proof fn lemma_total_bounds(values: Seq<int>, low: int, high: int)
    requires
        forall|i: int| 0 <= i < values.len() ==> low <= #[trigger] values[i] <= high,
    ensures
        values.len() * low <= total(values) <= values.len() * high,
    decreases values.len(),
{
    if values.len() > 0 {
        lemma_total_bounds(values.drop_last(), low, high);
        assert((values.len() - 1) * low + low == values.len() * low) by (nonlinear_arith);
        assert((values.len() - 1) * high + high == values.len() * high) by (nonlinear_arith);
    } else {
        assert(0 * low == 0 && 0 * high == 0) by (nonlinear_arith);
    }
}

/// A whole number of steps of `count` between `count * low` and `count * high`
/// lies, divided by `count`, between `low` and `high`.
proof fn lemma_average_between(total: int, count: int, low: int, high: int)
    requires
        count > 0,
        count * low <= total <= count * high,
    ensures
        low <= quotient(total, count) <= high,
{
    if total >= 0 {
        let q = total / count;
        assert(q * count <= total < (q + 1) * count && q >= 0) by (nonlinear_arith)
            requires
                q == total / count,
                count > 0,
                total >= 0,
        ;
        assert(q <= high) by (nonlinear_arith)
            requires
                q * count <= total,
                total <= count * high,
                count > 0,
        ;
        assert(low <= q) by (nonlinear_arith)
            requires
                total < (q + 1) * count,
                count * low <= total,
                count > 0,
        ;
    } else {
        let q = (-total) / count;
        assert(q * count <= -total < (q + 1) * count && q >= 0) by (nonlinear_arith)
            requires
                q == (-total) / count,
                count > 0,
                total < 0,
        ;
        assert(-q <= high) by (nonlinear_arith)
            requires
                -total < (q + 1) * count,
                total <= count * high,
                count > 0,
        ;
        assert(low <= -q) by (nonlinear_arith)
            requires
                q * count <= -total,
                count * low <= total,
                count > 0,
        ;
    }
}

impl Statistics {
    /// These are the statistics of `values`: the least and the greatest are
    /// values that no other undercuts or exceeds, and the average is the
    /// total by the number of values, rounded toward zero.
    pub open spec fn summarizes(&self, values: Seq<int>) -> bool {
        &&& exists|i: int| 0 <= i < values.len() && self.min_fitness@ == #[trigger] values[i]
        &&& exists|i: int| 0 <= i < values.len() && self.max_fitness@ == #[trigger] values[i]
        &&& forall|i: int|
            0 <= i < values.len() ==> self.min_fitness@ <= #[trigger] values[i] <= self.max_fitness@
        &&& self.avg_fitness@ == quotient(total(values), values.len() as int)
    }

    /// The average of values lies between the least and the greatest of them.
    pub proof fn lemma_ordered(&self, values: Seq<int>)
        requires
            self.summarizes(values),
        ensures
            self.min_fitness@ <= self.avg_fitness@ <= self.max_fitness@,
    {
        lemma_total_bounds(values, self.min_fitness@, self.max_fitness@);
        lemma_average_between(
            total(values),
            values.len() as int,
            self.min_fitness@,
            self.max_fitness@,
        );
    }

    /// The statistics of a population that has a member.
    pub fn new<I: Individual>(population: &[I]) -> (statistics: Statistics)
        requires
            population.len() > 0,
        ensures
            statistics.summarizes(fitness_values(population@)),
            statistics.min_fitness@ <= statistics.avg_fitness@ <= statistics.max_fitness@,
    {
        let ghost values = fitness_values(population@);
        let first = population[0].fitness();
        let mut least = first;
        let mut greatest = first;
        let mut sum: i128 = first.raw as i128;
        let mut i: usize = 1;
        proof {
            assert(values.take(1).drop_last() =~= Seq::<int>::empty());
            assert(values.take(1).last() == values[0]);
            assert(total(Seq::<int>::empty()) == 0);
        }
        while i < population.len()
            invariant
                1 <= i <= population.len(),
                values == fitness_values(population@),
                sum == total(values.take(i as int)),
                exists|k: int| 0 <= k < i && least@ == #[trigger] values[k],
                exists|k: int| 0 <= k < i && greatest@ == #[trigger] values[k],
                forall|k: int| 0 <= k < i ==> least@ <= #[trigger] values[k] <= greatest@,
            decreases population.len() - i,
        {
            let fitness = population[i].fitness();
            proof {
                let next = i + 1;
                assert(values.take(next).drop_last() =~= values.take(i as int));
                assert(values.take(next).last() == values[i as int]);
                let prefix = values.take(i as int);
                assert forall|k: int| 0 <= k < prefix.len() implies i64::MIN <= #[trigger] prefix[k]
                    <= i64::MAX by {
                    assert(prefix[k] == values[k]);
                }
                lemma_total_bounds(prefix, i64::MIN as int, i64::MAX as int);
                assert(i * (i64::MIN as int) >= 0xffff_ffff_ffff_ffff * (i64::MIN as int))
                    by (nonlinear_arith)
                    requires
                        0 <= i <= 0xffff_ffff_ffff_ffff,
                ;
                assert(i * (i64::MAX as int) <= 0xffff_ffff_ffff_ffff * (i64::MAX as int))
                    by (nonlinear_arith)
                    requires
                        0 <= i <= 0xffff_ffff_ffff_ffff,
                ;
            }
            sum = sum + fitness.raw as i128;
            if fitness.raw < least.raw {
                least = fitness;
            }
            if fitness.raw > greatest.raw {
                greatest = fitness;
            }
            i += 1;
        }
        proof {
            assert(values.take(i as int) =~= values);
            lemma_total_bounds(values, least@, greatest@);
            lemma_average_between(sum as int, population.len() as int, least@, greatest@);
        }
        let count = population.len() as i128;
        let average: i128 = sum / count;
        Statistics {
            min_fitness: least,
            max_fitness: greatest,
            avg_fitness: Fixed { raw: average as i64 },
        }
    }

    pub fn min_fitness(&self) -> (fitness: Fixed)
        ensures
            fitness == self.min_fitness,
    {
        self.min_fitness
    }

    pub fn max_fitness(&self) -> (fitness: Fixed)
        ensures
            fitness == self.max_fitness,
    {
        self.max_fitness
    }

    pub fn avg_fitness(&self) -> (fitness: Fixed)
        ensures
            fitness == self.avg_fitness,
    {
        self.avg_fitness
    }
}

} // verus!
