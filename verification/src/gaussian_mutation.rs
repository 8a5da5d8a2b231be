//! Mutation that shifts a gene by a bounded random amount.

use crate::chromosome::Chromosome;
use crate::entropy::{bits, flip, fraction, fraction_of};
use crate::fixed::{product_of, saturated, sum_of, Fixed, SCALE};
use crate::genetic::MutationMethod;
use rand_chacha::ChaCha8Rng;
use vstd::prelude::*;

verus! {

/// The raw value of a gene after a shift by the `share` of `coefficient`,
/// upward where `upward` holds and downward where it does not.
pub open spec fn shifted(gene: int, coefficient: int, upward: bool, share: int) -> int {
    sum_of(
        gene,
        product_of(
            if upward {
                coefficient
            } else {
                saturated(-coefficient)
            },
            share,
        ),
    )
}

/// For each gene, in the order of the genes: a direction is drawn, then
/// whether the gene is touched at all, and only for a touched gene the share
/// of the coefficient by which it moves.  The share is spread evenly from
/// zero up to, but not including, one.
#[derive(Clone, Copy, Debug)]
pub struct GaussianMutation {
    /// The chance that a gene is touched, from zero (none is) to one (all are).
    chance: Fixed,
    /// The most by which a touched gene moves, up or down.
    coefficient: Fixed,
}

impl GaussianMutation {
    #[verifier::type_invariant]
    spec fn valid(self) -> bool {
        0 <= self.chance@ <= SCALE
    }

    /// The raw value of the chance that a gene is touched.
    pub closed spec fn chance_value(&self) -> int {
        self.chance@
    }

    /// The raw value of the most by which a gene moves.
    pub closed spec fn coefficient_value(&self) -> int {
        self.coefficient@
    }

    pub fn new(chance: Fixed, coefficient: Fixed) -> (method: Self)
        requires
            0 <= chance@ <= SCALE,
        ensures
            method.chance_value() == chance@,
            method.coefficient_value() == coefficient@,
    {
        GaussianMutation { chance, coefficient }
    }

    /// The gene moved by the `share` of the coefficient, upward or downward.
    pub fn perturbed(&self, gene: Fixed, upward: bool, share: Fixed) -> (moved: Fixed)
        ensures
            moved@ == shifted(gene@, self.coefficient_value(), upward, share@),
    {
        let reach = if upward {
            self.coefficient
        } else {
            self.coefficient.negated()
        };
        gene.plus(reach.times(share))
    }

    /// A shift by nothing leaves a gene as it is.
    pub proof fn lemma_no_coefficient_no_shift(gene: Fixed, upward: bool, share: int)
        ensures
            shifted(gene@, 0, upward, share) == gene@,
    {
        assert(0 * share == 0) by (nonlinear_arith);
    }

    /// Where no gene is ever touched, or a touched gene moves by nothing, the
    /// mutation can leave a chromosome only as it found it.
    pub proof fn lemma_identity(&self, before: Seq<Fixed>, after: Seq<Fixed>)
        requires
            self.may_leave(before, after),
            self.chance_value() == 0 || self.coefficient_value() == 0,
        ensures
            after == before,
    {
        assert forall|i: int| 0 <= i < before.len() implies after[i] == before[i] by {
            if after[i] != before[i] {
                let (upward, bits) = choose|upward: bool, bits: u32|
                    after[i]@ == #[trigger] shifted(
                        before[i]@,
                        self.coefficient_value(),
                        upward,
                        fraction_of(bits as int),
                    );
                Self::lemma_no_coefficient_no_shift(before[i], upward, fraction_of(bits as int));
            }
        }
        assert(after =~= before);
    }
}

impl MutationMethod for GaussianMutation {
    /// Every gene is either left as it was, which no gene is where the
    /// chance is one, or touched, which no gene is where the chance is zero.
    open spec fn may_leave(&self, before: Seq<Fixed>, after: Seq<Fixed>) -> bool {
        &&& after.len() == before.len()
        &&& forall|i: int|
            0 <= i < after.len() ==> (self.chance_value() < SCALE && #[trigger] after[i] == before[i])
                || (self.chance_value() > 0 && self.touches(before[i], after[i]))
    }

    /// The genes are gone through in their order.  For each a direction is
    /// drawn, then whether it is touched; a touched gene is moved by the
    /// share of the coefficient that 32 further drawn bits stand for, and a
    /// gene that is not touched stays as it is.  So where the chance is one
    /// every gene is touched, and where the chance or the coefficient is zero
    /// the chromosome stays as it is.
    fn mutate(&self, rng: &mut ChaCha8Rng, child: &mut Chromosome)
        ensures
            self.chance_value() == 0 || self.coefficient_value() == 0 ==> final(child)@ == old(child)@,
            self.chance_value() == SCALE ==> forall|i: int|
                0 <= i < old(child)@.len() ==> self.touches(
                    old(child)@[i],
                    #[trigger] final(child)@[i],
                ),
    {
        proof {
            use_type_invariant(self);
        }
        let ghost before = child@;
        let mut i: usize = 0;
        while i < child.len()
            invariant
                i <= child@.len(),
                child@.len() == before.len(),
                0 <= self.chance@ <= SCALE,
                forall|k: int| i <= k < before.len() ==> child@[k] == before[k],
                forall|k: int|
                    0 <= k < i ==> (self.chance_value() < SCALE && #[trigger] child@[k] == before[k])
                        || (self.chance_value() > 0 && self.touches(before[k], child@[k])),
            decreases child@.len() - i,
        {
            let upward = flip(rng, 1, 2);
            let touched = flip(rng, self.chance.raw as u32, SCALE as u32);
            if touched {
                let drawn = bits(rng);
                let share = fraction(drawn);
                let gene = child.gene(i);
                let moved = self.perturbed(gene, upward, share);
                proof {
                    assert(moved@ == shifted(
                        before[i as int]@,
                        self.coefficient_value(),
                        upward,
                        fraction_of(drawn as int),
                    ));
                    assert(self.touches(before[i as int], moved));
                }
                child.set(i, moved);
            }
            i += 1;
        }
        proof {
            assert(self.may_leave(before, child@));
            if self.chance_value() == 0 || self.coefficient_value() == 0 {
                self.lemma_identity(before, child@);
            }
        }
    }
}

impl GaussianMutation {
    /// `after` is what a touch can make of the gene `before`: the gene moved,
    /// upward or downward, by the share of the coefficient that some 32 bits
    /// stand for.
    pub open spec fn touches(&self, before: Fixed, after: Fixed) -> bool {
        exists|upward: bool, bits: u32|
            after@ == #[trigger] shifted(
                before@,
                self.coefficient_value(),
                upward,
                fraction_of(bits as int),
            )
    }
}

} // verus!
