//! Crossover that takes each gene from either parent with equal chance.

use crate::chromosome::Chromosome;
use crate::entropy::flip;
use crate::fixed::Fixed;
use crate::genetic::CrossoverMethod;
use rand_chacha::ChaCha8Rng;
use vstd::prelude::*;

verus! {

/// The child that has, at each index, the gene of `parent_a` where `picks`
/// is true and that of `parent_b` where it is false.
pub open spec fn combined(parent_a: Seq<Fixed>, parent_b: Seq<Fixed>, picks: Seq<bool>) -> Seq<Fixed>
    recommends
        parent_a.len() == parent_b.len(),
        parent_a.len() == picks.len(),
{
    Seq::new(
        parent_a.len(),
        |i: int|
            if picks[i] {
                parent_a[i]
            } else {
                parent_b[i]
            },
    )
}

/// For each gene of the child a coin is tossed, in the order of the genes,
/// and the gene is that of the first parent on heads and of the second on
/// tails.
pub struct UniformCrossover;

impl UniformCrossover {
    pub fn new() -> (method: Self) {
        UniformCrossover
    }

    /// The child of the two parents for given tosses.
    pub fn combine(parent_a: &Chromosome, parent_b: &Chromosome, picks: &Vec<bool>) -> (child:
        Chromosome)
        requires
            parent_a@.len() == parent_b@.len(),
            parent_a@.len() == picks.len(),
        ensures
            child@ == combined(parent_a@, parent_b@, picks@),
    {
        let mut genes: Vec<Fixed> = Vec::new();
        let mut i: usize = 0;
        while i < parent_a.len()
            invariant
                i <= parent_a@.len(),
                parent_a@.len() == parent_b@.len(),
                parent_a@.len() == picks.len(),
                genes.len() == i,
                forall|k: int|
                    0 <= k < i ==> #[trigger] genes[k] == if picks[k] {
                        parent_a@[k]
                    } else {
                        parent_b@[k]
                    },
            decreases parent_a@.len() - i,
        {
            let gene = if picks[i] {
                parent_a.gene(i)
            } else {
                parent_b.gene(i)
            };
            genes.push(gene);
            i += 1;
        }
        proof {
            assert(genes@ =~= combined(parent_a@, parent_b@, picks@));
        }
        Chromosome::new(genes)
    }
}

/// Whatever the tosses, every gene of the child is the gene of one of the
/// parents at the same index.
pub proof fn lemma_genes_come_from_parents(
    parent_a: Seq<Fixed>,
    parent_b: Seq<Fixed>,
    picks: Seq<bool>,
)
    requires
        parent_a.len() == parent_b.len(),
        parent_a.len() == picks.len(),
    ensures
        UniformCrossover.may_yield(parent_a, parent_b, combined(parent_a, parent_b, picks)),
{
}

impl CrossoverMethod for UniformCrossover {
    /// Every gene of the child is the gene of one of the parents at the same
    /// index.
    open spec fn may_yield(&self, parent_a: Seq<Fixed>, parent_b: Seq<Fixed>, child: Seq<Fixed>) -> bool {
        &&& child.len() == parent_a.len()
        &&& forall|i: int|
            0 <= i < child.len() ==> #[trigger] child[i] == parent_a[i] || child[i] == parent_b[i]
    }

    fn crossover(&self, rng: &mut ChaCha8Rng, parent_a: &Chromosome, parent_b: &Chromosome) -> (child:
        Chromosome)
        ensures
            exists|picks: Seq<bool>|
                picks.len() == parent_a@.len() && child@ == #[trigger] combined(
                    parent_a@,
                    parent_b@,
                    picks,
                ),
    {
        let mut picks: Vec<bool> = Vec::new();
        while picks.len() < parent_a.len()
            invariant
                picks.len() <= parent_a@.len(),
            decreases parent_a@.len() - picks.len(),
        {
            picks.push(flip(rng, 1, 2));
        }
        UniformCrossover::combine(parent_a, parent_b, &picks)
    }
}

} // verus!
