//! The flat vector of genes that networks and the genetic algorithm exchange.

use crate::fixed::Fixed;
use vstd::prelude::*;

verus! {

/// An ordered run of genes whose length is settled when it is built.  Its
/// view is the sequence of its genes.
#[derive(Clone, Debug, PartialEq, Eq)]
pub struct Chromosome {
    genes: Vec<Fixed>,
}

impl View for Chromosome {
    type V = Seq<Fixed>;

    closed spec fn view(&self) -> Seq<Fixed> {
        self.genes@
    }
}

impl Chromosome {
    /// The chromosome that holds `genes` in their order.
    pub fn new(genes: Vec<Fixed>) -> (chromosome: Chromosome)
        ensures
            chromosome@ == genes@,
    {
        Chromosome { genes }
    }

    pub fn len(&self) -> (len: usize)
        ensures
            len == self@.len(),
    {
        self.genes.len()
    }

    /// The gene at `index`.
    pub fn gene(&self, index: usize) -> (gene: Fixed)
        requires
            index < self@.len(),
        ensures
            gene == self@[index as int],
    {
        self.genes[index]
    }

    /// Puts `gene` at `index` and leaves every other gene, and the length, alone.
    pub fn set(&mut self, index: usize, gene: Fixed)
        requires
            index < old(self)@.len(),
        ensures
            final(self)@ == old(self)@.update(index as int, gene),
    {
        self.genes[index] = gene;
    }

    /// The genes in their order.
    pub fn genes(&self) -> (genes: &Vec<Fixed>)
        ensures
            genes@ == self@,
    {
        &self.genes
    }

    /// Gives up the chromosome for its genes, in their order.
    pub fn into_genes(self) -> (genes: Vec<Fixed>)
        ensures
            genes@ == self@,
    {
        self.genes
    }
}

} // verus!
