//! One unit of a network: a bias and one weight for each input.

use crate::entropy::{bits, signed_unit, signed_units};
use crate::fixed::{product_of, sum_of, Fixed};
use rand_chacha::ChaCha8Rng;
use vstd::prelude::*;

verus! {

/// Why a run of parameters could not be turned into a network.
#[derive(Clone, Copy, Debug, PartialEq, Eq, Structural)]
pub enum DecodeError {
    /// The parameters ran out before the topology was filled.
    MissingWeights,
}

/// The inputs weighed and added up from the first to the last, each product
/// and each partial sum a fixed-point number of its own.
pub open spec fn weighted_sum(inputs: Seq<Fixed>, weights: Seq<Fixed>) -> int
    recommends
        inputs.len() == weights.len(),
    decreases inputs.len(),
{
    if inputs.len() == 0 || weights.len() == 0 {
        0
    } else {
        sum_of(
            weighted_sum(inputs.drop_last(), weights.drop_last()),
            product_of(inputs.last()@, weights.last()@),
        )
    }
}

#[derive(Debug)]
pub struct Neuron {
    pub bias: Fixed,
    pub weights: Vec<Fixed>,
}

impl Neuron {
    /// The parameters of the neuron as they are written out: the bias, then
    /// the weights in their order.
    pub open spec fn parameters(&self) -> Seq<Fixed> {
        seq![self.bias] + self.weights@
    }

    /// What the neuron answers to `inputs`: the weighted sum and the bias, and
    /// zero where that is negative.
    pub open spec fn response(&self, inputs: Seq<Fixed>) -> Fixed {
        let excitation = sum_of(weighted_sum(inputs, self.weights@), self.bias@);
        Fixed { raw: (if excitation < 0 { 0 } else { excitation }) as i64 }
    }

    pub fn new(bias: Fixed, weights: Vec<Fixed>) -> (neuron: Neuron)
        ensures
            neuron.bias == bias,
            neuron.weights == weights,
    {
        Neuron { bias, weights }
    }

    /// A neuron for `input_size` inputs whose bias and weights are drawn, in
    /// that order, from the numbers between minus one and one.
    pub fn random(rng: &mut ChaCha8Rng, input_size: usize) -> (neuron: Neuron)
        ensures
            neuron.weights.len() == input_size,
            signed_units(neuron.parameters()),
    {
        let bias = signed_unit(bits(rng));
        let mut weights: Vec<Fixed> = Vec::new();
        while weights.len() < input_size
            invariant
                weights.len() <= input_size,
                signed_units(weights@),
            decreases input_size - weights.len(),
        {
            weights.push(signed_unit(bits(rng)));
        }
        Neuron { bias, weights }
    }

    /// The answer of the neuron to `inputs`, one for each weight.
    pub fn propagate(&self, inputs: &Vec<Fixed>) -> (output: Fixed)
        requires
            inputs.len() == self.weights.len(),
        ensures
            output == self.response(inputs@),
            output@ >= 0,
    {
        let mut total = Fixed::zero();
        let mut i: usize = 0;
        while i < inputs.len()
            invariant
                i <= inputs.len(),
                inputs.len() == self.weights.len(),
                total@ == weighted_sum(inputs@.take(i as int), self.weights@.take(i as int)),
            decreases inputs.len() - i,
        {
            proof {
                let next = i + 1;
                assert(inputs@.take(next).drop_last() =~= inputs@.take(i as int));
                assert(self.weights@.take(next).drop_last() =~= self.weights@.take(i as int));
            }
            total = total.plus(inputs[i].times(self.weights[i]));
            i += 1;
        }
        proof {
            assert(inputs@.take(i as int) =~= inputs@);
            assert(self.weights@.take(i as int) =~= self.weights@);
        }
        total.plus(self.bias).at_least(Fixed::zero())
    }

    /// Reads a neuron for `input_size` inputs from `source`, beginning at
    /// `start`: first the bias, then the weights.  It fails where `source`
    /// ends before the last weight.
    pub fn from_weights(input_size: usize, source: &Vec<Fixed>, start: usize) -> (decoded: Result<
        Neuron,
        DecodeError,
    >)
        ensures
            decoded is Ok <==> start + 1 + input_size <= source.len(),
            decoded matches Ok(neuron) ==> neuron.parameters() == source@.subrange(
                start as int,
                start + 1 + input_size,
            ),
    {
        if start >= source.len() || input_size > source.len() - start - 1 {
            return Err(DecodeError::MissingWeights);
        }
        let bias = source[start];
        let mut weights: Vec<Fixed> = Vec::new();
        while weights.len() < input_size
            invariant
                weights.len() <= input_size,
                start + 1 + input_size <= source.len(),
                weights@ == source@.subrange(start + 1, start + 1 + weights.len()),
            decreases input_size - weights.len(),
        {
            let gene = source[start + 1 + weights.len()];
            proof {
                assert(weights@.push(gene) =~= source@.subrange(
                    start + 1,
                    start + 1 + weights.len() + 1,
                ));
            }
            weights.push(gene);
        }
        let neuron = Neuron { bias, weights };
        proof {
            assert(neuron.parameters() =~= source@.subrange(start as int, start + 1 + input_size));
        }
        Ok(neuron)
    }
}

} // verus!
