//! One layer of a network: neurons that all read the same inputs.

use crate::entropy::signed_units;
use crate::fixed::Fixed;
use crate::neuron::{DecodeError, Neuron};
use rand_chacha::ChaCha8Rng;
use vstd::prelude::*;

verus! {

/// The parameters of `neurons`, neuron after neuron.
pub open spec fn flattened(neurons: Seq<Neuron>) -> Seq<Fixed>
    decreases neurons.len(),
{
    if neurons.len() == 0 {
        Seq::empty()
    } else {
        flattened(neurons.drop_last()) + neurons.last().parameters()
    }
}

/// How many parameters a layer of `output_size` neurons with `input_size`
/// inputs has.
pub open spec fn layer_size(input_size: nat, output_size: nat) -> nat {
    output_size * (input_size + 1)
}

pub proof fn lemma_flattened_push(neurons: Seq<Neuron>, neuron: Neuron)
    ensures
        flattened(neurons.push(neuron)) == flattened(neurons) + neuron.parameters(),
{
    assert(neurons.push(neuron).drop_last() =~= neurons);
}

pub proof fn lemma_flattened_len(neurons: Seq<Neuron>, input_size: nat)
    requires
        forall|i: int| 0 <= i < neurons.len() ==> (#[trigger] neurons[i]).weights.len() == input_size,
    ensures
        flattened(neurons).len() == layer_size(input_size, neurons.len()),
    decreases neurons.len(),
{
    if neurons.len() > 0 {
        lemma_flattened_len(neurons.drop_last(), input_size);
        assert((neurons.len() - 1) * (input_size + 1) + (input_size + 1) == neurons.len() * (input_size
            + 1)) by (nonlinear_arith);
    } else {
        assert(0 * (input_size + 1) == 0) by (nonlinear_arith);
    }
}

proof fn lemma_layer_size_grows(input_size: nat, fewer: nat, more: nat)
    requires
        fewer <= more,
    ensures
        layer_size(input_size, fewer) <= layer_size(input_size, more),
        layer_size(input_size, fewer + 1) == layer_size(input_size, fewer) + input_size + 1,
        layer_size(input_size, 0) == 0,
{
    assert(fewer * (input_size + 1) <= more * (input_size + 1)) by (nonlinear_arith)
        requires
            fewer <= more,
    ;
    assert((fewer + 1) * (input_size + 1) == fewer * (input_size + 1) + input_size + 1)
        by (nonlinear_arith);
    assert(0 * (input_size + 1) == 0) by (nonlinear_arith);
}

#[derive(Debug)]
pub struct Layer {
    pub neurons: Vec<Neuron>,
}

impl Layer {
    /// The parameters of the layer as they are written out.
    pub open spec fn parameters(&self) -> Seq<Fixed> {
        flattened(self.neurons@)
    }

    /// Every neuron of the layer has `input_size` weights.
    pub open spec fn accepts(&self, input_size: nat) -> bool {
        forall|i: int|
            0 <= i < self.neurons.len() ==> (#[trigger] self.neurons[i]).weights.len() == input_size
    }

    /// What the layer answers to `inputs`: the answer of each neuron, in order.
    pub open spec fn response(&self, inputs: Seq<Fixed>) -> Seq<Fixed> {
        Seq::new(self.neurons.len() as nat, |i: int| self.neurons[i].response(inputs))
    }

    pub fn new(neurons: Vec<Neuron>) -> (layer: Layer)
        ensures
            layer.neurons == neurons,
    {
        Layer { neurons }
    }

    /// A layer of `output_size` neurons for `input_size` inputs, each drawn in
    /// turn.
    pub fn random(rng: &mut ChaCha8Rng, input_size: usize, output_size: usize) -> (layer: Layer)
        ensures
            layer.neurons.len() == output_size,
            layer.accepts(input_size as nat),
            signed_units(layer.parameters()),
    {
        let mut neurons: Vec<Neuron> = Vec::new();
        while neurons.len() < output_size
            invariant
                neurons.len() <= output_size,
                forall|i: int|
                    0 <= i < neurons.len() ==> (#[trigger] neurons[i]).weights.len() == input_size,
                signed_units(flattened(neurons@)),
            decreases output_size - neurons.len(),
        {
            let neuron = Neuron::random(rng, input_size);
            proof {
                lemma_flattened_push(neurons@, neuron);
            }
            neurons.push(neuron);
        }
        Layer { neurons }
    }

    /// Whether every neuron of the layer has `input_size` weights.
    pub fn admits(&self, input_size: usize) -> (fits: bool)
        ensures
            fits == self.accepts(input_size as nat),
    {
        let mut i: usize = 0;
        while i < self.neurons.len()
            invariant
                i <= self.neurons.len(),
                forall|k: int|
                    0 <= k < i ==> (#[trigger] self.neurons[k]).weights.len() == input_size,
            decreases self.neurons.len() - i,
        {
            if self.neurons[i].weights.len() != input_size {
                return false;
            }
            i += 1;
        }
        true
    }

    /// The answers of the neurons to `inputs`, in the order of the neurons.
    pub fn propagate(&self, inputs: Vec<Fixed>) -> (outputs: Vec<Fixed>)
        requires
            self.accepts(inputs.len() as nat),
        ensures
            outputs@ == self.response(inputs@),
            forall|i: int| 0 <= i < outputs.len() ==> (#[trigger] outputs[i])@ >= 0,
    {
        let mut outputs: Vec<Fixed> = Vec::new();
        let mut i: usize = 0;
        while i < self.neurons.len()
            invariant
                i <= self.neurons.len(),
                self.accepts(inputs.len() as nat),
                outputs.len() == i,
                forall|j: int|
                    0 <= j < i ==> #[trigger] outputs[j] == self.neurons[j].response(inputs@),
                forall|j: int| 0 <= j < i ==> (#[trigger] outputs[j])@ >= 0,
            decreases self.neurons.len() - i,
        {
            let output = self.neurons[i].propagate(&inputs);
            outputs.push(output);
            i += 1;
        }
        proof {
            assert(outputs@ =~= self.response(inputs@));
        }
        outputs
    }

    /// Reads a layer of `output_size` neurons for `input_size` inputs from
    /// `source`, beginning at `start`.  It fails where `source` ends before
    /// the last neuron is complete.
    pub fn from_weights(
        input_size: usize,
        output_size: usize,
        source: &Vec<Fixed>,
        start: usize,
    ) -> (decoded: Result<Layer, DecodeError>)
        ensures
            decoded is Ok <==> start + layer_size(input_size as nat, output_size as nat)
                <= source.len(),
            decoded matches Ok(layer) ==> {
                &&& layer.neurons.len() == output_size
                &&& layer.accepts(input_size as nat)
                &&& layer.parameters() == source@.subrange(
                    start as int,
                    start + layer_size(input_size as nat, output_size as nat),
                )
            },
    {
        let mut neurons: Vec<Neuron> = Vec::new();
        let mut offset: usize = start;
        proof {
            lemma_layer_size_grows(input_size as nat, 0, 0);
            if start <= source.len() {
                assert(flattened(neurons@) =~= source@.subrange(start as int, start as int));
            }
        }
        while neurons.len() < output_size
            invariant
                neurons.len() <= output_size,
                offset == start + layer_size(input_size as nat, neurons.len() as nat),
                forall|i: int|
                    0 <= i < neurons.len() ==> (#[trigger] neurons[i]).weights.len() == input_size,
                neurons.len() > 0 ==> offset <= source.len(),
                offset <= source.len() ==> flattened(neurons@) == source@.subrange(
                    start as int,
                    offset as int,
                ),
            decreases output_size - neurons.len(),
        {
            proof {
                lemma_layer_size_grows(input_size as nat, neurons.len() as nat, output_size as nat);
                lemma_layer_size_grows(
                    input_size as nat,
                    (neurons.len() + 1) as nat,
                    output_size as nat,
                );
            }
            match Neuron::from_weights(input_size, source, offset) {
                Ok(neuron) => {
                    proof {
                        lemma_flattened_push(neurons@, neuron);
                        assert(source@.subrange(start as int, offset as int) + source@.subrange(
                            offset as int,
                            offset + 1 + input_size,
                        ) =~= source@.subrange(start as int, offset + 1 + input_size));
                    }
                    neurons.push(neuron);
                    offset = offset + 1 + input_size;
                },
                Err(error) => {
                    return Err(error);
                },
            }
        }
        if offset > source.len() {
            return Err(DecodeError::MissingWeights);
        }
        Ok(Layer { neurons })
    }
}

} // verus!
