//! Feed-forward networks, and the flat form in which their parameters travel.

use crate::fixed::Fixed;
use crate::entropy::signed_units;
use crate::layer::{flattened, layer_size, lemma_flattened_len, Layer};
use crate::neuron::{DecodeError, Neuron};
use rand_chacha::ChaCha8Rng;
use vstd::prelude::*;

verus! {

/// How wide one stage of a network is: its inputs, or the neurons of a layer.
#[derive(Clone, Copy, Debug, PartialEq, Eq, Structural)]
pub struct LayerTopology {
    pub neurons: usize,
}

/// The parameters of `layers`, layer after layer.
pub open spec fn concatenated(layers: Seq<Layer>) -> Seq<Fixed>
    decreases layers.len(),
{
    if layers.len() == 0 {
        Seq::empty()
    } else {
        concatenated(layers.drop_last()) + layers.last().parameters()
    }
}

/// How many parameters the first `count` layers of `topology` have.
pub open spec fn leading_size(topology: Seq<LayerTopology>, count: nat) -> nat
    recommends
        count < topology.len(),
    decreases count,
{
    if count == 0 {
        0
    } else {
        leading_size(topology, (count - 1) as nat) + layer_size(
            topology[count - 1].neurons as nat,
            topology[count as int].neurons as nat,
        )
    }
}

/// How many parameters a network of `topology` has.
pub open spec fn topology_size(topology: Seq<LayerTopology>) -> nat {
    if topology.len() == 0 {
        0
    } else {
        leading_size(topology, (topology.len() - 1) as nat)
    }
}

/// `layers` has the widths that `topology` gives: one layer for each stage
/// after the first, as many neurons as the stage is wide, and in each neuron
/// one weight for each unit of the stage before.
pub open spec fn shaped(layers: Seq<Layer>, topology: Seq<LayerTopology>) -> bool {
    &&& layers.len() + 1 == topology.len()
    &&& forall|i: int|
        0 <= i < layers.len() ==> {
            &&& (#[trigger] layers[i]).neurons.len() == topology[i + 1].neurons
            &&& layers[i].accepts(topology[i].neurons as nat)
        }
}

/// What `layers` answer to `inputs`, the answer of each layer being the input
/// of the next.
pub open spec fn chain_response(layers: Seq<Layer>, inputs: Seq<Fixed>) -> Seq<Fixed>
    decreases layers.len(),
{
    if layers.len() == 0 {
        inputs
    } else {
        layers.last().response(chain_response(layers.drop_last(), inputs))
    }
}

pub proof fn lemma_concatenated_push(layers: Seq<Layer>, layer: Layer)
    ensures
        concatenated(layers.push(layer)) == concatenated(layers) + layer.parameters(),
{
    assert(layers.push(layer).drop_last() =~= layers);
}

#[derive(Debug)]
pub struct Network {
    pub layers: Vec<Layer>,
}

impl Network {
    /// The parameters of the network in the one order in which they are
    /// exchanged: layer after layer, neuron after neuron, the bias of each
    /// before its weights.
    pub open spec fn parameters(&self) -> Seq<Fixed> {
        concatenated(self.layers@)
    }

    /// The network can take `input_size` inputs: the neurons of the first
    /// layer have that many weights, and those of each later layer as many as
    /// the layer before has neurons.
    pub open spec fn accepts(&self, input_size: nat) -> bool {
        forall|i: int|
            0 <= i < self.layers.len() ==> (#[trigger] self.layers[i]).accepts(
                if i == 0 {
                    input_size
                } else {
                    self.layers[i - 1].neurons.len() as nat
                },
            )
    }

    /// What the network answers to `inputs`.
    pub open spec fn response(&self, inputs: Seq<Fixed>) -> Seq<Fixed> {
        chain_response(self.layers@, inputs)
    }

    /// A network shaped as `layers` says accepts as many inputs as the first
    /// stage is wide.
    pub proof fn lemma_shaped_accepts(&self, layers: Seq<LayerTopology>)
        requires
            shaped(self.layers@, layers),
        ensures
            self.accepts(layers[0].neurons as nat),
    {
    }

    /// A network shaped as `layers` says, with a neuron in its first layer,
    /// accepts inputs of one length only: that of the first stage.
    pub proof fn lemma_accepts_one_arity(&self, layers: Seq<LayerTopology>, input_size: nat)
        requires
            shaped(self.layers@, layers),
            layers.len() > 1,
            layers[1].neurons > 0,
        ensures
            self.accepts(input_size) <==> input_size == layers[0].neurons,
    {
        self.lemma_shaped_accepts(layers);
        if self.accepts(input_size) {
            assert(self.layers[0].accepts(input_size));
            assert(self.layers[0].accepts(layers[0].neurons as nat));
            assert(self.layers[0].neurons[0].weights.len() == input_size);
        }
    }

    /// A network whose first layer has a neuron accepts inputs of no other
    /// length than the number of that neuron's weights.
    pub proof fn lemma_accepts_no_other_arity(&self, input_size: nat)
        requires
            self.layers.len() > 0,
            self.layers[0].neurons.len() > 0,
            self.accepts(input_size),
        ensures
            input_size == self.layers[0].neurons[0].weights.len(),
    {
        assert(self.layers[0].accepts(input_size));
    }

    /// Decoding, then encoding again, gives back what was decoded: a network
    /// that `from_weights` made of exactly as many `weights` as `layers` asks
    /// for has those weights as its parameters.
    pub proof fn lemma_decode_then_encode(&self, layers: Seq<LayerTopology>, weights: Seq<Fixed>)
        requires
            weights.len() == topology_size(layers),
            shaped(self.layers@, layers),
            self.parameters() == weights.take(topology_size(layers) as int),
        ensures
            self.parameters() == weights,
    {
        assert(weights.take(topology_size(layers) as int) =~= weights);
    }

    /// Encoding, then decoding again, gives back what was encoded: two
    /// networks of one shape with the same parameters have, neuron by neuron,
    /// the same bias and the same weights.
    pub proof fn lemma_encode_then_decode(&self, other: Network, layers: Seq<LayerTopology>)
        requires
            shaped(self.layers@, layers),
            shaped(other.layers@, layers),
            self.parameters() == other.parameters(),
        ensures
            same_neurons(self.layers@, other.layers@),
    {
        lemma_parameters_settle_layers(self.layers@, other.layers@, layers);
    }

    /// A network of the widths in `layers`, each neuron drawn in turn.
    pub fn random(rng: &mut ChaCha8Rng, layers: &Vec<LayerTopology>) -> (network: Network)
        requires
            layers.len() > 1,
        ensures
            shaped(network.layers@, layers@),
            signed_units(network.parameters()),
    {
        let mut built: Vec<Layer> = Vec::new();
        let mut i: usize = 0;
        while i + 1 < layers.len()
            invariant
                i < layers.len(),
                built.len() == i,
                forall|j: int|
                    0 <= j < i ==> {
                        &&& (#[trigger] built[j]).neurons.len() == layers[j + 1].neurons
                        &&& built[j].accepts(layers[j].neurons as nat)
                    },
                signed_units(concatenated(built@)),
            decreases layers.len() - i,
        {
            let layer = Layer::random(rng, layers[i].neurons, layers[i + 1].neurons);
            proof {
                lemma_concatenated_push(built@, layer);
            }
            built.push(layer);
            i += 1;
        }
        Network { layers: built }
    }

    /// Whether the network can take `input_size` inputs.
    pub fn admits(&self, input_size: usize) -> (fits: bool)
        ensures
            fits == self.accepts(input_size as nat),
    {
        let mut width: usize = input_size;
        let mut i: usize = 0;
        while i < self.layers.len()
            invariant
                i <= self.layers.len(),
                width == if i == 0 {
                    input_size
                } else {
                    self.layers[i - 1].neurons.len()
                },
                forall|k: int|
                    0 <= k < i ==> (#[trigger] self.layers[k]).accepts(
                        if k == 0 {
                            input_size as nat
                        } else {
                            self.layers[k - 1].neurons.len() as nat
                        },
                    ),
            decreases self.layers.len() - i,
        {
            if !self.layers[i].admits(width) {
                assert(!self.layers[i as int].accepts(width as nat));
                return false;
            }
            width = self.layers[i].neurons.len();
            i += 1;
        }
        true
    }

    /// The answer of the network to `inputs`.
    pub fn propagate(&self, inputs: Vec<Fixed>) -> (outputs: Vec<Fixed>)
        requires
            self.accepts(inputs.len() as nat),
        ensures
            outputs@ == self.response(inputs@),
            self.layers.len() > 0 ==> outputs.len() == self.layers[self.layers.len() - 1].neurons.len(),
            self.layers.len() > 0 ==> forall|i: int|
                0 <= i < outputs.len() ==> (#[trigger] outputs[i])@ >= 0,
    {
        let ghost given = inputs@;
        let mut signal = inputs;
        let mut i: usize = 0;
        proof {
            assert(self.layers@.take(0) =~= Seq::<Layer>::empty());
        }
        while i < self.layers.len()
            invariant
                i <= self.layers.len(),
                self.accepts(given.len()),
                signal@ == chain_response(self.layers@.take(i as int), given),
                signal.len() == if i == 0 {
                    given.len()
                } else {
                    self.layers[i - 1].neurons.len() as nat
                },
                i > 0 ==> forall|k: int| 0 <= k < signal.len() ==> (#[trigger] signal[k])@ >= 0,
            decreases self.layers.len() - i,
        {
            proof {
                let next = i + 1;
                assert(self.layers@.take(next).drop_last() =~= self.layers@.take(i as int));
                assert(self.layers@.take(next).last() == self.layers[i as int]);
            }
            signal = self.layers[i].propagate(signal);
            i += 1;
        }
        proof {
            assert(self.layers@.take(i as int) =~= self.layers@);
        }
        signal
    }

    /// The answer of the network to `inputs`, or nothing where the network
    /// cannot take inputs of that length.
    pub fn try_propagate(&self, inputs: Vec<Fixed>) -> (outputs: Option<Vec<Fixed>>)
        ensures
            outputs is Some <==> self.accepts(inputs.len() as nat),
            outputs matches Some(answer) ==> answer@ == self.response(inputs@),
    {
        if self.admits(inputs.len()) {
            Some(self.propagate(inputs))
        } else {
            None
        }
    }

    /// The parameters of the network, in the order of `parameters`.
    pub fn weights(&self) -> (weights: Vec<Fixed>)
        ensures
            weights@ == self.parameters(),
    {
        let mut weights: Vec<Fixed> = Vec::new();
        let mut i: usize = 0;
        proof {
            assert(self.layers@.take(0) =~= Seq::<Layer>::empty());
        }
        while i < self.layers.len()
            invariant
                i <= self.layers.len(),
                weights@ == concatenated(self.layers@.take(i as int)),
            decreases self.layers.len() - i,
        {
            let layer = &self.layers[i];
            let ghost before = weights@;
            let mut j: usize = 0;
            proof {
                assert(layer.neurons@.take(0) =~= Seq::empty());
                assert(before + flattened(layer.neurons@.take(0)) =~= before);
            }
            while j < layer.neurons.len()
                invariant
                    j <= layer.neurons.len(),
                    weights@ == before + flattened(layer.neurons@.take(j as int)),
                decreases layer.neurons.len() - j,
            {
                let neuron = &layer.neurons[j];
                let ghost so_far = weights@;
                weights.push(neuron.bias);
                let mut k: usize = 0;
                while k < neuron.weights.len()
                    invariant
                        k <= neuron.weights.len(),
                        weights@ == so_far + seq![neuron.bias] + neuron.weights@.take(k as int),
                    decreases neuron.weights.len() - k,
                {
                    let gene = neuron.weights[k];
                    proof {
                        let next = k + 1;
                        assert(neuron.weights@.take(next) =~= neuron.weights@.take(k as int).push(
                            gene,
                        ));
                    }
                    weights.push(gene);
                    k += 1;
                }
                proof {
                    let next = j + 1;
                    assert(neuron.weights@.take(k as int) =~= neuron.weights@);
                    assert(layer.neurons@.take(next).drop_last() =~= layer.neurons@.take(j as int));
                    assert(layer.neurons@.take(next).last() == *neuron);
                    assert(weights@ =~= before + flattened(layer.neurons@.take(next)));
                }
                j += 1;
            }
            proof {
                let next = i + 1;
                assert(layer.neurons@.take(j as int) =~= layer.neurons@);
                assert(self.layers@.take(next).drop_last() =~= self.layers@.take(i as int));
                assert(self.layers@.take(next).last() == *layer);
            }
            i += 1;
        }
        proof {
            assert(self.layers@.take(i as int) =~= self.layers@);
        }
        weights
    }

    /// Reads a network of the widths in `layers` from the front of `weights`,
    /// in the order of `parameters`.  It fails where `weights` holds fewer
    /// parameters than the topology asks for; what lies beyond them is not
    /// read.
    pub fn from_weights(layers: &Vec<LayerTopology>, weights: &Vec<Fixed>) -> (decoded: Result<
        Network,
        DecodeError,
    >)
        requires
            layers.len() > 1,
        ensures
            decoded is Ok <==> topology_size(layers@) <= weights.len(),
            decoded matches Ok(network) ==> {
                &&& shaped(network.layers@, layers@)
                &&& network.parameters() == weights@.take(topology_size(layers@) as int)
            },
            decoded matches Err(error) ==> error == DecodeError::MissingWeights,
    {
        let mut built: Vec<Layer> = Vec::new();
        let mut offset: usize = 0;
        let mut i: usize = 0;
        proof {
            assert(concatenated(built@) =~= weights@.take(0));
        }
        while i + 1 < layers.len()
            invariant
                i < layers.len(),
                built.len() == i,
                offset == leading_size(layers@, i as nat),
                offset <= weights.len(),
                forall|j: int|
                    0 <= j < i ==> {
                        &&& (#[trigger] built[j]).neurons.len() == layers[j + 1].neurons
                        &&& built[j].accepts(layers[j].neurons as nat)
                    },
                concatenated(built@) == weights@.take(offset as int),
            decreases layers.len() - i,
        {
            let width = layers[i].neurons;
            let count = layers[i + 1].neurons;
            proof {
                lemma_leading_size_grows(layers@, (i + 1) as nat, (layers.len() - 1) as nat);
            }
            match Layer::from_weights(width, count, weights, offset) {
                Ok(layer) => {
                    proof {
                        lemma_concatenated_push(built@, layer);
                        assert(weights@.take(offset as int) + weights@.subrange(
                            offset as int,
                            offset + layer_size(width as nat, count as nat),
                        ) =~= weights@.take(offset + layer_size(width as nat, count as nat)));
                    }
                    let consumed: usize = if count == 0 {
                        proof {
                            assert(0 * (width + 1) == 0) by (nonlinear_arith);
                        }
                        0
                    } else {
                        proof {
                            assert(width + 1 <= count * (width + 1)) by (nonlinear_arith)
                                requires
                                    count >= 1,
                            ;
                        }
                        count * (width + 1)
                    };
                    built.push(layer);
                    offset = offset + consumed;
                },
                Err(error) => {
                    return Err(DecodeError::MissingWeights);
                },
            }
            i += 1;
        }
        Ok(Network { layers: built })
    }
}

/// The two runs of layers have, neuron by neuron, the same bias and the same
/// weights.
pub open spec fn same_neurons(first: Seq<Layer>, second: Seq<Layer>) -> bool {
    &&& first.len() == second.len()
    &&& forall|i: int|
        0 <= i < first.len() ==> #[trigger] first[i].neurons.len() == second[i].neurons.len()
    &&& forall|i: int, j: int|
        0 <= i < first.len() && 0 <= j < first[i].neurons.len() ==> {
            &&& (#[trigger] first[i].neurons[j]).bias == second[i].neurons[j].bias
            &&& first[i].neurons[j].weights@ == second[i].neurons[j].weights@
        }
}

/// Two sequences that are cut at the same place are equal only if their
/// parts are.
pub proof fn lemma_equal_parts(
    front: Seq<Fixed>,
    back: Seq<Fixed>,
    other_front: Seq<Fixed>,
    other_back: Seq<Fixed>,
)
    requires
        front + back == other_front + other_back,
        front.len() == other_front.len(),
    ensures
        front == other_front,
        back == other_back,
{
    let whole = front + back;
    let other = other_front + other_back;
    assert(front =~= whole.take(front.len() as int));
    assert(other_front =~= other.take(front.len() as int));
    assert(back =~= whole.skip(front.len() as int));
    assert(other_back =~= other.skip(front.len() as int));
}

/// Neurons with as many weights each, and the same parameters, have the same
/// biases and weights.
pub proof fn lemma_parameters_settle_neurons(
    first: Seq<Neuron>,
    second: Seq<Neuron>,
    input_size: nat,
)
    requires
        first.len() == second.len(),
        forall|j: int| 0 <= j < first.len() ==> (#[trigger] first[j]).weights.len() == input_size,
        forall|j: int| 0 <= j < second.len() ==> (#[trigger] second[j]).weights.len() == input_size,
        flattened(first) == flattened(second),
    ensures
        forall|j: int|
            0 <= j < first.len() ==> {
                &&& (#[trigger] first[j]).bias == second[j].bias
                &&& first[j].weights@ == second[j].weights@
            },
    decreases first.len(),
{
    if first.len() > 0 {
        let fewer = first.drop_last();
        let other_fewer = second.drop_last();
        lemma_flattened_len(fewer, input_size);
        lemma_flattened_len(other_fewer, input_size);
        lemma_equal_parts(
            flattened(fewer),
            first.last().parameters(),
            flattened(other_fewer),
            second.last().parameters(),
        );
        lemma_parameters_settle_neurons(fewer, other_fewer, input_size);
        let mine = first.last().parameters();
        let theirs = second.last().parameters();
        assert(mine[0] == first.last().bias);
        assert(theirs[0] == second.last().bias);
        assert(first.last().weights@ =~= mine.skip(1));
        assert(second.last().weights@ =~= theirs.skip(1));
        assert forall|j: int| 0 <= j < first.len() implies {
            &&& (#[trigger] first[j]).bias == second[j].bias
            &&& first[j].weights@ == second[j].weights@
        } by {
            if j < first.len() - 1 {
                assert(fewer[j] == first[j]);
                assert(other_fewer[j] == second[j]);
            }
        }
    }
}

/// Layers of one shape with the same parameters have the same neurons.
pub proof fn lemma_parameters_settle_layers(
    first: Seq<Layer>,
    second: Seq<Layer>,
    topology: Seq<LayerTopology>,
)
    requires
        shaped(first, topology),
        shaped(second, topology),
        concatenated(first) == concatenated(second),
    ensures
        same_neurons(first, second),
    decreases first.len(),
{
    if first.len() > 0 {
        let fewer = first.drop_last();
        let other_fewer = second.drop_last();
        let shorter = topology.drop_last();
        assert(shaped(fewer, shorter)) by {
            assert forall|i: int| 0 <= i < fewer.len() implies {
                &&& (#[trigger] fewer[i]).neurons.len() == shorter[i + 1].neurons
                &&& fewer[i].accepts(shorter[i].neurons as nat)
            } by {
                assert(fewer[i] == first[i]);
            }
        }
        assert(shaped(other_fewer, shorter)) by {
            assert forall|i: int| 0 <= i < other_fewer.len() implies {
                &&& (#[trigger] other_fewer[i]).neurons.len() == shorter[i + 1].neurons
                &&& other_fewer[i].accepts(shorter[i].neurons as nat)
            } by {
                assert(other_fewer[i] == second[i]);
            }
        }
        lemma_shaped_size(fewer, shorter);
        lemma_shaped_size(other_fewer, shorter);
        lemma_equal_parts(
            concatenated(fewer),
            first.last().parameters(),
            concatenated(other_fewer),
            second.last().parameters(),
        );
        lemma_parameters_settle_layers(fewer, other_fewer, shorter);
        let last = first.len() - 1;
        assert(first.last() == first[last]);
        assert(second.last() == second[last]);
        lemma_parameters_settle_neurons(
            first[last].neurons@,
            second[last].neurons@,
            topology[last].neurons as nat,
        );
        assert forall|i: int| 0 <= i < first.len() implies #[trigger] first[i].neurons.len()
            == second[i].neurons.len() by {}
        assert forall|i: int, j: int|
            0 <= i < first.len() && 0 <= j < first[i].neurons.len() implies {
            &&& (#[trigger] first[i].neurons[j]).bias == second[i].neurons[j].bias
            &&& first[i].neurons[j].weights@ == second[i].neurons[j].weights@
        } by {
            if i < last {
                assert(fewer[i] == first[i]);
                assert(other_fewer[i] == second[i]);
            }
        }
    }
}

/// Layers of the widths of a topology hold as many parameters as the
/// topology has.
pub proof fn lemma_shaped_size(layers: Seq<Layer>, topology: Seq<LayerTopology>)
    requires
        shaped(layers, topology),
    ensures
        concatenated(layers).len() == topology_size(topology),
    decreases layers.len(),
{
    if layers.len() > 0 {
        let fewer = layers.drop_last();
        let shorter = topology.drop_last();
        assert(shaped(fewer, shorter)) by {
            assert forall|i: int| 0 <= i < fewer.len() implies {
                &&& (#[trigger] fewer[i]).neurons.len() == shorter[i + 1].neurons
                &&& fewer[i].accepts(shorter[i].neurons as nat)
            } by {
                assert(fewer[i] == layers[i]);
            }
        }
        lemma_shaped_size(fewer, shorter);
        lemma_leading_size_prefix(topology, shorter, fewer.len());
        let last = layers.last();
        assert(last == layers[layers.len() - 1]);
        lemma_flattened_len(
            last.neurons@,
            topology[layers.len() - 1].neurons as nat,
        );
    }
}

/// The parameter count of the first layers depends on their widths alone.
pub proof fn lemma_leading_size_prefix(
    topology: Seq<LayerTopology>,
    shorter: Seq<LayerTopology>,
    count: nat,
)
    requires
        count < shorter.len() <= topology.len(),
        forall|i: int| 0 <= i < shorter.len() ==> shorter[i] == topology[i],
    ensures
        leading_size(shorter, count) == leading_size(topology, count),
    decreases count,
{
    if count > 0 {
        lemma_leading_size_prefix(topology, shorter, (count - 1) as nat);
    }
}

/// The parameter count of a topology grows with every further layer.
pub proof fn lemma_leading_size_grows(topology: Seq<LayerTopology>, fewer: nat, more: nat)
    requires
        fewer <= more,
    ensures
        leading_size(topology, fewer) <= leading_size(topology, more),
    decreases more,
{
    if fewer < more {
        lemma_leading_size_grows(topology, fewer, (more - 1) as nat);
    }
}

} // verus!
