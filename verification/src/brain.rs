//! The brain of an animal: a network as wide as the eye asks for.

use crate::chromosome::Chromosome;
use crate::entropy::signed_units;
use crate::eye::Eye;
use crate::network::{shaped, topology_size, LayerTopology, Network};
use crate::neuron::DecodeError;
use rand_chacha::ChaCha8Rng;
use vstd::prelude::*;

verus! {

#[derive(Debug)]
pub struct Brain {
    pub nn: Network,
}

impl Brain {
    /// The widths of the brain that goes with `eye`: one input for each cell,
    /// twice as many neurons in between, and two outputs, the first for the
    /// speed and the second for the rotation.
    pub open spec fn layout(eye: Eye) -> Seq<LayerTopology> {
        seq![
            LayerTopology { neurons: eye.cells },
            LayerTopology { neurons: (2 * eye.cells) as usize },
            LayerTopology { neurons: 2 },
        ]
    }

    /// The brain has the widths that go with `eye`.
    pub open spec fn fits(&self, eye: Eye) -> bool {
        shaped(self.nn.layers@, Self::layout(eye))
    }

    /// The widths of the brain that goes with `eye`.
    pub fn topology(eye: &Eye) -> (layers: Vec<LayerTopology>)
        requires
            eye.wf(),
        ensures
            layers@ == Self::layout(*eye),
    {
        let mut layers: Vec<LayerTopology> = Vec::new();
        layers.push(LayerTopology { neurons: eye.cells });
        layers.push(LayerTopology { neurons: 2 * eye.cells });
        layers.push(LayerTopology { neurons: 2 });
        proof {
            assert(layers@ =~= Self::layout(*eye));
        }
        layers
    }

    /// A brain for `eye` with drawn parameters.
    pub fn random(rng: &mut ChaCha8Rng, eye: &Eye) -> (brain: Brain)
        requires
            eye.wf(),
        ensures
            brain.fits(*eye),
            signed_units(brain.nn.parameters()),
    {
        let layers = Self::topology(eye);
        Brain { nn: Network::random(rng, &layers) }
    }

    /// The parameters of the brain as a chromosome.
    pub fn as_chromosome(&self) -> (chromosome: Chromosome)
        ensures
            chromosome@ == self.nn.parameters(),
    {
        Chromosome::new(self.nn.weights())
    }

    /// The brain for `eye` whose parameters are the genes of `chromosome`.
    /// It fails where the chromosome has too few genes.
    pub fn from_chromosome(chromosome: Chromosome, eye: &Eye) -> (decoded: Result<
        Brain,
        DecodeError,
    >)
        requires
            eye.wf(),
        ensures
            decoded is Ok <==> topology_size(Self::layout(*eye)) <= chromosome@.len(),
            decoded matches Ok(brain) ==> {
                &&& brain.fits(*eye)
                &&& brain.nn.parameters() == chromosome@.take(
                    topology_size(Self::layout(*eye)) as int,
                )
            },
    {
        let layers = Self::topology(eye);
        match Network::from_weights(&layers, chromosome.genes()) {
            Ok(nn) => Ok(Brain { nn }),
            Err(error) => Err(error),
        }
    }
}

} // verus!
