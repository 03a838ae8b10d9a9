use vstd::prelude::*;
use crate::neuron::{neuron_output, random_neuron, spreads_len, Neuron, NeuronModel};
use crate::random::{after_unit, Prng};
use crate::scalar::Scalar;

verus! {

/// The shape of one layer of a network: how many neurons it has.
#[derive(Clone, Copy, Debug)]
pub struct LayerTopology {
    pub neurons: usize,
}

/// One layer of a feedforward network. Its view is the sequence of its
/// neurons.
pub struct Layer<S> {
    neurons: Vec<Neuron<S>>,
}

impl<S> View for Layer<S> {
    type V = Seq<NeuronModel<S>>;

    closed spec fn view(&self) -> Seq<NeuronModel<S>> {
        Seq::new(self.neurons@.len(), |i: int| self.neurons@[i]@)
    }
}

/// Whether every neuron of the layer has exactly `size` weights, so that the
/// layer can take `size` inputs.
pub open spec fn layer_accepts<S>(layer: Seq<NeuronModel<S>>, size: nat) -> bool {
    forall|i: int| 0 <= i < layer.len() ==> (#[trigger] layer[i]).weights.len() == size
}

/// What a layer makes of its inputs: the output of each of its neurons, in
/// their order.
pub open spec fn layer_output<S: Scalar>(layer: Seq<NeuronModel<S>>, inputs: Seq<S>) -> Seq<S> {
    Seq::new(layer.len(), |i: int| neuron_output(layer[i], inputs))
}

/// The first `count` neurons of a layer for `input_size` inputs, drawn one
/// after the other by a generator that starts in `state`, and the
/// generator's state afterwards.
pub open spec fn random_layer<S: Scalar>(state: u64, input_size: nat, count: nat) -> (
    Seq<NeuronModel<S>>,
    u64,
)
    decreases count,
{
    if count == 0 {
        (Seq::empty(), state)
    } else {
        let before = random_layer::<S>(state, input_size, (count - 1) as nat);
        let neuron = random_neuron::<S>(before.1, input_size);
        (before.0.push(neuron.0), neuron.1)
    }
}

/// A randomly drawn layer accepts as many inputs as it was drawn for.
pub proof fn random_layer_shape<S: Scalar>(state: u64, input_size: nat, count: nat)
    ensures
        random_layer::<S>(state, input_size, count).0.len() == count,
        layer_accepts(random_layer::<S>(state, input_size, count).0, input_size),
    decreases count,
{
    if count > 0 {
        random_layer_shape::<S>(state, input_size, (count - 1) as nat);
        let before = random_layer::<S>(state, input_size, (count - 1) as nat);
        spreads_len::<S>(after_unit(before.1), input_size);
    }
}

impl<S: Scalar> Layer<S> {
    /// The outputs of the layer's neurons for the given inputs, of which
    /// there must be as many as each neuron has weights.
    pub fn propagate(&self, inputs: Vec<S>) -> (outputs: Vec<S>)
        requires
            layer_accepts(self@, inputs@.len()),
        ensures
            outputs@ == layer_output(self@, inputs@),
    {
        let mut outputs: Vec<S> = Vec::new();
        let mut index: usize = 0;
        while index < self.neurons.len()
            invariant
                layer_accepts(self@, inputs@.len()),
                index <= self.neurons@.len(),
                outputs@.len() == index,
                forall|i: int| 0 <= i < index ==> outputs@[i] == neuron_output(self@[i], inputs@),
            decreases self.neurons@.len() - index,
        {
            assert(self@[index as int] == self.neurons@[index as int]@);
            let output = self.neurons[index].propagate(inputs.as_slice());
            outputs.push(output);
            index = index + 1;
        }
        assert(outputs@ =~= layer_output(self@, inputs@));
        outputs
    }

    /// A layer of `output_size` neurons for `input_size` inputs, every bias
    /// and weight drawn uniformly from `[-1, 1)`.
    pub fn random(rng: &mut Prng, input_size: usize, output_size: usize) -> (r: Self)
        ensures
            r@ == random_layer::<S>(old(rng)@, input_size as nat, output_size as nat).0,
            final(rng)@ == random_layer::<S>(old(rng)@, input_size as nat, output_size as nat).1,
            r@.len() == output_size,
            layer_accepts(r@, input_size as nat),
    {
        let mut neurons: Vec<Neuron<S>> = Vec::new();
        let mut index: usize = 0;
        while index < output_size
            invariant
                index <= output_size,
                neurons@.len() == index,
                Seq::new(neurons@.len(), |i: int| neurons@[i]@) == random_layer::<S>(
                    old(rng)@,
                    input_size as nat,
                    index as nat,
                ).0,
                rng@ == random_layer::<S>(old(rng)@, input_size as nat, index as nat).1,
            decreases output_size - index,
        {
            let ghost before = Seq::new(neurons@.len(), |i: int| neurons@[i]@);
            let neuron = Neuron::random(rng, input_size);
            neurons.push(neuron);
            index = index + 1;
            assert(Seq::new(neurons@.len(), |i: int| neurons@[i]@) =~= before.push(neuron@));
        }
        proof {
            random_layer_shape::<S>(old(rng)@, input_size as nat, output_size as nat);
        }
        Layer { neurons }
    }

    /// Whether the layer can take `size` inputs: whether each of its neurons
    /// has exactly `size` weights.
    pub fn accepts(&self, size: usize) -> (r: bool)
        ensures
            r == layer_accepts(self@, size as nat),
    {
        let mut index: usize = 0;
        while index < self.neurons.len()
            invariant
                index <= self.neurons@.len(),
                forall|i: int| 0 <= i < index ==> (#[trigger] self@[i]).weights.len() == size,
            decreases self.neurons@.len() - index,
        {
            assert(self@[index as int] == self.neurons@[index as int]@);
            if self.neurons[index].weights().len() != size {
                return false;
            }
            index = index + 1;
        }
        true
    }

    /// The number of neurons, which is the number of outputs.
    pub fn len(&self) -> (n: usize)
        ensures
            n == self@.len(),
    {
        self.neurons.len()
    }
}

} // verus!
