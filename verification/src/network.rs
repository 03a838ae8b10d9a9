use vstd::prelude::*;
use crate::layer::{layer_accepts, layer_output, random_layer, random_layer_shape, Layer, LayerTopology};
use crate::neuron::NeuronModel;
use crate::random::Prng;
use crate::scalar::Scalar;

verus! {

/// A feedforward network: layers through which an input is fed in order.
/// Its view is the sequence of its layers.
pub struct Network<S> {
    layers: Vec<Layer<S>>,
}

impl<S> View for Network<S> {
    type V = Seq<Seq<NeuronModel<S>>>;

    closed spec fn view(&self) -> Seq<Seq<NeuronModel<S>>> {
        Seq::new(self.layers@.len(), |i: int| self.layers@[i]@)
    }
}

/// The number of inputs that reach layer `index` when the network is given
/// `size` inputs: `size` for the first layer, the number of neurons of the
/// layer before for every other.
pub open spec fn width_at<S>(layers: Seq<Seq<NeuronModel<S>>>, size: nat, index: int) -> nat {
    if index <= 0 {
        size
    } else {
        layers[index - 1].len()
    }
}

/// Whether the network can take `size` inputs: every layer accepts what
/// reaches it.
pub open spec fn network_accepts<S>(layers: Seq<Seq<NeuronModel<S>>>, size: nat) -> bool {
    forall|i: int|
        0 <= i < layers.len() ==> layer_accepts(#[trigger] layers[i], width_at(layers, size, i))
}

/// What the first `count` layers make of the inputs: the output of each
/// layer is the input of the next.
pub open spec fn network_output<S: Scalar>(
    layers: Seq<Seq<NeuronModel<S>>>,
    inputs: Seq<S>,
    count: int,
) -> Seq<S>
    decreases count,
{
    if count <= 0 {
        inputs
    } else {
        layer_output(layers[count - 1], network_output(layers, inputs, count - 1))
    }
}

/// The numbers of neurons that a topology asks for, layer by layer.
pub open spec fn sizes(topology: Seq<LayerTopology>) -> Seq<nat> {
    Seq::new(topology.len(), |i: int| topology[i].neurons as nat)
}

/// The first `count` layers of a network of the given sizes, drawn one after
/// the other by a generator that starts in `state`, and the generator's
/// state afterwards. Layer `i` takes `sizes[i]` inputs and has `sizes[i + 1]`
/// neurons.
pub open spec fn random_network<S: Scalar>(state: u64, sizes: Seq<nat>, count: nat) -> (
    Seq<Seq<NeuronModel<S>>>,
    u64,
)
    decreases count,
{
    if count == 0 {
        (Seq::empty(), state)
    } else {
        let before = random_network::<S>(state, sizes, (count - 1) as nat);
        let layer = random_layer::<S>(before.1, sizes[count - 1], sizes[count as int]);
        (before.0.push(layer.0), layer.1)
    }
}

/// A randomly drawn network has the shape that was asked for, and so accepts
/// as many inputs as its first size says.
pub proof fn random_network_shape<S: Scalar>(state: u64, sizes: Seq<nat>, count: nat)
    requires
        count < sizes.len(),
    ensures
        random_network::<S>(state, sizes, count).0.len() == count,
        forall|i: int|
            0 <= i < count ==> (#[trigger] random_network::<S>(state, sizes, count).0[i]).len()
                == sizes[i + 1],
        forall|i: int|
            0 <= i < count ==> layer_accepts(
                #[trigger] random_network::<S>(state, sizes, count).0[i],
                sizes[i],
            ),
        network_accepts(random_network::<S>(state, sizes, count).0, sizes[0]),
    decreases count,
{
    if count > 0 {
        random_network_shape::<S>(state, sizes, (count - 1) as nat);
        let before = random_network::<S>(state, sizes, (count - 1) as nat);
        random_layer_shape::<S>(before.1, sizes[count - 1], sizes[count as int]);
        let all = random_network::<S>(state, sizes, count).0;
        assert forall|i: int| 0 <= i < count implies (#[trigger] all[i]).len() == sizes[i + 1]
            && layer_accepts(all[i], sizes[i]) by {
            if i < count - 1 {
                assert(all[i] == before.0[i]);
            }
        }
        assert forall|i: int| 0 <= i < all.len() implies layer_accepts(
            #[trigger] all[i],
            width_at(all, sizes[0], i),
        ) by {
            if i > 0 {
                assert(all[i - 1].len() == sizes[i]);
            }
        }
    }
}

impl<S: Scalar> Network<S> {
    /// Feeds the inputs through every layer in order and returns what the
    /// last layer puts out. There must be as many inputs as the first layer
    /// takes.
    pub fn propagate(&self, inputs: Vec<S>) -> (outputs: Vec<S>)
        requires
            network_accepts(self@, inputs@.len()),
        ensures
            outputs@ == network_output(self@, inputs@, self@.len() as int),
    {
        let ghost given = inputs@;
        let mut signal = inputs;
        let mut index: usize = 0;
        while index < self.layers.len()
            invariant
                network_accepts(self@, given.len()),
                index <= self.layers@.len(),
                signal@ == network_output(self@, given, index as int),
                signal@.len() == width_at(self@, given.len(), index as int),
            decreases self.layers@.len() - index,
        {
            assert(self@[index as int] == self.layers@[index as int]@);
            signal = self.layers[index].propagate(signal);
            index = index + 1;
        }
        signal
    }

    /// Whether the network can take `size` inputs: whether every layer
    /// accepts what reaches it.
    pub fn accepts(&self, size: usize) -> (r: bool)
        ensures
            r == network_accepts(self@, size as nat),
    {
        let mut width = size;
        let mut index: usize = 0;
        while index < self.layers.len()
            invariant
                index <= self.layers@.len(),
                width == width_at(self@, size as nat, index as int),
                forall|i: int|
                    0 <= i < index ==> layer_accepts(
                        #[trigger] self@[i],
                        width_at(self@, size as nat, i),
                    ),
            decreases self.layers@.len() - index,
        {
            assert(self@[index as int] == self.layers@[index as int]@);
            if !self.layers[index].accepts(width) {
                return false;
            }
            width = self.layers[index].len();
            index = index + 1;
        }
        true
    }

    /// A network of the given topology, every bias and weight drawn
    /// uniformly from `[-1, 1)`. The topology names at least two layers: the
    /// first only gives the number of inputs, and each following one becomes
    /// a layer of that many neurons.
    pub fn random(rng: &mut Prng, layers: &[LayerTopology]) -> (r: Self)
        requires
            layers@.len() > 1,
        ensures
            r@ == random_network::<S>(old(rng)@, sizes(layers@), (layers@.len() - 1) as nat).0,
            final(rng)@ == random_network::<S>(
                old(rng)@,
                sizes(layers@),
                (layers@.len() - 1) as nat,
            ).1,
            r@.len() == layers@.len() - 1,
            forall|i: int| 0 <= i < r@.len() ==> (#[trigger] r@[i]).len() == layers@[i + 1].neurons,
            network_accepts(r@, layers@[0].neurons as nat),
    {
        let ghost shape = sizes(layers@);
        let mut built: Vec<Layer<S>> = Vec::new();
        let count = layers.len();
        let mut index: usize = 0;
        while index + 1 < count
            invariant
                count == layers@.len(),
                layers@.len() > 1,
                shape == sizes(layers@),
                index + 1 <= layers@.len(),
                built@.len() == index,
                Seq::new(built@.len(), |i: int| built@[i]@) == random_network::<S>(
                    old(rng)@,
                    shape,
                    index as nat,
                ).0,
                rng@ == random_network::<S>(old(rng)@, shape, index as nat).1,
            decreases layers@.len() - index,
        {
            let ghost before = Seq::new(built@.len(), |i: int| built@[i]@);
            let layer = Layer::random(rng, layers[index].neurons, layers[index + 1].neurons);
            built.push(layer);
            index = index + 1;
            assert(Seq::new(built@.len(), |i: int| built@[i]@) =~= before.push(layer@));
        }
        proof {
            random_network_shape::<S>(old(rng)@, shape, (layers@.len() - 1) as nat);
        }
        Network { layers: built }
    }
}

} // verus!
