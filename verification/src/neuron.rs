use vstd::prelude::*;
use crate::random::{after_unit, unit, Prng};
use crate::scalar::{two_value, Scalar};

verus! {

/// What a neuron is made of: a bias, and one weight for each input.
pub struct NeuronModel<S> {
    pub bias: S,
    pub weights: Seq<S>,
}

/// One neuron of a feedforward network. Its view is its bias and weights.
pub struct Neuron<S> {
    bias: S,
    weights: Vec<S>,
}

impl<S> View for Neuron<S> {
    type V = NeuronModel<S>;

    closed spec fn view(&self) -> NeuronModel<S> {
        NeuronModel { bias: self.bias, weights: self.weights@ }
    }
}

/// The sum of the first `count` inputs, each multiplied by its weight, added
/// up from zero in their order.
pub open spec fn weighted_sum<S: Scalar>(inputs: Seq<S>, weights: Seq<S>, count: int) -> S
    decreases count,
{
    if count <= 0 {
        S::zero_value()
    } else {
        weighted_sum(inputs, weights, count - 1).sum(inputs[count - 1].product(weights[count - 1]))
    }
}

/// Rectified-linear activation: the number itself where it is above zero,
/// and zero elsewhere.
pub open spec fn rectified<S: Scalar>(x: S) -> S {
    if S::zero_value().below(x) {
        x
    } else {
        S::zero_value()
    }
}

/// What a neuron makes of its inputs: the rectified sum of its bias and its
/// weighted inputs.
pub open spec fn neuron_output<S: Scalar>(neuron: NeuronModel<S>, inputs: Seq<S>) -> S {
    rectified(neuron.bias.sum(weighted_sum(inputs, neuron.weights, neuron.weights.len() as int)))
}

/// The point of `[-1, 1)` that a draw in `state` yields: twice the point of
/// the unit interval, less one.
pub open spec fn spread<S: Scalar>(state: u64) -> S {
    unit::<S>(state).product(two_value::<S>()).difference(S::one_value())
}

/// `count` points of `[-1, 1)` drawn in turn by a generator that starts in
/// `state`, and the generator's state afterwards.
pub open spec fn spreads<S: Scalar>(state: u64, count: nat) -> (Seq<S>, u64)
    decreases count,
{
    if count == 0 {
        (Seq::empty(), state)
    } else {
        let before = spreads::<S>(state, (count - 1) as nat);
        (before.0.push(spread::<S>(before.1)), after_unit(before.1))
    }
}

/// As many points are drawn as were asked for.
pub proof fn spreads_len<S: Scalar>(state: u64, count: nat)
    ensures
        spreads::<S>(state, count).0.len() == count,
    decreases count,
{
    if count > 0 {
        spreads_len::<S>(state, (count - 1) as nat);
    }
}

/// The neuron with `input_size` weights that a generator in `state` draws:
/// first the bias, then the weights in order; and the generator's state
/// afterwards.
pub open spec fn random_neuron<S: Scalar>(state: u64, input_size: nat) -> (NeuronModel<S>, u64) {
    let weights = spreads::<S>(after_unit(state), input_size);
    (NeuronModel { bias: spread::<S>(state), weights: weights.0 }, weights.1)
}

/// Draws one point of `[-1, 1)`.
fn draw_spread<S: Scalar>(rng: &mut Prng) -> (r: S)
    ensures
        r == spread::<S>(old(rng)@),
        final(rng)@ == after_unit(old(rng)@),
{
    let point: S = rng.unit();
    point.times(S::one().plus(S::one())).minus(S::one())
}

impl<S: Scalar> Neuron<S> {
    /// The neuron with the given bias and weights.
    pub fn new(bias: S, weights: Vec<S>) -> (r: Self)
        ensures
            r@.bias == bias,
            r@.weights == weights@,
    {
        Neuron { bias, weights }
    }

    /// The neuron's bias.
    pub fn bias(&self) -> (r: S)
        ensures
            r == self@.bias,
    {
        self.bias
    }

    /// The neuron's weights, one for each input.
    pub fn weights(&self) -> (r: &Vec<S>)
        ensures
            r@ == self@.weights,
    {
        &self.weights
    }

    /// The neuron's output for the given inputs, of which there must be as
    /// many as the neuron has weights.
    pub fn propagate(&self, inputs: &[S]) -> (output: S)
        requires
            inputs@.len() == self@.weights.len(),
        ensures
            output == neuron_output(self@, inputs@),
    {
        let mut total = S::zero();
        let mut index: usize = 0;
        while index < inputs.len()
            invariant
                inputs@.len() == self.weights@.len(),
                index <= inputs@.len(),
                total == weighted_sum(inputs@, self.weights@, index as int),
            decreases inputs@.len() - index,
        {
            total = total.plus(inputs[index].times(self.weights[index]));
            index = index + 1;
        }
        let output = self.bias.plus(total);
        if S::zero().less_than(output) {
            output
        } else {
            S::zero()
        }
    }

    /// A neuron with `input_size` weights, its bias and weights drawn
    /// uniformly from `[-1, 1)`.
    pub fn random(rng: &mut Prng, input_size: usize) -> (r: Self)
        ensures
            r@ == random_neuron::<S>(old(rng)@, input_size as nat).0,
            final(rng)@ == random_neuron::<S>(old(rng)@, input_size as nat).1,
            r@.weights.len() == input_size,
    {
        let bias: S = draw_spread(rng);
        let ghost start = rng@;
        let mut weights: Vec<S> = Vec::new();
        let mut index: usize = 0;
        while index < input_size
            invariant
                index <= input_size,
                weights@.len() == index,
                weights@ == spreads::<S>(start, index as nat).0,
                rng@ == spreads::<S>(start, index as nat).1,
            decreases input_size - index,
        {
            let weight: S = draw_spread(rng);
            weights.push(weight);
            index = index + 1;
        }
        Neuron { bias, weights }
    }
}

} // verus!
