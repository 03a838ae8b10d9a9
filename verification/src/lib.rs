//! A generic evolutionary-computation engine, and the feedforward network
//! that a genome typically encodes.
//!
//! The engine evolves a population across generations by fitness-proportionate
//! selection, crossover and mutation. It assumes nothing about what a genome
//! stands for or how fitness is computed: the application implements
//! [`Individual`], and chooses the number type by implementing [`Scalar`], or
//! takes the exact [`Fixed`].
//!
//! Every operation that needs entropy takes a [`Prng`] explicitly, and every
//! result is stated as a function of the generator's state and the inputs, so
//! that equal seeds give equal runs.

pub mod algorithm;
pub mod chromosome;
pub mod crossover;
pub mod fixed;
pub mod individual;
pub mod layer;
pub mod mutation;
pub mod network;
pub mod neuron;
pub mod proportion;
pub mod random;
pub mod scalar;
pub mod select;

pub use algorithm::GeneticAlgorithm;
pub use chromosome::Chromosome;
pub use crossover::{CrossoverMethod, UniformCrossover};
pub use fixed::Fixed;
pub use individual::Individual;
pub use layer::{Layer, LayerTopology};
pub use mutation::{GaussianMutation, MutationMethod};
pub use network::Network;
pub use neuron::Neuron;
pub use random::Prng;
pub use scalar::Scalar;
pub use select::{RouletteWheelSelection, SelectionMethod};
