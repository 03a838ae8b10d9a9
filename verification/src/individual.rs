use vstd::prelude::*;
use crate::chromosome::Chromosome;
use crate::scalar::Scalar;

verus! {

/// A member of a population: a chromosome with a fitness score, and a way to
/// build a new member from a chromosome.
///
/// The embedding application implements this trait. The engine never
/// computes fitness: it reads the score that the application supplies, which
/// must be non-negative for selection to be proportionate.
///
/// `genotype` and `score` are the models of `chromosome` and `fitness`: what
/// those return for a given individual, as a function of the individual
/// alone.
pub trait Individual<S: Scalar>: Sized {
    /// Model of [`Individual::chromosome`].
    spec fn genotype(&self) -> Chromosome<S>;

    /// Model of [`Individual::fitness`].
    spec fn score(&self) -> S;

    /// The individual's chromosome.
    fn chromosome(&self) -> (r: &Chromosome<S>)
        ensures
            r@ == self.genotype()@,
    ;

    /// The individual's fitness, as the application last computed it.
    fn fitness(&self) -> (r: S)
        ensures
            r == self.score(),
    ;

    /// A new individual that holds `chromosome`. Its fitness is whatever the
    /// implementation chooses until the application computes it.
    fn create(chromosome: Chromosome<S>) -> (r: Self)
        ensures
            r.genotype()@ == chromosome@,
    ;
}

/// The fitness scores of a population, in its order.
pub open spec fn scores<S: Scalar, I: Individual<S>>(population: Seq<I>) -> Seq<S> {
    Seq::new(population.len(), |i: int| population[i].score())
}

/// The gene sequences of a population, in its order.
pub open spec fn genomes<S: Scalar, I: Individual<S>>(population: Seq<I>) -> Seq<Seq<S>> {
    Seq::new(population.len(), |i: int| population[i].genotype()@)
}

} // verus!
