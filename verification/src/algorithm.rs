use vstd::prelude::*;
use crate::crossover::CrossoverMethod;
use crate::individual::{genomes, scores, Individual};
use crate::mutation::MutationMethod;
use crate::random::Prng;
use crate::scalar::Scalar;
use crate::select::SelectionMethod;

verus! {

/// Whether all gene sequences have the same length.
pub open spec fn same_length<G>(genomes: Seq<Seq<G>>) -> bool {
    forall|i: int, j: int|
        0 <= i < genomes.len() && 0 <= j < genomes.len() ==> (#[trigger] genomes[i]).len() == (
        #[trigger] genomes[j]).len()
}

/// Whether all chromosomes of a population have the same length, as
/// [`GeneticAlgorithm::evolve`] needs them.
pub fn uniform_length<S: Scalar, I: Individual<S>>(population: &[I]) -> (r: bool)
    ensures
        r == same_length(genomes(population@)),
{
    if population.len() == 0 {
        return true;
    }
    let ghost all = genomes(population@);
    let length = population[0].chromosome().len();
    let mut index: usize = 1;
    while index < population.len()
        invariant
            1 <= index <= population@.len(),
            all == genomes(population@),
            all[0].len() == length,
            forall|i: int| 0 <= i < index ==> (#[trigger] all[i]).len() == length,
        decreases population@.len() - index,
    {
        if population[index].chromosome().len() != length {
            assert(all[index as int].len() != all[0].len());
            return false;
        }
        index = index + 1;
    }
    true
}

/// The orchestrator: one selection policy, one crossover policy and one
/// mutation policy, set once, that together produce the next generation from
/// the current one.
pub struct GeneticAlgorithm<Sel, Cross, Mutate> {
    selection_method: Sel,
    crossover_method: Cross,
    mutation_method: Mutate,
}

impl<Sel, Cross, Mutate> GeneticAlgorithm<Sel, Cross, Mutate> {
    /// The selection policy.
    pub closed spec fn selection_method(&self) -> Sel {
        self.selection_method
    }

    /// The crossover policy.
    pub closed spec fn crossover_method(&self) -> Cross {
        self.crossover_method
    }

    /// The mutation policy.
    pub closed spec fn mutation_method(&self) -> Mutate {
        self.mutation_method
    }

    /// The algorithm that selects, crosses and mutates by the given
    /// policies.
    pub fn new(selection_method: Sel, crossover_method: Cross, mutation_method: Mutate) -> (r: Self)
        ensures
            r.selection_method() == selection_method,
            r.crossover_method() == crossover_method,
            r.mutation_method() == mutation_method,
    {
        GeneticAlgorithm { selection_method, crossover_method, mutation_method }
    }

    /// The genes of one offspring of a population with the given scores and
    /// gene sequences, bred by a generator in `state`, and the generator's
    /// state afterwards: select parent A, select parent B, cross their genes,
    /// mutate the result.
    pub open spec fn offspring<S>(&self, state: u64, scores: Seq<S>, genomes: Seq<Seq<S>>) -> (
        Seq<S>,
        u64,
    ) where
        S: Scalar,
        Sel: SelectionMethod<S>,
        Cross: CrossoverMethod<S>,
        Mutate: MutationMethod<S>,
     {
        let parent_a = self.selection_method().pick(state, scores);
        let parent_b = self.selection_method().pick(parent_a.1, scores);
        let crossed = self.crossover_method().offspring(
            parent_b.1,
            genomes[parent_a.0],
            genomes[parent_b.0],
        );
        self.mutation_method().mutated(crossed.1, crossed.0)
    }

    /// The genes of the first `count` offspring, bred one after the other
    /// with one shared generator that starts in `state`, and the generator's
    /// state after the last of them.
    pub open spec fn brood<S>(
        &self,
        state: u64,
        scores: Seq<S>,
        genomes: Seq<Seq<S>>,
        count: nat,
    ) -> (Seq<Seq<S>>, u64) where
        S: Scalar,
        Sel: SelectionMethod<S>,
        Cross: CrossoverMethod<S>,
        Mutate: MutationMethod<S>,

        decreases count,
    {
        if count == 0 {
            (Seq::empty(), state)
        } else {
            let before = self.brood(state, scores, genomes, (count - 1) as nat);
            let child = self.offspring(before.1, scores, genomes);
            (before.0.push(child.0), child.1)
        }
    }

    /// Produces the next generation: as many offspring as the population has
    /// members, each bred from two selected parents, which may coincide. The
    /// population is only read.
    pub fn evolve<S, I>(&self, rng: &mut Prng, population: &[I]) -> (next: Vec<I>) where
        S: Scalar,
        I: Individual<S>,
        Sel: SelectionMethod<S>,
        Cross: CrossoverMethod<S>,
        Mutate: MutationMethod<S>,

        requires
            population@.len() > 0,
            same_length(genomes(population@)),
        ensures
            next@.len() == population@.len(),
            genomes(next@) == self.brood(
                old(rng)@,
                scores(population@),
                genomes(population@),
                population@.len(),
            ).0,
            final(rng)@ == self.brood(
                old(rng)@,
                scores(population@),
                genomes(population@),
                population@.len(),
            ).1,
            forall|i: int|
                0 <= i < next@.len() ==> (#[trigger] next@[i]).genotype()@.len()
                    == population@[0].genotype()@.len(),
    {
        let ghost fitness = scores(population@);
        let ghost parents = genomes(population@);
        let mut next: Vec<I> = Vec::new();
        let mut slot: usize = 0;
        while slot < population.len()
            invariant
                slot <= population@.len(),
                next@.len() == slot,
                fitness == scores(population@),
                parents == genomes(population@),
                same_length(parents),
                genomes(next@) == self.brood(old(rng)@, fitness, parents, slot as nat).0,
                rng@ == self.brood(old(rng)@, fitness, parents, slot as nat).1,
                forall|i: int|
                    0 <= i < next@.len() ==> (#[trigger] next@[i]).genotype()@.len()
                        == population@[0].genotype()@.len(),
            decreases population@.len() - slot,
        {
            let ghost bred = genomes(next@);
            let ghost first = self.selection_method().pick(rng@, fitness);
            let ghost second = self.selection_method().pick(first.1, fitness);
            let parent_a = self.selection_method.select(rng, population).chromosome();
            let parent_b = self.selection_method.select(rng, population).chromosome();
            assert(parent_a@ == parents[first.0]);
            assert(parent_b@ == parents[second.0]);
            assert(parents[0] == population@[0].genotype()@);
            let mut offspring = self.crossover_method.crossover(rng, parent_a, parent_b);
            self.mutation_method.mutate(rng, &mut offspring);
            next.push(I::create(offspring));
            slot = slot + 1;
            assert(genomes(next@) =~= bred.push(offspring@));
        }
        next
    }
}

/// Determinism: a generation depends on nothing but the generator's state
/// and the scores and genes of the population. Two populations that agree
/// in scores and genes, evolved by one algorithm from the same generator
/// state, breed the same genes and leave the generator in the same state.
pub proof fn same_start_same_generation<S, I, J, Sel, Cross, Mutate>(
    algorithm: GeneticAlgorithm<Sel, Cross, Mutate>,
    state: u64,
    first: Seq<I>,
    second: Seq<J>,
) where
    S: Scalar,
    I: Individual<S>,
    J: Individual<S>,
    Sel: SelectionMethod<S>,
    Cross: CrossoverMethod<S>,
    Mutate: MutationMethod<S>,

    requires
        scores(first) == scores(second),
        genomes(first) == genomes(second),
    ensures
        first.len() == second.len(),
        algorithm.brood(state, scores(first), genomes(first), first.len()) == algorithm.brood(
            state,
            scores(second),
            genomes(second),
            second.len(),
        ),
{
    assert(scores(first).len() == first.len());
    assert(scores(second).len() == second.len());
}

} // verus!
