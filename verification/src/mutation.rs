use vstd::prelude::*;
use crate::chromosome::Chromosome;
use crate::random::{after_coin, after_unit, coin, unit, unit_steps_in_range, Prng};
use crate::scalar::{minus_one_value, unit_interval_ordered, zero_annihilates, Scalar};

verus! {

/// A policy that perturbs the genes of a chromosome in place.
pub trait MutationMethod<S: Scalar> {
    /// Model of [`MutationMethod::mutate`]: the genes after mutation for
    /// given genes and a generator in `state`, and the generator's state
    /// afterwards.
    spec fn mutated(&self, state: u64, genes: Seq<S>) -> (Seq<S>, u64);

    /// Mutates `child` in place. Its length never changes.
    fn mutate(&self, rng: &mut Prng, child: &mut Chromosome<S>)
        ensures
            final(child)@ == self.mutated(old(rng)@, old(child)@).0,
            final(rng)@ == self.mutated(old(rng)@, old(child)@).1,
            final(child)@.len() == old(child)@.len(),
    ;
}

/// The direction of a perturbation: minus one if `negative`, else one.
pub open spec fn direction<S: Scalar>(negative: bool) -> S {
    if negative {
        minus_one_value::<S>()
    } else {
        S::one_value()
    }
}

/// A gene moved by `magnitude` times `coeff` in the given direction.
pub open spec fn moved<S: Scalar>(gene: S, negative: bool, coeff: S, magnitude: S) -> S {
    gene.sum(direction::<S>(negative).product(coeff).product(magnitude))
}

/// Mutation that moves each gene, with probability `chance`, by a uniformly
/// drawn fraction of `coeff`, up or down with equal probability.
///
/// For every gene, in order, three things are drawn at most: a coin for the
/// direction, a point of the unit interval that decides whether the gene is
/// hit (it is when the point is below `chance`), and, only if it is hit, a
/// second point, the magnitude.
#[derive(Debug)]
pub struct GaussianMutation<S> {
    chance: S,
    coeff: S,
}

impl<S: Copy> Copy for GaussianMutation<S> {}

impl<S: Copy> Clone for GaussianMutation<S> {
    fn clone(&self) -> (r: Self)
        ensures
            r == *self,
    {
        *self
    }
}

impl<S: Scalar> GaussianMutation<S> {
    /// The probability with which a gene is perturbed.
    pub closed spec fn chance(&self) -> S {
        self.chance
    }

    /// The largest distance by which a gene is moved.
    pub closed spec fn coeff(&self) -> S {
        self.coeff
    }

    /// A mutation with the given chance, meant to lie in `[0, 1]`, and
    /// coefficient, meant not to be negative.
    pub fn new(chance: S, coeff: S) -> (r: Self)
        ensures
            r.chance() == chance,
            r.coeff() == coeff,
    {
        GaussianMutation { chance, coeff }
    }

    /// Whether the gene whose draws start in `state` is hit.
    pub open spec fn hits(&self, state: u64) -> bool {
        unit::<S>(after_coin(state)).below(self.chance())
    }

    /// What becomes of a gene that is hit, when its draws start in `state`:
    /// it is moved in the direction of the coin drawn first, by the magnitude
    /// drawn third.
    pub open spec fn hit_gene(&self, state: u64, gene: S) -> S {
        moved(gene, coin(state), self.coeff(), unit::<S>(after_unit(after_coin(state))))
    }

    /// What becomes of one gene whose draws start in `state`, and the
    /// generator's state after them.
    pub open spec fn gene_step(&self, state: u64, gene: S) -> (S, u64) {
        let rolled = after_unit(after_coin(state));
        if self.hits(state) {
            (self.hit_gene(state, gene), after_unit(rolled))
        } else {
            (gene, rolled)
        }
    }

    /// The genes after the first `count` of them went through
    /// [`Self::gene_step`] in order, and the generator's state after that.
    pub open spec fn sweep(&self, state: u64, genes: Seq<S>, count: nat) -> (Seq<S>, u64)
        decreases count,
    {
        if count == 0 {
            (genes, state)
        } else {
            let before = self.sweep(state, genes, (count - 1) as nat);
            let step = self.gene_step(before.1, before.0[count - 1]);
            (before.0.update(count - 1, step.0), step.1)
        }
    }

    /// `gene` moved by `magnitude` times the coefficient, down if
    /// `negative`, else up.
    pub fn perturb(&self, gene: S, negative: bool, magnitude: S) -> (r: S)
        ensures
            r == moved(gene, negative, self.coeff(), magnitude),
    {
        let sign = if negative {
            S::zero().minus(S::one())
        } else {
            S::one()
        };
        gene.plus(sign.times(self.coeff).times(magnitude))
    }

    /// Draws for one gene and returns what becomes of it.
    pub fn mutate_gene(&self, rng: &mut Prng, gene: S) -> (r: S)
        ensures
            r == self.gene_step(old(rng)@, gene).0,
            final(rng)@ == self.gene_step(old(rng)@, gene).1,
    {
        let negative = rng.flip();
        let roll: S = rng.unit();
        if roll.less_than(self.chance) {
            let magnitude: S = rng.unit();
            self.perturb(gene, negative, magnitude)
        } else {
            gene
        }
    }
}

impl<S: Scalar> MutationMethod<S> for GaussianMutation<S> {
    open spec fn mutated(&self, state: u64, genes: Seq<S>) -> (Seq<S>, u64) {
        self.sweep(state, genes, genes.len())
    }

    fn mutate(&self, rng: &mut Prng, child: &mut Chromosome<S>) {
        let mut index: usize = 0;
        while index < child.len()
            invariant
                index <= child@.len(),
                child@.len() == old(child)@.len(),
                child@ == self.sweep(old(rng)@, old(child)@, index as nat).0,
                rng@ == self.sweep(old(rng)@, old(child)@, index as nat).1,
            decreases child@.len() - index,
        {
            let gene = self.mutate_gene(rng, child.get(index));
            child.set(index, gene);
            index = index + 1;
        }
    }
}

/// A sweep keeps the length of the chromosome, and leaves the genes that it
/// has not reached yet as they were.
pub proof fn sweep_keeps_rest<S: Scalar>(
    mutation: GaussianMutation<S>,
    state: u64,
    genes: Seq<S>,
    count: nat,
)
    requires
        count <= genes.len(),
    ensures
        mutation.sweep(state, genes, count).0.len() == genes.len(),
        forall|i: int|
            count <= i < genes.len() ==> mutation.sweep(state, genes, count).0[i] == genes[i],
    decreases count,
{
    if count > 0 {
        sweep_keeps_rest(mutation, state, genes, (count - 1) as nat);
    }
}

/// A sweep settles each gene when it reaches it: what the gene at position
/// `index` is after `index + 1` steps, it still is after `count` steps.
pub proof fn sweep_settles<S: Scalar>(
    mutation: GaussianMutation<S>,
    state: u64,
    genes: Seq<S>,
    index: int,
    count: nat,
)
    requires
        0 <= index < count <= genes.len(),
    ensures
        mutation.sweep(state, genes, count).0[index] == mutation.gene_step(
            mutation.sweep(state, genes, index as nat).1,
            genes[index],
        ).0,
    decreases count,
{
    sweep_keeps_rest(mutation, state, genes, (count - 1) as nat);
    if index < count - 1 {
        sweep_settles(mutation, state, genes, index, (count - 1) as nat);
    }
}

/// With a chance of zero, mutation changes nothing: no point of the unit
/// interval is below zero, so no gene is hit.
pub proof fn zero_chance_changes_nothing<S: Scalar>(
    mutation: GaussianMutation<S>,
    state: u64,
    genes: Seq<S>,
)
    requires
        mutation.chance() == S::zero_value(),
        unit_interval_ordered::<S>(),
    ensures
        mutation.mutated(state, genes).0 == genes,
{
    assert forall|i: int| 0 <= i < genes.len() implies mutation.mutated(state, genes).0[i]
        == genes[i] by {
        sweep_settles(mutation, state, genes, i, genes.len());
        unit_steps_in_range(after_coin(mutation.sweep(state, genes, i as nat).1));
    }
    sweep_keeps_rest(mutation, state, genes, genes.len());
    assert(mutation.mutated(state, genes).0 =~= genes);
}

/// With a coefficient of zero, mutation changes nothing, whatever the
/// chance: a gene that is hit is moved by nothing.
pub proof fn zero_coeff_changes_nothing<S: Scalar>(
    mutation: GaussianMutation<S>,
    state: u64,
    genes: Seq<S>,
)
    requires
        mutation.coeff() == S::zero_value(),
        zero_annihilates::<S>(),
    ensures
        mutation.mutated(state, genes).0 == genes,
{
    assert forall|i: int| 0 <= i < genes.len() implies mutation.mutated(state, genes).0[i]
        == genes[i] by {
        sweep_settles(mutation, state, genes, i, genes.len());
    }
    sweep_keeps_rest(mutation, state, genes, genes.len());
    assert(mutation.mutated(state, genes).0 =~= genes);
}

/// With a chance of one, mutation hits every gene: each is moved by the
/// magnitude drawn for it, in the direction drawn for it. Every gene
/// therefore changes, but for those whose move is nothing: one whose
/// magnitude is drawn as zero, or one so large that the move is rounded
/// away.
pub proof fn full_chance_moves_every_gene<S: Scalar>(
    mutation: GaussianMutation<S>,
    state: u64,
    genes: Seq<S>,
)
    requires
        mutation.chance() == S::one_value(),
        unit_interval_ordered::<S>(),
    ensures
        mutation.mutated(state, genes).0.len() == genes.len(),
        forall|i: int|
            0 <= i < genes.len() ==> #[trigger] mutation.mutated(state, genes).0[i]
                == mutation.hit_gene(mutation.sweep(state, genes, i as nat).1, genes[i]),
{
    assert forall|i: int| 0 <= i < genes.len() implies #[trigger] mutation.mutated(
        state,
        genes,
    ).0[i] == mutation.hit_gene(mutation.sweep(state, genes, i as nat).1, genes[i]) by {
        sweep_settles(mutation, state, genes, i, genes.len());
        unit_steps_in_range(after_coin(mutation.sweep(state, genes, i as nat).1));
    }
    sweep_keeps_rest(mutation, state, genes, genes.len());
}

} // verus!
