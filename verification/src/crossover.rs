use vstd::prelude::*;
use crate::chromosome::Chromosome;
use crate::random::{after_coin, coin, Prng};

verus! {

/// A policy that combines the chromosomes of two parents into that of one
/// child.
pub trait CrossoverMethod<G: Copy> {
    /// Model of [`CrossoverMethod::crossover`]: the child's genes for parents
    /// with the given genes and a generator in `state`, and the generator's
    /// state afterwards.
    spec fn offspring(&self, state: u64, parent_a: Seq<G>, parent_b: Seq<G>) -> (Seq<G>, u64);

    /// Builds a child of two parents of equal length. The parents are only
    /// read, and the child is as long as they are.
    fn crossover(&self, rng: &mut Prng, parent_a: &Chromosome<G>, parent_b: &Chromosome<G>) -> (child:
        Chromosome<G>)
        requires
            parent_a@.len() == parent_b@.len(),
        ensures
            child@ == self.offspring(old(rng)@, parent_a@, parent_b@).0,
            final(rng)@ == self.offspring(old(rng)@, parent_a@, parent_b@).1,
            child@.len() == parent_a@.len(),
    ;
}

/// The generator state after `count` coins were drawn in turn, starting in
/// `state`.
pub open spec fn after_coins(state: u64, count: nat) -> u64
    decreases count,
{
    if count == 0 {
        state
    } else {
        after_coin(after_coins(state, (count - 1) as nat))
    }
}

/// The coin drawn for position `index` when one coin is drawn per position,
/// in order, starting in `state`.
pub open spec fn coin_at(state: u64, index: nat) -> bool {
    coin(after_coins(state, index))
}

/// The child that takes each gene from `parent_a` where the coin of its
/// position is heads, and from `parent_b` where it is tails.
pub open spec fn mix<G>(parent_a: Seq<G>, parent_b: Seq<G>, heads: spec_fn(int) -> bool) -> Seq<G> {
    Seq::new(
        parent_a.len(),
        |i: int|
            if heads(i) {
                parent_a[i]
            } else {
                parent_b[i]
            },
    )
}

/// Uniform crossover: every position of the child is an independent fair
/// choice between the two parents' genes at that position.
#[derive(Clone, Copy, Debug)]
pub struct UniformCrossover;

impl UniformCrossover {
    /// The uniform crossover policy, which has no parameters.
    pub fn new() -> (r: Self) {
        UniformCrossover
    }

    /// The child of two parents for given coins, one per position: the gene
    /// of `parent_a` where the coin is `true`, that of `parent_b` where it is
    /// `false`.
    pub fn mix_with<G: Copy>(parent_a: &Chromosome<G>, parent_b: &Chromosome<G>, coins: &Vec<bool>) -> (child:
        Chromosome<G>)
        requires
            parent_a@.len() == parent_b@.len(),
            coins@.len() == parent_a@.len(),
        ensures
            child@ == mix(parent_a@, parent_b@, |i: int| coins@[i]),
    {
        let mut genes: Vec<G> = Vec::new();
        let mut index: usize = 0;
        while index < parent_a.len()
            invariant
                parent_a@.len() == parent_b@.len(),
                coins@.len() == parent_a@.len(),
                index <= parent_a@.len(),
                genes@.len() == index,
                forall|i: int|
                    0 <= i < index ==> genes@[i] == (if coins@[i] {
                        parent_a@[i]
                    } else {
                        parent_b@[i]
                    }),
            decreases parent_a@.len() - index,
        {
            let gene = if coins[index] {
                parent_a.get(index)
            } else {
                parent_b.get(index)
            };
            genes.push(gene);
            index = index + 1;
        }
        assert(genes@ =~= mix(parent_a@, parent_b@, |i: int| coins@[i]));
        Chromosome::new(genes)
    }
}

impl<G: Copy> CrossoverMethod<G> for UniformCrossover {
    open spec fn offspring(&self, state: u64, parent_a: Seq<G>, parent_b: Seq<G>) -> (Seq<G>, u64) {
        (
            mix(parent_a, parent_b, |i: int| coin_at(state, i as nat)),
            after_coins(state, parent_a.len()),
        )
    }

    fn crossover(&self, rng: &mut Prng, parent_a: &Chromosome<G>, parent_b: &Chromosome<G>) -> (child:
        Chromosome<G>) {
        let mut coins: Vec<bool> = Vec::new();
        let mut index: usize = 0;
        while index < parent_a.len()
            invariant
                index <= parent_a@.len(),
                coins@.len() == index,
                rng@ == after_coins(old(rng)@, index as nat),
                forall|i: int| 0 <= i < index ==> coins@[i] == coin_at(old(rng)@, i as nat),
            decreases parent_a@.len() - index,
        {
            let heads = rng.flip();
            coins.push(heads);
            index = index + 1;
        }
        let child = Self::mix_with(parent_a, parent_b, &coins);
        assert(child@ =~= mix(parent_a@, parent_b@, |i: int| coin_at(old(rng)@, i as nat)));
        child
    }
}

/// Every gene of a mixed child is the gene that one of its parents has at
/// the same position, whatever the coins.
pub proof fn mix_takes_from_parents<G>(
    parent_a: Seq<G>,
    parent_b: Seq<G>,
    heads: spec_fn(int) -> bool,
)
    requires
        parent_a.len() == parent_b.len(),
    ensures
        mix(parent_a, parent_b, heads).len() == parent_a.len(),
        forall|i: int|
            0 <= i < parent_a.len() ==> (#[trigger] mix(parent_a, parent_b, heads)[i])
                == parent_a[i] || mix(parent_a, parent_b, heads)[i] == parent_b[i],
{
}

} // verus!
