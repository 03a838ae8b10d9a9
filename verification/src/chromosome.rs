use vstd::prelude::*;

verus! {

/// An ordered sequence of genes: the genotype of one candidate solution.
/// Its view is the sequence of its genes.
pub struct Chromosome<G> {
    genes: Vec<G>,
}

impl<G> View for Chromosome<G> {
    type V = Seq<G>;

    closed spec fn view(&self) -> Seq<G> {
        self.genes@
    }
}

impl<G: Copy> Chromosome<G> {
    /// The chromosome that holds `genes` in their order.
    pub fn new(genes: Vec<G>) -> (r: Self)
        ensures
            r@ == genes@,
    {
        Chromosome { genes }
    }

    /// The number of genes.
    pub fn len(&self) -> (n: usize)
        ensures
            n == self@.len(),
    {
        self.genes.len()
    }

    /// The gene at position `index`.
    pub fn get(&self, index: usize) -> (gene: G)
        requires
            index < self@.len(),
        ensures
            gene == self@[index as int],
    {
        self.genes[index]
    }

    /// Replaces the gene at position `index`; all others stay.
    pub fn set(&mut self, index: usize, gene: G)
        requires
            index < old(self)@.len(),
        ensures
            final(self)@ == old(self)@.update(index as int, gene),
    {
        self.genes.set(index, gene);
    }

    /// The genes in their order.
    pub fn genes(&self) -> (r: &Vec<G>)
        ensures
            r@ == self@,
    {
        &self.genes
    }

    /// Gives up the chromosome for its genes.
    pub fn into_genes(self) -> (r: Vec<G>)
        ensures
            r@ == self@,
    {
        self.genes
    }
}

impl<G: Copy> Clone for Chromosome<G> {
    /// A chromosome with the same genes.
    fn clone(&self) -> (r: Self)
        ensures
            r@ == self@,
    {
        let mut genes: Vec<G> = Vec::new();
        let mut index: usize = 0;
        while index < self.genes.len()
            invariant
                index <= self.genes@.len(),
                genes@ == self.genes@.take(index as int),
            decreases self.genes@.len() - index,
        {
            genes.push(self.genes[index]);
            index = index + 1;
            assert(genes@ =~= self.genes@.take(index as int));
        }
        assert(genes@ =~= self.genes@);
        Chromosome { genes }
    }
}

} // verus!
