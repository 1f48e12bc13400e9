//! Chromosomes: the flattened, evolvable parameters of one individual.
use vstd::prelude::*;

verus! {

/// Fixed-point scale of a gene: a gene of `GENE_SCALE` stands for 1.0.
pub const GENE_SCALE: i64 = 1_000_000;

/// An ordered sequence of fixed-point genes.
#[derive(Clone, Debug)]
pub struct Chromosome {
    pub genes: Vec<i64>,
}

impl View for Chromosome {
    type V = Seq<i64>;

    open spec fn view(&self) -> Seq<i64> {
        self.genes@
    }
}

impl Chromosome {
    pub fn new(genes: Vec<i64>) -> (r: Chromosome)
        ensures
            r@ == genes@,
    {
        Chromosome { genes }
    }

    pub fn len(&self) -> (r: usize)
        ensures
            r == self@.len(),
    {
        self.genes.len()
    }

    pub fn gene(&self, i: usize) -> (r: i64)
        requires
            i < self@.len(),
        ensures
            r == self@[i as int],
    {
        self.genes[i]
    }
}

/// What an individual of an evolving population offers the engine: its
/// fitness, its chromosome, and a way to be rebuilt from a chromosome.
pub trait Individual: Sized {
    spec fn fitness_spec(&self) -> u64;

    spec fn chromosome_spec(&self) -> Seq<i64>;

    fn fitness(&self) -> (r: u64)
        ensures
            r == self.fitness_spec(),
    ;

    fn chromosome(&self) -> (r: Chromosome)
        ensures
            r@ == self.chromosome_spec(),
    ;

    /// A fresh individual, of fitness zero, that carries `chromosome`.
    fn create(chromosome: Chromosome) -> (r: Self)
        ensures
            r.chromosome_spec() == chromosome@,
            r.fitness_spec() == 0,
    ;
}

/// The fitness of each individual, in order.
pub open spec fn fitness_seq<I: Individual>(population: Seq<I>) -> Seq<u64> {
    population.map_values(|i: I| i.fitness_spec())
}

/// Every individual carries a chromosome of length `len`.
pub open spec fn uniform_length<I: Individual>(population: Seq<I>, len: nat) -> bool {
    forall|k: int| 0 <= k < population.len() ==> (#[trigger] population[k]).chromosome_spec().len() == len
}

} // verus!
