//! Uniform crossover: each gene of the child comes from one parent or the
//! other, by a fresh coin flip.
use vstd::prelude::*;
use crate::chromosome::Chromosome;
use crate::random::below;

verus! {

#[derive(Clone, Copy, Debug)]
pub struct UniformCrossover;

impl UniformCrossover {
    pub fn new() -> Self {
        UniformCrossover
    }

    /// The child whose gene `i` is taken from `a` where `from_a[i]` holds,
    /// and from `b` elsewhere.
    pub fn crossover_with(&self, a: &Chromosome, b: &Chromosome, from_a: &Vec<bool>) -> (r: Chromosome)
        requires
            a@.len() == b@.len(),
            from_a@.len() == a@.len(),
        ensures
            r@.len() == a@.len(),
            forall|i: int| 0 <= i < a@.len() ==> r@[i] == if from_a@[i] { a@[i] } else { b@[i] },
    {
        let mut genes: Vec<i64> = Vec::new();
        let mut i: usize = 0;
        while i < a.len()
            invariant
                i <= a@.len(),
                a@.len() == b@.len(),
                from_a@.len() == a@.len(),
                genes@.len() == i,
                forall|k: int| 0 <= k < i ==> genes@[k] == if from_a@[k] { a@[k] } else { b@[k] },
            decreases a@.len() - i,
        {
            if from_a[i] {
                genes.push(a.gene(i));
            } else {
                genes.push(b.gene(i));
            }
            i = i + 1;
        }
        Chromosome::new(genes)
    }

    /// A child of `a` and `b`: of the same length, each gene from one of them.
    pub fn crossover(&self, a: &Chromosome, b: &Chromosome, rng: &mut rand::rngs::StdRng) -> (r: Chromosome)
        requires
            a@.len() == b@.len(),
        ensures
            r@.len() == a@.len(),
            forall|i: int| 0 <= i < a@.len() ==> r@[i] == a@[i] || r@[i] == b@[i],
    {
        let mut from_a: Vec<bool> = Vec::new();
        let mut i: usize = 0;
        while i < a.len()
            invariant
                i <= a@.len(),
                from_a@.len() == i,
            decreases a@.len() - i,
        {
            from_a.push(below(rng, 2) == 0);
            i = i + 1;
        }
        self.crossover_with(a, b, &from_a)
    }
}

} // verus!
