//! One generation transition: select, cross over and mutate until a new
//! population of the same size stands, and report how the old one fared.
use vstd::prelude::*;
use vstd::arithmetic::mul::lemma_mul_inequality;
use vstd::arithmetic::div_mod::{lemma_div_is_ordered, lemma_div_multiples_vanish};
use crate::chromosome::{Chromosome, Individual, fitness_seq, uniform_length};
use crate::crossover::UniformCrossover;
use crate::mutation::{GaussianMutation, abs};
use crate::selection::{SelectionMethod, lemma_picked_positive, picked, total, weight_total};

verus! {

/// The least value of a non-empty sequence.
pub open spec fn seq_min(f: Seq<u64>) -> u64
    decreases f.len(),
{
    if f.len() == 0 {
        0
    } else if f.len() == 1 {
        f[0]
    } else if f.last() < seq_min(f.drop_last()) {
        f.last()
    } else {
        seq_min(f.drop_last())
    }
}

/// The greatest value of a sequence.
pub open spec fn seq_max(f: Seq<u64>) -> u64
    decreases f.len(),
{
    if f.len() == 0 {
        0
    } else if f.last() > seq_max(f.drop_last()) {
        f.last()
    } else {
        seq_max(f.drop_last())
    }
}

/// The mean of a non-empty sequence, rounded down.
pub open spec fn seq_avg(f: Seq<u64>) -> nat {
    total(f) / f.len()
}

/// The least, mean (rounded down) and greatest fitness of a population.
#[derive(Clone, Copy, Debug, PartialEq, Eq)]
pub struct FitnessStatistics {
    pub min_fitness: u64,
    pub avg_fitness: u64,
    pub max_fitness: u64,
}

impl FitnessStatistics {
    pub open spec fn describes(&self, f: Seq<u64>) -> bool {
        &&& self.min_fitness == seq_min(f)
        &&& self.avg_fitness == seq_avg(f)
        &&& self.max_fitness == seq_max(f)
    }

    /// The statistics of the fitness values `f`.
    pub fn of(f: &Vec<u64>) -> (r: FitnessStatistics)
        requires
            f@.len() > 0,
        ensures
            r.describes(f@),
    {
        let mut lo: u64 = f[0];
        let mut hi: u64 = f[0];
        let mut i: usize = 1;
        proof {
            assert(f@.take(1).drop_last() =~= Seq::<u64>::empty());
            assert(seq_max(f@.take(1).drop_last()) == 0);
            assert(seq_max(f@.take(1)) == f@[0]);
        }
        while i < f.len()
            invariant
                1 <= i <= f@.len(),
                lo == seq_min(f@.take(i as int)),
                hi == seq_max(f@.take(i as int)),
            decreases f@.len() - i,
        {
            assert(f@.take(i + 1).drop_last() =~= f@.take(i as int));
            if f[i] < lo {
                lo = f[i];
            }
            if f[i] > hi {
                hi = f[i];
            }
            i = i + 1;
        }
        assert(f@.take(i as int) =~= f@);
        let t = weight_total(f);
        proof {
            lemma_avg_bounded(f@);
        }
        let avg = (t / f.len() as u128) as u64;
        FitnessStatistics { min_fitness: lo, avg_fitness: avg, max_fitness: hi }
    }
}

/// The total of a non-empty sequence lies between its length times its
/// least value and its length times its greatest value.
pub proof fn lemma_total_between(f: Seq<u64>)
    requires
        f.len() > 0,
    ensures
        seq_min(f) * f.len() <= total(f),
        total(f) <= seq_max(f) * f.len(),
    decreases f.len(),
{
    if f.len() > 1 {
        let d = f.drop_last();
        let n = d.len() as int;
        lemma_total_between(d);
        lemma_mul_inequality(seq_min(f) as int, seq_min(d) as int, n);
        lemma_mul_inequality(seq_max(d) as int, seq_max(f) as int, n);
        assert(seq_min(f) * f.len() == seq_min(f) * n + seq_min(f)) by (nonlinear_arith)
            requires f.len() == n + 1;
        assert(seq_max(f) * f.len() == seq_max(f) * n + seq_max(f)) by (nonlinear_arith)
            requires f.len() == n + 1;
    } else {
        assert(f.drop_last() =~= Seq::<u64>::empty());
        assert(seq_max(f.drop_last()) == 0);
        assert(total(f.drop_last()) == 0);
        assert(seq_max(f) == f[0]);
        assert(total(f) == f[0]);
    }
}

/// The mean of a non-empty sequence lies between its least and its
/// greatest value.
pub proof fn lemma_avg_bounded(f: Seq<u64>)
    requires
        f.len() > 0,
    ensures
        seq_min(f) <= seq_avg(f) <= seq_max(f),
{
    let n = f.len() as int;
    lemma_total_between(f);
    lemma_div_is_ordered(seq_min(f) * n, total(f) as int, n);
    lemma_div_is_ordered(total(f) as int, seq_max(f) * n, n);
    lemma_div_multiples_vanish(seq_min(f) as int, n);
    lemma_div_multiples_vanish(seq_max(f) as int, n);
    assert(seq_min(f) * n == n * seq_min(f)) by (nonlinear_arith);
    assert(seq_max(f) * n == n * seq_max(f)) by (nonlinear_arith);
}

/// Each gene of `child` lies within `coeff` of the same gene of parent `a`
/// or of parent `b`; with a mutation chance of zero it is that gene.
pub open spec fn descends_from(child: Seq<i64>, a: Seq<i64>, b: Seq<i64>, chance: u32, coeff: u32) -> bool {
    &&& child.len() == a.len()
    &&& forall|g: int| 0 <= g < child.len() ==> abs(child[g] - a[g]) <= coeff || abs(child[g] - b[g]) <= coeff
    &&& chance == 0 ==> forall|g: int| 0 <= g < child.len() ==> child[g] == a[g] || child[g] == b[g]
}

/// `child` descends from two individuals of `population` that the
/// roulette wheel of its fitness picks.
pub open spec fn has_parents<I: Individual>(child: Seq<i64>, population: Seq<I>, chance: u32, coeff: u32) -> bool {
    exists|a: int, b: int|
        0 <= a < population.len() && 0 <= b < population.len()
            && picked(fitness_seq(population), a) && picked(fitness_seq(population), b)
            && #[trigger] descends_from(child, population[a].chromosome_spec(), population[b].chromosome_spec(), chance, coeff)
}

/// Each individual of `next` descends from two picked individuals of
/// `population`.
pub open spec fn bred_from<I: Individual>(next: Seq<I>, population: Seq<I>, chance: u32, coeff: u32) -> bool {
    forall|k: int| 0 <= k < next.len() ==> has_parents((#[trigger] next[k]).chromosome_spec(), population, chance, coeff)
}

/// While some individual of `population` has positive fitness, a child
/// bred from it has two parents of positive fitness.
pub proof fn lemma_parents_fit<I: Individual>(child: Seq<i64>, population: Seq<I>, chance: u32, coeff: u32)
    requires
        has_parents(child, population, chance, coeff),
        total(fitness_seq(population)) > 0,
    ensures
        exists|a: int, b: int|
            0 <= a < population.len() && 0 <= b < population.len()
                && population[a].fitness_spec() > 0 && population[b].fitness_spec() > 0
                && #[trigger] descends_from(child, population[a].chromosome_spec(), population[b].chromosome_spec(), chance, coeff),
{
    let (a, b) = choose|a: int, b: int|
        0 <= a < population.len() && 0 <= b < population.len()
            && picked(fitness_seq(population), a) && picked(fitness_seq(population), b)
            && #[trigger] descends_from(child, population[a].chromosome_spec(), population[b].chromosome_spec(), chance, coeff);
    lemma_picked_positive(fitness_seq(population), a);
    lemma_picked_positive(fitness_seq(population), b);
    assert(descends_from(child, population[a].chromosome_spec(), population[b].chromosome_spec(), chance, coeff));
}

/// The engine: a selection method, uniform crossover and mutation.
pub struct GeneticAlgorithm<S> {
    pub selection_method: S,
    pub crossover_method: UniformCrossover,
    pub mutation_method: GaussianMutation,
}

impl<S: SelectionMethod> GeneticAlgorithm<S> {
    pub fn new(selection_method: S, crossover_method: UniformCrossover, mutation_method: GaussianMutation) -> (r: Self)
        ensures
            r.selection_method == selection_method,
            r.mutation_method == mutation_method,
    {
        GeneticAlgorithm { selection_method, crossover_method, mutation_method }
    }

    /// The next generation, of the same size and chromosome length, each
    /// individual fresh (of fitness zero); and the statistics of the
    /// generation that just finished.
    pub fn evolve<I: Individual>(&self, population: &[I], rng: &mut rand::rngs::StdRng) -> (r: (Vec<I>, FitnessStatistics))
        requires
            population@.len() > 0,
            uniform_length(population@, population@[0].chromosome_spec().len()),
        ensures
            r.0@.len() == population@.len(),
            uniform_length(r.0@, population@[0].chromosome_spec().len()),
            forall|k: int| 0 <= k < r.0@.len() ==> (#[trigger] r.0@[k]).fitness_spec() == 0,
            bred_from(r.0@, population@, self.mutation_method.chance, self.mutation_method.coeff),
            r.1.describes(fitness_seq(population@)),
    {
        let ghost len = population@[0].chromosome_spec().len();
        let mut next: Vec<I> = Vec::new();
        let mut i: usize = 0;
        while i < population.len()
            invariant
                i <= population@.len(),
                next@.len() == i,
                uniform_length(population@, len),
                uniform_length(next@, len),
                forall|k: int| 0 <= k < next@.len() ==> (#[trigger] next@[k]).fitness_spec() == 0,
                bred_from(next@, population@, self.mutation_method.chance, self.mutation_method.coeff),
            decreases population@.len() - i,
        {
            let a = self.selection_method.select(population, rng);
            let b = self.selection_method.select(population, rng);
            let ca = population[a].chromosome();
            let cb = population[b].chromosome();
            let mut child = self.crossover_method.crossover(&ca, &cb, rng);
            let ghost crossed = child@;
            self.mutation_method.mutate(&mut child, rng);
            proof {
                assert forall|g: int| 0 <= g < child@.len() implies abs(child@[g] - ca@[g]) <= self.mutation_method.coeff
                    || abs(child@[g] - cb@[g]) <= self.mutation_method.coeff by {
                    assert(abs(child@[g] - crossed[g]) <= self.mutation_method.coeff);
                    assert(crossed[g] == ca@[g] || crossed[g] == cb@[g]);
                }
                if self.mutation_method.chance == 0 {
                    assert forall|g: int| 0 <= g < child@.len() implies child@[g] == ca@[g] || child@[g] == cb@[g] by {
                        assert(crossed[g] == ca@[g] || crossed[g] == cb@[g]);
                    }
                }
                assert(descends_from(child@, ca@, cb@, self.mutation_method.chance, self.mutation_method.coeff));
            }
            let ghost prev = next@;
            let created = I::create(child);
            next.push(created);
            proof {
                assert(descends_from(next@[i as int].chromosome_spec(), population@[a as int].chromosome_spec(), population@[b as int].chromosome_spec(), self.mutation_method.chance, self.mutation_method.coeff));
                assert(has_parents(next@[i as int].chromosome_spec(), population@, self.mutation_method.chance, self.mutation_method.coeff));
                assert forall|k: int| 0 <= k < next@.len() implies has_parents((#[trigger] next@[k]).chromosome_spec(), population@, self.mutation_method.chance, self.mutation_method.coeff) by {
                    if k < i {
                        assert(next@[k] == prev[k]);
                    }
                }
                assert(bred_from(next@, population@, self.mutation_method.chance, self.mutation_method.coeff));
            }
            i = i + 1;
        }
        let f = crate::selection::fitness_of(population);
        let stats = FitnessStatistics::of(&f);
        (next, stats)
    }
}

} // verus!
