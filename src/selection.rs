//! Fitness-proportionate (roulette-wheel) parent selection.
use vstd::prelude::*;
use crate::chromosome::{Individual, fitness_seq};
use crate::random::below;
use vstd::set_lib::{set_int_range, lemma_int_range};

verus! {

/// The sum of all weights.
pub open spec fn total(w: Seq<u64>) -> nat
    decreases w.len(),
{
    if w.len() == 0 {
        0
    } else {
        total(w.drop_last()) + w.last() as nat
    }
}

/// The slot of index `i` on a wheel of weights `w` holds the draws from
/// `total(w[..i])` up to, not including, `total(w[..i + 1])`.
pub open spec fn in_slot(w: Seq<u64>, draw: nat, i: int) -> bool {
    0 <= i < w.len() && total(w.take(i)) <= draw < total(w.take(i + 1))
}

/// The index that a draw picks: on a wheel of positive total, the one whose
/// slot holds the draw; with every weight zero, the draw itself.
pub open spec fn picks(w: Seq<u64>, draw: nat, i: int) -> bool {
    if total(w) > 0 {
        in_slot(w, draw, i)
    } else {
        i == draw
    }
}

/// The number of draws that can come: the total, or the number of indices
/// when every weight is zero.
pub open spec fn draw_range(w: Seq<u64>) -> nat {
    if total(w) > 0 {
        total(w)
    } else {
        w.len()
    }
}

pub proof fn lemma_total_take_step(w: Seq<u64>, i: int)
    requires
        0 <= i < w.len(),
    ensures
        total(w.take(i + 1)) == total(w.take(i)) + w[i],
{
    assert(w.take(i + 1).drop_last() =~= w.take(i));
}

pub proof fn lemma_total_take_all(w: Seq<u64>)
    ensures
        total(w.take(w.len() as int)) == total(w),
{
    assert(w.take(w.len() as int) =~= w);
}

/// Prefix totals never decrease.
pub proof fn lemma_total_take_mono(w: Seq<u64>, i: int, j: int)
    requires
        0 <= i <= j <= w.len(),
    ensures
        total(w.take(i)) <= total(w.take(j)),
    decreases j - i,
{
    if i < j {
        lemma_total_take_step(w, j - 1);
        lemma_total_take_mono(w, i, j - 1);
    }
}

/// The sum of the weights, which always fits in a `u128`.
pub fn weight_total(w: &Vec<u64>) -> (r: u128)
    ensures
        r == total(w@),
{
    let mut acc: u128 = 0;
    let mut i: usize = 0;
    while i < w.len()
        invariant
            i <= w.len(),
            acc == total(w@.take(i as int)),
            acc <= i * 0x1_0000_0000_0000_0000,
        decreases w.len() - i,
    {
        proof {
            lemma_total_take_step(w@, i as int);
        }
        acc = acc + w[i] as u128;
        i = i + 1;
    }
    proof {
        lemma_total_take_all(w@);
    }
    acc
}

/// The index that `draw` picks on the wheel of weights `w`.
pub fn pick_index(w: &Vec<u64>, draw: u128) -> (r: usize)
    requires
        draw < draw_range(w@),
    ensures
        picks(w@, draw as nat, r as int),
{
    let t = weight_total(w);
    if t == 0 {
        let n = w.len();
        assert(draw < n as u128);
        return draw as usize;
    }
    proof {
        lemma_total_take_all(w@);
        lemma_total_take_mono(w@, 1, w@.len() as int);
        lemma_total_take_step(w@, 0);
    }
    let mut acc: u128 = 0;
    let mut i: usize = 0;
    while acc + w[i] as u128 <= draw
        invariant
            i < w.len(),
            acc == total(w@.take(i as int)),
            acc <= draw,
            draw < total(w@),
            total(w@) == t,
            total(w@.take(i + 1)) <= total(w@),
            total(w@.take(i + 1)) == acc + w@[i as int],
        decreases w.len() - i,
    {
        proof {
            lemma_total_take_step(w@, i as int);
            lemma_total_take_all(w@);
            if i + 1 < w.len() {
                lemma_total_take_mono(w@, i + 2, w@.len() as int);
                lemma_total_take_step(w@, i + 1);
            }
        }
        acc = acc + w[i] as u128;
        i = i + 1;
    }
    proof {
        lemma_total_take_step(w@, i as int);
    }
    i
}

/// Index `i` is what some draw of the wheel of weights `w` picks.
pub open spec fn picked(w: Seq<u64>, i: int) -> bool {
    exists|d: nat| d < draw_range(w) && picks(w, d, i)
}

/// While some weight is positive, no index of weight zero is picked.
pub proof fn lemma_picked_positive(w: Seq<u64>, i: int)
    requires
        picked(w, i),
        total(w) > 0,
    ensures
        w[i] > 0,
{
    let d = choose|d: nat| d < draw_range(w) && picks(w, d, i);
    lemma_total_take_step(w, i);
}

/// A way of picking one parent out of a population.
pub trait SelectionMethod {
    /// The index of the chosen parent: one that some draw of the
    /// roulette wheel of the population's fitness picks.
    fn select<I: Individual>(&self, population: &[I], rng: &mut rand::rngs::StdRng) -> (r: usize)
        requires
            population@.len() > 0,
        ensures
            r < population@.len(),
            picked(fitness_seq(population@), r as int),
    ;
}

/// Roulette-wheel selection: each individual is picked with probability
/// proportional to its fitness, or uniformly when every fitness is zero.
#[derive(Clone, Copy, Debug)]
pub struct RouletteWheelSelection;

/// The fitness of each individual of `population`.
pub fn fitness_of<I: Individual>(population: &[I]) -> (r: Vec<u64>)
    ensures
        r@ == fitness_seq(population@),
{
    let mut r: Vec<u64> = Vec::new();
    let mut i: usize = 0;
    while i < population.len()
        invariant
            i <= population@.len(),
            r@ == fitness_seq(population@.take(i as int)),
        decreases population@.len() - i,
    {
        r.push(population[i].fitness());
        i = i + 1;
        assert(fitness_seq(population@.take(i as int)) =~= fitness_seq(population@.take(i - 1)).push(population@[i - 1].fitness_spec()));
    }
    assert(population@.take(i as int) =~= population@);
    r
}

impl RouletteWheelSelection {
    pub fn new() -> Self {
        RouletteWheelSelection
    }

    /// Selection with its outcome described: the chosen index is the one
    /// that some draw in the wheel's range picks.
    pub fn select_index<I: Individual>(&self, population: &[I], rng: &mut rand::rngs::StdRng) -> (r: usize)
        requires
            population@.len() > 0,
        ensures
            r < population@.len(),
            exists|d: nat| d < draw_range(fitness_seq(population@)) && picks(fitness_seq(population@), d, r as int),
    {
        let w = fitness_of(population);
        let t = weight_total(&w);
        let range: u128 = if t == 0 { w.len() as u128 } else { t };
        let draw = below(rng, range);
        let r = pick_index(&w, draw);
        proof {
            assert(picks(w@, draw as nat, r as int));
        }
        r
    }
}

impl SelectionMethod for RouletteWheelSelection {
    fn select<I: Individual>(&self, population: &[I], rng: &mut rand::rngs::StdRng) -> (r: usize) {
        self.select_index(population, rng)
    }
}

} // verus!
