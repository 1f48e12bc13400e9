//! Mutation: each gene, with a given chance, moves by a uniform amount of at
//! most the mutation coefficient, up or down.
use vstd::prelude::*;
use crate::chromosome::Chromosome;
use crate::random::below;

verus! {

/// Chances are given in parts per million: `CHANCE_SCALE` is certainty.
pub const CHANCE_SCALE: u32 = 1_000_000;

/// `g` moved by `delta`, held to the range of `i64`.
pub open spec fn shifted(g: i64, delta: int) -> i64 {
    let s = g + delta;
    if s > i64::MAX {
        i64::MAX
    } else if s < i64::MIN {
        i64::MIN
    } else {
        s as i64
    }
}

/// The gene after one mutation roll: moved by `amount`, down where
/// `negative` holds, if `roll` falls under `chance`; else unchanged.
pub open spec fn mutated_gene(g: i64, chance: u32, roll: u32, negative: bool, amount: u32) -> i64 {
    if roll < chance {
        shifted(g, if negative { -amount } else { amount as int })
    } else {
        g
    }
}

pub open spec fn abs(x: int) -> int {
    if x < 0 { -x } else { x }
}

#[derive(Clone, Copy, Debug)]
pub struct GaussianMutation {
    /// Chance, in parts per million, that a gene mutates.
    pub chance: u32,
    /// Largest change of a mutated gene, in gene units.
    pub coeff: u32,
}

impl GaussianMutation {
    pub open spec fn wf(&self) -> bool {
        self.chance <= CHANCE_SCALE
    }

    pub fn new(chance: u32, coeff: u32) -> (r: GaussianMutation)
        requires
            chance <= CHANCE_SCALE,
        ensures
            r.chance == chance,
            r.coeff == coeff,
            r.wf(),
    {
        GaussianMutation { chance, coeff }
    }

    /// One gene after one mutation roll.
    pub fn mutate_gene(&self, g: i64, roll: u32, negative: bool, amount: u32) -> (r: i64)
        ensures
            r == mutated_gene(g, self.chance, roll, negative, amount),
    {
        if roll < self.chance {
            let s: i128 = if negative { g as i128 - amount as i128 } else { g as i128 + amount as i128 };
            if s > i64::MAX as i128 {
                i64::MAX
            } else if s < i64::MIN as i128 {
                i64::MIN
            } else {
                s as i64
            }
        } else {
            g
        }
    }

    /// Mutates `c` in place: its length stays, no gene moves by more than
    /// the coefficient, and with a chance of zero nothing moves.
    pub fn mutate(&self, c: &mut Chromosome, rng: &mut rand::rngs::StdRng)
        ensures
            final(c)@.len() == old(c)@.len(),
            forall|i: int| 0 <= i < old(c)@.len() ==> abs(final(c)@[i] - old(c)@[i]) <= self.coeff,
            self.chance == 0 ==> final(c)@ == old(c)@,
    {
        let mut i: usize = 0;
        while i < c.genes.len()
            invariant
                i <= c@.len(),
                c@.len() == old(c)@.len(),
                forall|k: int| 0 <= k < old(c)@.len() ==> abs(c@[k] - old(c)@[k]) <= self.coeff,
                forall|k: int| i <= k < old(c)@.len() ==> c@[k] == old(c)@[k],
                self.chance == 0 ==> c@ == old(c)@,
            decreases c@.len() - i,
        {
            let roll = below(rng, CHANCE_SCALE as u128) as u32;
            if roll < self.chance {
                let negative = below(rng, 2) == 0;
                let amount = below(rng, self.coeff as u128 + 1) as u32;
                let g = self.mutate_gene(c.genes[i], roll, negative, amount);
                c.genes.set(i, g);
            }
            i = i + 1;
        }
    }
}

} // verus!
