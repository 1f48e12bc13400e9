//! The simulation: ticks of life, and at each generation's end, evolution.
use vstd::prelude::*;
use crate::chromosome::{Individual, fitness_seq, uniform_length};
use crate::config::Config;
use crate::crossover::UniformCrossover;
use crate::genetic::{FitnessStatistics, GeneticAlgorithm, bred_from, has_parents, seq_avg, seq_max, seq_min, lemma_avg_bounded};
use crate::mutation::GaussianMutation;
use crate::random::below;
use crate::selection::RouletteWheelSelection;
use crate::world::{Agent, BRAIN_LEN, Food, brain_output, dx_of, dy_of, offset, reaches, steered_heading, steered_speed, vision_of, wrapped};

verus! {

/// The agents and the food of one world.
#[derive(Debug)]
pub struct World {
    pub agents: Vec<Agent>,
    pub foods: Vec<Food>,
}

/// `after` keeps the size of `before` and every agent's brain, and no
/// agent's fitness goes down.
pub open spec fn no_fitness_lost(before: Seq<Agent>, after: Seq<Agent>) -> bool {
    &&& after.len() == before.len()
    &&& forall|k: int| 0 <= k < before.len() ==> (#[trigger] after[k]).brain@ == before[k].brain@
    &&& forall|k: int| 0 <= k < before.len() ==> (#[trigger] after[k]).fitness >= before[k].fitness
}

/// Ticks compose: what holds across two of them holds across both.
pub proof fn lemma_no_fitness_lost_trans(a: Seq<Agent>, b: Seq<Agent>, c: Seq<Agent>)
    requires
        no_fitness_lost(a, b),
        no_fitness_lost(b, c),
    ensures
        no_fitness_lost(a, c),
{
    assert forall|k: int| 0 <= k < a.len() implies (#[trigger] c[k]).fitness >= a[k].fitness by {
        assert(b[k].fitness >= a[k].fitness);
    }
    assert forall|k: int| 0 <= k < a.len() implies (#[trigger] c[k]).brain@ == a[k].brain@ by {
        assert(b[k].brain@ == a[k].brain@);
    }
}

/// The fitness of each agent, in order.
pub open spec fn fitness_values(agents: Seq<Agent>) -> Seq<u64> {
    agents.map_values(|a: Agent| a.fitness)
}

/// The views of rows of food.
pub open spec fn rows(v: Seq<Vec<Food>>) -> Seq<Seq<Food>> {
    v.map_values(|r: Vec<Food>| r@)
}

/// Fitness after one more item eaten, held at the largest `u64`.
pub open spec fn bump(f: u64) -> u64 {
    if f < u64::MAX {
        (f + 1) as u64
    } else {
        f
    }
}

/// Food and fitness after agent `i` has checked the first `j` food items,
/// from state `s`: a reached item raises the agent's fitness and grows
/// again at `regrown[i][j]`.
pub open spec fn eat_row(agents: Seq<Agent>, regrown: Seq<Seq<Food>>, c: Config, s: (Seq<Food>, Seq<u64>), i: int, j: nat) -> (Seq<Food>, Seq<u64>)
    decreases j,
{
    if j == 0 {
        s
    } else {
        let p = eat_row(agents, regrown, c, s, i, (j - 1) as nat);
        if reaches(agents[i].x, agents[i].y, p.0[j - 1], c) {
            (p.0.update(j - 1, regrown[i][j - 1]), p.1.update(i, bump(p.1[i])))
        } else {
            p
        }
    }
}

/// Food and fitness after the first `i` agents have eaten, in turn.
pub open spec fn eat_rows(agents: Seq<Agent>, regrown: Seq<Seq<Food>>, c: Config, s: (Seq<Food>, Seq<u64>), i: nat) -> (Seq<Food>, Seq<u64>)
    decreases i,
{
    if i == 0 {
        s
    } else {
        let p = eat_rows(agents, regrown, c, s, (i - 1) as nat);
        eat_row(agents, regrown, c, p, i - 1, p.0.len())
    }
}

/// Food and fitness once every agent has eaten what it reaches.
pub open spec fn eaten(agents: Seq<Agent>, foods: Seq<Food>, regrown: Seq<Seq<Food>>, c: Config) -> (Seq<Food>, Seq<u64>) {
    eat_rows(agents, regrown, c, (foods, fitness_values(agents)), agents.len())
}

/// `after` holds the agents of `before` at the same places, headings and
/// speeds, with the same brains.
pub open spec fn same_bodies(before: Seq<Agent>, after: Seq<Agent>) -> bool {
    &&& after.len() == before.len()
    &&& forall|k: int| 0 <= k < before.len() ==> {
        let (a, b) = (#[trigger] before[k], after[k]);
        b.x == a.x && b.y == a.y && b.heading == a.heading && b.speed == a.speed && b.brain@ == a.brain@
    }
}

/// `b` is `a` after it has looked at `foods` and steered.
pub open spec fn steered(a: Agent, foods: Seq<Food>, c: Config, b: Agent) -> bool {
    let v = vision_of(a.x, a.y, a.heading, foods, c);
    &&& b.speed == steered_speed(a.speed, brain_output(a.brain@, 0, v), c)
    &&& b.heading == steered_heading(a.heading, brain_output(a.brain@, 1, v), brain_output(a.brain@, 2, v))
    &&& b.x == a.x && b.y == a.y && b.fitness == a.fitness && b.brain@ == a.brain@
}

/// `b` is `a` after one move along its heading, wrapping round the world.
pub open spec fn moved(a: Agent, c: Config, b: Agent) -> bool {
    &&& b.x == wrapped(a.x, dx_of(a.heading) * a.speed, c.world_size)
    &&& b.y == wrapped(a.y, dy_of(a.heading) * a.speed, c.world_size)
    &&& b.heading == a.heading && b.speed == a.speed && b.fitness == a.fitness && b.brain@ == a.brain@
}

/// One tick takes agents `a0` and food `f0` to `a1` and `f1`: every agent
/// eats what it reaches, with eaten food growing again at `regrown`; then
/// each looks at the food and steers; then each moves.
pub open spec fn tick_result(a0: Seq<Agent>, f0: Seq<Food>, regrown: Seq<Seq<Food>>, c: Config, a1: Seq<Agent>, f1: Seq<Food>) -> bool {
    let e = eaten(a0, f0, regrown, c);
    &&& f1 == e.0
    &&& a1.len() == a0.len()
    &&& forall|k: int| 0 <= k < a0.len() ==> #[trigger] ticked_agent(a0[k], e.0, e.1[k], c, a1[k])
}

/// Agent `a`, with fitness `fit` after eating, looks at `foods`, steers and
/// moves, and becomes `b`.
pub open spec fn ticked_agent(a: Agent, foods: Seq<Food>, fit: u64, c: Config, b: Agent) -> bool {
    let v = vision_of(a.x, a.y, a.heading, foods, c);
    let speed = steered_speed(a.speed, brain_output(a.brain@, 0, v), c);
    let heading = steered_heading(a.heading, brain_output(a.brain@, 1, v), brain_output(a.brain@, 2, v));
    &&& b.brain@ == a.brain@
    &&& b.fitness == fit
    &&& b.speed == speed
    &&& b.heading == heading
    &&& b.x == wrapped(a.x, dx_of(heading) * speed, c.world_size)
    &&& b.y == wrapped(a.y, dy_of(heading) * speed, c.world_size)
}

/// `k` ticks in a row take agents `a0` and food `f0` to `a1` and `f1`.
pub open spec fn ticks(a0: Seq<Agent>, f0: Seq<Food>, c: Config, k: nat, a1: Seq<Agent>, f1: Seq<Food>) -> bool
    decreases k,
{
    if k == 0 {
        a1 == a0 && f1 == f0
    } else {
        exists|am: Seq<Agent>, fm: Seq<Food>, r: Seq<Seq<Food>>|
            ticks(a0, f0, c, (k - 1) as nat, am, fm) && #[trigger] tick_result(am, fm, r, c, a1, f1)
    }
}

pub fn agent_reaches(a: &Agent, f: Food, c: &Config) -> (r: bool)
    requires
        c.valid(),
        a.wf(*c),
        f.wf(*c),
    ensures
        r == reaches(a.x, a.y, f, *c),
{
    let ox = offset(a.x, f.x, c.world_size);
    let oy = offset(a.y, f.y, c.world_size);
    let e = c.eat_radius as i64;
    -e <= ox && ox <= e && -e <= oy && oy <= e
}

impl World {
    pub open spec fn wf(&self, c: Config) -> bool {
        &&& self.agents@.len() == c.population_size
        &&& self.foods@.len() == c.food_count
        &&& forall|k: int| 0 <= k < self.agents@.len() ==> (#[trigger] self.agents@[k]).wf(c)
        &&& forall|j: int| 0 <= j < self.foods@.len() ==> (#[trigger] self.foods@[j]).wf(c)
    }

    /// Food at random places, `food_count` of it.
    pub fn random_foods(c: &Config, rng: &mut rand::rngs::StdRng) -> (r: Vec<Food>)
        requires
            c.valid(),
        ensures
            r@.len() == c.food_count,
            forall|j: int| 0 <= j < r@.len() ==> (#[trigger] r@[j]).wf(*c),
    {
        let mut foods: Vec<Food> = Vec::new();
        let mut j: usize = 0;
        while j < c.food_count
            invariant
                c.valid(),
                j <= c.food_count,
                foods@.len() == j,
                forall|k: int| 0 <= k < foods@.len() ==> (#[trigger] foods@[k]).wf(*c),
            decreases c.food_count - j,
        {
            foods.push(Food::random(c, rng));
            j = j + 1;
        }
        foods
    }

    /// A world of random agents and food.
    pub fn random(c: &Config, rng: &mut rand::rngs::StdRng) -> (r: World)
        requires
            c.valid(),
        ensures
            r.wf(*c),
            forall|k: int| 0 <= k < r.agents@.len() ==> (#[trigger] r.agents@[k]).fitness == 0,
    {
        let mut agents: Vec<Agent> = Vec::new();
        let mut i: usize = 0;
        while i < c.population_size
            invariant
                c.valid(),
                i <= c.population_size,
                agents@.len() == i,
                forall|k: int| 0 <= k < agents@.len() ==> (#[trigger] agents@[k]).wf(*c),
                forall|k: int| 0 <= k < agents@.len() ==> (#[trigger] agents@[k]).fitness == 0,
            decreases c.population_size - i,
        {
            agents.push(Agent::random(c, rng));
            i = i + 1;
        }
        let foods = World::random_foods(c, rng);
        World { agents, foods }
    }

    /// Each agent in turn eats the food it reaches, gaining one point of
    /// fitness per item; food eaten by agent `i` at index `j` grows again at
    /// `regrown[i][j]`.
    pub fn eat_with(&mut self, c: &Config, regrown: &Vec<Vec<Food>>)
        requires
            c.valid(),
            old(self).wf(*c),
            regrown@.len() == old(self).agents@.len(),
            forall|i: int| 0 <= i < regrown@.len() ==> (#[trigger] regrown@[i])@.len() == old(self).foods@.len(),
            forall|i: int, j: int| 0 <= i < regrown@.len() && 0 <= j < regrown@[i]@.len() ==> (#[trigger] regrown@[i]@[j]).wf(*c),
        ensures
            final(self).wf(*c),
            same_bodies(old(self).agents@, final(self).agents@),
            no_fitness_lost(old(self).agents@, final(self).agents@),
            (final(self).foods@, fitness_values(final(self).agents@))
                == eaten(old(self).agents@, old(self).foods@, rows(regrown@), *c),
    {
        let ghost a0 = self.agents@;
        let ghost rg = rows(regrown@);
        let ghost s0 = (self.foods@, fitness_values(a0));
        let mut i: usize = 0;
        while i < self.agents.len()
            invariant
                c.valid(),
                self.wf(*c),
                i <= self.agents@.len(),
                a0.len() == self.agents@.len(),
                rg == rows(regrown@),
                regrown@.len() == a0.len(),
                forall|r: int| 0 <= r < regrown@.len() ==> (#[trigger] regrown@[r])@.len() == self.foods@.len(),
                forall|r: int, q: int| 0 <= r < regrown@.len() && 0 <= q < regrown@[r]@.len() ==> (#[trigger] regrown@[r]@[q]).wf(*c),
                same_bodies(a0, self.agents@),
                no_fitness_lost(a0, self.agents@),
                (self.foods@, fitness_values(self.agents@)) == eat_rows(a0, rg, *c, s0, i as nat),
            decreases self.agents@.len() - i,
        {
            let ghost before = (self.foods@, fitness_values(self.agents@));
            let mut j: usize = 0;
            while j < self.foods.len()
                invariant
                    c.valid(),
                    self.wf(*c),
                    i < self.agents@.len(),
                    j <= self.foods@.len(),
                    a0.len() == self.agents@.len(),
                    rg == rows(regrown@),
                    regrown@.len() == a0.len(),
                    forall|r: int| 0 <= r < regrown@.len() ==> (#[trigger] regrown@[r])@.len() == self.foods@.len(),
                    forall|r: int, q: int| 0 <= r < regrown@.len() && 0 <= q < regrown@[r]@.len() ==> (#[trigger] regrown@[r]@[q]).wf(*c),
                    same_bodies(a0, self.agents@),
                    no_fitness_lost(a0, self.agents@),
                    before == eat_rows(a0, rg, *c, s0, i as nat),
                    before.0.len() == self.foods@.len(),
                    (self.foods@, fitness_values(self.agents@)) == eat_row(a0, rg, *c, before, i as int, j as nat),
                decreases self.foods@.len() - j,
            {
                let ghost pre = self.agents@;
                if agent_reaches(&self.agents[i], self.foods[j], c) {
                    if self.agents[i].fitness < u64::MAX {
                        self.agents[i].fitness = self.agents[i].fitness + 1;
                    }
                    let f = regrown[i][j];
                    self.foods.set(j, f);
                    assert(fitness_values(self.agents@) =~= fitness_values(pre).update(i as int, bump(pre[i as int].fitness)));
                } else {
                }
                j = j + 1;
            }
            i = i + 1;
        }
    }

    /// Each agent eats the food it reaches, which gains it one point of
    /// fitness; eaten food grows again at a random place.
    pub fn process_collisions(&mut self, c: &Config, rng: &mut rand::rngs::StdRng)
        requires
            c.valid(),
            old(self).wf(*c),
        ensures
            final(self).wf(*c),
            same_bodies(old(self).agents@, final(self).agents@),
            no_fitness_lost(old(self).agents@, final(self).agents@),
            exists|regrown: Seq<Seq<Food>>|
                (final(self).foods@, fitness_values(final(self).agents@))
                    == #[trigger] eaten(old(self).agents@, old(self).foods@, regrown, *c),
    {
        let mut regrown: Vec<Vec<Food>> = Vec::new();
        let mut i: usize = 0;
        while i < self.agents.len()
            invariant
                c.valid(),
                self.wf(*c),
                i <= self.agents@.len(),
                regrown@.len() == i,
                forall|r: int| 0 <= r < regrown@.len() ==> (#[trigger] regrown@[r])@.len() == self.foods@.len(),
                forall|r: int, q: int| 0 <= r < regrown@.len() && 0 <= q < regrown@[r]@.len() ==> (#[trigger] regrown@[r]@[q]).wf(*c),
            decreases self.agents@.len() - i,
        {
            let row = World::random_foods(c, rng);
            regrown.push(row);
            i = i + 1;
        }
        self.eat_with(c, &regrown);
    }

    /// Each agent looks, and steers as its brain decides.
    pub fn process_brains(&mut self, c: &Config)
        requires
            c.valid(),
            old(self).wf(*c),
        ensures
            final(self).wf(*c),
            final(self).foods@ == old(self).foods@,
            final(self).agents@.len() == old(self).agents@.len(),
            forall|k: int| 0 <= k < old(self).agents@.len() ==> #[trigger] steered(old(self).agents@[k], old(self).foods@, *c, final(self).agents@[k]),
    {
        let mut i: usize = 0;
        while i < self.agents.len()
            invariant
                c.valid(),
                self.wf(*c),
                i <= self.agents@.len(),
                self.foods@ == old(self).foods@,
                self.agents@.len() == old(self).agents@.len(),
                forall|k: int| 0 <= k < i ==> #[trigger] steered(old(self).agents@[k], old(self).foods@, *c, self.agents@[k]),
                forall|k: int| i <= k < self.agents@.len() ==> #[trigger] self.agents@[k] == old(self).agents@[k],
            decreases self.agents@.len() - i,
        {
            let v = self.agents[i].see(&self.foods, c);
            self.agents[i].steer(v, c);
            i = i + 1;
        }
    }

    /// Each agent moves along its heading.
    pub fn process_movements(&mut self, c: &Config)
        requires
            c.valid(),
            old(self).wf(*c),
        ensures
            final(self).wf(*c),
            final(self).foods@ == old(self).foods@,
            final(self).agents@.len() == old(self).agents@.len(),
            forall|k: int| 0 <= k < old(self).agents@.len() ==> #[trigger] moved(old(self).agents@[k], *c, final(self).agents@[k]),
    {
        let mut i: usize = 0;
        while i < self.agents.len()
            invariant
                c.valid(),
                self.wf(*c),
                i <= self.agents@.len(),
                self.foods@ == old(self).foods@,
                self.agents@.len() == old(self).agents@.len(),
                forall|k: int| 0 <= k < i ==> #[trigger] moved(old(self).agents@[k], *c, self.agents@[k]),
                forall|k: int| i <= k < self.agents@.len() ==> #[trigger] self.agents@[k] == old(self).agents@[k],
            decreases self.agents@.len() - i,
        {
            self.agents[i].advance(c);
            i = i + 1;
        }
    }
}

/// The age after one tick of a generation of `len` ticks: back to zero
/// where the tick ends the generation.
pub open spec fn next_age(age: nat, len: nat) -> nat {
    if age + 1 >= len {
        0
    } else {
        age + 1
    }
}

/// The tick taken at `age` ends a generation of `len` ticks.
pub open spec fn ends_generation(age: nat, len: nat) -> bool {
    age + 1 == len
}

/// The age after `k` ticks from the start of a generation.
pub open spec fn age_after(len: nat, k: nat) -> nat
    decreases k,
{
    if k == 0 {
        0
    } else {
        next_age(age_after(len, (k - 1) as nat), len)
    }
}

/// From the start of a generation of `len` ticks, the `k`-th tick is taken
/// at age `k - 1`, and it ends the generation exactly when `k == len`: of
/// `len` ticks in a row only the last reports statistics.
pub proof fn lemma_boundary_exact(len: nat, k: nat)
    requires
        1 <= k <= len,
    ensures
        age_after(len, (k - 1) as nat) == k - 1,
        ends_generation(age_after(len, (k - 1) as nat), len) <==> k == len,
    decreases k,
{
    if k > 1 {
        lemma_boundary_exact(len, (k - 1) as nat);
    }
}

/// Where a generation stands, with the fitness statistics of the last
/// generation to finish (none before the first has).
#[derive(Clone, Copy, Debug, PartialEq, Eq)]
pub struct Statistics {
    pub age: usize,
    pub generation_length: usize,
    pub generation: usize,
    pub min: Option<u64>,
    pub avg: Option<u64>,
    pub max: Option<u64>,
}

impl Statistics {
    pub fn age(&self) -> (r: usize)
        ensures
            r == self.age,
    {
        self.age
    }

    pub fn generation_length(&self) -> (r: usize)
        ensures
            r == self.generation_length,
    {
        self.generation_length
    }

    pub fn generation(&self) -> (r: usize)
        ensures
            r == self.generation,
    {
        self.generation
    }

    pub fn min(&self) -> (r: Option<u64>)
        ensures
            r == self.min,
    {
        self.min
    }

    pub fn avg(&self) -> (r: Option<u64>)
        ensures
            r == self.avg,
    {
        self.avg
    }

    pub fn max(&self) -> (r: Option<u64>)
        ensures
            r == self.max,
    {
        self.max
    }

    /// The statistics report fitness values `f`.
    pub open spec fn reports(&self, f: Seq<u64>) -> bool {
        &&& self.min == Some(seq_min(f))
        &&& self.avg == Some(seq_avg(f) as u64)
        &&& self.max == Some(seq_max(f))
    }
}

/// Why a configuration was refused.
#[derive(Clone, Copy, Debug, PartialEq, Eq)]
pub enum ConfigError {
    Invalid,
}

/// The generation counter after one more generation, held at the
/// largest `usize`.
pub open spec fn next_generation(g: usize) -> usize {
    if g < usize::MAX {
        (g + 1) as usize
    } else {
        g
    }
}

/// A running simulation: its configuration, world, counters and engine.
pub struct Simulation {
    pub config: Config,
    pub world: World,
    pub age: usize,
    pub generation: usize,
    pub last: Option<FitnessStatistics>,
    pub ga: GeneticAlgorithm<RouletteWheelSelection>,
}

impl Simulation {
    pub open spec fn wf(&self) -> bool {
        &&& self.config.valid()
        &&& self.world.wf(self.config)
        &&& self.age < self.config.generation_length
        &&& self.ga.mutation_method.chance == self.config.mutation_chance
        &&& self.ga.mutation_method.coeff == self.config.mutation_coefficient
        &&& self.last matches Some(l) ==> l.min_fitness <= l.avg_fitness <= l.max_fitness
    }

    /// A fresh simulation of random agents and food, at age and generation
    /// zero; refused where the configuration is not valid.
    pub fn new(config: Config, rng: &mut rand::rngs::StdRng) -> (r: Result<Simulation, ConfigError>)
        ensures
            r is Err <==> !config.valid(),
            r matches Ok(s) ==> s.wf() && s.config == config && s.age == 0 && s.generation == 0
                && s.last is None
                && forall|k: int| 0 <= k < s.world.agents@.len() ==> (#[trigger] s.world.agents@[k]).fitness == 0,
    {
        if !config.is_valid() {
            return Err(ConfigError::Invalid);
        }
        let world = World::random(&config, rng);
        let ga = GeneticAlgorithm::new(
            RouletteWheelSelection::new(),
            UniformCrossover::new(),
            GaussianMutation::new(config.mutation_chance, config.mutation_coefficient),
        );
        Ok(Simulation { config, world, age: 0, generation: 0, last: None, ga })
    }

    pub fn default_config() -> (r: Config)
        ensures
            r == Config::standard(),
            r.valid(),
    {
        Config::default()
    }

    pub fn config(&self) -> (r: &Config)
        ensures
            *r == self.config,
    {
        &self.config
    }

    pub fn world(&self) -> (r: &World)
        ensures
            *r == self.world,
    {
        &self.world
    }

    /// Where the simulation stands now.
    pub fn statistics(&self) -> (r: Statistics)
        ensures
            r.age == self.age,
            r.generation == self.generation,
            r.generation_length == self.config.generation_length,
            r.min == (match self.last { Some(l) => Some(l.min_fitness), None => None::<u64> }),
            r.avg == (match self.last { Some(l) => Some(l.avg_fitness), None => None::<u64> }),
            r.max == (match self.last { Some(l) => Some(l.max_fitness), None => None::<u64> }),
    {
        let (min, avg, max) = match self.last {
            Some(l) => (Some(l.min_fitness), Some(l.avg_fitness), Some(l.max_fitness)),
            None => (None, None, None),
        };
        Statistics {
            age: self.age,
            generation_length: self.config.generation_length,
            generation: self.generation,
            min,
            avg,
            max,
        }
    }

    /// Replaces the population by the next generation, placed at random,
    /// and regrows the food.
    fn evolve(&mut self, rng: &mut rand::rngs::StdRng)
        requires
            old(self).config.valid(),
            old(self).world.wf(old(self).config),
            old(self).ga.mutation_method.chance == old(self).config.mutation_chance,
            old(self).ga.mutation_method.coeff == old(self).config.mutation_coefficient,
        ensures
            final(self).wf(),
            final(self).config == old(self).config,
            final(self).age == 0,
            final(self).generation == next_generation(old(self).generation),
            final(self).last == Some(final(self).last->0),
            final(self).last->0.describes(fitness_seq(old(self).world.agents@)),
            forall|k: int| 0 <= k < final(self).world.agents@.len() ==> (#[trigger] final(self).world.agents@[k]).fitness == 0,
            bred_from(final(self).world.agents@, old(self).world.agents@, old(self).config.mutation_chance, old(self).config.mutation_coefficient),
    {
        let c = self.config;
        let ghost lived = self.world.agents@;
        assert(uniform_length(self.world.agents@, BRAIN_LEN as nat));
        let (next, stats) = self.ga.evolve(self.world.agents.as_slice(), rng);
        let mut agents: Vec<Agent> = Vec::new();
        let mut next = next;
        while next.len() > 0
            invariant
                c.valid(),
                c == self.config,
                self.world.agents@ == lived,
                uniform_length(next@, BRAIN_LEN as nat),
                agents@.len() + next@.len() == c.population_size,
                forall|k: int| 0 <= k < agents@.len() ==> (#[trigger] agents@[k]).wf(c),
                forall|k: int| 0 <= k < agents@.len() ==> (#[trigger] agents@[k]).fitness == 0,
                bred_from(next@, lived, c.mutation_chance, c.mutation_coefficient),
                bred_from(agents@, lived, c.mutation_chance, c.mutation_coefficient),
            decreases next@.len(),
        {
            let ghost before = next@;
            let a = next.pop().unwrap();
            assert(a == before[before.len() - 1]);
            assert(a.chromosome_spec().len() == BRAIN_LEN);
            assert(bred_from(next@, lived, c.mutation_chance, c.mutation_coefficient)) by {
                assert forall|k: int| 0 <= k < next@.len() implies has_parents(
                    (#[trigger] next@[k]).chromosome_spec(), lived, c.mutation_chance, c.mutation_coefficient) by {
                    assert(next@[k] == before[k]);
                }
            }
            let ghost prev = agents@;
            let ghost parented = has_parents(a.brain@, lived, c.mutation_chance, c.mutation_coefficient);
            assert(parented);
            agents.push(Agent::random_with(a.brain, &c, rng));
            assert(bred_from(agents@, lived, c.mutation_chance, c.mutation_coefficient)) by {
                assert forall|k: int| 0 <= k < agents@.len() implies has_parents(
                    (#[trigger] agents@[k]).chromosome_spec(), lived, c.mutation_chance, c.mutation_coefficient) by {
                    if k < prev.len() {
                        assert(agents@[k] == prev[k]);
                    }
                }
            }
        }
        let foods = World::random_foods(&c, rng);
        self.world = World { agents, foods };
        self.age = 0;
        if self.generation < usize::MAX {
            self.generation = self.generation + 1;
        }
        proof {
            lemma_avg_bounded(fitness_seq(lived));
        }
        self.last = Some(stats);
    }

    /// One tick of life, drawing from `rng`. Where it ends the generation,
    /// the population evolves and the statistics of the generation that just
    /// finished come back; on every other tick nothing does.
    pub fn step(&mut self, rng: &mut rand::rngs::StdRng) -> (r: Option<Statistics>)
        requires
            old(self).wf(),
        ensures
            final(self).wf(),
            final(self).config == old(self).config,
            final(self).age == next_age(old(self).age as nat, old(self).config.generation_length as nat),
            r is Some <==> ends_generation(old(self).age as nat, old(self).config.generation_length as nat),
            r is None ==> final(self).generation == old(self).generation
                && final(self).last == old(self).last
                && no_fitness_lost(old(self).world.agents@, final(self).world.agents@)
                && exists|regrown: Seq<Seq<Food>>| #[trigger] tick_result(
                    old(self).world.agents@, old(self).world.foods@, regrown, old(self).config,
                    final(self).world.agents@, final(self).world.foods@),
            r matches Some(s) ==> s.age == 0 && s.generation == next_generation(old(self).generation)
                && s.generation_length == old(self).config.generation_length
                && s.min is Some && s.avg is Some && s.max is Some
                && s.min->0 <= s.avg->0 <= s.max->0
                && final(self).generation == next_generation(old(self).generation)
                && (exists|lived: Seq<Agent>, foods: Seq<Food>, regrown: Seq<Seq<Food>>|
                    #[trigger] tick_result(old(self).world.agents@, old(self).world.foods@, regrown, old(self).config, lived, foods)
                    && no_fitness_lost(old(self).world.agents@, lived)
                    && s.reports(fitness_seq(lived))
                    && bred_from(final(self).world.agents@, lived, old(self).config.mutation_chance, old(self).config.mutation_coefficient))
                && forall|k: int| 0 <= k < final(self).world.agents@.len() ==> (#[trigger] final(self).world.agents@[k]).fitness == 0,
    {
        let c = self.config;
        let ghost a0 = self.world.agents@;
        let ghost f0 = self.world.foods@;
        self.world.process_collisions(&c, rng);
        let ghost a1 = self.world.agents@;
        let ghost f1 = self.world.foods@;
        let ghost regrown = choose|regrown: Seq<Seq<Food>>| (f1, fitness_values(a1)) == #[trigger] eaten(a0, f0, regrown, c);
        self.world.process_brains(&c);
        let ghost a2 = self.world.agents@;
        self.world.process_movements(&c);
        proof {
            let a3 = self.world.agents@;
            let e = eaten(a0, f0, regrown, c);
            assert forall|k: int| 0 <= k < a0.len() implies #[trigger] ticked_agent(a0[k], e.0, e.1[k], c, a3[k]) by {
                assert(fitness_values(a1)[k] == a1[k].fitness);
                assert(steered(a1[k], f1, c, a2[k]));
                assert(moved(a2[k], c, a3[k]));
            }
            assert(tick_result(a0, f0, regrown, c, a3, self.world.foods@));
            assert forall|k: int| 0 <= k < a1.len() implies (#[trigger] a2[k]).fitness >= a1[k].fitness
                && a2[k].brain@ == a1[k].brain@ by {
                assert(steered(a1[k], f1, c, a2[k]));
            }
            assert forall|k: int| 0 <= k < a2.len() implies (#[trigger] a3[k]).fitness >= a2[k].fitness
                && a3[k].brain@ == a2[k].brain@ by {
                assert(moved(a2[k], c, a3[k]));
            }
            assert(no_fitness_lost(a1, a2));
            assert(no_fitness_lost(a2, a3));
            lemma_no_fitness_lost_trans(a0, a1, a2);
            lemma_no_fitness_lost_trans(a0, a2, a3);
        }
        if self.age + 1 < c.generation_length {
            self.age = self.age + 1;
            None
        } else {
            let ghost lived = self.world.agents@;
            let ghost foods = self.world.foods@;
            self.evolve(rng);
            let r = self.statistics();
            proof {
                lemma_avg_bounded(fitness_seq(lived));
                assert(r.reports(fitness_seq(lived)));
                assert(tick_result(a0, f0, regrown, c, lived, foods));
            }
            Some(r)
        }
    }

    /// Runs the ticks left in the current generation, drawing from `rng`,
    /// and returns the statistics that the last of them reported.
    pub fn train(&mut self, rng: &mut rand::rngs::StdRng) -> (r: Statistics)
        requires
            old(self).wf(),
        ensures
            final(self).wf(),
            final(self).config == old(self).config,
            final(self).age == 0,
            final(self).generation == next_generation(old(self).generation),
            r.age == 0,
            r.generation == next_generation(old(self).generation),
            r.generation_length == old(self).config.generation_length,
            r.min is Some && r.avg is Some && r.max is Some,
            r.min->0 <= r.avg->0 <= r.max->0,
            exists|lived: Seq<Agent>, foods: Seq<Food>|
                #[trigger] ticks(old(self).world.agents@, old(self).world.foods@, old(self).config,
                    (old(self).config.generation_length - old(self).age) as nat, lived, foods)
                && r.reports(fitness_seq(lived))
                && bred_from(final(self).world.agents@, lived, old(self).config.mutation_chance, old(self).config.mutation_coefficient),
            forall|k: int| 0 <= k < final(self).world.agents@.len() ==> (#[trigger] final(self).world.agents@[k]).fitness == 0,
    {
        let ghost a0 = self.world.agents@;
        let ghost f0 = self.world.foods@;
        let ghost c = self.config;
        loop
            invariant
                self.wf(),
                self.config == c,
                c == old(self).config,
                a0 == old(self).world.agents@,
                f0 == old(self).world.foods@,
                self.generation == old(self).generation,
                old(self).age <= self.age,
                ticks(a0, f0, c, (self.age - old(self).age) as nat, self.world.agents@, self.world.foods@),
            decreases self.config.generation_length - self.age,
        {
            let ghost pa = self.world.agents@;
            let ghost pf = self.world.foods@;
            let ghost k = (self.age - old(self).age) as nat;
            match self.step(rng) {
                Some(s) => {
                    proof {
                        let (lived, foods, regrown) = choose|lived: Seq<Agent>, foods: Seq<Food>, regrown: Seq<Seq<Food>>|
                            #[trigger] tick_result(pa, pf, regrown, c, lived, foods)
                            && no_fitness_lost(pa, lived)
                            && s.reports(fitness_seq(lived))
                            && bred_from(self.world.agents@, lived, c.mutation_chance, c.mutation_coefficient);
                        assert(tick_result(pa, pf, regrown, c, lived, foods));
                        assert(ticks(a0, f0, c, k + 1, lived, foods));
                        assert(k + 1 == (c.generation_length - old(self).age) as nat);
                    }
                    return s;
                },
                None => {
                    proof {
                        let regrown = choose|regrown: Seq<Seq<Food>>| #[trigger] tick_result(pa, pf, regrown, c, self.world.agents@, self.world.foods@);
                        assert(tick_result(pa, pf, regrown, c, self.world.agents@, self.world.foods@));
                        assert(ticks(a0, f0, c, k + 1, self.world.agents@, self.world.foods@));
                    }
                },
            }
        }
    }
}

} // verus!
