//! The world: a square, wrap-around region of fixed-point positions, with
//! agents that see food, steer and eat it.
use vstd::prelude::*;
use crate::chromosome::{Chromosome, GENE_SCALE, Individual};
use vstd::arithmetic::div_mod::lemma_mod_add_multiples_vanish;
use crate::config::Config;
use crate::random::below;

verus! {

/// Number of genes of an agent's brain: three eye cells, each weighted for
/// each of three outputs (speed, turn left, turn right).
pub const BRAIN_LEN: usize = 9;

/// Largest number of food items that one eye cell counts.
pub const EYE_CAP: u32 = 8;

/// Largest magnitude of a weight as the brain reads it.
pub const WEIGHT_MAX: i64 = 1_000_000_000;

/// Number of headings an agent can face: the eight compass points.
pub const HEADINGS: u32 = 8;

/// Largest side of the world.
pub const WORLD_MAX: u32 = 0x4000_0000;

/// Step along x of heading `d`.
pub open spec fn dx_of(d: u32) -> int {
    if d == 0 || d == 1 || d == 7 {
        1
    } else if d == 3 || d == 4 || d == 5 {
        -1
    } else {
        0
    }
}

/// Step along y of heading `d`.
pub open spec fn dy_of(d: u32) -> int {
    if d == 1 || d == 2 || d == 3 {
        1
    } else if d == 5 || d == 6 || d == 7 {
        -1
    } else {
        0
    }
}

pub fn heading_dx(d: u32) -> (r: i64)
    ensures
        r == dx_of(d),
{
    if d == 0 || d == 1 || d == 7 {
        1
    } else if d == 3 || d == 4 || d == 5 {
        -1
    } else {
        0
    }
}

pub fn heading_dy(d: u32) -> (r: i64)
    ensures
        r == dy_of(d),
{
    if d == 1 || d == 2 || d == 3 {
        1
    } else if d == 5 || d == 6 || d == 7 {
        -1
    } else {
        0
    }
}

/// The shortest signed offset from `a` to `b` on a circle of length `w`.
pub open spec fn wrap_offset(a: u32, b: u32, w: u32) -> int {
    let d = (b - a) % (w as int);
    if 2 * d > w {
        d - w
    } else {
        d
    }
}

pub fn offset(a: u32, b: u32, w: u32) -> (r: i64)
    requires
        a < w,
        b < w,
    ensures
        r == wrap_offset(a, b, w),
        -(w as int) <= 2 * r <= w,
{
    let d: u32 = if b >= a { b - a } else { (w - a) + b };
    assert(d == (b - a) % (w as int)) by (nonlinear_arith)
        requires
            a < w,
            b < w,
            d == if b >= a { b - a } else { (w - a) + b },
    ;
    if 2 * (d as u64) > w as u64 {
        d as i64 - w as i64
    } else {
        d as i64
    }
}

/// A point of food.
#[derive(Clone, Copy, Debug, PartialEq, Eq)]
pub struct Food {
    pub x: u32,
    pub y: u32,
}

/// An agent: where it stands, where it heads, how fast it goes, what it
/// has eaten this generation, and the weights of its brain.
#[derive(Debug)]
pub struct Agent {
    pub x: u32,
    pub y: u32,
    pub heading: u32,
    pub speed: u32,
    pub fitness: u64,
    pub brain: Chromosome,
}

/// What an agent's eye counts in each of its three cells, capped at `EYE_CAP`.
#[derive(Clone, Copy, Debug, PartialEq, Eq)]
pub struct Vision {
    pub left: u32,
    pub ahead: u32,
    pub right: u32,
}

impl Vision {
    pub open spec fn wf(&self) -> bool {
        self.left <= EYE_CAP && self.ahead <= EYE_CAP && self.right <= EYE_CAP
    }
}

/// Where food at offset `(rx, ry)` falls for an eye facing heading `d`:
/// 0 left, 1 ahead, 2 right, 3 unseen (behind, or out of range).
pub open spec fn cell_of(rx: int, ry: int, d: u32, range: u32) -> int {
    let dot = rx * dx_of(d) + ry * dy_of(d);
    let cross = dx_of(d) * ry - dy_of(d) * rx;
    if rx > range || -rx > range || ry > range || -ry > range || dot <= 0 {
        3
    } else if 2 * cross > dot {
        0
    } else if -2 * cross > dot {
        2
    } else {
        1
    }
}

pub fn eye_cell(rx: i64, ry: i64, d: u32, range: u32) -> (r: u32)
    requires
        -WORLD_MAX <= rx <= WORLD_MAX,
        -WORLD_MAX <= ry <= WORLD_MAX,
    ensures
        r == cell_of(rx as int, ry as int, d, range),
{
    let dx = heading_dx(d);
    let dy = heading_dy(d);
    let r = range as i64;
    assert(-WORLD_MAX <= rx * dx <= WORLD_MAX) by (nonlinear_arith)
        requires -WORLD_MAX <= rx <= WORLD_MAX, -1 <= dx <= 1;
    assert(-WORLD_MAX <= ry * dy <= WORLD_MAX) by (nonlinear_arith)
        requires -WORLD_MAX <= ry <= WORLD_MAX, -1 <= dy <= 1;
    assert(-WORLD_MAX <= dx * ry <= WORLD_MAX) by (nonlinear_arith)
        requires -WORLD_MAX <= ry <= WORLD_MAX, -1 <= dx <= 1;
    assert(-WORLD_MAX <= dy * rx <= WORLD_MAX) by (nonlinear_arith)
        requires -WORLD_MAX <= rx <= WORLD_MAX, -1 <= dy <= 1;
    let dot = rx * dx + ry * dy;
    let cross = dx * ry - dy * rx;
    if rx > r || -rx > r || ry > r || -ry > r || dot <= 0 {
        3
    } else if 2 * cross > dot {
        0
    } else if 2 * cross < -dot {
        2
    } else {
        1
    }
}

/// A weight as the brain reads it: held to `[-WEIGHT_MAX, WEIGHT_MAX]`.
pub open spec fn read_weight(w: i64) -> int {
    if w > WEIGHT_MAX {
        WEIGHT_MAX as int
    } else if w < -WEIGHT_MAX {
        -WEIGHT_MAX
    } else {
        w as int
    }
}

/// Output `k` of a brain of weights `w` for what the eye sees.
pub open spec fn brain_output(w: Seq<i64>, k: int, v: Vision) -> int {
    read_weight(w[3 * k]) * v.left + read_weight(w[3 * k + 1]) * v.ahead + read_weight(w[3 * k + 2]) * v.right
}

pub fn output(w: &Chromosome, k: usize, v: Vision) -> (r: i64)
    requires
        w@.len() == BRAIN_LEN,
        k < 3,
        v.wf(),
    ensures
        r == brain_output(w@, k as int, v),
        -3 * WEIGHT_MAX * EYE_CAP <= r <= 3 * WEIGHT_MAX * EYE_CAP,
{
    let mut total: i64 = 0;
    let mut j: usize = 0;
    while j < 3
        invariant
            j <= 3,
            k < 3,
            w@.len() == BRAIN_LEN,
            v.wf(),
            -(j as int) * WEIGHT_MAX * EYE_CAP <= total <= j * WEIGHT_MAX * EYE_CAP,
            total == (if j >= 1 { read_weight(w@[3 * k as int]) * v.left } else { 0int })
                + (if j >= 2 { read_weight(w@[3 * k + 1]) * v.ahead } else { 0int })
                + (if j >= 3 { read_weight(w@[3 * k + 2]) * v.right } else { 0int }),
        decreases 3 - j,
    {
        let g = w.gene(3 * k + j);
        let c: i64 = if g > WEIGHT_MAX { WEIGHT_MAX } else if g < -WEIGHT_MAX { -WEIGHT_MAX } else { g };
        let input: u32 = if j == 0 { v.left } else if j == 1 { v.ahead } else { v.right };
        assert(-WEIGHT_MAX * EYE_CAP <= c * input <= WEIGHT_MAX * EYE_CAP) by (nonlinear_arith)
            requires -WEIGHT_MAX <= c <= WEIGHT_MAX, 0 <= input <= EYE_CAP;
        total = total + c * input as i64;
        j = j + 1;
    }
    total
}

/// The number of `foods` that fall in eye cell `cell` of an agent at
/// `(x, y)` facing heading `d`.
pub open spec fn count_cell(x: u32, y: u32, d: u32, foods: Seq<Food>, c: Config, cell: int) -> nat
    decreases foods.len(),
{
    if foods.len() == 0 {
        0
    } else {
        let f = foods.last();
        count_cell(x, y, d, foods.drop_last(), c, cell) + if cell_of(
            wrap_offset(x, f.x, c.world_size),
            wrap_offset(y, f.y, c.world_size),
            d,
            c.eye_range,
        ) == cell {
            1nat
        } else {
            0nat
        }
    }
}

/// What an eye at `(x, y)` facing heading `d` sees of `foods`.
pub open spec fn vision_of(x: u32, y: u32, d: u32, foods: Seq<Food>, c: Config) -> Vision {
    Vision {
        left: capped(count_cell(x, y, d, foods, c, 0)),
        ahead: capped(count_cell(x, y, d, foods, c, 1)),
        right: capped(count_cell(x, y, d, foods, c, 2)),
    }
}

pub open spec fn capped(n: nat) -> u32 {
    if n > EYE_CAP {
        EYE_CAP
    } else {
        n as u32
    }
}

/// The speed after a tick in which the speed output was `out`: changed by
/// at most `speed_accel`, in proportion to `out`, and held to
/// `[0, speed_max]`.
pub open spec fn steered_speed(speed: u32, out: int, c: Config) -> u32 {
    let o = if out > GENE_SCALE { GENE_SCALE as int } else if out < -GENE_SCALE { -GENE_SCALE } else { out };
    let mag = (if o < 0 { -o } else { o }) * c.speed_accel / (GENE_SCALE as int);
    let s = speed + if o < 0 { -mag } else { mag };
    if s < 0 {
        0
    } else if s > c.speed_max {
        c.speed_max
    } else {
        s as u32
    }
}

/// The heading after a tick in which the turn outputs were `l` and `r`:
/// one point left or right where one beats the other by half a unit.
pub open spec fn steered_heading(d: u32, l: int, r: int) -> u32 {
    if l - r > GENE_SCALE / 2 {
        ((d + 1) % 8) as u32
    } else if r - l > GENE_SCALE / 2 {
        ((d + 7) % 8) as u32
    } else {
        d
    }
}

/// A coordinate after moving by `delta` on a circle of length `w`.
pub open spec fn wrapped(p: u32, delta: int, w: u32) -> u32 {
    ((p + delta) % (w as int)) as u32
}

/// An agent at `(x, y)` is close enough to eat `f`.
pub open spec fn reaches(x: u32, y: u32, f: Food, c: Config) -> bool {
    let ox = wrap_offset(x, f.x, c.world_size);
    let oy = wrap_offset(y, f.y, c.world_size);
    -c.eat_radius <= ox <= c.eat_radius && -c.eat_radius <= oy <= c.eat_radius
}

impl Food {
    pub open spec fn wf(&self, c: Config) -> bool {
        self.x < c.world_size && self.y < c.world_size
    }

    /// Food at a random place of the world.
    pub fn random(c: &Config, rng: &mut rand::rngs::StdRng) -> (r: Food)
        requires
            c.valid(),
        ensures
            r.wf(*c),
    {
        let x = below(rng, c.world_size as u128) as u32;
        let y = below(rng, c.world_size as u128) as u32;
        Food { x, y }
    }
}

impl Chromosome {
    /// A gene-for-gene copy.
    pub fn copy(&self) -> (r: Chromosome)
        ensures
            r@ == self@,
    {
        let mut genes: Vec<i64> = Vec::new();
        let mut i: usize = 0;
        while i < self.genes.len()
            invariant
                i <= self@.len(),
                genes@ == self@.take(i as int),
            decreases self@.len() - i,
        {
            genes.push(self.genes[i]);
            i = i + 1;
            assert(genes@ =~= self@.take(i as int));
        }
        assert(self@.take(i as int) =~= self@);
        Chromosome { genes }
    }
}

impl Agent {
    pub open spec fn wf(&self, c: Config) -> bool {
        &&& self.x < c.world_size
        &&& self.y < c.world_size
        &&& self.heading < HEADINGS
        &&& self.speed <= c.speed_max
        &&& self.brain@.len() == BRAIN_LEN
    }

    /// A fresh agent with `brain`, at a random place and heading, at rest.
    pub fn random_with(brain: Chromosome, c: &Config, rng: &mut rand::rngs::StdRng) -> (r: Agent)
        requires
            c.valid(),
            brain@.len() == BRAIN_LEN,
        ensures
            r.wf(*c),
            r.brain@ == brain@,
            r.fitness == 0,
    {
        let x = below(rng, c.world_size as u128) as u32;
        let y = below(rng, c.world_size as u128) as u32;
        let heading = below(rng, HEADINGS as u128) as u32;
        Agent { x, y, heading, speed: 0, fitness: 0, brain }
    }

    /// A fresh agent with a random brain, of genes in `[-1.0, 1.0]`.
    pub fn random(c: &Config, rng: &mut rand::rngs::StdRng) -> (r: Agent)
        requires
            c.valid(),
        ensures
            r.wf(*c),
            r.fitness == 0,
            forall|g: int| 0 <= g < r.brain@.len() ==> -GENE_SCALE <= #[trigger] r.brain@[g] <= GENE_SCALE,
    {
        let mut genes: Vec<i64> = Vec::new();
        let mut i: usize = 0;
        while i < BRAIN_LEN
            invariant
                i <= BRAIN_LEN,
                genes@.len() == i,
                forall|g: int| 0 <= g < genes@.len() ==> -GENE_SCALE <= #[trigger] genes@[g] <= GENE_SCALE,
            decreases BRAIN_LEN - i,
        {
            let g = below(rng, 2 * GENE_SCALE as u128 + 1) as i64 - GENE_SCALE;
            genes.push(g);
            i = i + 1;
        }
        Agent::random_with(Chromosome::new(genes), c, rng)
    }

    /// What the agent's eye sees of `foods`.
    pub fn see(&self, foods: &Vec<Food>, c: &Config) -> (r: Vision)
        requires
            c.valid(),
            self.wf(*c),
            forall|j: int| 0 <= j < foods@.len() ==> (#[trigger] foods@[j]).wf(*c),
        ensures
            r.wf(),
            r == vision_of(self.x, self.y, self.heading, foods@, *c),
            r.left == capped(count_cell(self.x, self.y, self.heading, foods@, *c, 0)),
            r.ahead == capped(count_cell(self.x, self.y, self.heading, foods@, *c, 1)),
            r.right == capped(count_cell(self.x, self.y, self.heading, foods@, *c, 2)),
    {
        let mut v = Vision { left: 0, ahead: 0, right: 0 };
        let mut j: usize = 0;
        while j < foods.len()
            invariant
                j <= foods@.len(),
                c.valid(),
                self.wf(*c),
                forall|k: int| 0 <= k < foods@.len() ==> (#[trigger] foods@[k]).wf(*c),
                v.left == capped(count_cell(self.x, self.y, self.heading, foods@.take(j as int), *c, 0)),
                v.ahead == capped(count_cell(self.x, self.y, self.heading, foods@.take(j as int), *c, 1)),
                v.right == capped(count_cell(self.x, self.y, self.heading, foods@.take(j as int), *c, 2)),
            decreases foods@.len() - j,
        {
            assert(foods@.take(j + 1).drop_last() =~= foods@.take(j as int));
            let f = foods[j];
            let rx = offset(self.x, f.x, c.world_size);
            let ry = offset(self.y, f.y, c.world_size);
            let cell = eye_cell(rx, ry, self.heading, c.eye_range);
            if cell == 0 && v.left < EYE_CAP {
                v.left = v.left + 1;
            } else if cell == 1 && v.ahead < EYE_CAP {
                v.ahead = v.ahead + 1;
            } else if cell == 2 && v.right < EYE_CAP {
                v.right = v.right + 1;
            }
            j = j + 1;
        }
        assert(foods@.take(j as int) =~= foods@);
        v
    }

    /// Turns and speeds up or slows down as the brain decides on `v`.
    pub fn steer(&mut self, v: Vision, c: &Config)
        requires
            c.valid(),
            old(self).wf(*c),
            v.wf(),
        ensures
            final(self).wf(*c),
            final(self).x == old(self).x,
            final(self).y == old(self).y,
            final(self).fitness == old(self).fitness,
            final(self).brain@ == old(self).brain@,
            final(self).speed == steered_speed(old(self).speed, brain_output(old(self).brain@, 0, v), *c),
            final(self).heading == steered_heading(
                old(self).heading,
                brain_output(old(self).brain@, 1, v),
                brain_output(old(self).brain@, 2, v),
            ),
    {
        let o0 = output(&self.brain, 0, v);
        let o1 = output(&self.brain, 1, v);
        let o2 = output(&self.brain, 2, v);
        let o: i64 = if o0 > GENE_SCALE { GENE_SCALE } else if o0 < -GENE_SCALE { -GENE_SCALE } else { o0 };
        let a: u64 = if o < 0 { (-o) as u64 } else { o as u64 };
        assert(a * c.speed_accel <= GENE_SCALE * 0x1_0000_0000) by (nonlinear_arith)
            requires 0 <= a <= GENE_SCALE, 0 <= c.speed_accel < 0x1_0000_0000;
        let mag: u64 = a * c.speed_accel as u64 / GENE_SCALE as u64;
        assert(mag <= 0x1_0000_0000) by (nonlinear_arith)
            requires mag == (a * c.speed_accel) / (GENE_SCALE as int), a * c.speed_accel <= GENE_SCALE * 0x1_0000_0000;
        let s: i64 = if o < 0 { self.speed as i64 - mag as i64 } else { self.speed as i64 + mag as i64 };
        self.speed = if s < 0 { 0 } else if s > c.speed_max as i64 { c.speed_max } else { s as u32 };
        if o1 - o2 > GENE_SCALE / 2 {
            self.heading = (self.heading + 1) % 8;
        } else if o2 - o1 > GENE_SCALE / 2 {
            self.heading = (self.heading + 7) % 8;
        }
    }

    /// Moves by the current speed along the heading, wrapping round the
    /// edges of the world.
    pub fn advance(&mut self, c: &Config)
        requires
            c.valid(),
            old(self).wf(*c),
        ensures
            final(self).wf(*c),
            final(self).x == wrapped(old(self).x, dx_of(old(self).heading) * old(self).speed, c.world_size),
            final(self).y == wrapped(old(self).y, dy_of(old(self).heading) * old(self).speed, c.world_size),
            final(self).heading == old(self).heading,
            final(self).speed == old(self).speed,
            final(self).fitness == old(self).fitness,
            final(self).brain@ == old(self).brain@,
    {
        self.x = step_coord(self.x, heading_dx(self.heading), self.speed, c.world_size);
        self.y = step_coord(self.y, heading_dy(self.heading), self.speed, c.world_size);
    }
}

/// `p` moved by `dir * speed` on a circle of length `w`.
pub fn step_coord(p: u32, dir: i64, speed: u32, w: u32) -> (r: u32)
    requires
        p < w,
        speed <= w,
        w <= WORLD_MAX,
        -1 <= dir <= 1,
    ensures
        r == wrapped(p, dir * speed, w),
        r < w,
{
    let d: i64 = if dir > 0 { speed as i64 } else if dir < 0 { -(speed as i64) } else { 0 };
    assert(d == dir * speed) by (nonlinear_arith)
        requires
            -1 <= dir <= 1,
            d == if dir > 0 { speed as int } else if dir < 0 { -(speed as int) } else { 0 },
    ;
    let shifted: i64 = p as i64 + w as i64 + d;
    proof {
        lemma_mod_add_multiples_vanish(p + dir * speed, w as int);
        assert(shifted as int == w + (p + dir * speed));
    }
    (shifted % w as i64) as u32
}

impl Individual for Agent {
    open spec fn fitness_spec(&self) -> u64 {
        self.fitness
    }

    open spec fn chromosome_spec(&self) -> Seq<i64> {
        self.brain@
    }

    fn fitness(&self) -> (r: u64) {
        self.fitness
    }

    fn chromosome(&self) -> (r: Chromosome) {
        self.brain.copy()
    }

    fn create(chromosome: Chromosome) -> (r: Agent) {
        Agent { x: 0, y: 0, heading: 0, speed: 0, fitness: 0, brain: chromosome }
    }
}

} // verus!
