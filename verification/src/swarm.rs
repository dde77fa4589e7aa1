//! Particle-swarm optimization over the network's flattened parameter space.
//!
//! The population is partitioned into independent groups; each group tracks
//! its own local-best position and fitness (lower is better: the fitness is
//! a training error), with no communication across groups.

use vstd::prelude::*;

verus! {

use crate::fx::{fx_add, fx_add_v, fx_mul, fx_mul_v, fx_sub, fx_sub_v, copy_vec, FX_ONE};
use crate::ga::{init_chromosome, init_chrom_v};
use crate::mlp::Net;
use crate::rng::{rand_unit, rand_symmetric_unit};

/// One particle: a position in parameter space, its velocity, and the best
/// position it has personally visited (lower fitness is better).
pub struct Individual {
    /// The best position this particle has seen.
    pub best_pos: Vec<i64>,
    /// The particle's current position: a flattened parameter vector.
    pub position: Vec<i64>,
    /// The fitness of `best_pos`; starts at the worst possible value.
    pub f: i64,
    /// The particle's current velocity.
    pub speed: Vec<i64>,
}

/// The velocity rule: `w*v + rho1*(best - x) + rho2*(group_best - x)` with
/// inertia `w = 1`.
pub open spec fn speed_formula_v(v: int, x: int, xb: int, xgb: int, rho1: int, rho2: int) -> int {
    fx_add_v(
        fx_add_v(fx_mul_v(FX_ONE as int, v), fx_mul_v(rho1, fx_sub_v(xb, x))),
        fx_mul_v(rho2, fx_sub_v(xgb, x)),
    )
}

impl Individual {
    /// All of the particle's vectors have the same dimension.
    pub open spec fn wf(self) -> bool {
        &&& self.best_pos@.len() == self.position@.len()
        &&& self.speed@.len() == self.position@.len()
    }

    /// A fresh particle at `position`: a random velocity in `[-1, 1]` per
    /// coordinate, the personal best seeded with the position itself, and
    /// the worst possible fitness.
    pub fn new(position: Vec<i64>) -> (r: Individual)
        ensures
            r.wf(),
            r.position == position,
            r.best_pos@ == position@,
            r.f == i64::MAX,
            forall|i: int| 0 <= i < r.speed@.len() ==> -FX_ONE <= #[trigger] r.speed@[i] <= FX_ONE,
    {
        let n = position.len();
        let mut speed: Vec<i64> = Vec::new();
        let mut i: usize = 0;
        while i < n
            invariant
                i <= n,
                speed@.len() == i,
                forall|k: int| 0 <= k < i ==> -FX_ONE <= #[trigger] speed@[k] <= FX_ONE,
            decreases n - i,
        {
            speed.push(rand_symmetric_unit());
            i = i + 1;
        }
        Individual { best_pos: copy_vec(&position), position, f: i64::MAX, speed }
    }

    /// Pull the velocity toward the personal best:
    /// `v += rho * (best - x)` per coordinate.
    pub fn ind_update_speed(&mut self, rho: i64)
        requires
            old(self).wf(),
        ensures
            final(self).wf(),
            final(self).position == old(self).position,
            final(self).best_pos == old(self).best_pos,
            final(self).f == old(self).f,
            forall|i: int|
                0 <= i < old(self).speed@.len() ==> #[trigger] final(self).speed@[i] as int
                    == fx_add_v(
                    old(self).speed@[i] as int,
                    fx_mul_v(
                        rho as int,
                        fx_sub_v(old(self).best_pos@[i] as int, old(self).position@[i] as int),
                    ),
                ),
    {
        let n = self.speed.len();
        let mut new_speed: Vec<i64> = Vec::new();
        let mut i: usize = 0;
        while i < n
            invariant
                self == old(self),
                self.wf(),
                n == self.speed@.len(),
                i <= n,
                new_speed@.len() == i,
                forall|k: int|
                    0 <= k < i ==> #[trigger] new_speed@[k] as int == fx_add_v(
                        self.speed@[k] as int,
                        fx_mul_v(
                            rho as int,
                            fx_sub_v(self.best_pos@[k] as int, self.position@[k] as int),
                        ),
                    ),
            decreases n - i,
        {
            new_speed.push(
                fx_add(self.speed[i], fx_mul(rho, fx_sub(self.best_pos[i], self.position[i]))),
            );
            i = i + 1;
        }
        self.speed = new_speed;
    }

    /// The full velocity rule with the social component: per coordinate,
    /// `v = w*v + rho1*(best - x) + rho2*(other_best - x)` with inertia 1.
    pub fn update_speed(&mut self, other_best: &Vec<i64>, rho1: i64, rho2: i64)
        requires
            old(self).wf(),
            other_best@.len() == old(self).position@.len(),
        ensures
            final(self).wf(),
            final(self).position == old(self).position,
            final(self).best_pos == old(self).best_pos,
            final(self).f == old(self).f,
            forall|i: int|
                0 <= i < old(self).speed@.len() ==> #[trigger] final(self).speed@[i] as int
                    == speed_formula_v(
                    old(self).speed@[i] as int,
                    old(self).position@[i] as int,
                    old(self).best_pos@[i] as int,
                    other_best@[i] as int,
                    rho1 as int,
                    rho2 as int,
                ),
    {
        let n = self.speed.len();
        let mut new_speed: Vec<i64> = Vec::new();
        let mut i: usize = 0;
        while i < n
            invariant
                self == old(self),
                self.wf(),
                n == self.speed@.len(),
                other_best@.len() == self.position@.len(),
                i <= n,
                new_speed@.len() == i,
                forall|k: int|
                    0 <= k < i ==> #[trigger] new_speed@[k] as int == speed_formula_v(
                        self.speed@[k] as int,
                        self.position@[k] as int,
                        self.best_pos@[k] as int,
                        other_best@[k] as int,
                        rho1 as int,
                        rho2 as int,
                    ),
            decreases n - i,
        {
            let inertia = fx_mul(FX_ONE, self.speed[i]);
            let personal = fx_mul(rho1, fx_sub(self.best_pos[i], self.position[i]));
            let social = fx_mul(rho2, fx_sub(other_best[i], self.position[i]));
            new_speed.push(fx_add(fx_add(inertia, personal), social));
            i = i + 1;
        }
        self.speed = new_speed;
    }

    /// Move by the current velocity: `x += v` per coordinate, unclamped.
    pub fn change_pos(&mut self)
        requires
            old(self).wf(),
        ensures
            final(self).wf(),
            final(self).speed == old(self).speed,
            final(self).best_pos == old(self).best_pos,
            final(self).f == old(self).f,
            forall|i: int|
                0 <= i < old(self).position@.len() ==> #[trigger] final(self).position@[i] as int
                    == fx_add_v(old(self).position@[i] as int, old(self).speed@[i] as int),
    {
        let n = self.position.len();
        let mut new_pos: Vec<i64> = Vec::new();
        let mut i: usize = 0;
        while i < n
            invariant
                self == old(self),
                self.wf(),
                n == self.position@.len(),
                i <= n,
                new_pos@.len() == i,
                forall|k: int|
                    0 <= k < i ==> #[trigger] new_pos@[k] as int == fx_add_v(
                        self.position@[k] as int,
                        self.speed@[k] as int,
                    ),
            decreases n - i,
        {
            new_pos.push(fx_add(self.position[i], self.speed[i]));
            i = i + 1;
        }
        self.position = new_pos;
    }
}

/// A random acceleration weight: a uniform sample from `[0, 1]` times `c`.
pub fn gen_rho(c: i64) -> (r: i64)
    ensures
        exists|u: int| 0 <= u <= FX_ONE && r as int == #[trigger] fx_mul_v(u, c as int),
        c >= 0 ==> 0 <= r <= c,
{
    let u = rand_unit();
    let r = fx_mul(u, c);
    proof {
        if c >= 0 {
            assert((u as int) * (c as int) == (c as int) * (u as int)) by (nonlinear_arith);
            crate::fx::lemma_fx_mul_unit(c as int, u as int);
        }
        assert(r as int == fx_mul_v(u as int, c as int));
    }
    r
}

/// Fresh particles for the network, one fresh chromosome each.
pub fn init_particles(net: &Net, amount: u32) -> (r: Vec<Individual>)
    requires
        net.wf(),
    ensures
        r@.len() == amount,
        forall|k: int| 0 <= k < r@.len() ==> (#[trigger] r@[k]).wf(),
        forall|k: int|
            0 <= k < r@.len() ==> (#[trigger] r@[k]).position@.len() == net.parameters,
        forall|k: int|
            0 <= k < r@.len() ==> init_chrom_v(net.layers@, (#[trigger] r@[k]).position@),
        forall|k: int| 0 <= k < r@.len() ==> (#[trigger] r@[k]).f == i64::MAX,
        forall|k: int|
            0 <= k < r@.len() ==> (#[trigger] r@[k]).best_pos@ == r@[k].position@,
        forall|k: int, i: int|
            0 <= k < r@.len() && 0 <= i < r@[k].speed@.len() ==> -FX_ONE
                <= #[trigger] r@[k].speed@[i] <= FX_ONE,
{
    let mut out: Vec<Individual> = Vec::new();
    let mut k: u32 = 0;
    while k < amount
        invariant
            net.wf(),
            k <= amount,
            out@.len() == k,
            forall|t: int| 0 <= t < out@.len() ==> (#[trigger] out@[t]).wf(),
            forall|t: int|
                0 <= t < out@.len() ==> (#[trigger] out@[t]).position@.len() == net.parameters,
            forall|t: int|
                0 <= t < out@.len() ==> init_chrom_v(net.layers@, (#[trigger] out@[t]).position@),
            forall|t: int| 0 <= t < out@.len() ==> (#[trigger] out@[t]).f == i64::MAX,
            forall|t: int|
                0 <= t < out@.len() ==> (#[trigger] out@[t]).best_pos@ == out@[t].position@,
            forall|t: int, i: int|
                0 <= t < out@.len() && 0 <= i < out@[t].speed@.len() ==> -FX_ONE
                    <= #[trigger] out@[t].speed@[i] <= FX_ONE,
        decreases amount - k,
    {
        out.push(Individual::new(init_chromosome(net)));
        k = k + 1;
    }
    out
}

/// An independent sub-swarm with its own local-best tracker.
pub struct IndividualGroup {
    /// The group's particles.
    pub particles: Vec<Individual>,
    /// The best (lowest) fitness any member has reported.
    pub lbest_f: i64,
    /// The position that reported `lbest_f`.
    pub lbest_pos: Vec<i64>,
}

impl IndividualGroup {
    /// Every particle has the dimension of the group's local-best position.
    pub open spec fn wf(self) -> bool {
        forall|k: int|
            0 <= k < self.particles@.len() ==> (#[trigger] self.particles@[k]).wf()
                && self.particles@[k].position@.len() == self.lbest_pos@.len()
    }

    /// Add a particle to the group.
    pub fn add(&mut self, individual: Individual)
        ensures
            final(self).particles@ == old(self).particles@.push(individual),
            final(self).lbest_f == old(self).lbest_f,
            final(self).lbest_pos == old(self).lbest_pos,
    {
        self.particles.push(individual);
    }

    /// Record the fitness `mae` (lower is better) that particle `idx` earned
    /// at its current position: update the particle's personal best, then
    /// the group's local best.
    pub fn record_eval(&mut self, idx: usize, mae: i64)
        requires
            old(self).wf(),
            idx < old(self).particles@.len(),
        ensures
            final(self).wf(),
            final(self).particles@.len() == old(self).particles@.len(),
            forall|k: int|
                0 <= k < old(self).particles@.len() && k != idx ==> #[trigger] final(self).particles@[k] == old(self).particles@[k],
            final(self).particles@[idx as int].position == old(self).particles@[idx as int].position,
            final(self).particles@[idx as int].speed == old(self).particles@[idx as int].speed,
            mae < old(self).particles@[idx as int].f ==> final(self).particles@[idx as int].f
                == mae && final(self).particles@[idx as int].best_pos@ == old(self).particles@[idx as int].position@,
            mae >= old(self).particles@[idx as int].f ==> final(self).particles@[idx as int].f
                == old(self).particles@[idx as int].f && final(self).particles@[idx as int].best_pos == old(self).particles@[idx as int].best_pos,
            mae < old(self).lbest_f ==> final(self).lbest_f == mae && final(self).lbest_pos@ == old(self).particles@[idx as int].position@,
            mae >= old(self).lbest_f ==> final(self).lbest_f == old(self).lbest_f && final(self).lbest_pos == old(self).lbest_pos,
    {
        let ghost prev = self.particles@;
        let mut p = self.particles.remove(idx);
        if mae < p.f {
            p.f = mae;
            p.best_pos = copy_vec(&p.position);
        }
        self.particles.insert(idx, p);
        proof {
            assert(self.particles@ =~= prev.update(idx as int, p));
        }
        if mae < self.lbest_f {
            self.lbest_f = mae;
            self.lbest_pos = copy_vec(&self.particles[idx].position);
        }
    }

    /// Advance particle `idx`: update its velocity toward its personal best
    /// and the group's local best with the given acceleration weights, then
    /// move it.
    pub fn advance(&mut self, idx: usize, rho1: i64, rho2: i64)
        requires
            old(self).wf(),
            idx < old(self).particles@.len(),
        ensures
            final(self).wf(),
            final(self).lbest_f == old(self).lbest_f,
            final(self).lbest_pos == old(self).lbest_pos,
            final(self).particles@.len() == old(self).particles@.len(),
            forall|k: int|
                0 <= k < old(self).particles@.len() && k != idx ==> #[trigger] final(self).particles@[k] == old(self).particles@[k],
            final(self).particles@[idx as int].best_pos == old(self).particles@[idx as int].best_pos,
            final(self).particles@[idx as int].f == old(self).particles@[idx as int].f,
            forall|i: int|
                0 <= i < old(self).particles@[idx as int].speed@.len() ==> #[trigger] final(self).particles@[idx as int].speed@[i] as int == speed_formula_v(
                    old(self).particles@[idx as int].speed@[i] as int,
                    old(self).particles@[idx as int].position@[i] as int,
                    old(self).particles@[idx as int].best_pos@[i] as int,
                    old(self).lbest_pos@[i] as int,
                    rho1 as int,
                    rho2 as int,
                ),
            forall|i: int|
                0 <= i < old(self).particles@[idx as int].position@.len() ==> #[trigger] final(self).particles@[idx as int].position@[i] as int == fx_add_v(
                    old(self).particles@[idx as int].position@[i] as int,
                    final(self).particles@[idx as int].speed@[i] as int,
                ),
    {
        let ghost prev = self.particles@;
        let mut p = self.particles.remove(idx);
        p.update_speed(&self.lbest_pos, rho1, rho2);
        p.change_pos();
        self.particles.insert(idx, p);
        proof {
            assert(self.particles@ =~= prev.update(idx as int, p));
        }
    }
}

/// Independent sub-swarms: each group draws `group_size + 1` fresh
/// particles, seeds its local-best position with the first one's position
/// (at the worst fitness), and keeps the rest as members.
pub fn init_particles_group(net: &Net, group: usize, group_size: u32) -> (r: Vec<IndividualGroup>)
    requires
        net.wf(),
        group_size < u32::MAX,
    ensures
        r@.len() == group,
        forall|k: int| 0 <= k < r@.len() ==> (#[trigger] r@[k]).wf(),
        forall|k: int| 0 <= k < r@.len() ==> (#[trigger] r@[k]).particles@.len() == group_size,
        forall|k: int| 0 <= k < r@.len() ==> (#[trigger] r@[k]).lbest_f == i64::MAX,
        forall|k: int|
            0 <= k < r@.len() ==> (#[trigger] r@[k]).lbest_pos@.len() == net.parameters,
        forall|k: int|
            0 <= k < r@.len() ==> init_chrom_v(net.layers@, (#[trigger] r@[k]).lbest_pos@),
    {
    let mut out: Vec<IndividualGroup> = Vec::new();
    let mut k: usize = 0;
    while k < group
        invariant
            net.wf(),
            group_size < u32::MAX,
            k <= group,
            out@.len() == k,
            forall|t: int| 0 <= t < out@.len() ==> (#[trigger] out@[t]).wf(),
            forall|t: int|
                0 <= t < out@.len() ==> (#[trigger] out@[t]).particles@.len() == group_size,
            forall|t: int| 0 <= t < out@.len() ==> (#[trigger] out@[t]).lbest_f == i64::MAX,
            forall|t: int|
                0 <= t < out@.len() ==> (#[trigger] out@[t]).lbest_pos@.len() == net.parameters,
            forall|t: int|
                0 <= t < out@.len() ==> init_chrom_v(net.layers@, (#[trigger] out@[t]).lbest_pos@),
        decreases group - k,
    {
        let mut particles = init_particles(net, group_size + 1);
        let seed = particles.remove(0);
        out.push(IndividualGroup { particles, lbest_f: i64::MAX, lbest_pos: seed.position });
        k = k + 1;
    }
    out
}

} // verus!
