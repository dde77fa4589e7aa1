//! Genetic-algorithm optimization over the network's flattened parameter
//! space: individuals carry a chromosome and a fitness, and each generation
//! runs tournament selection, uniform crossover, mutation and elitism.

pub mod selection;

use vstd::prelude::*;

verus! {

use crate::activator::exp_neg;
use crate::error::NetError;
use crate::fx::{fx_add, fx_add_v, fx_from_int, fx_mul, copy_vec, FX_ONE};
use crate::mlp::{
    Net, Layer, net_params_v, reparameterized_v, layer_param_count, params_count_v,
    lemma_params_take_step, lemma_params_count_take_le,
};
use crate::rng::{rand_coin, rand_unit, rand_symmetric_unit, sample_indices};

/// A candidate solution: a flattened parameter vector and its fitness
/// (higher is better; it is set externally after evaluation).
pub struct Individual {
    /// The flattened parameter vector, in the order of
    /// [`crate::mlp::Net::flatten_params`].
    pub chromosome: Vec<i64>,
    /// The externally assigned quality score; higher is better.
    pub fitness: i64,
}

/// Two individuals carry the same chromosome and fitness.
pub open spec fn same_ind_v(a: Individual, b: Individual) -> bool {
    &&& a.chromosome@ == b.chromosome@
    &&& a.fitness == b.fitness
}

/// `child` combines `a` and `b` gene by gene (uniform crossover); the
/// chromosome is as long as the shorter parent.
pub open spec fn crossover_of_v(child: Individual, a: Individual, b: Individual) -> bool {
    &&& child.chromosome@.len() == if a.chromosome@.len() <= b.chromosome@.len() {
        a.chromosome@.len()
    } else {
        b.chromosome@.len()
    }
    &&& forall|g: int|
        0 <= g < child.chromosome@.len() ==> #[trigger] child.chromosome@[g] == a.chromosome@[g]
            || child.chromosome@[g] == b.chromosome@[g]
}

/// Gene `g` of `m` is gene `g` of `o` moved by at most 1 (saturating).
pub open spec fn gene_shifted_v(m: Seq<i64>, o: Seq<i64>, g: int) -> bool {
    exists|d: int|
        -FX_ONE <= d <= FX_ONE && m[g] as int == #[trigger] fx_add_v(o[g] as int, d)
}

/// `m` is `o` with each gene moved by at most 1 (saturating), fitness kept.
pub open spec fn mutated_from_v(m: Individual, o: Individual) -> bool {
    &&& m.fitness == o.fitness
    &&& m.chromosome@.len() == o.chromosome@.len()
    &&& forall|g: int|
        0 <= g < m.chromosome@.len() ==> #[trigger] gene_shifted_v(m.chromosome@, o.chromosome@, g)
}

impl Individual {
    /// A fresh individual with fitness 0.
    pub fn new(chromosome: Vec<i64>) -> (r: Individual)
        ensures
            r.chromosome == chromosome,
            r.fitness == 0,
    {
        Individual { chromosome, fitness: 0 }
    }

    /// Record this individual's externally computed fitness.
    pub fn set_fitness(&mut self, v: i64)
        ensures
            final(self).chromosome == old(self).chromosome,
            final(self).fitness == v,
    {
        self.fitness = v;
    }
}

/// `child` is a uniform crossover of two distinct members of `pop`.
pub open spec fn offspring_of_v(child: Individual, pop: Seq<Individual>) -> bool {
    exists|p0: int, p1: int|
        0 <= p0 < pop.len() && 0 <= p1 < pop.len() && p0 != p1 && #[trigger] crossover_of_v(
            child,
            pop[p0],
            pop[p1],
        )
}

/// `m` arose by mutating some member of `pop`.
pub open spec fn mutant_of_v(m: Individual, pop: Seq<Individual>) -> bool {
    exists|j: int| 0 <= j < pop.len() && #[trigger] mutated_from_v(m, pop[j])
}

/// `r` mutates the members of `pop` found at the pairwise-distinct positions
/// `src`, one source per result (drawn without replacement); and with a
/// probability of 0 or less, every chromosome is its source's, unchanged.
pub open spec fn mutation_of_v(
    r: Seq<Individual>,
    pop: Seq<Individual>,
    p_m: int,
    src: Seq<int>,
) -> bool {
    &&& src.len() == r.len()
    &&& forall|k: int| 0 <= k < src.len() ==> 0 <= #[trigger] src[k] < pop.len()
    &&& forall|k1: int, k2: int| 0 <= k1 < k2 < src.len() ==> src[k1] != src[k2]
    &&& forall|k: int| 0 <= k < r.len() ==> mutated_from_v(#[trigger] r[k], pop[src[k]])
    &&& p_m <= 0 ==> forall|k: int|
        0 <= k < r.len() ==> (#[trigger] r[k]).chromosome@ == pop[src[k]].chromosome@
}

/// An element-for-element copy of an individual.
fn dup(ind: &Individual) -> (r: Individual)
    ensures
        same_ind_v(r, *ind),
{
    Individual { chromosome: copy_vec(&ind.chromosome), fitness: ind.fitness }
}

/// Build the next pool by mating: for each slot, two distinct parents are
/// drawn at random and combined gene by gene with a fair coin.
pub fn mating(pop: &Vec<Individual>) -> (r: Vec<Individual>)
    requires
        pop@.len() >= 2,
    ensures
        r@.len() == pop@.len(),
        forall|k: int| 0 <= k < r@.len() ==> (#[trigger] r@[k]).fitness == 0,
        forall|k: int| 0 <= k < r@.len() ==> #[trigger] offspring_of_v(r@[k], pop@),
{
    let n = pop.len();
    let mut out: Vec<Individual> = Vec::new();
    let mut k: usize = 0;
    while k < n
        invariant
            n == pop@.len(),
            n >= 2,
            k <= n,
            out@.len() == k,
            forall|t: int| 0 <= t < k ==> (#[trigger] out@[t]).fitness == 0,
            forall|t: int| 0 <= t < k ==> #[trigger] offspring_of_v(out@[t], pop@),
        decreases n - k,
    {
        let parents = sample_indices(n, 2);
        let p0 = parents[0];
        let p1 = parents[1];
        let len0 = pop[p0].chromosome.len();
        let len1 = pop[p1].chromosome.len();
        let m = if len0 <= len1 {
            len0
        } else {
            len1
        };
        let mut genes: Vec<i64> = Vec::new();
        let mut g: usize = 0;
        while g < m
            invariant
                n == pop@.len(),
                p0 < n,
                p1 < n,
                m <= pop@[p0 as int].chromosome@.len(),
                m <= pop@[p1 as int].chromosome@.len(),
                g <= m,
                genes@.len() == g,
                forall|t: int|
                    0 <= t < g ==> #[trigger] genes@[t] == pop@[p0 as int].chromosome@[t]
                        || genes@[t] == pop@[p1 as int].chromosome@[t],
            decreases m - g,
        {
            if rand_coin() {
                genes.push(pop[p0].chromosome[g]);
            } else {
                genes.push(pop[p1].chromosome[g]);
            }
            g = g + 1;
        }
        let child = Individual::new(genes);
        out.push(child);
        proof {
            assert(parents@[0] != parents@[1]);
            assert(crossover_of_v(out@[k as int], pop@[p0 as int], pop@[p1 as int]));
            assert(offspring_of_v(out@[k as int], pop@));
        }
        k = k + 1;
    }
    out
}

/// Strong mutation: `amount` individuals are drawn without replacement
/// (saturated at the population size), and each of their genes is perturbed
/// by a uniform value in `[-1, 1]` with probability `p_m` (fixed point).
pub fn mutate(pop: &Vec<Individual>, amount: usize, p_m: i64) -> (r: Vec<Individual>)
    ensures
        r@.len() == if amount <= pop@.len() {
            amount as int
        } else {
            pop@.len() as int
        },
        forall|k: int| 0 <= k < r@.len() ==> #[trigger] mutant_of_v(r@[k], pop@),
        exists|src: Seq<int>| #[trigger] mutation_of_v(r@, pop@, p_m as int, src),
{
    let amount = if amount <= pop.len() {
        amount
    } else {
        pop.len()
    };
    let picks = sample_indices(pop.len(), amount);
    let mut out: Vec<Individual> = Vec::new();
    let mut k: usize = 0;
    while k < amount
        invariant
            amount <= pop@.len(),
            picks@.len() == amount,
            forall|t: int| 0 <= t < picks@.len() ==> #[trigger] picks@[t] < pop@.len(),
            forall|t1: int, t2: int| 0 <= t1 < t2 < picks@.len() ==> picks@[t1] != picks@[t2],
            k <= amount,
            out@.len() == k,
            forall|t: int| 0 <= t < k ==> #[trigger] mutant_of_v(out@[t], pop@),
            forall|t: int|
                0 <= t < k ==> mutated_from_v(#[trigger] out@[t], pop@[picks@[t] as int]),
            p_m <= 0 ==> forall|t: int|
                0 <= t < k ==> (#[trigger] out@[t]).chromosome@ == pop@[picks@[t]
                    as int].chromosome@,
        decreases amount - k,
    {
        let src = picks[k];
        let mutant = mutate_one(&pop[src], p_m);
        out.push(mutant);
        proof {
            assert(mutated_from_v(out@[k as int], pop@[src as int]));
            assert(mutant_of_v(out@[k as int], pop@));
        }
        k = k + 1;
    }
    proof {
        let src = Seq::new(picks@.len() as nat, |t: int| picks@[t] as int);
        assert forall|t: int| 0 <= t < out@.len() implies mutated_from_v(
            #[trigger] out@[t],
            pop@[src[t]],
        ) by {
            assert(src[t] == picks@[t] as int);
        }
        assert(mutation_of_v(out@, pop@, p_m as int, src));
    }
    out
}

/// Perturb each gene of one individual with probability `p_m`.
fn mutate_one(ind: &Individual, p_m: i64) -> (r: Individual)
    ensures
        mutated_from_v(r, *ind),
        p_m <= 0 ==> r.chromosome@ == ind.chromosome@,
{
    let n = ind.chromosome.len();
    let mut genes: Vec<i64> = Vec::new();
    let ghost mut deltas: Seq<int> = Seq::empty();
    let mut g: usize = 0;
    while g < n
        invariant
            n == ind.chromosome@.len(),
            g <= n,
            genes@.len() == g,
            deltas.len() == g,
            forall|t: int|
                0 <= t < g ==> -FX_ONE <= #[trigger] deltas[t] <= FX_ONE,
            forall|t: int|
                0 <= t < g ==> #[trigger] genes@[t] as int == fx_add_v(
                    ind.chromosome@[t] as int,
                    deltas[t],
                ),
            p_m <= 0 ==> forall|t: int| 0 <= t < g ==> #[trigger] genes@[t]
                == ind.chromosome@[t],
        decreases n - g,
    {
        let gene = ind.chromosome[g];
        if rand_unit() < p_m {
            let change = rand_symmetric_unit();
            genes.push(fx_add(gene, change));
            proof {
                deltas = deltas.push(change as int);
            }
        } else {
            genes.push(gene);
            proof {
                deltas = deltas.push(0);
            }
        }
        g = g + 1;
    }
    let r = Individual { chromosome: genes, fitness: ind.fitness };
    proof {
        if p_m <= 0 {
            assert(r.chromosome@ =~= ind.chromosome@);
        }
        assert forall|t: int| 0 <= t < r.chromosome@.len() implies #[trigger] gene_shifted_v(
            r.chromosome@,
            ind.chromosome@,
            t,
        ) by {
            assert(-FX_ONE <= deltas[t] <= FX_ONE && r.chromosome@[t] as int == fx_add_v(
                ind.chromosome@[t] as int,
                deltas[t],
            ));
        }
    }
    r
}

/// Non-uniform strong mutation: the first `amount` individuals are mutated
/// with a per-gene probability annealed by `e^(-generation)`.
pub fn mutate_nonuni(pop: &Vec<Individual>, amount: usize, p_m: i64, curr_gen: usize) -> (r: Vec<
    Individual,
>)
    requires
        amount <= pop@.len(),
    ensures
        r@.len() == amount,
        forall|k: int| 0 <= k < r@.len() ==> mutated_from_v(#[trigger] r@[k], pop@[k]),
        p_m <= 0 ==> forall|k: int|
            0 <= k < r@.len() ==> (#[trigger] r@[k]).chromosome@ == pop@[k].chromosome@,
        curr_gen >= 16 ==> forall|k: int|
            0 <= k < r@.len() ==> (#[trigger] r@[k]).chromosome@ == pop@[k].chromosome@,
{
    // e^-x is 0 from 16 upward, so later generations all get probability 0
    let capped: usize = if curr_gen > 16 {
        16
    } else {
        curr_gen
    };
    let decay = exp_neg(fx_from_int(capped as i64));
    let thresh = fx_mul(p_m, decay);
    proof {
        if p_m <= 0 {
            crate::fx::lemma_fx_mul_nonpos(p_m as int, decay as int);
        }
        if curr_gen >= 16 {
            assert(decay == 0);
            assert(thresh <= 0);
        }
    }
    let mut out: Vec<Individual> = Vec::new();
    let mut k: usize = 0;
    while k < amount
        invariant
            amount <= pop@.len(),
            p_m <= 0 ==> thresh <= 0,
            curr_gen >= 16 ==> thresh <= 0,
            k <= amount,
            out@.len() == k,
            forall|t: int| 0 <= t < k ==> mutated_from_v(#[trigger] out@[t], pop@[t]),
            thresh <= 0 ==> forall|t: int|
                0 <= t < k ==> (#[trigger] out@[t]).chromosome@ == pop@[t].chromosome@,
        decreases amount - k,
    {
        let mutant = mutate_one(&pop[k], thresh);
        out.push(mutant);
        proof {
            assert(mutated_from_v(out@[k as int], pop@[k as int]));
        }
        k = k + 1;
    }
    out
}

/// One layer's slice of a fresh chromosome: random weights in `[-1, 1]` at
/// the weight positions, the layer's own biases at the bias positions.
pub open spec fn layer_init_seg_v(l: Layer, s: Seq<i64>) -> bool {
    &&& s.len() == layer_param_count(l)
    &&& forall|i: int| 0 <= i < l.n_out() * l.n_in() ==> -FX_ONE <= #[trigger] s[i] <= FX_ONE
    &&& forall|j: int|
        0 <= j < l.n_out() ==> #[trigger] s[l.n_out() * l.n_in() + j] == l.b@[j]
}

/// A fresh chromosome for a layer stack: layer by layer, random weights and
/// copied biases, in the flattened parameter order.
pub open spec fn init_chrom_v(ls: Seq<Layer>, s: Seq<i64>) -> bool
    decreases ls.len(),
{
    if ls.len() == 0 {
        s.len() == 0
    } else {
        &&& s.len() == params_count_v(ls)
        &&& init_chrom_v(ls.drop_last(), s.take(s.len() - layer_param_count(ls.last())))
        &&& layer_init_seg_v(ls.last(), s.skip(s.len() - layer_param_count(ls.last())))
    }
}

/// Append one layer's fresh slice: a random weight for every weight
/// position, then the layer's biases.
fn push_layer_init(l: &Layer, out: &mut Vec<i64>)
    requires
        l.wf(),
        old(out)@.len() + layer_param_count(*l) <= usize::MAX,
    ensures
        final(out)@.len() == old(out)@.len() + layer_param_count(*l),
        final(out)@.take(old(out)@.len() as int) == old(out)@,
        layer_init_seg_v(*l, final(out)@.skip(old(out)@.len() as int)),
{
    let base = out.len();
    let n_out = l.b.len();
    let n_in = l.inputs.len();
    proof {
        vstd::arithmetic::mul::lemma_mul_is_commutative(n_out as int, n_in as int);
        assert(out@.take(base as int) =~= out@);
    }
    let mut j: usize = 0;
    while j < n_out
        invariant
            l.wf(),
            n_out == l.n_out(),
            n_in == l.n_in(),
            base == old(out)@.len(),
            base + n_out * n_in + n_out <= usize::MAX,
            j <= n_out,
            out@.len() == base + j * n_in,
            out@.take(base as int) == old(out)@,
            forall|t: int| base <= t < out@.len() ==> -FX_ONE <= #[trigger] out@[t] <= FX_ONE,
        decreases n_out - j,
    {
        proof {
            vstd::arithmetic::mul::lemma_mul_inequality(j + 1, n_out as int, n_in as int);
            assert((j + 1) * n_in == j * n_in + n_in) by (nonlinear_arith);
        }
        let mut i: usize = 0;
        while i < n_in
            invariant
                base == old(out)@.len(),
                base + n_out * n_in + n_out <= usize::MAX,
                j * n_in + n_in <= n_out * n_in,
                i <= n_in,
                out@.len() == base + j * n_in + i,
                out@.take(base as int) == old(out)@,
                forall|t: int| base <= t < out@.len() ==> -FX_ONE <= #[trigger] out@[t] <= FX_ONE,
            decreases n_in - i,
        {
            let ghost prev = out@;
            out.push(rand_symmetric_unit());
            proof {
                assert(out@.take(base as int) =~= prev.take(base as int));
            }
            i = i + 1;
        }
        j = j + 1;
    }
    let wcount = out.len() - base;
    let mut j2: usize = 0;
    while j2 < n_out
        invariant
            l.wf(),
            n_out == l.n_out(),
            n_in == l.n_in(),
            base == old(out)@.len(),
            base + n_out * n_in + n_out <= usize::MAX,
            wcount == n_out * n_in,
            j2 <= n_out,
            out@.len() == base + wcount + j2,
            out@.take(base as int) == old(out)@,
            forall|t: int| base <= t < base + wcount ==> -FX_ONE <= #[trigger] out@[t] <= FX_ONE,
            forall|t: int| 0 <= t < j2 ==> #[trigger] out@[base + wcount + t] == l.b@[t],
        decreases n_out - j2,
    {
        let ghost prev = out@;
        out.push(l.b[j2]);
        proof {
            assert(out@.take(base as int) =~= prev.take(base as int));
        }
        j2 = j2 + 1;
    }
    proof {
        let seg = out@.skip(base as int);
        assert(seg.len() == layer_param_count(*l));
        assert forall|i: int| 0 <= i < l.n_out() * l.n_in() implies -FX_ONE <= #[trigger] seg[i]
            <= FX_ONE by {
            assert(seg[i] == out@[base + i]);
        }
        assert forall|t: int| 0 <= t < l.n_out() implies #[trigger] seg[l.n_out() * l.n_in() + t]
            == l.b@[t] by {
            assert(seg[l.n_out() * l.n_in() + t] == out@[base + wcount + t]);
        }
    }
}

/// One fresh chromosome in the network's flattened parameter order: random
/// weights, the network's own biases.
pub fn init_chromosome(net: &Net) -> (r: Vec<i64>)
    requires
        net.wf(),
    ensures
        r@.len() == net.parameters,
        init_chrom_v(net.layers@, r@),
{
    let n = net.layers.len();
    let mut out: Vec<i64> = Vec::new();
    let mut l: usize = 0;
    while l < n
        invariant
            net.wf(),
            n == net.layers@.len(),
            l <= n,
            out@.len() == params_count_v(net.layers@.take(l as int)),
            init_chrom_v(net.layers@.take(l as int), out@),
        decreases n - l,
    {
        proof {
            lemma_params_take_step(net.layers@, l as int);
            lemma_params_count_take_le(net.layers@, l as int + 1);
            assert(net.layers@.take(n as int) =~= net.layers@);
        }
        let ghost prev = out@;
        push_layer_init(&net.layers[l], &mut out);
        proof {
            assert(net.layers@.take(l + 1).drop_last() =~= net.layers@.take(l as int));
            assert(net.layers@.take(l + 1).last() == net.layers@[l as int]);
            assert(out@.take(prev.len() as int) == prev);
            assert(init_chrom_v(net.layers@.take(l + 1), out@));
        }
        l = l + 1;
    }
    proof {
        assert(net.layers@.take(n as int) =~= net.layers@);
    }
    out
}

/// A fresh population for the network: every chromosome has the network's
/// parameter count, a random weight in `[-1, 1]` at each weight position and
/// the network's bias at each bias position, and fitness 0.
pub fn init_pop(net: &Net, amount: u32) -> (r: Vec<Individual>)
    requires
        net.wf(),
    ensures
        r@.len() == amount,
        forall|k: int| 0 <= k < r@.len() ==> (#[trigger] r@[k]).fitness == 0,
        forall|k: int|
            0 <= k < r@.len() ==> (#[trigger] r@[k]).chromosome@.len() == net.parameters,
        forall|k: int|
            0 <= k < r@.len() ==> init_chrom_v(net.layers@, (#[trigger] r@[k]).chromosome@),
{
    let mut pop: Vec<Individual> = Vec::new();
    let mut k: u32 = 0;
    while k < amount
        invariant
            net.wf(),
            k <= amount,
            pop@.len() == k,
            forall|t: int| 0 <= t < pop@.len() ==> (#[trigger] pop@[t]).fitness == 0,
            forall|t: int|
                0 <= t < pop@.len() ==> (#[trigger] pop@[t]).chromosome@.len() == net.parameters,
            forall|t: int|
                0 <= t < pop@.len() ==> init_chrom_v(net.layers@, (#[trigger] pop@[t]).chromosome@),
        decreases amount - k,
    {
        pop.push(Individual::new(init_chromosome(net)));
        k = k + 1;
    }
    pop
}

/// `b` carries the chromosome and fitness of some member of `pop`, and no
/// member has a higher fitness.
pub open spec fn is_best_of_v(b: Individual, pop: Seq<Individual>) -> bool {
    &&& exists|m: int| 0 <= m < pop.len() && #[trigger] same_ind_v(b, pop[m])
    &&& forall|k: int| 0 <= k < pop.len() ==> (#[trigger] pop[k]).fitness <= b.fitness
}

/// The earliest individual with the maximal fitness of the population.
pub fn best_of(pop: &Vec<Individual>) -> (r: Individual)
    requires
        pop@.len() >= 1,
    ensures
        is_best_of_v(r, pop@),
{
    let mut best: usize = 0;
    let mut k: usize = 1;
    while k < pop.len()
        invariant
            pop@.len() >= 1,
            best < pop@.len(),
            1 <= k <= pop@.len(),
            forall|t: int|
                0 <= t < k ==> (#[trigger] pop@[t]).fitness <= pop@[best as int].fitness,
        decreases pop@.len() - k,
    {
        if pop[k].fitness > pop[best].fitness {
            best = k;
        }
        k = k + 1;
    }
    let r = dup(&pop[best]);
    proof {
        assert(same_ind_v(r, pop@[best as int]));
    }
    r
}

/// Keep the better of the best individual so far and a new candidate: the
/// tracked best fitness never decreases.
pub fn track_best(best: &Individual, cand: &Individual) -> (r: Individual)
    ensures
        r.fitness >= best.fitness,
        cand.fitness > best.fitness ==> same_ind_v(r, *cand),
        cand.fitness <= best.fitness ==> same_ind_v(r, *best),
{
    if cand.fitness > best.fitness {
        dup(cand)
    } else {
        dup(best)
    }
}

/// The whole generation pipeline: `pool` is a tournament pool over `pop`,
/// `brood` a full pool of crossover offspring of `pool`, the first
/// `mutate_amount` slots of `r` mutate distinct members of `brood`, and the
/// remaining slots repeat the generation's best individual.
pub open spec fn ga_pipeline_v(
    pop: Seq<Individual>,
    pool: Seq<Individual>,
    brood: Seq<Individual>,
    r: Seq<Individual>,
    mutate_amount: int,
    p_m: int,
) -> bool {
    &&& pool.len() == pop.len()
    &&& forall|k: int|
        0 <= k < pool.len() ==> #[trigger] selection::tournament_winner_v(pool[k], pop)
    &&& brood.len() == pool.len()
    &&& forall|k: int| 0 <= k < brood.len() ==> #[trigger] offspring_of_v(brood[k], pool)
    &&& forall|k: int| 0 <= k < brood.len() ==> (#[trigger] brood[k]).fitness == 0
    &&& exists|src: Seq<int>| #[trigger] mutation_of_v(r.take(mutate_amount), brood, p_m, src)
    &&& forall|k: int| mutate_amount <= k < r.len() ==> #[trigger] is_best_of_v(r[k], pop)
}

/// One post-evaluation generation step: a tournament builds the mating pool,
/// uniform crossover breeds a full pool, `mutate_amount` offspring are
/// mutated into the next population, and the remaining slots are refilled
/// with the generation's best individual (elitism).
pub fn ga_generation(pop: &Vec<Individual>, mutate_amount: usize, p_m: i64) -> (r: Vec<Individual>)
    requires
        pop@.len() >= 2,
        mutate_amount <= pop@.len(),
        forall|k: int|
            0 <= k < pop@.len() ==> (#[trigger] pop@[k]).chromosome@.len()
                == pop@[0].chromosome@.len(),
    ensures
        r@.len() == pop@.len(),
        forall|k: int|
            0 <= k < r@.len() ==> (#[trigger] r@[k]).chromosome@.len()
                == pop@[0].chromosome@.len(),
        forall|k: int| 0 <= k < mutate_amount ==> (#[trigger] r@[k]).fitness == 0,
        forall|k: int| mutate_amount <= k < r@.len() ==> #[trigger] is_best_of_v(r@[k], pop@),
        exists|pool: Seq<Individual>, brood: Seq<Individual>| #[trigger] ga_pipeline_v(
            pop@,
            pool,
            brood,
            r@,
            mutate_amount as int,
            p_m as int,
        ),
{
    let ghost chrom_len = pop@[0].chromosome@.len();
    let pool = selection::d_tornament(pop);
    proof {
        assert forall|k: int| 0 <= k < pool@.len() implies (#[trigger] pool@[k]).chromosome@.len()
            == chrom_len by {
            assert(crate::ga::selection::tournament_winner_v(pool@[k], pop@));
            let (a, b) = choose|a: int, b: int|
                0 <= a < pop@.len() && 0 <= b < pop@.len() && a != b && same_ind_v(
                    pool@[k],
                    #[trigger] selection::tournament_pick_v(pop@, a, b),
                );
            assert(pop@[a].chromosome@.len() == chrom_len);
            assert(pop@[b].chromosome@.len() == chrom_len);
        }
    }
    let mated = mating(&pool);
    proof {
        assert forall|k: int| 0 <= k < mated@.len() implies (#[trigger] mated@[k]).chromosome@.len()
            == chrom_len by {
            assert(offspring_of_v(mated@[k], pool@));
            let (p0, p1) = choose|p0: int, p1: int|
                0 <= p0 < pool@.len() && 0 <= p1 < pool@.len() && p0 != p1 && #[trigger]
                crossover_of_v(mated@[k], pool@[p0], pool@[p1]);
            assert(pool@[p0].chromosome@.len() == chrom_len);
            assert(pool@[p1].chromosome@.len() == chrom_len);
        }
    }
    let mut out = mutate(&mated, mutate_amount, p_m);
    proof {
        assert forall|k: int| 0 <= k < out@.len() implies (#[trigger] out@[k]).chromosome@.len()
            == chrom_len && out@[k].fitness == 0 by {
            assert(mutant_of_v(out@[k], mated@));
            let j = choose|j: int|
                0 <= j < mated@.len() && #[trigger] mutated_from_v(out@[k], mated@[j]);
            assert(mated@[j].chromosome@.len() == chrom_len);
            assert(mated@[j].fitness == 0);
        }
    }
    let ghost mutated = out@;
    let best = best_of(pop);
    let target = pop.len();
    while out.len() < target
        invariant
            pop@.len() >= 2,
            target == pop@.len(),
            mutate_amount <= out@.len() <= target,
            is_best_of_v(best, pop@),
            best.chromosome@.len() == chrom_len,
            chrom_len == pop@[0].chromosome@.len(),
            mutated.len() == mutate_amount,
            out@.take(mutate_amount as int) == mutated,
            forall|t: int|
                0 <= t < out@.len() ==> (#[trigger] out@[t]).chromosome@.len() == chrom_len,
            forall|t: int| 0 <= t < mutate_amount ==> (#[trigger] out@[t]).fitness == 0,
            forall|t: int|
                mutate_amount <= t < out@.len() ==> #[trigger] is_best_of_v(out@[t], pop@),
        decreases target - out@.len(),
    {
        let ghost kk = out@.len();
        let ghost before = out@;
        out.push(dup(&best));
        proof {
            assert(out@.take(mutate_amount as int) =~= before.take(mutate_amount as int));
            let m = choose|m: int| 0 <= m < pop@.len() && #[trigger] same_ind_v(best, pop@[m]);
            assert(same_ind_v(out@[kk as int], pop@[m]));
            assert(is_best_of_v(out@[kk as int], pop@));
        }
    }
    proof {
        let src = choose|src: Seq<int>| mutation_of_v(mutated, mated@, p_m as int, src);
        assert(out@.take(mutate_amount as int) == mutated);
        assert(mutation_of_v(out@.take(mutate_amount as int), mated@, p_m as int, src));
        assert(forall|k: int|
            0 <= k < pool@.len() ==> #[trigger] selection::tournament_winner_v(pool@[k], pop@));
        assert(ga_pipeline_v(pop@, pool@, mated@, out@, mutate_amount as int, p_m as int));
    }
    out
}

/// Write an individual's chromosome into the network's parameters; a
/// chromosome whose length is not the network's parameter count is refused.
pub fn assign_ind(net: &mut Net, individual: &Individual) -> (r: Result<(), NetError>)
    requires
        old(net).wf(),
    ensures
        final(net).parameters == old(net).parameters,
        final(net).layers@.len() == old(net).layers@.len(),
        match r {
            Result::Err(e) => {
                &&& e == NetError::ParameterCountMismatch
                &&& individual.chromosome@.len() != old(net).parameters
                &&& final(net).layers@ == old(net).layers@
            },
            Result::Ok(u) => {
                &&& individual.chromosome@.len() == old(net).parameters
                &&& final(net).wf()
                &&& forall|l: int|
                    0 <= l < old(net).layers@.len() ==> reparameterized_v(
                        old(net).layers@[l],
                        #[trigger] final(net).layers@[l],
                    )
                &&& net_params_v(final(net).layers@) == individual.chromosome@
            },
        },
{
    net.set_params(&individual.chromosome)
}

} // verus!
