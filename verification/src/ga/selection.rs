//! Tournament selection.

use vstd::prelude::*;

verus! {

use crate::ga::{Individual, same_ind_v};
use crate::fx::copy_vec;
use crate::rng::sample_indices;

/// The winner of a binary deterministic tournament between positions `a`
/// and `b`: the one with the strictly higher fitness, the second on a tie.
pub open spec fn tournament_pick_v(pop: Seq<Individual>, a: int, b: int) -> Individual {
    if pop[a].fitness > pop[b].fitness {
        pop[a]
    } else {
        pop[b]
    }
}

/// `x` is the winner of some binary tournament between two distinct members
/// of `pop`.
pub open spec fn tournament_winner_v(x: Individual, pop: Seq<Individual>) -> bool {
    exists|a: int, b: int|
        0 <= a < pop.len() && 0 <= b < pop.len() && a != b && same_ind_v(
            x,
            #[trigger] tournament_pick_v(pop, a, b),
        )
}

/// Binary deterministic tournament with reinsertion: draw two distinct
/// individuals at random, keep the fitter one, and repeat until the pool is
/// as large as the population (the same individual may win several slots).
pub fn d_tornament(pop: &Vec<Individual>) -> (r: Vec<Individual>)
    requires
        pop@.len() >= 2,
    ensures
        r@.len() == pop@.len(),
        forall|k: int| 0 <= k < r@.len() ==> #[trigger] tournament_winner_v(r@[k], pop@),
{
    let n = pop.len();
    let mut out: Vec<Individual> = Vec::new();
    let mut k: usize = 0;
    while k < n
        invariant
            n == pop@.len(),
            n >= 2,
            k <= n,
            out@.len() == k,
            forall|t: int| 0 <= t < k ==> #[trigger] tournament_winner_v(out@[t], pop@),
        decreases n - k,
    {
        let players = sample_indices(n, 2);
        let a = players[0];
        let b = players[1];
        let winner = if pop[a].fitness > pop[b].fitness {
            Individual { chromosome: copy_vec(&pop[a].chromosome), fitness: pop[a].fitness }
        } else {
            Individual { chromosome: copy_vec(&pop[b].chromosome), fitness: pop[b].fitness }
        };
        out.push(winner);
        proof {
            assert(players@[0] != players@[1]);
            assert(same_ind_v(out@[k as int], tournament_pick_v(pop@, a as int, b as int)));
            assert(tournament_winner_v(out@[k as int], pop@));
        }
        k = k + 1;
    }
    out
}

} // verus!
