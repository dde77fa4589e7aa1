use mlp::activator::sigmoid;
use mlp::fx::{FX_HALF, FX_ONE};
use mlp::ga::{
    assign_ind, best_of, ga_generation, init_pop, mating, mutate, mutate_nonuni, track_best,
    Individual,
};
use mlp::ga::selection::d_tornament;
use mlp::mlp::{Layer, Net};

fn to_fx(v: f64) -> i64 {
    (v * 4294967296.0).round() as i64
}

#[test]
fn mod_test_init_pop() {
    let mut layers: Vec<Layer> = vec![];
    layers.push(Layer::new(4, 2, to_fx(1.0), sigmoid()));
    layers.push(Layer::new(2, 1, to_fx(1.0), sigmoid()));
    let net = Net::from_layers(layers);
    let pop = init_pop(&net, 5);

    assert_eq!(pop.len(), 5);
    assert_eq!(pop[0].chromosome.len(), net.parameters);
    // check if bias is the same.
    assert_eq!(pop[0].chromosome[8], to_fx(1.0));
    assert_eq!(pop[0].chromosome[9], to_fx(1.0));
    assert_eq!(pop[0].chromosome[12], to_fx(1.0));
}

#[test]
fn mod_test_assign_ind() {
    let mut layers: Vec<Layer> = vec![];
    layers.push(Layer::new(3, 1, to_fx(1.0), sigmoid()));
    layers.push(Layer::new(1, 1, to_fx(1.0), sigmoid()));
    let mut net = Net::from_layers(layers);

    let genes: Vec<i64> = [2.5, 2.3, 2.1, 1.2, 1.3, 4.0].iter().map(|v| to_fx(*v)).collect();
    let individual = Individual::new(genes);
    assign_ind(&mut net, &individual).unwrap();

    // check if network has been mutated correctly or not.
    let mut idx = 0;
    for l in net.layers {
        for output in l.w {
            for w in output {
                assert_eq!(w, individual.chromosome[idx]);
                idx += 1;
            }
        }
        for b in l.b {
            assert_eq!(b, individual.chromosome[idx]);
            idx += 1;
        }
    }
}

#[test]
fn mod_test_mating_and_mutate() {
    let mut pop: Vec<Individual> = vec![];
    for i in 0..4 {
        let v = to_fx(i as f64 + 1.0);
        pop.push(Individual::new(vec![v, v, v, to_fx(1.0)]))
    }

    let res = mating(&pop);
    let mut_res = mutate(&pop, 4, FX_HALF);
    assert_eq!(res.len(), pop.len());
    assert_eq!(mut_res.len(), pop.len());

    for ind in res {
        println!("{:?}", ind.chromosome);
    }
    for ind in mut_res {
        println!("{:?}", ind.chromosome);
    }
}

#[test]
fn ga_test_init_pop() {
    let mut layers: Vec<Layer> = vec![];
    layers.push(Layer::new(4, 2, to_fx(1.0), sigmoid()));
    layers.push(Layer::new(2, 1, to_fx(1.0), sigmoid()));
    let net = Net::from_layers(layers);
    let pop = init_pop(&net, 5);

    assert_eq!(pop.len(), 5);
    assert_eq!(pop[0].chromosome.len(), net.parameters);
    assert_eq!(pop[0].chromosome[8], to_fx(1.0));
    assert_eq!(pop[0].chromosome[9], to_fx(1.0));
    assert_eq!(pop[0].chromosome[12], to_fx(1.0));
}

#[test]
fn ga_test_assign_ind() {
    let mut layers: Vec<Layer> = vec![];
    layers.push(Layer::new(3, 1, to_fx(1.0), sigmoid()));
    layers.push(Layer::new(1, 1, to_fx(1.0), sigmoid()));
    let mut net = Net::from_layers(layers);

    let genes: Vec<i64> = [2.5, 2.3, 2.1, 1.2, 1.3, 4.0].iter().map(|v| to_fx(*v)).collect();
    let individual = Individual::new(genes);
    assign_ind(&mut net, &individual).unwrap();

    let mut idx = 0;
    for l in net.layers {
        for output in l.w {
            for w in output {
                assert_eq!(w, individual.chromosome[idx]);
                idx += 1;
            }
        }
        for b in l.b {
            assert_eq!(b, individual.chromosome[idx]);
            idx += 1;
        }
    }
}

#[test]
fn ga_test_mating_and_mutate() {
    let mut pop: Vec<Individual> = vec![];
    for i in 0..4 {
        let v = to_fx(i as f64 + 1.0);
        pop.push(Individual::new(vec![v, v, v, to_fx(1.0)]))
    }

    let res = mating(&pop);
    let mut_res = mutate(&pop, 4, to_fx(0.02));
    assert_eq!(res.len(), pop.len());
    assert_eq!(mut_res.len(), pop.len());

    for ind in res {
        println!("{:?}", ind.chromosome);
    }
    for ind in mut_res {
        println!("{:?}", ind.chromosome);
    }
}

#[test]
fn crossover_takes_every_gene_from_a_parent() {
    let a = Individual::new(vec![to_fx(1.0); 6]);
    let b = Individual::new(vec![to_fx(2.0); 6]);
    let children = mating(&vec![a, b]);
    for child in children {
        assert_eq!(child.chromosome.len(), 6);
        assert_eq!(child.fitness, 0);
        for g in child.chromosome {
            assert!(g == to_fx(1.0) || g == to_fx(2.0));
        }
    }
}

#[test]
fn mutation_moves_each_gene_by_at_most_one() {
    let base = Individual::new(vec![to_fx(0.25); 20]);
    let always = FX_ONE + 1;
    let mutants = mutate(&vec![base], 1, always);
    assert_eq!(mutants.len(), 1);
    let mut changed = 0;
    for g in &mutants[0].chromosome {
        assert!(to_fx(0.25) - FX_ONE <= *g && *g <= to_fx(0.25) + FX_ONE);
        if *g != to_fx(0.25) {
            changed += 1;
        }
    }
    assert!(changed > 0);
}

#[test]
fn nonuniform_mutation_anneals_to_nothing() {
    let mut pop: Vec<Individual> = vec![];
    for _ in 0..3 {
        pop.push(Individual::new(vec![to_fx(0.5); 8]));
    }
    // At a late generation the annealed probability p_m * e^-gen vanishes,
    // so every gene survives unchanged.
    let late = mutate_nonuni(&pop, 3, to_fx(0.9), 20);
    assert_eq!(late.len(), 3);
    for k in 0..3 {
        assert_eq!(late[k].chromosome, pop[k].chromosome);
    }
}

#[test]
fn tournament_keeps_population_size_and_members() {
    let mut pop: Vec<Individual> = vec![];
    for i in 0..6 {
        let mut ind = Individual::new(vec![to_fx(i as f64)]);
        ind.set_fitness(to_fx(i as f64));
        pop.push(ind);
    }
    let pool = d_tornament(&pop);
    assert_eq!(pool.len(), 6);
    for p in &pool {
        assert!(pop.iter().any(|q| q.chromosome == p.chromosome && q.fitness == p.fitness));
    }
}

#[test]
fn elitism_keeps_best_fitness_monotone() {
    let mut pop: Vec<Individual> = vec![];
    for i in 0..8 {
        let mut ind = Individual::new(vec![to_fx(i as f64); 4]);
        ind.set_fitness(to_fx((i % 3) as f64));
        pop.push(ind);
    }
    let mut best = best_of(&pop);
    let mut last_best_fitness = best.fitness;
    for round in 0..5 {
        let mut next = ga_generation(&pop, 6, to_fx(0.1));
        // an external evaluation assigns new fitness values
        for (k, ind) in next.iter_mut().enumerate() {
            ind.set_fitness(to_fx(((k + round) % 5) as f64));
        }
        for ind in &next {
            best = track_best(&best, ind);
        }
        assert!(best.fitness >= last_best_fitness);
        last_best_fitness = best.fitness;
        pop = next;
    }
}

#[test]
fn generation_fills_tail_with_generation_best() {
    let mut pop: Vec<Individual> = vec![];
    for i in 0..5 {
        let mut ind = Individual::new(vec![to_fx(i as f64); 3]);
        ind.set_fitness(to_fx(i as f64));
        pop.push(ind);
    }
    let next = ga_generation(&pop, 2, to_fx(0.5));
    assert_eq!(next.len(), 5);
    for k in 2..5 {
        // the elitism slots carry the best individual of the generation
        assert_eq!(next[k].fitness, to_fx(4.0));
        assert_eq!(next[k].chromosome, vec![to_fx(4.0); 3]);
    }
}

#[test]
fn crossover_draws_from_both_parents() {
    // with 64 differing genes, a fair per-gene coin picks both parents with
    // overwhelming probability
    let a = Individual::new(vec![to_fx(1.0); 64]);
    let b = Individual::new(vec![to_fx(2.0); 64]);
    let children = mating(&vec![a, b]);
    let mut from_a = false;
    let mut from_b = false;
    for child in &children {
        for g in &child.chromosome {
            if *g == to_fx(1.0) {
                from_a = true;
            }
            if *g == to_fx(2.0) {
                from_b = true;
            }
        }
    }
    assert!(from_a && from_b);
}

#[test]
fn mutation_subset_is_drawn_without_replacement() {
    // with probability 0 nothing mutates, so the four mutants must carry the
    // four distinct chromosomes, one each
    let mut pop: Vec<Individual> = vec![];
    for i in 0..4 {
        pop.push(Individual::new(vec![to_fx(i as f64); 2]));
    }
    let untouched = mutate(&pop, 4, 0);
    assert_eq!(untouched.len(), 4);
    for orig in &pop {
        assert_eq!(
            untouched.iter().filter(|m| m.chromosome == orig.chromosome).count(),
            1
        );
    }
}

#[test]
fn mutation_amount_saturates_at_population_size() {
    let mut pop: Vec<Individual> = vec![];
    for i in 0..3 {
        pop.push(Individual::new(vec![to_fx(i as f64)]));
    }
    let mutants = mutate(&pop, 10, 0);
    assert_eq!(mutants.len(), 3);
}

#[test]
fn zero_probability_mutation_changes_nothing() {
    let mut pop: Vec<Individual> = vec![];
    for i in 0..4 {
        pop.push(Individual::new(vec![to_fx(i as f64); 5]));
    }
    let untouched = mutate(&pop, 4, 0);
    for orig in &pop {
        assert_eq!(
            untouched.iter().filter(|m| m.chromosome == orig.chromosome).count(),
            1
        );
    }
}
