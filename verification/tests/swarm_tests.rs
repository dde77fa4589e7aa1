use mlp::activator::sigmoid;
use mlp::fx::FX_ONE;
use mlp::mlp::{Layer, Net};
use mlp::swarm::{gen_rho, init_particles_group, Individual, IndividualGroup};

fn to_fx(v: f64) -> i64 {
    (v * 4294967296.0).round() as i64
}

#[test]
fn test_update_speed() {
    let mut p1 = Individual::new(vec![to_fx(1.0), to_fx(1.0)]);
    p1.f = to_fx(4.0);
    p1.speed = vec![to_fx(0.5), to_fx(0.5)];

    let gbest = vec![to_fx(0.5), to_fx(1.0)];

    // trainning: the evaluation 1.0^2 + 2.0*1.0 = 3.0 improves on 4.0
    let eval_result = to_fx(3.0);
    if eval_result < p1.f {
        p1.f = eval_result;
        p1.best_pos = p1.position.clone();
    }

    p1.update_speed(&gbest, to_fx(1.0), to_fx(1.0));
    p1.change_pos();

    assert_eq!(p1.speed, vec![to_fx(0.0), to_fx(0.5)]);
    assert_eq!(p1.position, vec![to_fx(1.0), to_fx(1.5)]);
}

#[test]
fn test_split() {
    let mut layers: Vec<Layer> = vec![];
    layers.push(Layer::new(4, 2, to_fx(1.0), sigmoid()));
    layers.push(Layer::new(2, 1, to_fx(1.0), sigmoid()));
    let net = Net::from_layers(layers);

    let groups = init_particles_group(&net, 3, 3);
    assert_eq!(groups.len(), 3);
    assert_eq!(groups[2].particles.len(), 3);

    let groups = init_particles_group(&net, 2, 5);
    assert_eq!(groups.len(), 2);
    assert_eq!(groups[0].particles.len(), 5);
}

#[test]
fn individual_update_speed_uses_personal_best() {
    let mut p = Individual::new(vec![to_fx(2.0), to_fx(0.0)]);
    p.best_pos = vec![to_fx(1.0), to_fx(1.0)];
    p.speed = vec![to_fx(0.25), to_fx(-0.25)];
    p.ind_update_speed(to_fx(0.5));
    // v + rho * (best - x)
    assert_eq!(p.speed, vec![to_fx(0.25 + 0.5 * (1.0 - 2.0)), to_fx(-0.25 + 0.5 * 1.0)]);
}

#[test]
fn gen_rho_stays_within_its_scale() {
    for _ in 0..50 {
        let r1 = gen_rho(FX_ONE);
        assert!(0 <= r1 && r1 <= FX_ONE);
        let r2 = gen_rho(to_fx(1.5));
        assert!(0 <= r2 && r2 <= to_fx(1.5));
    }
}

#[test]
fn record_eval_updates_personal_and_local_best() {
    let p = Individual::new(vec![to_fx(0.5), to_fx(0.25)]);
    let mut group = IndividualGroup {
        particles: vec![p],
        lbest_f: i64::MAX,
        lbest_pos: vec![to_fx(0.0), to_fx(0.0)],
    };
    group.record_eval(0, to_fx(2.0));
    assert_eq!(group.particles[0].f, to_fx(2.0));
    assert_eq!(group.particles[0].best_pos, vec![to_fx(0.5), to_fx(0.25)]);
    assert_eq!(group.lbest_f, to_fx(2.0));
    assert_eq!(group.lbest_pos, vec![to_fx(0.5), to_fx(0.25)]);

    // a worse score changes nothing
    group.record_eval(0, to_fx(3.0));
    assert_eq!(group.particles[0].f, to_fx(2.0));
    assert_eq!(group.lbest_f, to_fx(2.0));
}

#[test]
fn fresh_particles_share_the_bias_seeds() {
    let mut layers: Vec<Layer> = vec![];
    layers.push(Layer::new(2, 1, to_fx(1.0), sigmoid()));
    let net = Net::from_layers(layers);
    let groups = init_particles_group(&net, 1, 4);
    assert_eq!(groups[0].lbest_f, i64::MAX);
    assert_eq!(groups[0].lbest_pos.len(), net.parameters);
    // the bias position of every particle carries the network's bias
    for p in &groups[0].particles {
        assert_eq!(p.position.len(), 3);
        assert_eq!(p.position[2], to_fx(1.0));
        assert_eq!(p.best_pos, p.position);
        assert_eq!(p.f, i64::MAX);
        for v in &p.speed {
            assert!(-FX_ONE <= *v && *v <= FX_ONE);
        }
    }
}
