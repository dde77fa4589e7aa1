use mlp::fx::{fx_add, fx_div, fx_from_int, fx_mul, fx_neg, fx_sub, FX_HALF, FX_ONE};
use mlp::loss::Loss;
use mlp::mlp::Net;
use mlp::models::{
    air_8_1_1, air_8_4_1, air_8_8_4_1, cross_2_4_1, cross_2_8_1, flood_8_4_1, flood_8_8_1,
    wdbc_30_15_1, wdbc_30_15_7_1, wdbc_30_7_1,
};
use mlp::swarm::init_particles_group;
use mlp::train::{confusion_count, fit_epoch, mean_loss, pso_epoch, validation_test, ConfusionCount, Data};

fn to_fx(v: f64) -> i64 {
    (v * 4294967296.0).round() as i64
}

fn to_f64(v: i64) -> f64 {
    v as f64 / 4294967296.0
}

fn xor_data() -> Vec<Data> {
    let rows = [
        ([0.0, 0.0], [0.0]),
        ([0.0, 1.0], [1.0]),
        ([1.0, 0.0], [1.0]),
        ([1.0, 1.0], [0.0]),
    ];
    rows.iter()
        .map(|(i, l)| Data {
            inputs: i.iter().map(|v| to_fx(*v)).collect(),
            labels: l.iter().map(|v| to_fx(*v)).collect(),
        })
        .collect()
}

#[test]
fn fixed_point_arithmetic_matches_reference_values() {
    assert_eq!(fx_add(to_fx(1.5), to_fx(2.25)), to_fx(3.75));
    assert_eq!(fx_sub(to_fx(1.0), to_fx(2.5)), to_fx(-1.5));
    assert_eq!(fx_mul(to_fx(1.5), to_fx(2.0)), to_fx(3.0));
    assert_eq!(fx_mul(FX_ONE, 123456789), 123456789);
    assert_eq!(fx_div(to_fx(3.0), to_fx(2.0)), to_fx(1.5));
    assert_eq!(fx_neg(to_fx(0.5)), to_fx(-0.5));
    assert_eq!(fx_from_int(3), to_fx(3.0));
    // saturation instead of wrapping
    assert_eq!(fx_add(i64::MAX, FX_ONE), i64::MAX);
    assert_eq!(fx_sub(i64::MIN, FX_ONE), i64::MIN);
    assert_eq!(fx_neg(i64::MIN), i64::MAX);
    assert_eq!(fx_mul(i64::MAX, to_fx(4.0)), i64::MAX);
}

#[test]
fn xor_training_reduces_loss() {
    // gradient descent on XOR can stall in a poor basin for an unlucky
    // random start, so allow a few fresh restarts
    let data = xor_data();
    let mut solved = false;
    for _attempt in 0..5 {
        let mut net = Net::new(vec![2, 4, 1]);
        let mut loss = Loss::mse();
        let first = fit_epoch(&mut net, &mut loss, &data, to_fx(0.5), to_fx(0.1));
        let mut last = first;
        for _ in 0..2000 {
            last = fit_epoch(&mut net, &mut loss, &data, to_fx(0.5), to_fx(0.1));
        }
        println!("first: {}, last: {}", to_f64(first), to_f64(last));
        let lo1 = to_f64(net.forward(&vec![0, 0]).unwrap()[0]);
        let lo2 = to_f64(net.forward(&vec![to_fx(1.0), to_fx(1.0)]).unwrap()[0]);
        let hi1 = to_f64(net.forward(&vec![to_fx(1.0), 0]).unwrap()[0]);
        let hi2 = to_f64(net.forward(&vec![0, to_fx(1.0)]).unwrap()[0]);
        if last < first && lo1 < 0.5 && lo2 < 0.5 && hi1 > 0.5 && hi2 > 0.5 {
            solved = true;
            break;
        }
    }
    assert!(solved);
}

#[test]
fn mean_loss_is_the_average_criterion() {
    let mut net = Net::new(vec![2, 2, 1]);
    let data = xor_data();
    let mut loss = Loss::abs_err();
    let mean = mean_loss(&mut net, &mut loss, &data);

    let mut total: i64 = 0;
    for d in &data {
        let out = net.forward(&d.inputs).unwrap();
        let mut l2 = Loss::abs_err();
        total = fx_add(total, l2.criterion(&out, &d.labels).unwrap());
    }
    assert_eq!(mean, fx_div(total, fx_from_int(4)));
}

#[test]
fn validation_test_reports_both_means() {
    let mut net = Net::new(vec![2, 3, 1]);
    let data = xor_data();
    let (v_mae, t_mae) = validation_test(&mut net, &data, &data);
    assert_eq!(v_mae, t_mae);
}

#[test]
fn pso_epoch_improves_group_best() {
    let mut net = air_8_4_1();
    let data: Vec<Data> = (0..4)
        .map(|k| Data {
            inputs: (0..8).map(|i| to_fx(((i + k) % 3) as f64 * 0.25)).collect(),
            labels: vec![to_fx(0.5)],
        })
        .collect();
    let mut groups = init_particles_group(&net, 2, 3);
    pso_epoch(&mut net, &mut groups, &data);
    for g in &groups {
        assert!(g.lbest_f < i64::MAX);
        assert_eq!(g.particles.len(), 3);
    }
    let before = groups[0].lbest_f;
    pso_epoch(&mut net, &mut groups, &data);
    assert!(groups[0].lbest_f <= before);
}

#[test]
fn confusion_count_fills_the_right_cell() {
    let mut m = ConfusionCount { true_pos: 0, pred_pos_label_neg: 0, true_neg: 0, pred_neg_label_pos: 0 };
    confusion_count(&mut m, &vec![to_fx(0.9)], &vec![to_fx(1.0)], FX_HALF);
    confusion_count(&mut m, &vec![to_fx(0.9)], &vec![to_fx(0.0)], FX_HALF);
    confusion_count(&mut m, &vec![to_fx(0.1)], &vec![to_fx(0.0)], FX_HALF);
    confusion_count(&mut m, &vec![to_fx(0.1)], &vec![to_fx(1.0)], FX_HALF);
    assert_eq!(m.true_pos, 1);
    assert_eq!(m.pred_pos_label_neg, 1);
    assert_eq!(m.true_neg, 1);
    assert_eq!(m.pred_neg_label_pos, 1);
}

#[test]
fn model_factories_have_documented_parameter_counts() {
    assert_eq!(air_8_4_1().parameters, 41);
    assert_eq!(air_8_1_1().parameters, 11);
    assert_eq!(air_8_8_4_1().parameters, 113);
    assert_eq!(wdbc_30_15_1().parameters, 481);
    assert_eq!(wdbc_30_7_1().parameters, 225);
    assert_eq!(wdbc_30_15_7_1().parameters, 585);
    assert_eq!(cross_2_4_1().parameters, 17);
    assert_eq!(cross_2_8_1().parameters, 33);
    assert_eq!(flood_8_4_1().parameters, 41);
    assert_eq!(flood_8_8_1().parameters, 81);
    let net = wdbc_30_15_1();
    assert_eq!(net.layers.len(), 2);
    assert_eq!(net.layers[0].inputs.len(), 30);
    assert_eq!(net.layers[1].b.len(), 1);
}
