use mlp::activator::{linear, sigmoid};
use mlp::loss::{loss_elem, loss_der, Loss, LossKind};
use mlp::mlp::{Layer, Net};

fn to_fx(v: f64) -> i64 {
    (v * 4294967296.0).round() as i64
}

fn to_f64(v: i64) -> f64 {
    v as f64 / 4294967296.0
}

fn fxv(vals: &[f64]) -> Vec<i64> {
    vals.iter().map(|v| to_fx(*v)).collect()
}

#[test]
fn test_mse_func() {
    assert_eq!(
        loss_elem(LossKind::SquareError, to_fx(2.0), to_fx(1.0)),
        to_fx(0.5)
    );
    assert_eq!(
        loss_elem(LossKind::SquareError, to_fx(5.0), to_fx(0.0)),
        to_fx(12.5)
    );
}

#[test]
fn test_mse_der() {
    assert_eq!(
        loss_der(LossKind::SquareError, to_fx(2.0), to_fx(1.0)),
        to_fx(1.0)
    );
    assert_eq!(
        loss_der(LossKind::SquareError, to_fx(5.0), to_fx(0.0)),
        to_fx(5.0)
    );
}

#[test]
fn test_mse() {
    let mut loss = Loss::mse();

    let l = loss
        .criterion(&fxv(&[2.0, 1.0, 0.0]), &fxv(&[0.0, 1.0, 2.0]))
        .unwrap();
    assert_eq!(l, to_fx(4.0));

    loss.criterion(
        &fxv(&[34.0, 37.0, 44.0, 47.0, 48.0]),
        &fxv(&[37.0, 40.0, 46.0, 44.0, 46.0]),
    )
    .unwrap();
    assert_eq!(l, to_fx(4.0));
}

#[test]
fn criterion_rejects_unequal_lengths() {
    let mut loss = Loss::mse();
    let r = loss.criterion(&fxv(&[1.0, 2.0]), &fxv(&[1.0]));
    assert_eq!(r, Err(mlp::error::NetError::SizeMismatch));
}

#[test]
fn abs_err_criterion_sums_absolute_differences() {
    let mut loss = Loss::abs_err();
    let l = loss
        .criterion(&fxv(&[2.0, -1.0]), &fxv(&[0.5, 1.0]))
        .unwrap();
    assert_eq!(l, to_fx(3.5));
}

#[test]
fn test_backward() {
    let mut layers: Vec<Layer> = vec![];
    layers.push(Layer::new(2, 2, to_fx(1.0), sigmoid()));
    layers.push(Layer::new(2, 1, to_fx(1.0), linear()));
    let mut net = Net::from_layers(layers);
    let mut loss = Loss::mse();

    let inputs = [
        fxv(&[0.0, 0.0]),
        fxv(&[0.0, 1.0]),
        fxv(&[1.0, 0.0]),
        fxv(&[1.0, 1.0]),
    ];
    let labels = [fxv(&[0.0]), fxv(&[1.0]), fxv(&[1.0]), fxv(&[0.0])];

    for epoch in 0..5000 {
        let mut r_loss: f64 = 0.0;
        for s in 0..4 {
            let result = net.forward(&inputs[s]).unwrap();
            r_loss += to_f64(loss.criterion(&result, &labels[s]).unwrap());
            loss.backward(&mut net.layers);
            net.update(to_fx(0.1), to_fx(0.1));
        }
        if epoch % 1000 == 0 {
            println!("loss: {}", r_loss);
        }
    }

    println!("{}", to_f64(net.forward(&fxv(&[0.0, 0.0])).unwrap()[0]));
    println!("{}", to_f64(net.forward(&fxv(&[1.0, 0.0])).unwrap()[0]));
    println!("{}", to_f64(net.forward(&fxv(&[0.0, 1.0])).unwrap()[0]));
    println!("{}", to_f64(net.forward(&fxv(&[1.0, 1.0])).unwrap()[0]));
}

#[test]
fn momentum_update_matches_hand_computation() {
    // A 2 -> 1 sigmoid layer with weights 1, bias 1, input [1, 1]: the
    // pre-activation sum is 3 and the output is sigmoid(3).
    let mut layer = Layer::new(2, 1, to_fx(1.0), sigmoid());
    layer.w[0][0] = to_fx(1.0);
    layer.w[0][1] = to_fx(1.0);
    let mut net = Net::from_layers(vec![layer]);

    let input = fxv(&[1.0, 1.0]);
    let out = net.forward(&input).unwrap();
    assert_eq!(net.layers[0].outputs[0], to_fx(3.0));
    let s = to_f64(out[0]);
    assert!((s - 0.9525741268224334).abs() < 1e-6);

    let mut loss = Loss::mse();
    loss.criterion(&out, &fxv(&[1.0])).unwrap();
    loss.backward(&mut net.layers);

    // local gradient = (output - desired) * s(3) * (1 - s(3));
    // weight gradient = local gradient * input.
    let local = to_f64(net.layers[0].local_grads[0]);
    let expected_local = (s - 1.0) * s * (1.0 - s);
    assert!((local - expected_local).abs() < 1e-6);
    let grad = to_f64(net.layers[0].grads[0][0]);
    assert!((grad - expected_local * 1.0).abs() < 1e-6);

    // One update step with learning rate 0.1 and momentum 0:
    // w -= lr * localGradient * previousLayerActivation (the raw input).
    net.update(to_fx(0.1), 0);
    let w_new = to_f64(net.layers[0].w[0][0]);
    assert!((w_new - (1.0 - 0.1 * expected_local)).abs() < 1e-6);
    let b_new = to_f64(net.layers[0].b[0]);
    assert!((b_new - (1.0 - 0.1 * expected_local)).abs() < 1e-6);
}

#[test]
fn gradients_match_finite_differences() {
    // A small all-relu network with positive weights and inputs is exactly
    // quadratic in each weight, so a central difference reproduces the
    // analytic gradient up to fixed-point rounding.
    let mut layers: Vec<Layer> = vec![];
    layers.push(Layer::new(2, 2, to_fx(0.5), mlp::activator::relu()));
    layers.push(Layer::new(2, 1, to_fx(0.5), mlp::activator::relu()));
    let mut net = Net::from_layers(layers);
    let params = fxv(&[0.3, 0.7, 0.5, 0.2, 0.25, 0.25, 0.4, 0.6, 0.25]);
    net.set_params(&params).unwrap();

    let input = fxv(&[0.8, 0.4]);
    let desired = fxv(&[1.0]);

    let out = net.forward(&input).unwrap();
    let mut loss = Loss::mse();
    loss.criterion(&out, &desired).unwrap();
    loss.backward(&mut net.layers);
    let analytic = to_f64(net.layers[0].grads[0][0]);

    let eps = 0.0625;
    let mut probe = |delta: f64| -> f64 {
        let mut p = params.clone();
        p[0] = to_fx(0.3 + delta);
        net.set_params(&p).unwrap();
        let o = net.forward(&input).unwrap();
        let mut l = Loss::mse();
        to_f64(l.criterion(&o, &desired).unwrap())
    };
    let lp = probe(eps);
    let lm = probe(-eps);
    let numeric = (lp - lm) / (2.0 * eps);
    assert!(
        (analytic - numeric).abs() < 1e-4,
        "analytic {} vs numeric {}",
        analytic,
        numeric
    );
}
