use mlp::activator::{linear, relu, sigmoid};
use mlp::fx::FX_ONE;
use mlp::mlp::{Layer, Net};

fn to_fx(v: f64) -> i64 {
    (v * 4294967296.0).round() as i64
}

fn to_f64(v: i64) -> f64 {
    v as f64 / 4294967296.0
}

#[test]
fn layer_test_linear_new() {
    let linear = Layer::new(2, 3, to_fx(1.0), linear());
    assert_eq!(linear.outputs.len(), 3);
    assert_eq!(linear.inputs.len(), 2);

    assert_eq!(linear.w.len(), 3);
    assert_eq!(linear.w[0].len(), 2);
    assert_eq!(linear.b.len(), 3);

    assert_eq!(linear.grads.len(), 3);
    assert_eq!(linear.grads[0].len(), 2);
    assert_eq!(linear.local_grads.len(), 3);
    assert_eq!(linear.b_prev_changes.len(), 3);
}

#[test]
fn mlp_test_linear_new() {
    let linear = Layer::new(2, 3, to_fx(1.0), linear());
    assert_eq!(linear.outputs.len(), 3);
    assert_eq!(linear.inputs.len(), 2);

    assert_eq!(linear.w.len(), 3);
    assert_eq!(linear.w[0].len(), 2);
    assert_eq!(linear.b.len(), 3);

    assert_eq!(linear.grads.len(), 3);
    assert_eq!(linear.w_prev_changes.len(), 3);
    assert_eq!(linear.grads[0].len(), 2);
    assert_eq!(linear.w_prev_changes[0].len(), 2);
    assert_eq!(linear.local_grads.len(), 3);
    assert_eq!(linear.b_prev_changes.len(), 3);
}

#[test]
fn mlp_test_linear_forward1() {
    let mut linear = Layer::new(2, 1, to_fx(1.0), sigmoid());

    for j in 0..linear.w.len() {
        for i in 0..linear.w[j].len() {
            linear.w[j][i] = to_fx(1.0);
        }
    }

    let out = linear.forward(&vec![to_fx(1.0), to_fx(1.0)]).unwrap();
    assert!((to_f64(out[0]) - 0.9525741268224334).abs() < 1e-6);
    assert_eq!(linear.outputs[0], to_fx(3.0));
}

#[test]
fn mlp_test_linear_forward2() {
    let mut linear = Layer::new(2, 2, to_fx(1.0), sigmoid());

    for j in 0..linear.w.len() {
        for i in 0..linear.w[j].len() {
            linear.w[j][i] = to_fx(j as f64 + 1.0);
        }
    }
    let result = linear.forward(&vec![to_fx(0.0), to_fx(1.0)]).unwrap();
    assert_eq!(linear.outputs[0], to_fx(2.0));
    assert_eq!(linear.outputs[1], to_fx(3.0));
    assert!((to_f64(result[0]) - 0.8807970779778823).abs() < 1e-6);
    assert!((to_f64(result[1]) - 0.9525741268224334).abs() < 1e-6);
}

#[test]
fn model_test_linear_new() {
}

#[test]
fn model_test_linear_forward1() {
    let mut linear = Layer::new(2, 1, to_fx(1.0), sigmoid());
    for j in 0..linear.w.len() {
        for i in 0..linear.w[j].len() {
            linear.w[j][i] = to_fx(1.0);
        }
    }

    let out = linear.forward(&vec![to_fx(1.0), to_fx(1.0)]).unwrap();
    assert!((to_f64(out[0]) - 0.9525741268224334).abs() < 1e-6);
    assert_eq!(linear.outputs[0], to_fx(3.0));
}

#[test]
fn model_test_linear_forward2() {
    let mut linear = Layer::new(2, 2, to_fx(1.0), sigmoid());

    for j in 0..2 {
        linear.w[j][0] = to_fx(j as f64 + 1.0);
        linear.w[j][1] = to_fx(j as f64 + 1.0);
    }

    let result = linear.forward(&vec![to_fx(0.0), to_fx(1.0)]).unwrap();
    assert!((to_f64(result[0]) - 0.8807970779778823).abs() < 1e-6);
    assert!((to_f64(result[1]) - 0.9525741268224334).abs() < 1e-6);
    assert_eq!(linear.outputs[0], to_fx(2.0));
    assert_eq!(linear.outputs[1], to_fx(3.0));
}

#[test]
fn test_set_params() {
    let mut layers: Vec<Layer> = vec![];
    layers.push(Layer::new(2, 2, to_fx(1.0), relu()));
    layers.push(Layer::new(2, 1, to_fx(1.0), linear()));
    let mut net = Net::from_layers(layers);
    let params: Vec<i64> = [1.0, 1.0, 1.0, 1.0, 2.0, 2.0, 1.0, 1.0, 2.0]
        .iter()
        .map(|v| to_fx(*v))
        .collect();
    net.set_params(&params).unwrap();

    assert_eq!(net.layers[0].w[0], vec![to_fx(1.0), to_fx(1.0)]);
    assert_eq!(net.layers[0].w[1], vec![to_fx(1.0), to_fx(1.0)]);
    assert_eq!(net.layers[0].b, vec![to_fx(2.0), to_fx(2.0)]);
}

#[test]
fn forward_is_deterministic() {
    let mut net = Net::new(vec![3, 4, 2]);
    let input = vec![to_fx(0.25), to_fx(-0.5), to_fx(1.0)];
    let a = net.forward(&input).unwrap();
    let b = net.forward(&input).unwrap();
    assert_eq!(a, b);
    assert_eq!(a.len(), 2);
}

#[test]
fn flatten_restore_roundtrip_preserves_parameters() {
    let mut net = Net::new(vec![4, 3, 2]);
    let before_w: Vec<Vec<Vec<i64>>> = net.layers.iter().map(|l| l.w.clone()).collect();
    let before_b: Vec<Vec<i64>> = net.layers.iter().map(|l| l.b.clone()).collect();
    let flat = net.flatten_params();
    assert_eq!(flat.len(), net.parameters);
    net.set_params(&flat).unwrap();
    for l in 0..net.layers.len() {
        assert_eq!(net.layers[l].w, before_w[l]);
        assert_eq!(net.layers[l].b, before_b[l]);
    }
    assert_eq!(net.flatten_params(), flat);
}

#[test]
fn forward_rejects_wrong_input_width() {
    let mut net = Net::new(vec![2, 2, 1]);
    let r = net.forward(&vec![to_fx(1.0)]);
    assert_eq!(r, Err(mlp::error::NetError::ShapeMismatch));
    let mut layer = Layer::new(3, 1, to_fx(1.0), sigmoid());
    let r2 = layer.forward(&vec![to_fx(1.0), to_fx(2.0)]);
    assert_eq!(r2, Err(mlp::error::NetError::ShapeMismatch));
}

#[test]
fn set_params_rejects_wrong_length() {
    let mut net = Net::new(vec![2, 2, 1]);
    let r = net.set_params(&vec![to_fx(1.0); 4]);
    assert_eq!(r, Err(mlp::error::NetError::ParameterCountMismatch));
}

#[test]
fn new_layer_weights_are_within_unit_range() {
    let layer = Layer::new(6, 5, to_fx(1.0), sigmoid());
    for row in &layer.w {
        for w in row {
            assert!(-FX_ONE <= *w && *w <= FX_ONE);
        }
    }
    for b in &layer.b {
        assert_eq!(*b, FX_ONE);
    }
}

#[test]
fn fresh_weights_are_not_all_equal() {
    // 200 independent draws from [-1, 1] collide with vanishing probability
    let layer = Layer::new(200, 1, to_fx(1.0), sigmoid());
    let first = layer.w[0][0];
    assert!(layer.w[0].iter().any(|w| *w != first));
}
