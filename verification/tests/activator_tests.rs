use mlp::activator::{linear, relu, sigmoid, sigmoid_fx, exp_neg};
use mlp::fx::{FX_HALF, FX_ONE};

fn to_fx(v: f64) -> i64 {
    (v * 4294967296.0).round() as i64
}

fn to_f64(v: i64) -> f64 {
    v as f64 / 4294967296.0
}

#[test]
fn test_sigmoid() {
    let act = sigmoid();

    assert!((to_f64(act.apply(to_fx(1.0))) - 0.7310585786300048792512).abs() < 1e-6);
    assert!((to_f64(act.apply(to_fx(-1.0))) - 0.2689414213699951207488).abs() < 1e-6);
    assert_eq!(act.apply(0), FX_HALF);
    assert!((to_f64(act.deriv(to_fx(1.0))) - 0.1966119332414818525374).abs() < 1e-6);
    assert!((to_f64(act.deriv(to_fx(-1.0))) - 0.1966119332414818525374).abs() < 1e-6);
    assert!((to_f64(act.deriv(0)) - 0.25).abs() < 1e-6);
}

#[test]
fn test_relu() {
    let act = relu();

    assert_eq!(act.apply(to_fx(-1.0)), 0);
    assert_eq!(act.apply(to_fx(20.0)), to_fx(20.0));
    assert_eq!(act.deriv(to_fx(-1.0)), 0);
    assert_eq!(act.deriv(to_fx(20.0)), FX_ONE);
}

#[test]
fn linear_identity_and_zero_derivative() {
    let act = linear();
    assert_eq!(act.apply(to_fx(-3.5)), to_fx(-3.5));
    assert_eq!(act.apply(12345), 12345);
    // The identity activation's derivative is 0 by design: it marks pure
    // regression output layers.
    assert_eq!(act.deriv(to_fx(7.0)), 0);
}

#[test]
fn exp_neg_matches_reference_values() {
    assert_eq!(exp_neg(0), FX_ONE);
    assert!((to_f64(exp_neg(to_fx(1.0))) - (-1.0f64).exp()).abs() < 1e-6);
    assert!((to_f64(exp_neg(to_fx(3.0))) - (-3.0f64).exp()).abs() < 1e-6);
    assert!((to_f64(exp_neg(to_fx(10.0))) - (-10.0f64).exp()).abs() < 1e-6);
    assert_eq!(exp_neg(to_fx(16.0)), 0);
}

#[test]
fn sigmoid_three_matches_reference_value() {
    assert!((to_f64(sigmoid_fx(to_fx(3.0))) - 0.9525741268224334).abs() < 1e-6);
}
