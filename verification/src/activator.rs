//! Named activation functions and their derivatives, evaluated at the
//! pre-activation value.
//!
//! The sigmoid is computed in fixed point as `1 / (1 + e^-x)`, with `e^-x`
//! obtained from a Horner-form Taylor series on `x / 32` followed by five
//! squarings; inputs of 16 or more give 0 (there `e^-x` is below one
//! representable unit times a few hundred, and the tail is dropped).
//!
//! The linear activation's derivative is 0, not 1: a convention kept from the
//! engine's original design, where linear layers are used only as regression
//! output layers.

use vstd::prelude::*;

verus! {

use crate::fx::{
    FX_ONE, FX_HALF, fx_add, fx_add_v, fx_sub, fx_sub_v, fx_mul, fx_mul_v, fx_div, fx_div_v,
    fx_neg, fx_neg_v, lemma_fx_mul_unit, lemma_fx_div_unit,
};

/// Inputs at or above this cutoff (16.0) make `e^-x` vanish.
pub const FX_EXP_CUT: i64 = 68719476736;

pub const FX_INV2: i64 = 2147483648;

pub const FX_INV3: i64 = 1431655765;

pub const FX_INV4: i64 = 1073741824;

pub const FX_INV5: i64 = 858993459;

pub const FX_INV6: i64 = 715827883;

pub const FX_INV7: i64 = 613566757;

pub const FX_INV8: i64 = 536870912;

pub const FX_INV9: i64 = 477218588;

/// One Horner step of the Taylor series for `e^-u`:
/// `1 - u * acc / j`, with `inv_j` holding `1 / j`.
pub open spec fn exp_step_v(u: int, acc: int, inv_j: int) -> int {
    fx_sub_v(FX_ONE as int, fx_mul_v(fx_mul_v(u, acc), inv_j))
}

/// The degree-9 Taylor series for `e^-u`, in Horner form.
pub open spec fn exp_series_v(u: int) -> int {
    let t9 = exp_step_v(u, FX_ONE as int, FX_INV9 as int);
    let t8 = exp_step_v(u, t9, FX_INV8 as int);
    let t7 = exp_step_v(u, t8, FX_INV7 as int);
    let t6 = exp_step_v(u, t7, FX_INV6 as int);
    let t5 = exp_step_v(u, t6, FX_INV5 as int);
    let t4 = exp_step_v(u, t5, FX_INV4 as int);
    let t3 = exp_step_v(u, t4, FX_INV3 as int);
    let t2 = exp_step_v(u, t3, FX_INV2 as int);
    exp_step_v(u, t2, FX_ONE as int)
}

/// `e^-x` for `x >= 0`: the series on `x / 32`, squared five times; 0 from
/// the cutoff upward.
pub open spec fn exp_neg_v(x: int) -> int {
    if x >= FX_EXP_CUT as int {
        0
    } else {
        let e0 = exp_series_v(x / 32);
        let e1 = fx_mul_v(e0, e0);
        let e2 = fx_mul_v(e1, e1);
        let e3 = fx_mul_v(e2, e2);
        let e4 = fx_mul_v(e3, e3);
        fx_mul_v(e4, e4)
    }
}

/// The logistic function `1 / (1 + e^-x)`, extended to negative inputs by
/// the symmetry `s(x) = 1 - s(-x)`.
pub open spec fn sigmoid_v(x: int) -> int {
    if x >= 0 {
        fx_div_v(FX_ONE as int, fx_add_v(FX_ONE as int, exp_neg_v(x)))
    } else {
        fx_sub_v(FX_ONE as int, fx_div_v(
            FX_ONE as int,
            fx_add_v(FX_ONE as int, exp_neg_v(fx_neg_v(x))),
        ))
    }
}

fn exp_step(u: i64, acc: i64, inv_j: i64) -> (r: i64)
    requires
        0 <= u <= FX_HALF,
        0 <= acc <= FX_ONE,
        0 <= inv_j <= FX_ONE,
    ensures
        r == exp_step_v(u as int, acc as int, inv_j as int),
        0 <= r <= FX_ONE,
{
    let m1 = fx_mul(u, acc);
    proof {
        lemma_fx_mul_unit(u as int, acc as int);
    }
    let m2 = fx_mul(m1, inv_j);
    proof {
        lemma_fx_mul_unit(m1 as int, inv_j as int);
    }
    fx_sub(FX_ONE, m2)
}

fn fx_square(e: i64) -> (r: i64)
    requires
        0 <= e <= FX_ONE,
    ensures
        r == fx_mul_v(e as int, e as int),
        0 <= r <= FX_ONE,
{
    proof {
        lemma_fx_mul_unit(e as int, e as int);
    }
    fx_mul(e, e)
}

/// `e^-x` for nonnegative fixed-point `x`.
pub fn exp_neg(x: i64) -> (r: i64)
    requires
        x >= 0,
    ensures
        r == exp_neg_v(x as int),
        0 <= r <= FX_ONE,
{
    if x >= FX_EXP_CUT {
        0
    } else {
        let u = ((x as u64) / 32) as i64;
        let t9 = exp_step(u, FX_ONE, FX_INV9);
        let t8 = exp_step(u, t9, FX_INV8);
        let t7 = exp_step(u, t8, FX_INV7);
        let t6 = exp_step(u, t7, FX_INV6);
        let t5 = exp_step(u, t6, FX_INV5);
        let t4 = exp_step(u, t5, FX_INV4);
        let t3 = exp_step(u, t4, FX_INV3);
        let t2 = exp_step(u, t3, FX_INV2);
        let e0 = exp_step(u, t2, FX_ONE);
        let e1 = fx_square(e0);
        let e2 = fx_square(e1);
        let e3 = fx_square(e2);
        let e4 = fx_square(e3);
        fx_square(e4)
    }
}

fn sigmoid_pos(x: i64) -> (r: i64)
    requires
        x >= 0,
    ensures
        r == sigmoid_v(x as int),
        0 <= r <= FX_ONE,
{
    let e = exp_neg(x);
    let b = fx_add(FX_ONE, e);
    proof {
        lemma_fx_div_unit(b as int);
    }
    fx_div(FX_ONE, b)
}

/// The sigmoid activation on any fixed-point input.
pub fn sigmoid_fx(x: i64) -> (r: i64)
    ensures
        r == sigmoid_v(x as int),
        0 <= r <= FX_ONE,
{
    if x >= 0 {
        sigmoid_pos(x)
    } else {
        let s = sigmoid_pos(fx_neg(x));
        fx_sub(FX_ONE, s)
    }
}

/// A named activation: a pure function together with its derivative.
#[derive(Clone, Copy, Debug, PartialEq, Eq, Structural)]
pub enum ActivationContainer {
    Sigmoid,
    Relu,
    Linear,
}

/// What `apply` returns for each activation.
pub open spec fn act_apply_v(a: ActivationContainer, x: int) -> int {
    match a {
        ActivationContainer::Sigmoid => sigmoid_v(x),
        ActivationContainer::Relu => if x >= 0 {
            x
        } else {
            0
        },
        ActivationContainer::Linear => x,
    }
}

/// What `deriv` returns for each activation, evaluated at the
/// pre-activation value.
pub open spec fn act_deriv_v(a: ActivationContainer, x: int) -> int {
    match a {
        ActivationContainer::Sigmoid => fx_mul_v(
            sigmoid_v(x),
            fx_sub_v(FX_ONE as int, sigmoid_v(x)),
        ),
        ActivationContainer::Relu => if x > 0 {
            FX_ONE as int
        } else {
            0
        },
        ActivationContainer::Linear => 0,
    }
}

impl ActivationContainer {
    /// Evaluate the activation function.
    pub fn apply(&self, x: i64) -> (r: i64)
        ensures
            r == act_apply_v(*self, x as int),
    {
        match self {
            ActivationContainer::Sigmoid => sigmoid_fx(x),
            ActivationContainer::Relu => if x >= 0 {
                x
            } else {
                0
            },
            ActivationContainer::Linear => x,
        }
    }

    /// Evaluate the activation's derivative at the pre-activation value.
    pub fn deriv(&self, x: i64) -> (r: i64)
        ensures
            r == act_deriv_v(*self, x as int),
    {
        match self {
            ActivationContainer::Sigmoid => {
                let s = sigmoid_fx(x);
                fx_mul(s, fx_sub(FX_ONE, s))
            },
            ActivationContainer::Relu => if x > 0 {
                FX_ONE
            } else {
                0
            },
            ActivationContainer::Linear => 0,
        }
    }
}

/// The sigmoid activation.
pub fn sigmoid() -> (r: ActivationContainer)
    ensures
        r == ActivationContainer::Sigmoid,
{
    ActivationContainer::Sigmoid
}

/// The rectified-linear activation.
pub fn relu() -> (r: ActivationContainer)
    ensures
        r == ActivationContainer::Relu,
{
    ActivationContainer::Relu
}

/// The identity activation used for regression output layers.
pub fn linear() -> (r: ActivationContainer)
    ensures
        r == ActivationContainer::Linear,
{
    ActivationContainer::Linear
}

} // verus!
