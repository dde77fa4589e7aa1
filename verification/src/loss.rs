//! The loss criterion and the backward pass that drives the chain rule
//! through the layer stack.
//!
//! A `Loss` is an elementwise loss function with its derivative, plus the
//! `(outputs, desired)` pair cached by the most recent `criterion` call;
//! `backward` consumes that cache, so it must follow the `criterion` of the
//! same forward pass.

use vstd::prelude::*;

verus! {

use crate::activator::{act_apply_v, act_deriv_v};
use crate::error::NetError;
use crate::fx::{
    fx_add, fx_add_v, fx_mul, fx_mul_v, fx_sub, fx_sub_v, fx_neg_v, copy_vec, FX_ONE, FX_HALF,
};
use crate::mlp::Layer;

/// Which elementwise loss a [`Loss`] computes.
#[derive(Clone, Copy, Debug, PartialEq, Eq, Structural)]
pub enum LossKind {
    /// `0.5 * (output - desired)^2`, with derivative `output - desired`.
    SquareError,
    /// `|output - desired|`, with derivative `sign(output - desired)`.
    AbsError,
}

/// The elementwise loss.
pub open spec fn loss_elem_v(kind: LossKind, o: int, d: int) -> int {
    match kind {
        LossKind::SquareError => fx_mul_v(
            FX_HALF as int,
            fx_mul_v(fx_sub_v(o, d), fx_sub_v(o, d)),
        ),
        LossKind::AbsError => if fx_sub_v(o, d) >= 0 {
            fx_sub_v(o, d)
        } else {
            fx_neg_v(fx_sub_v(o, d))
        },
    }
}

/// The elementwise loss derivative with respect to the output.
pub open spec fn loss_der_v(kind: LossKind, o: int, d: int) -> int {
    match kind {
        LossKind::SquareError => fx_sub_v(o, d),
        LossKind::AbsError => if fx_sub_v(o, d) > 0 {
            FX_ONE as int
        } else if fx_sub_v(o, d) < 0 {
            -(FX_ONE as int)
        } else {
            0
        },
    }
}

/// The left-fold sum of the elementwise losses over the first `n` positions.
pub open spec fn loss_sum_v(kind: LossKind, outs: Seq<i64>, des: Seq<i64>, n: int) -> int
    decreases n,
{
    if n <= 0 {
        0
    } else {
        fx_add_v(
            loss_sum_v(kind, outs, des, n - 1),
            loss_elem_v(kind, outs[n - 1] as int, des[n - 1] as int),
        )
    }
}

/// A loss criterion together with the cached pair it was last evaluated on.
pub struct Loss {
    /// The network outputs passed to the most recent `criterion` call.
    pub outputs: Vec<i64>,
    /// The desired outputs passed to the most recent `criterion` call.
    pub desired: Vec<i64>,
    /// Which elementwise loss this criterion computes.
    pub kind: LossKind,
}

/// Evaluate the elementwise loss.
pub fn loss_elem(kind: LossKind, o: i64, d: i64) -> (r: i64)
    ensures
        r == loss_elem_v(kind, o as int, d as int),
{
    let e = fx_sub(o, d);
    match kind {
        LossKind::SquareError => fx_mul(FX_HALF, fx_mul(e, e)),
        LossKind::AbsError => if e >= 0 {
            e
        } else if e == i64::MIN {
            i64::MAX
        } else {
            -e
        },
    }
}

/// Evaluate the elementwise loss derivative.
pub fn loss_der(kind: LossKind, o: i64, d: i64) -> (r: i64)
    ensures
        r == loss_der_v(kind, o as int, d as int),
{
    let e = fx_sub(o, d);
    match kind {
        LossKind::SquareError => e,
        LossKind::AbsError => if e > 0 {
            FX_ONE
        } else if e < 0 {
            -FX_ONE
        } else {
            0
        },
    }
}

impl Loss {
    /// The cached pair is consistent.
    pub open spec fn wf(self) -> bool {
        self.outputs@.len() == self.desired@.len()
    }

    /// The squared-error criterion, halved: `0.5 * (output - desired)^2`
    /// summed over the outputs, with derivative `output - desired`.
    pub fn mse() -> (r: Loss)
        ensures
            r.kind == LossKind::SquareError,
            r.wf(),
            r.outputs@.len() == 1,
    {
        Loss { outputs: filled_zero(1), desired: filled_zero(1), kind: LossKind::SquareError }
    }

    /// The absolute-error criterion: `|output - desired|` summed over the
    /// outputs, with the sign of the difference as its derivative.
    pub fn abs_err() -> (r: Loss)
        ensures
            r.kind == LossKind::AbsError,
            r.wf(),
            r.outputs@.len() == 1,
    {
        Loss { outputs: filled_zero(1), desired: filled_zero(1), kind: LossKind::AbsError }
    }

    /// Sum the elementwise loss of `outputs` against `desired`, and cache
    /// both for the backward pass that follows. Vectors of unequal lengths
    /// are refused before any state changes.
    pub fn criterion(&mut self, outputs: &Vec<i64>, desired: &Vec<i64>) -> (r: Result<
        i64,
        NetError,
    >)
        ensures
            final(self).kind == old(self).kind,
            match r {
                Result::Err(e) => {
                    &&& e == NetError::SizeMismatch
                    &&& outputs@.len() != desired@.len()
                    &&& *final(self) == *old(self)
                },
                Result::Ok(total) => {
                    &&& outputs@.len() == desired@.len()
                    &&& final(self).wf()
                    &&& final(self).outputs@ == outputs@
                    &&& final(self).desired@ == desired@
                    &&& total as int == loss_sum_v(
                        old(self).kind,
                        outputs@,
                        desired@,
                        outputs@.len() as int,
                    )
                },
            },
    {
        let n = outputs.len();
        if desired.len() != n {
            return Err(NetError::SizeMismatch);
        }
        let mut total: i64 = 0;
        let mut k: usize = 0;
        while k < n
            invariant
                n == outputs@.len(),
                n == desired@.len(),
                k <= n,
                total as int == loss_sum_v(self.kind, outputs@, desired@, k as int),
                self == old(self),
            decreases n - k,
        {
            total = fx_add(total, loss_elem(self.kind, outputs[k], desired[k]));
            k = k + 1;
        }
        self.outputs = copy_vec(outputs);
        self.desired = copy_vec(desired);
        Ok(total)
    }
}

/// The transposed-weight dot product `(w^T g)[j]` over the first `k` rows:
/// the left fold of `w[i][j] * g[i]`.
pub open spec fn wt_dot_v(w: Seq<Vec<i64>>, g: Seq<int>, j: int, k: int) -> int
    decreases k,
{
    if k <= 0 {
        0
    } else {
        fx_add_v(wt_dot_v(w, g, j, k - 1), fx_mul_v(w[k - 1]@[j] as int, g[k - 1]))
    }
}

/// The local gradients (chain-rule sensitivities) of layer `l`, derived
/// backwards from the cached `(outs, des)` pair of the loss: the output
/// layer multiplies the loss derivative by the activation derivative at its
/// pre-activation sum; a hidden layer propagates the next layer's local
/// gradients back through that layer's transposed weights.
pub open spec fn local_grads_at_v(
    ls: Seq<Layer>,
    outs: Seq<i64>,
    des: Seq<i64>,
    kind: LossKind,
    l: int,
) -> Seq<int>
    decreases ls.len() - l,
{
    if l >= ls.len() - 1 {
        Seq::new(
            ls[l].n_out(),
            |j: int|
                fx_mul_v(
                    loss_der_v(kind, outs[j] as int, des[j] as int),
                    act_deriv_v(ls[l].act, ls[l].outputs@[j] as int),
                ),
        )
    } else {
        let nxt = local_grads_at_v(ls, outs, des, kind, l + 1);
        Seq::new(
            ls[l].n_out(),
            |j: int|
                fx_mul_v(
                    wt_dot_v(ls[l + 1].w@, nxt, j, ls[l + 1].w@.len() as int),
                    act_deriv_v(ls[l].act, ls[l].outputs@[j] as int),
                ),
        )
    }
}

/// The activated output that position `k` of layer `l` saw as its input
/// during the forward pass: the raw network input for the first layer, and
/// the previous layer's activated output otherwise.
pub open spec fn prev_act_v(ls: Seq<Layer>, l: int, k: int) -> int {
    if l == 0 {
        ls[0].inputs@[k] as int
    } else {
        act_apply_v(ls[l - 1].act, ls[l - 1].outputs@[k] as int)
    }
}

/// `post` is `pre` with only its gradient fields replaced: the backward
/// pass touches nothing else.
pub open spec fn backprop_frame_v(pre: Layer, post: Layer) -> bool {
    &&& post.wf()
    &&& post.same_shape(pre)
    &&& post.inputs == pre.inputs
    &&& post.outputs == pre.outputs
    &&& post.w == pre.w
    &&& post.b == pre.b
    &&& post.w_prev_changes == pre.w_prev_changes
    &&& post.b_prev_changes == pre.b_prev_changes
}

/// `post` is `pre` after one full backward pass against the cached
/// `(outs, des)` pair: only the gradient fields change, every local gradient
/// equals its chain-rule value, and every weight gradient is the feeding
/// activation times the unit's local gradient.
pub open spec fn backprop_rel_v(
    pre: Seq<Layer>,
    post: Seq<Layer>,
    outs: Seq<i64>,
    des: Seq<i64>,
    kind: LossKind,
) -> bool {
    &&& post.len() == pre.len()
    &&& forall|l: int| 0 <= l < pre.len() ==> backprop_frame_v(pre[l], #[trigger] post[l])
    &&& forall|l: int, j: int|
        0 <= l < pre.len() && 0 <= j < pre[l].n_out() ==> #[trigger] post[l].local_grads@[j] as int
            == local_grads_at_v(pre, outs, des, kind, l)[j]
    &&& forall|l: int, j: int, k: int|
        0 <= l < pre.len() && 0 <= j < pre[l].n_out() && 0 <= k < pre[l].n_in()
            ==> #[trigger] post[l].grads@[j]@[k] as int == fx_mul_v(
            prev_act_v(pre, l, k),
            local_grads_at_v(pre, outs, des, kind, l)[j],
        )
}

impl Loss {
    /// One full reverse pass, last layer to first: fill every layer's local
    /// gradients by the chain rule and every weight gradient as the local
    /// gradient times the activation that fed the weight. Depends on the
    /// caches of the most recent forward pass and of the most recent
    /// `criterion` call.
    pub fn backward(&self, layers: &mut Vec<Layer>)
        requires
            self.wf(),
            old(layers)@.len() > 0,
            forall|l: int| 0 <= l < old(layers)@.len() ==> (#[trigger] old(layers)@[l]).wf(),
            forall|l: int|
                0 <= l < old(layers)@.len() - 1 ==> (#[trigger] old(layers)@[l]).n_out() == old(
                    layers,
                )@[l + 1].n_in(),
            self.outputs@.len() == old(layers)@.last().n_out(),
        ensures
            backprop_rel_v(old(layers)@, final(layers)@, self.outputs@, self.desired@, self.kind),
    {
        let n = layers.len();
        let mut l: usize = n;
        while l > 0
            invariant
                self.wf(),
                n == layers@.len(),
                n == old(layers)@.len(),
                n > 0,
                forall|k: int| 0 <= k < n ==> (#[trigger] old(layers)@[k]).wf(),
                forall|k: int|
                    0 <= k < n - 1 ==> (#[trigger] old(layers)@[k]).n_out() == old(layers)@[k
                        + 1].n_in(),
                self.outputs@.len() == old(layers)@[n - 1].n_out(),
                l <= n,
                forall|k: int| 0 <= k < l ==> #[trigger] layers@[k] == old(layers)@[k],
                forall|k: int|
                    l <= k < n ==> backprop_frame_v(old(layers)@[k], #[trigger] layers@[k]),
                forall|k: int, j: int|
                    l <= k < n && 0 <= j < old(layers)@[k].n_out()
                        ==> #[trigger] layers@[k].local_grads@[j] as int == local_grads_at_v(
                        old(layers)@,
                        self.outputs@,
                        self.desired@,
                        self.kind,
                        k,
                    )[j],
                forall|k: int, j: int, i: int|
                    l <= k < n && 0 <= j < old(layers)@[k].n_out() && 0 <= i < old(
                        layers,
                    )@[k].n_in() ==> #[trigger] layers@[k].grads@[j]@[i] as int == fx_mul_v(
                        prev_act_v(old(layers)@, k, i),
                        local_grads_at_v(
                            old(layers)@,
                            self.outputs@,
                            self.desired@,
                            self.kind,
                            k,
                        )[j],
                    ),
            decreases l,
        {
            l = l - 1;
            let ghost lspec = local_grads_at_v(
                old(layers)@,
                self.outputs@,
                self.desired@,
                self.kind,
                l as int,
            );
            let lay_n_out = layers[l].b.len();
            let mut new_local: Vec<i64> = Vec::new();
            if l == n - 1 {
                let mut j: usize = 0;
                while j < lay_n_out
                    invariant
                        self.wf(),
                        n == layers@.len(),
                        n == old(layers)@.len(),
                        l == n - 1,
                        layers@[l as int] == old(layers)@[l as int],
                        old(layers)@[l as int].wf(),
                        lay_n_out == old(layers)@[l as int].n_out(),
                        self.outputs@.len() == lay_n_out,
                        lspec == local_grads_at_v(
                            old(layers)@,
                            self.outputs@,
                            self.desired@,
                            self.kind,
                            l as int,
                        ),
                        j <= lay_n_out,
                        new_local@.len() == j,
                        forall|t: int| 0 <= t < j ==> #[trigger] new_local@[t] as int == lspec[t],
                    decreases lay_n_out - j,
                {
                    let d = loss_der(self.kind, self.outputs[j], self.desired[j]);
                    let ad = layers[l].act.deriv(layers[l].outputs[j]);
                    new_local.push(fx_mul(d, ad));
                    j = j + 1;
                }
            } else {
                let next_n_out = layers[l + 1].b.len();
                let mut j: usize = 0;
                while j < lay_n_out
                    invariant
                        self.wf(),
                        n == layers@.len(),
                        n == old(layers)@.len(),
                        l < n - 1,
                        layers@[l as int] == old(layers)@[l as int],
                        old(layers)@[l as int].wf(),
                        old(layers)@[l + 1].wf(),
                        backprop_frame_v(old(layers)@[l + 1], layers@[l + 1]),
                        forall|i: int|
                            0 <= i < old(layers)@[l + 1].n_out() ==> #[trigger] layers@[l
                                + 1].local_grads@[i] as int == local_grads_at_v(
                                old(layers)@,
                                self.outputs@,
                                self.desired@,
                                self.kind,
                                l + 1,
                            )[i],
                        lay_n_out == old(layers)@[l as int].n_out(),
                        old(layers)@[l as int].n_out() == old(layers)@[l + 1].n_in(),
                        next_n_out == old(layers)@[l + 1].n_out(),
                        lspec == local_grads_at_v(
                            old(layers)@,
                            self.outputs@,
                            self.desired@,
                            self.kind,
                            l as int,
                        ),
                        j <= lay_n_out,
                        new_local@.len() == j,
                        forall|t: int| 0 <= t < j ==> #[trigger] new_local@[t] as int == lspec[t],
                    decreases lay_n_out - j,
                {
                    let ghost nxt = local_grads_at_v(
                        old(layers)@,
                        self.outputs@,
                        self.desired@,
                        self.kind,
                        l + 1,
                    );
                    let mut acc: i64 = 0;
                    let mut i: usize = 0;
                    while i < next_n_out
                        invariant
                            n == layers@.len(),
                            n == old(layers)@.len(),
                            l < n - 1,
                            j < lay_n_out,
                            old(layers)@[l + 1].wf(),
                            backprop_frame_v(old(layers)@[l + 1], layers@[l + 1]),
                            forall|t: int|
                                0 <= t < old(layers)@[l + 1].n_out() ==> #[trigger] layers@[l
                                    + 1].local_grads@[t] as int == nxt[t],
                            lay_n_out == old(layers)@[l + 1].n_in(),
                            next_n_out == old(layers)@[l + 1].n_out(),
                            nxt == local_grads_at_v(
                                old(layers)@,
                                self.outputs@,
                                self.desired@,
                                self.kind,
                                l + 1,
                            ),
                            i <= next_n_out,
                            acc as int == wt_dot_v(old(layers)@[l + 1].w@, nxt, j as int, i as int),
                        decreases next_n_out - i,
                    {
                        acc = fx_add(
                            acc,
                            fx_mul(layers[l + 1].w[i][j], layers[l + 1].local_grads[i]),
                        );
                        i = i + 1;
                    }
                    let ad = layers[l].act.deriv(layers[l].outputs[j]);
                    new_local.push(fx_mul(acc, ad));
                    proof {
                        assert(old(layers)@[l + 1].w@.len() == next_n_out);
                    }
                    j = j + 1;
                }
            }
            let n_in_l = layers[l].inputs.len();
            let mut pa: Vec<i64>;
            if l == 0 {
                pa = copy_vec(&layers[l].inputs);
            } else {
                pa = Vec::new();
                let mut k: usize = 0;
                while k < n_in_l
                    invariant
                        n == layers@.len(),
                        n == old(layers)@.len(),
                        0 < l < n,
                        layers@[l - 1] == old(layers)@[l - 1],
                        old(layers)@[l - 1].wf(),
                        n_in_l == old(layers)@[l - 1].n_out(),
                        k <= n_in_l,
                        pa@.len() == k,
                        forall|t: int|
                            0 <= t < k ==> #[trigger] pa@[t] as int == prev_act_v(
                                old(layers)@,
                                l as int,
                                t,
                            ),
                    decreases n_in_l - k,
                {
                    pa.push(layers[l - 1].act.apply(layers[l - 1].outputs[k]));
                    k = k + 1;
                }
            }
            let mut new_grads: Vec<Vec<i64>> = Vec::new();
            let mut j: usize = 0;
            while j < lay_n_out
                invariant
                    n_in_l == old(layers)@[l as int].n_in(),
                    lay_n_out == old(layers)@[l as int].n_out(),
                    new_local@.len() == lay_n_out,
                    forall|t: int| 0 <= t < lay_n_out ==> #[trigger] new_local@[t] as int
                        == lspec[t],
                    pa@.len() == n_in_l,
                    forall|t: int|
                        0 <= t < n_in_l ==> #[trigger] pa@[t] as int == prev_act_v(
                            old(layers)@,
                            l as int,
                            t,
                        ),
                    j <= lay_n_out,
                    new_grads@.len() == j,
                    forall|t: int| 0 <= t < j ==> (#[trigger] new_grads@[t])@.len() == n_in_l,
                    forall|t: int, i: int|
                        0 <= t < j && 0 <= i < n_in_l ==> #[trigger] new_grads@[t]@[i] as int
                            == fx_mul_v(prev_act_v(old(layers)@, l as int, i), lspec[t]),
                decreases lay_n_out - j,
            {
                let mut row: Vec<i64> = Vec::new();
                let mut k: usize = 0;
                while k < n_in_l
                    invariant
                        j < lay_n_out,
                        new_local@.len() == lay_n_out,
                        forall|t: int| 0 <= t < lay_n_out ==> #[trigger] new_local@[t] as int
                            == lspec[t],
                        pa@.len() == n_in_l,
                        forall|t: int|
                            0 <= t < n_in_l ==> #[trigger] pa@[t] as int == prev_act_v(
                                old(layers)@,
                                l as int,
                                t,
                            ),
                        k <= n_in_l,
                        row@.len() == k,
                        forall|i: int|
                            0 <= i < k ==> #[trigger] row@[i] as int == fx_mul_v(
                                prev_act_v(old(layers)@, l as int, i),
                                lspec[j as int],
                            ),
                    decreases n_in_l - k,
                {
                    row.push(fx_mul(pa[k], new_local[j]));
                    k = k + 1;
                }
                new_grads.push(row);
                j = j + 1;
            }
            let ghost prev = layers@;
            let mut lay = layers.remove(l);
            lay.local_grads = new_local;
            lay.grads = new_grads;
            layers.insert(l, lay);
            proof {
                assert(layers@ =~= prev.update(l as int, lay));
            }
        }
    }
}

fn filled_zero(n: usize) -> (r: Vec<i64>)
    ensures
        r@.len() == n,
        forall|i: int| 0 <= i < n ==> r@[i] == 0i64,
{
    let mut v: Vec<i64> = Vec::new();
    let mut i: usize = 0;
    while i < n
        invariant
            i <= n,
            v@.len() == i,
            forall|k: int| 0 <= k < i ==> v@[k] == 0i64,
        decreases n - i,
    {
        v.push(0);
        i = i + 1;
    }
    v
}

} // verus!
