//! Dense layers and the network that stacks them.
//!
//! A layer holds its weight matrix (one row per output unit), biases, the
//! caches filled by the forward pass (last input and pre-activation sums),
//! the gradients filled by the backward pass, and the previous update deltas
//! kept for momentum.

use vstd::prelude::*;

verus! {

use crate::activator::{ActivationContainer, act_apply_v};
use crate::error::NetError;
use crate::fx::{fx_add, fx_add_v, fx_mul, fx_mul_v, fx_sub, fx_sub_v, FX_ONE};
use crate::rng::rand_symmetric_unit;

/// One dense layer of `n_out` units over `n_in` inputs.
pub struct Layer {
    /// The input vector cached by the most recent forward pass.
    pub inputs: Vec<i64>,
    /// The pre-activation sums cached by the most recent forward pass.
    pub outputs: Vec<i64>,
    /// The weight matrix: one row of `n_in` weights per output unit.
    pub w: Vec<Vec<i64>>,
    /// One bias per output unit.
    pub b: Vec<i64>,
    /// The weight gradient, filled by the backward pass.
    pub grads: Vec<Vec<i64>>,
    /// The previous weight deltas, kept for momentum.
    pub w_prev_changes: Vec<Vec<i64>>,
    /// The per-unit chain-rule sensitivities, filled by the backward pass;
    /// they double as the bias gradient.
    pub local_grads: Vec<i64>,
    /// The previous bias deltas, kept for momentum.
    pub b_prev_changes: Vec<i64>,
    /// The layer's activation.
    pub act: ActivationContainer,
}

/// The left fold `((w[0]*x[0]) + w[1]*x[1]) + ...` over the first `k`
/// positions, in saturating fixed point.
pub open spec fn dot_v(w: Seq<i64>, x: Seq<i64>, k: int) -> int
    decreases k,
{
    if k <= 0 {
        0
    } else {
        fx_add_v(dot_v(w, x, k - 1), fx_mul_v(w[k - 1] as int, x[k - 1] as int))
    }
}

impl Layer {
    /// The layer's input count.
    pub open spec fn n_in(self) -> nat {
        self.inputs@.len()
    }

    /// The layer's output count.
    pub open spec fn n_out(self) -> nat {
        self.b@.len()
    }

    /// Every matrix and vector of the layer has the shape the layer was
    /// configured with.
    pub open spec fn wf(self) -> bool {
        &&& self.w@.len() == self.n_out()
        &&& forall|j: int| 0 <= j < self.w@.len() ==> (#[trigger] self.w@[j])@.len() == self.n_in()
        &&& self.outputs@.len() == self.n_out()
        &&& self.local_grads@.len() == self.n_out()
        &&& self.b_prev_changes@.len() == self.n_out()
        &&& self.grads@.len() == self.n_out()
        &&& forall|j: int|
            0 <= j < self.grads@.len() ==> (#[trigger] self.grads@[j])@.len() == self.n_in()
        &&& self.w_prev_changes@.len() == self.n_out()
        &&& forall|j: int|
            0 <= j < self.w_prev_changes@.len() ==> (#[trigger] self.w_prev_changes@[j])@.len()
                == self.n_in()
    }

    /// Two layers have the same configuration.
    pub open spec fn same_shape(self, other: Layer) -> bool {
        &&& self.n_in() == other.n_in()
        &&& self.n_out() == other.n_out()
        &&& self.act == other.act
    }

    /// The pre-activation sum of unit `j` on input `x`:
    /// the dot product of row `j` with `x`, plus the bias.
    pub open spec fn preact_v(self, x: Seq<i64>, j: int) -> int {
        fx_add_v(dot_v(self.w@[j]@, x, self.n_in() as int), self.b@[j] as int)
    }

    /// The bias delta of unit `j` for one momentum update.
    pub open spec fn delta_b_v(self, lr: int, momentum: int, j: int) -> int {
        fx_add_v(
            fx_mul_v(lr, self.local_grads@[j] as int),
            fx_mul_v(momentum, self.b_prev_changes@[j] as int),
        )
    }

    /// The weight delta at row `j`, column `i` for one momentum update.
    pub open spec fn delta_w_v(self, lr: int, momentum: int, j: int, i: int) -> int {
        fx_add_v(
            fx_mul_v(lr, self.grads@[j]@[i] as int),
            fx_mul_v(momentum, self.w_prev_changes@[j]@[i] as int),
        )
    }
}

/// `post` is `pre` after a forward pass on `x`: parameters, gradients and
/// momentum state untouched, `x` and its pre-activation sums cached.
pub open spec fn forwarded_v(pre: Layer, post: Layer, x: Seq<i64>) -> bool {
    &&& post.wf()
    &&& post.same_shape(pre)
    &&& post.w == pre.w
    &&& post.b == pre.b
    &&& post.grads == pre.grads
    &&& post.local_grads == pre.local_grads
    &&& post.w_prev_changes == pre.w_prev_changes
    &&& post.b_prev_changes == pre.b_prev_changes
    &&& post.inputs@ == x
    &&& forall|j: int|
        0 <= j < post.outputs@.len() ==> #[trigger] post.outputs@[j] as int == pre.preact_v(x, j)
}

/// `post` is `pre` after one momentum update with the given learning rate
/// and momentum factor.
pub open spec fn updated_v(pre: Layer, post: Layer, lr: int, momentum: int) -> bool {
    &&& post.wf()
    &&& post.same_shape(pre)
    &&& post.inputs == pre.inputs
    &&& post.outputs == pre.outputs
    &&& post.grads == pre.grads
    &&& post.local_grads == pre.local_grads
    &&& forall|j: int|
        0 <= j < pre.n_out() ==> #[trigger] post.b@[j] as int == fx_sub_v(
            pre.b@[j] as int,
            pre.delta_b_v(lr, momentum, j),
        )
    &&& forall|j: int|
        0 <= j < pre.n_out() ==> #[trigger] post.b_prev_changes@[j] as int == pre.delta_b_v(
            lr,
            momentum,
            j,
        )
    &&& forall|j: int, i: int|
        0 <= j < pre.n_out() && 0 <= i < pre.n_in() ==> #[trigger] post.w@[j]@[i] as int
            == fx_sub_v(pre.w@[j]@[i] as int, pre.delta_w_v(lr, momentum, j, i))
    &&& forall|j: int, i: int|
        0 <= j < pre.n_out() && 0 <= i < pre.n_in() ==> #[trigger] post.w_prev_changes@[j]@[i]
            as int == pre.delta_w_v(lr, momentum, j, i)
}

/// The cached input of `b` is the activated output of `a`: how consecutive
/// layers are linked after a forward pass of the whole network.
pub open spec fn feeds_v(a: Layer, b: Layer) -> bool {
    &&& b.inputs@.len() == a.n_out()
    &&& forall|j: int|
        0 <= j < b.inputs@.len() ==> #[trigger] b.inputs@[j] as int == act_apply_v(
            a.act,
            a.outputs@[j] as int,
        )
}

/// A vector of `n` zeros.
fn zeros(n: usize) -> (r: Vec<i64>)
    ensures
        r@.len() == n,
        forall|i: int| 0 <= i < n ==> r@[i] == 0i64,
{
    let mut v: Vec<i64> = Vec::new();
    let mut i: usize = 0;
    while i < n
        invariant
            i <= n,
            v@.len() == i,
            forall|k: int| 0 <= k < i ==> v@[k] == 0i64,
        decreases n - i,
    {
        v.push(0);
        i = i + 1;
    }
    v
}

/// An `n`-element vector holding `value` everywhere.
fn filled(n: usize, value: i64) -> (r: Vec<i64>)
    ensures
        r@.len() == n,
        forall|i: int| 0 <= i < n ==> r@[i] == value,
{
    let mut v: Vec<i64> = Vec::new();
    let mut i: usize = 0;
    while i < n
        invariant
            i <= n,
            v@.len() == i,
            forall|k: int| 0 <= k < i ==> v@[k] == value,
        decreases n - i,
    {
        v.push(value);
        i = i + 1;
    }
    v
}

/// A `rows` by `cols` matrix of zeros.
fn zero_matrix(rows: usize, cols: usize) -> (r: Vec<Vec<i64>>)
    ensures
        r@.len() == rows,
        forall|j: int| 0 <= j < rows ==> (#[trigger] r@[j])@.len() == cols,
        forall|j: int, i: int| 0 <= j < rows && 0 <= i < cols ==> #[trigger] r@[j]@[i] == 0i64,
{
    let mut m: Vec<Vec<i64>> = Vec::new();
    let mut j: usize = 0;
    while j < rows
        invariant
            j <= rows,
            m@.len() == j,
            forall|k: int| 0 <= k < j ==> (#[trigger] m@[k])@.len() == cols,
            forall|k: int, i: int| 0 <= k < j && 0 <= i < cols ==> #[trigger] m@[k]@[i] == 0i64,
        decreases rows - j,
    {
        m.push(zeros(cols));
        j = j + 1;
    }
    m
}

/// A `rows` by `cols` matrix of fresh random weights, each in `[-1, 1]`.
fn random_matrix(rows: usize, cols: usize) -> (r: Vec<Vec<i64>>)
    ensures
        r@.len() == rows,
        forall|j: int| 0 <= j < rows ==> (#[trigger] r@[j])@.len() == cols,
        forall|j: int, i: int|
            0 <= j < rows && 0 <= i < cols ==> -FX_ONE <= #[trigger] r@[j]@[i] <= FX_ONE,
{
    let mut m: Vec<Vec<i64>> = Vec::new();
    let mut j: usize = 0;
    while j < rows
        invariant
            j <= rows,
            m@.len() == j,
            forall|k: int| 0 <= k < j ==> (#[trigger] m@[k])@.len() == cols,
            forall|k: int, i: int|
                0 <= k < j && 0 <= i < cols ==> -FX_ONE <= #[trigger] m@[k]@[i] <= FX_ONE,
        decreases rows - j,
    {
        let mut row: Vec<i64> = Vec::new();
        let mut i: usize = 0;
        while i < cols
            invariant
                i <= cols,
                row@.len() == i,
                forall|k: int| 0 <= k < i ==> -FX_ONE <= #[trigger] row@[k] <= FX_ONE,
            decreases cols - i,
        {
            row.push(rand_symmetric_unit());
            i = i + 1;
        }
        m.push(row);
        j = j + 1;
    }
    m
}

impl Layer {
    /// A fresh layer: random weights in `[-1, 1]`, every bias set to the
    /// given constant, caches and gradients zeroed.
    pub fn new(
        input_features: usize,
        output_features: usize,
        bias: i64,
        act: ActivationContainer,
    ) -> (r: Layer)
        ensures
            r.wf(),
            r.n_in() == input_features,
            r.n_out() == output_features,
            r.act == act,
            forall|j: int| 0 <= j < output_features ==> r.b@[j] == bias,
            forall|j: int, i: int|
                0 <= j < output_features && 0 <= i < input_features ==> -FX_ONE
                    <= #[trigger] r.w@[j]@[i] <= FX_ONE,
            forall|i: int| 0 <= i < input_features ==> r.inputs@[i] == 0i64,
            forall|j: int| 0 <= j < output_features ==> r.outputs@[j] == 0i64,
            forall|j: int| 0 <= j < output_features ==> r.local_grads@[j] == 0i64,
            forall|j: int| 0 <= j < output_features ==> r.b_prev_changes@[j] == 0i64,
            forall|j: int, i: int|
                0 <= j < output_features && 0 <= i < input_features ==> #[trigger] r.grads@[j]@[i]
                    == 0i64,
            forall|j: int, i: int|
                0 <= j < output_features && 0 <= i < input_features
                    ==> #[trigger] r.w_prev_changes@[j]@[i] == 0i64,
    {
        Layer {
            inputs: zeros(input_features),
            outputs: zeros(output_features),
            w: random_matrix(output_features, input_features),
            b: filled(output_features, bias),
            grads: zero_matrix(output_features, input_features),
            w_prev_changes: zero_matrix(output_features, input_features),
            local_grads: zeros(output_features),
            b_prev_changes: zeros(output_features),
            act,
        }
    }

    /// Feed `inputs` through the layer: each unit's pre-activation sum is its
    /// weight row dotted with the input plus its bias, and the returned
    /// vector applies the activation to those sums. Caches the input and the
    /// sums for a later backward pass. An input of the wrong length is
    /// refused before any state changes.
    pub fn forward(&mut self, inputs: &Vec<i64>) -> (r: Result<Vec<i64>, NetError>)
        requires
            old(self).wf(),
        ensures
            match r {
                Result::Err(e) => {
                    &&& e == NetError::ShapeMismatch
                    &&& inputs@.len() != old(self).n_in()
                    &&& *final(self) == *old(self)
                },
                Result::Ok(out) => {
                    &&& inputs@.len() == old(self).n_in()
                    &&& forwarded_v(*old(self), *final(self), inputs@)
                    &&& out@.len() == old(self).n_out()
                    &&& forall|j: int|
                        0 <= j < out@.len() ==> #[trigger] out@[j] as int == act_apply_v(
                            old(self).act,
                            old(self).preact_v(inputs@, j),
                        )
                },
            },
    {
        let n_in = self.inputs.len();
        let n_out = self.b.len();
        if inputs.len() != n_in {
            return Err(NetError::ShapeMismatch);
        }
        let mut result: Vec<i64> = Vec::new();
        let mut pre: Vec<i64> = Vec::new();
        let mut j: usize = 0;
        while j < n_out
            invariant
                self == old(self),
                self.wf(),
                n_in == self.n_in(),
                n_out == self.n_out(),
                inputs@.len() == n_in,
                j <= n_out,
                pre@.len() == j,
                result@.len() == j,
                forall|k: int|
                    0 <= k < j ==> #[trigger] pre@[k] as int == self.preact_v(inputs@, k),
                forall|k: int|
                    0 <= k < j ==> #[trigger] result@[k] as int == act_apply_v(
                        self.act,
                        self.preact_v(inputs@, k),
                    ),
            decreases n_out - j,
        {
            let mut sum: i64 = 0;
            let mut i: usize = 0;
            while i < n_in
                invariant
                    self == old(self),
                    self.wf(),
                    n_in == self.n_in(),
                    n_out == self.n_out(),
                    inputs@.len() == n_in,
                    j < n_out,
                    i <= n_in,
                    sum as int == dot_v(self.w@[j as int]@, inputs@, i as int),
                decreases n_in - i,
            {
                sum = fx_add(sum, fx_mul(self.w[j][i], inputs[i]));
                i = i + 1;
            }
            let p = fx_add(sum, self.b[j]);
            pre.push(p);
            result.push(self.act.apply(p));
            j = j + 1;
        }
        self.outputs = pre;
        let mut cached: Vec<i64> = Vec::new();
        let mut i: usize = 0;
        while i < n_in
            invariant
                inputs@.len() == n_in,
                i <= n_in,
                cached@.len() == i,
                forall|k: int| 0 <= k < i ==> cached@[k] == inputs@[k],
            decreases n_in - i,
        {
            cached.push(inputs[i]);
            i = i + 1;
        }
        proof {
            assert(cached@ =~= inputs@);
        }
        self.inputs = cached;
        Ok(result)
    }

    /// One gradient-descent step with momentum: each parameter moves by
    /// `lr * gradient + momentum * previous delta`, and that delta is stored
    /// for the next step. Call only after a backward pass has filled the
    /// gradients; a stale gradient is applied silently.
    pub fn update(&mut self, lr: i64, momentum: i64)
        requires
            old(self).wf(),
        ensures
            updated_v(*old(self), *final(self), lr as int, momentum as int),
    {
        let n_out = self.b.len();
        let n_in = self.inputs.len();
        let mut new_b: Vec<i64> = Vec::new();
        let mut new_bp: Vec<i64> = Vec::new();
        let mut new_w: Vec<Vec<i64>> = Vec::new();
        let mut new_wp: Vec<Vec<i64>> = Vec::new();
        let mut j: usize = 0;
        while j < n_out
            invariant
                self == old(self),
                self.wf(),
                n_out == self.n_out(),
                n_in == self.n_in(),
                j <= n_out,
                new_b@.len() == j,
                new_bp@.len() == j,
                new_w@.len() == j,
                new_wp@.len() == j,
                forall|k: int|
                    0 <= k < j ==> #[trigger] new_b@[k] as int == fx_sub_v(
                        self.b@[k] as int,
                        self.delta_b_v(lr as int, momentum as int, k),
                    ),
                forall|k: int|
                    0 <= k < j ==> #[trigger] new_bp@[k] as int == self.delta_b_v(
                        lr as int,
                        momentum as int,
                        k,
                    ),
                forall|k: int| 0 <= k < j ==> (#[trigger] new_w@[k])@.len() == n_in,
                forall|k: int| 0 <= k < j ==> (#[trigger] new_wp@[k])@.len() == n_in,
                forall|k: int, i: int|
                    0 <= k < j && 0 <= i < n_in ==> #[trigger] new_w@[k]@[i] as int == fx_sub_v(
                        self.w@[k]@[i] as int,
                        self.delta_w_v(lr as int, momentum as int, k, i),
                    ),
                forall|k: int, i: int|
                    0 <= k < j && 0 <= i < n_in ==> #[trigger] new_wp@[k]@[i] as int
                        == self.delta_w_v(lr as int, momentum as int, k, i),
            decreases n_out - j,
        {
            let delta_b = fx_add(
                fx_mul(lr, self.local_grads[j]),
                fx_mul(momentum, self.b_prev_changes[j]),
            );
            new_b.push(fx_sub(self.b[j], delta_b));
            new_bp.push(delta_b);
            let mut row: Vec<i64> = Vec::new();
            let mut prow: Vec<i64> = Vec::new();
            let mut i: usize = 0;
            while i < n_in
                invariant
                    self == old(self),
                    self.wf(),
                    n_out == self.n_out(),
                    n_in == self.n_in(),
                    j < n_out,
                    i <= n_in,
                    row@.len() == i,
                    prow@.len() == i,
                    forall|t: int|
                        0 <= t < i ==> #[trigger] row@[t] as int == fx_sub_v(
                            self.w@[j as int]@[t] as int,
                            self.delta_w_v(lr as int, momentum as int, j as int, t),
                        ),
                    forall|t: int|
                        0 <= t < i ==> #[trigger] prow@[t] as int == self.delta_w_v(
                            lr as int,
                            momentum as int,
                            j as int,
                            t,
                        ),
                decreases n_in - i,
            {
                let delta_w = fx_add(
                    fx_mul(lr, self.grads[j][i]),
                    fx_mul(momentum, self.w_prev_changes[j][i]),
                );
                row.push(fx_sub(self.w[j][i], delta_w));
                prow.push(delta_w);
                i = i + 1;
            }
            new_w.push(row);
            new_wp.push(prow);
            j = j + 1;
        }
        self.b = new_b;
        self.b_prev_changes = new_bp;
        self.w = new_w;
        self.w_prev_changes = new_wp;
    }

    /// Reset the gradient accumulators to zero.
    pub fn zero_grad(&mut self)
        requires
            old(self).wf(),
        ensures
            zeroed_grads_v(*old(self), *final(self)),
    {
        let n_out = self.b.len();
        let n_in = self.inputs.len();
        self.local_grads = zeros(n_out);
        self.grads = zero_matrix(n_out, n_in);
    }
}

/// The number of parameters a layer contributes to the flattened vector:
/// its weight matrix, row-major, then its biases.
pub open spec fn layer_param_count(l: Layer) -> int {
    (l.n_out() * l.n_in() + l.n_out()) as int
}

/// The parameter count of a stack of layers.
pub open spec fn params_count_v(ls: Seq<Layer>) -> int
    decreases ls.len(),
{
    if ls.len() == 0 {
        0
    } else {
        params_count_v(ls.drop_last()) + layer_param_count(ls.last())
    }
}

/// The rows of a weight matrix laid end to end.
pub open spec fn rows_flat_v(rows: Seq<Vec<i64>>) -> Seq<i64>
    decreases rows.len(),
{
    if rows.len() == 0 {
        Seq::empty()
    } else {
        rows_flat_v(rows.drop_last()) + rows.last()@
    }
}

/// One layer's slice of the flattened parameter vector: all weight rows,
/// then the biases.
pub open spec fn layer_params_v(l: Layer) -> Seq<i64> {
    rows_flat_v(l.w@) + l.b@
}

/// The whole network's flattened parameter vector, layer by layer.
pub open spec fn net_params_v(ls: Seq<Layer>) -> Seq<i64>
    decreases ls.len(),
{
    if ls.len() == 0 {
        Seq::empty()
    } else {
        net_params_v(ls.drop_last()) + layer_params_v(ls.last())
    }
}

pub proof fn lemma_rows_flat_len(rows: Seq<Vec<i64>>, cols: nat)
    requires
        forall|j: int| 0 <= j < rows.len() ==> (#[trigger] rows[j])@.len() == cols,
    ensures
        rows_flat_v(rows).len() == rows.len() * cols,
    decreases rows.len(),
{
    if rows.len() == 0 {
    } else {
        lemma_rows_flat_len(rows.drop_last(), cols);
        assert(rows.len() * cols == (rows.len() - 1) * cols + cols) by (nonlinear_arith);
    }
}

/// A layer's slice of the flattened vector has exactly its parameter count.
pub proof fn lemma_layer_params_len(l: Layer)
    requires
        l.wf(),
    ensures
        layer_params_v(l).len() == layer_param_count(l),
{
    lemma_rows_flat_len(l.w@, l.n_in());
}

/// The flattened vector of a stack of well-formed layers has exactly the
/// stack's parameter count.
pub proof fn lemma_net_params_len(ls: Seq<Layer>)
    requires
        forall|i: int| 0 <= i < ls.len() ==> (#[trigger] ls[i]).wf(),
    ensures
        net_params_v(ls).len() == params_count_v(ls),
        params_count_v(ls) >= 0,
    decreases ls.len(),
{
    if ls.len() == 0 {
    } else {
        assert(forall|i: int|
            0 <= i < ls.drop_last().len() ==> (#[trigger] ls.drop_last()[i]).wf());
        lemma_net_params_len(ls.drop_last());
        lemma_layer_params_len(ls.last());
    }
}

/// Extending a stack by one layer extends its flattened vector and its
/// parameter count by that layer's slice.
pub proof fn lemma_params_take_step(ls: Seq<Layer>, j: int)
    requires
        0 <= j < ls.len(),
    ensures
        net_params_v(ls.take(j + 1)) == net_params_v(ls.take(j)) + layer_params_v(ls[j]),
        params_count_v(ls.take(j + 1)) == params_count_v(ls.take(j)) + layer_param_count(ls[j]),
{
    assert(ls.take(j + 1).drop_last() =~= ls.take(j));
    assert(ls.take(j + 1).last() == ls[j]);
}

/// A prefix of a stack never counts more parameters than the whole stack.
pub proof fn lemma_params_count_take_le(ls: Seq<Layer>, j: int)
    requires
        0 <= j <= ls.len(),
    ensures
        params_count_v(ls.take(j)) <= params_count_v(ls),
    decreases ls.len() - j,
{
    if j == ls.len() {
        assert(ls.take(j) =~= ls);
    } else {
        lemma_params_take_step(ls, j);
        lemma_params_count_take_le(ls, j + 1);
    }
}

impl Layer {
    /// Append this layer's parameters to `out`: each weight row in order,
    /// then the biases.
    pub fn flatten_into(&self, out: &mut Vec<i64>)
        requires
            self.wf(),
        ensures
            final(out)@ == old(out)@ + layer_params_v(*self),
    {
        let n_out = self.b.len();
        let n_in = self.inputs.len();
        let mut j: usize = 0;
        while j < n_out
            invariant
                self.wf(),
                n_out == self.n_out(),
                n_in == self.n_in(),
                j <= n_out,
                out@ == old(out)@ + rows_flat_v(self.w@.take(j as int)),
            decreases n_out - j,
        {
            let mut i: usize = 0;
            while i < n_in
                invariant
                    self.wf(),
                    n_out == self.n_out(),
                    n_in == self.n_in(),
                    j < n_out,
                    i <= n_in,
                    out@ == old(out)@ + rows_flat_v(self.w@.take(j as int)) + self.w@[j as int]@.take(i as int),
                decreases n_in - i,
            {
                out.push(self.w[j][i]);
                proof {
                    assert(self.w@[j as int]@.take(i + 1) =~= self.w@[j as int]@.take(i as int)
                        + seq![self.w@[j as int]@[i as int]]);
                    assert(out@ == old(out)@ + rows_flat_v(self.w@.take(j as int)) + self.w@[j as int]@.take(i + 1));
                }
                i = i + 1;
            }
            proof {
                assert(self.w@[j as int]@.take(n_in as int) =~= self.w@[j as int]@);
                assert(self.w@.take(j + 1).drop_last() =~= self.w@.take(j as int));
                assert(self.w@.take(j + 1).last() == self.w@[j as int]);
                assert(rows_flat_v(self.w@.take(j + 1)) == rows_flat_v(self.w@.take(j as int))
                    + self.w@[j as int]@);
                assert(out@ == old(out)@ + rows_flat_v(self.w@.take(j + 1)));
            }
            j = j + 1;
        }
        proof {
            assert(self.w@.take(n_out as int) =~= self.w@);
        }
        let mut k: usize = 0;
        while k < n_out
            invariant
                self.wf(),
                n_out == self.n_out(),
                k <= n_out,
                out@ == old(out)@ + rows_flat_v(self.w@) + self.b@.take(k as int),
            decreases n_out - k,
        {
            out.push(self.b[k]);
            proof {
                assert(self.b@.take(k + 1) =~= self.b@.take(k as int) + seq![self.b@[k as int]]);
                assert(out@ == old(out)@ + rows_flat_v(self.w@) + self.b@.take(k + 1));
            }
            k = k + 1;
        }
        proof {
            assert(self.b@.take(n_out as int) =~= self.b@);
            assert(old(out)@ + rows_flat_v(self.w@) + self.b@ =~= old(out)@ + (rows_flat_v(
                self.w@,
            ) + self.b@));
        }
    }

    /// Overwrite this layer's weights and biases from the slice of `params`
    /// that starts at `start`, in the flattened order; everything else is
    /// untouched. Returns the position right after the slice read.
    pub fn set_from(&mut self, params: &Vec<i64>, start: usize) -> (end: usize)
        requires
            old(self).wf(),
            start + layer_param_count(*old(self)) <= params@.len(),
        ensures
            final(self).wf(),
            final(self).same_shape(*old(self)),
            final(self).inputs == old(self).inputs,
            final(self).outputs == old(self).outputs,
            final(self).grads == old(self).grads,
            final(self).local_grads == old(self).local_grads,
            final(self).w_prev_changes == old(self).w_prev_changes,
            final(self).b_prev_changes == old(self).b_prev_changes,
            end == start + layer_param_count(*old(self)),
            layer_params_v(*final(self)) == params@.subrange(start as int, end as int),
    {
        let n_out = self.b.len();
        let n_in = self.inputs.len();
        let plen = params.len();
        proof {
            vstd::arithmetic::mul::lemma_mul_is_commutative(n_out as int, n_in as int);
        }
        let mut new_w: Vec<Vec<i64>> = Vec::new();
        let mut idx: usize = start;
        let mut j: usize = 0;
        while j < n_out
            invariant
                self == old(self),
                self.wf(),
                n_out == self.n_out(),
                n_in == self.n_in(),
                start + n_out * n_in + n_out <= plen,
                plen == params@.len(),
                j <= n_out,
                new_w@.len() == j,
                forall|k: int| 0 <= k < j ==> (#[trigger] new_w@[k])@.len() == n_in,
                idx == start + j * n_in,
                rows_flat_v(new_w@) == params@.subrange(start as int, idx as int),
            decreases n_out - j,
        {
            proof {
                vstd::arithmetic::mul::lemma_mul_inequality(j + 1, n_out as int, n_in as int);
                assert((j + 1) * n_in == j * n_in + n_in) by (nonlinear_arith);
            }
            let mut row: Vec<i64> = Vec::new();
            let mut i: usize = 0;
            while i < n_in
                invariant
                    j * n_in + n_in <= n_out * n_in,
                    start + n_out * n_in + n_out <= plen,
                    plen == params@.len(),
                    idx == start + j * n_in,
                    i <= n_in,
                    row@.len() == i,
                    row@ == params@.subrange(idx as int, idx + i),
                decreases n_in - i,
            {
                row.push(params[idx + i]);
                proof {
                    assert(params@.subrange(idx as int, idx + i + 1) =~= params@.subrange(
                        idx as int,
                        idx + i,
                    ) + seq![params@[idx + i]]);
                }
                i = i + 1;
            }
            let ghost prev_w = new_w@;
            new_w.push(row);
            proof {
                assert(new_w@.drop_last() =~= prev_w);
                assert(rows_flat_v(new_w@) == rows_flat_v(prev_w) + row@);
                assert(params@.subrange(start as int, idx + n_in) =~= params@.subrange(
                    start as int,
                    idx as int,
                ) + params@.subrange(idx as int, idx + n_in));
                assert((j + 1) * n_in == j * n_in + n_in) by (nonlinear_arith);
            }
            idx = idx + n_in;
            j = j + 1;
        }
        let mut new_b: Vec<i64> = Vec::new();
        let mut k: usize = 0;
        while k < n_out
            invariant
                start + n_out * n_in + n_out <= plen,
                plen == params@.len(),
                idx == start + n_out * n_in,
                k <= n_out,
                new_b@.len() == k,
                new_b@ == params@.subrange(idx as int, idx + k),
            decreases n_out - k,
        {
            new_b.push(params[idx + k]);
            proof {
                assert(params@.subrange(idx as int, idx + k + 1) =~= params@.subrange(
                    idx as int,
                    idx + k,
                ) + seq![params@[idx + k]]);
            }
            k = k + 1;
        }
        self.w = new_w;
        self.b = new_b;
        proof {
            assert(layer_params_v(*self) =~= params@.subrange(
                start as int,
                start + layer_param_count(*old(self)),
            ));
        }
        idx + n_out
    }
}

/// `post` is `pre` with its weights and biases replaced and everything else
/// untouched.
pub open spec fn reparameterized_v(pre: Layer, post: Layer) -> bool {
    &&& post.wf()
    &&& post.same_shape(pre)
    &&& post.inputs == pre.inputs
    &&& post.outputs == pre.outputs
    &&& post.grads == pre.grads
    &&& post.local_grads == pre.local_grads
    &&& post.w_prev_changes == pre.w_prev_changes
    &&& post.b_prev_changes == pre.b_prev_changes
}

/// Two equally long stacks of layers agree pointwise on their shapes.
pub proof fn lemma_params_count_same_shape(a: Seq<Layer>, b: Seq<Layer>)
    requires
        a.len() == b.len(),
        forall|l: int| 0 <= l < a.len() ==> (#[trigger] b[l]).same_shape(a[l]),
    ensures
        params_count_v(a) == params_count_v(b),
    decreases a.len(),
{
    if a.len() == 0 {
    } else {
        assert(forall|l: int|
            0 <= l < a.drop_last().len() ==> (#[trigger] b.drop_last()[l]).same_shape(
                a.drop_last()[l],
            ));
        lemma_params_count_same_shape(a.drop_last(), b.drop_last());
    }
}

/// An ordered stack of layers where each layer's output count is the next
/// layer's input count, together with the total parameter count of the
/// flattened parameter space that all optimizers share.
pub struct Net {
    /// The layers, in forward order.
    pub layers: Vec<Layer>,
    /// The total number of weights and biases across all layers.
    pub parameters: usize,
}

impl Net {
    /// The network's input width.
    pub open spec fn n_in(self) -> nat {
        self.layers@[0].n_in()
    }

    /// The network's output width.
    pub open spec fn n_out(self) -> nat {
        self.layers@.last().n_out()
    }

    /// There is at least one layer, every layer is well-formed, consecutive
    /// layers fit together, and the stored parameter count is the true one.
    pub open spec fn wf(self) -> bool {
        &&& self.layers@.len() > 0
        &&& forall|l: int| 0 <= l < self.layers@.len() ==> (#[trigger] self.layers@[l]).wf()
        &&& forall|l: int|
            0 <= l < self.layers@.len() - 1 ==> (#[trigger] self.layers@[l]).n_out()
                == self.layers@[l + 1].n_in()
        &&& self.parameters == params_count_v(self.layers@)
    }

    /// Stack the given layers into a network, counting their parameters.
    pub fn from_layers(layers: Vec<Layer>) -> (r: Net)
        requires
            layers@.len() > 0,
            forall|l: int| 0 <= l < layers@.len() ==> (#[trigger] layers@[l]).wf(),
            forall|l: int|
                0 <= l < layers@.len() - 1 ==> (#[trigger] layers@[l]).n_out() == layers@[l
                    + 1].n_in(),
            params_count_v(layers@) <= usize::MAX,
        ensures
            r.wf(),
            r.layers == layers,
            r.parameters == params_count_v(layers@),
    {
        let n = layers.len();
        let mut count: usize = 0;
        let mut l: usize = 0;
        while l < n
            invariant
                n == layers@.len(),
                forall|k: int| 0 <= k < layers@.len() ==> (#[trigger] layers@[k]).wf(),
                params_count_v(layers@) <= usize::MAX,
                l <= n,
                count == params_count_v(layers@.take(l as int)),
            decreases n - l,
        {
            proof {
                lemma_params_take_step(layers@, l as int);
                lemma_params_count_take_le(layers@, l as int + 1);
            }
            let n_out = layers[l].b.len();
            let n_in = layers[l].inputs.len();
            count = count + n_out * n_in + n_out;
            l = l + 1;
        }
        proof {
            assert(layers@.take(n as int) =~= layers@);
        }
        Net { layers, parameters: count }
    }

    /// Flatten this network's parameters into one vector: for each layer in
    /// order, all weight rows row-major, then the biases.
    pub fn flatten_params(&self) -> (r: Vec<i64>)
        requires
            self.wf(),
        ensures
            r@ == net_params_v(self.layers@),
            r@.len() == self.parameters,
    {
        let n = self.layers.len();
        let mut out: Vec<i64> = Vec::new();
        let mut l: usize = 0;
        while l < n
            invariant
                self.wf(),
                n == self.layers@.len(),
                l <= n,
                out@ == net_params_v(self.layers@.take(l as int)),
            decreases n - l,
        {
            proof {
                lemma_params_take_step(self.layers@, l as int);
            }
            self.layers[l].flatten_into(&mut out);
            l = l + 1;
        }
        proof {
            assert(self.layers@.take(n as int) =~= self.layers@);
            lemma_net_params_len(self.layers@);
        }
        out
    }

    /// Restore this network's weights and biases from one flattened vector,
    /// the inverse of [`Net::flatten_params`]. A vector whose length is not
    /// the parameter count is refused before any state changes.
    pub fn set_params(&mut self, params: &Vec<i64>) -> (r: Result<(), NetError>)
        requires
            old(self).wf(),
        ensures
            final(self).parameters == old(self).parameters,
            final(self).layers@.len() == old(self).layers@.len(),
            match r {
                Result::Err(e) => {
                    &&& e == NetError::ParameterCountMismatch
                    &&& params@.len() != old(self).parameters
                    &&& final(self).layers@ == old(self).layers@
                },
                Result::Ok(u) => {
                    &&& params@.len() == old(self).parameters
                    &&& final(self).wf()
                    &&& forall|l: int|
                        0 <= l < old(self).layers@.len() ==> reparameterized_v(
                            old(self).layers@[l],
                            #[trigger] final(self).layers@[l],
                        )
                    &&& net_params_v(final(self).layers@) == params@
                },
            },
    {
        if params.len() != self.parameters {
            return Err(NetError::ParameterCountMismatch);
        }
        let n = self.layers.len();
        let mut idx: usize = 0;
        let mut l: usize = 0;
        while l < n
            invariant
                old(self).wf(),
                n == self.layers@.len(),
                n == old(self).layers@.len(),
                self.parameters == old(self).parameters,
                params@.len() == old(self).parameters,
                l <= n,
                forall|k: int|
                    0 <= k < l ==> reparameterized_v(
                        old(self).layers@[k],
                        #[trigger] self.layers@[k],
                    ),
                forall|k: int| l <= k < n ==> #[trigger] self.layers@[k] == old(self).layers@[k],
                idx == params_count_v(old(self).layers@.take(l as int)),
                net_params_v(self.layers@.take(l as int)) == params@.subrange(0, idx as int),
            decreases n - l,
        {
            proof {
                lemma_params_take_step(old(self).layers@, l as int);
                lemma_params_count_take_le(old(self).layers@, l as int + 1);
                assert(old(self).layers@.take(n as int) =~= old(self).layers@);
            }
            let ghost prev = self.layers@;
            let mut lay = self.layers.remove(l);
            let end = lay.set_from(params, idx);
            self.layers.insert(l, lay);
            proof {
                assert(self.layers@ =~= prev.update(l as int, lay));
                assert(self.layers@.take(l + 1).drop_last() =~= self.layers@.take(l as int));
                assert(self.layers@.take(l as int) =~= prev.take(l as int));
                assert(self.layers@.take(l + 1).last() == lay);
                assert(params@.subrange(0, end as int) =~= params@.subrange(0, idx as int)
                    + params@.subrange(idx as int, end as int));
            }
            idx = end;
            l = l + 1;
        }
        proof {
            assert(old(self).layers@.take(n as int) =~= old(self).layers@);
            assert(self.layers@.take(n as int) =~= self.layers@);
            assert(params@.subrange(0, params@.len() as int) =~= params@);
            assert(forall|k: int|
                0 <= k < n ==> (#[trigger] self.layers@[k]).same_shape(old(self).layers@[k]));
            lemma_params_count_same_shape(old(self).layers@, self.layers@);
        }
        Ok(())
    }

    /// Feed `input` through every layer in order, each layer's activated
    /// output becoming the next layer's input; returns the last layer's
    /// activated output. An input of the wrong width is refused before any
    /// state changes.
    pub fn forward(&mut self, input: &Vec<i64>) -> (r: Result<Vec<i64>, NetError>)
        requires
            old(self).wf(),
        ensures
            final(self).wf(),
            final(self).parameters == old(self).parameters,
            final(self).layers@.len() == old(self).layers@.len(),
            match r {
                Result::Err(e) => {
                    &&& e == NetError::ShapeMismatch
                    &&& input@.len() != old(self).n_in()
                    &&& final(self).layers@ == old(self).layers@
                },
                Result::Ok(out) => net_forward_rel(
                    *old(self),
                    *final(self),
                    input@,
                    out@,
                ),
            },
    {
        let n = self.layers.len();
        let ghost prev0 = self.layers@;
        let mut first = self.layers.remove(0);
        let r0 = first.forward(input);
        self.layers.insert(0, first);
        proof {
            assert(self.layers@ =~= prev0.update(0, first));
        }
        let mut current: Vec<i64>;
        match r0 {
            Result::Err(e) => {
                proof {
                    assert(self.layers@ =~= old(self).layers@);
                    lemma_params_count_same_shape(old(self).layers@, self.layers@);
                }
                return Err(e);
            },
            Result::Ok(v) => {
                current = v;
            },
        }
        let mut l: usize = 1;
        while l < n
            invariant
                old(self).wf(),
                1 <= l <= n,
                n == self.layers@.len(),
                n == old(self).layers@.len(),
                self.parameters == old(self).parameters,
                input@.len() == old(self).n_in(),
                forwarded_v(old(self).layers@[0], self.layers@[0], input@),
                forall|k: int|
                    1 <= k < l ==> forwarded_v(
                        old(self).layers@[k],
                        #[trigger] self.layers@[k],
                        self.layers@[k].inputs@,
                    ),
                forall|k: int|
                    1 <= k < l ==> feeds_v(self.layers@[k - 1], #[trigger] self.layers@[k]),
                forall|k: int| l <= k < n ==> #[trigger] self.layers@[k] == old(self).layers@[k],
                current@.len() == self.layers@[l - 1].n_out(),
                forall|j: int|
                    0 <= j < current@.len() ==> #[trigger] current@[j] as int == act_apply_v(
                        self.layers@[l - 1].act,
                        self.layers@[l - 1].outputs@[j] as int,
                    ),
            decreases n - l,
        {
            let ghost prev = self.layers@;
            let mut lay = self.layers.remove(l);
            let rl = lay.forward(&current);
            match rl {
                Result::Ok(v) => {
                    self.layers.insert(l, lay);
                    proof {
                        assert(self.layers@ =~= prev.update(l as int, lay));
                    }
                    current = v;
                },
                Result::Err(e) => {
                    self.layers.insert(l, lay);
                    proof {
                        assert(old(self).layers@[l as int].n_in() == old(self).layers@[l
                            - 1].n_out());
                        assert(false);
                    }
                    return Err(e);
                },
            }
            l = l + 1;
        }
        proof {
            assert(forall|k: int|
                0 <= k < n ==> (#[trigger] self.layers@[k]).same_shape(old(self).layers@[k]));
            lemma_params_count_same_shape(old(self).layers@, self.layers@);
            assert(forall|k: int|
                0 <= k < n - 1 ==> (#[trigger] self.layers@[k]).n_out() == self.layers@[k
                    + 1].n_in());
        }
        Ok(current)
    }

    /// One momentum update of every layer, in order.
    pub fn update(&mut self, lr: i64, momentum: i64)
        requires
            old(self).wf(),
        ensures
            final(self).wf(),
            final(self).parameters == old(self).parameters,
            final(self).layers@.len() == old(self).layers@.len(),
            forall|l: int|
                0 <= l < old(self).layers@.len() ==> updated_v(
                    old(self).layers@[l],
                    #[trigger] final(self).layers@[l],
                    lr as int,
                    momentum as int,
                ),
    {
        let n = self.layers.len();
        let mut l: usize = 0;
        while l < n
            invariant
                old(self).wf(),
                l <= n,
                n == self.layers@.len(),
                n == old(self).layers@.len(),
                self.parameters == old(self).parameters,
                forall|k: int|
                    0 <= k < l ==> updated_v(
                        old(self).layers@[k],
                        #[trigger] self.layers@[k],
                        lr as int,
                        momentum as int,
                    ),
                forall|k: int| l <= k < n ==> #[trigger] self.layers@[k] == old(self).layers@[k],
            decreases n - l,
        {
            let ghost prev = self.layers@;
            let mut lay = self.layers.remove(l);
            lay.update(lr, momentum);
            self.layers.insert(l, lay);
            proof {
                assert(self.layers@ =~= prev.update(l as int, lay));
            }
            l = l + 1;
        }
        proof {
            assert(forall|k: int|
                0 <= k < n ==> (#[trigger] self.layers@[k]).same_shape(old(self).layers@[k]));
            lemma_params_count_same_shape(old(self).layers@, self.layers@);
        }
    }

    /// Reset every layer's gradient accumulators.
    pub fn zero_grad(&mut self)
        requires
            old(self).wf(),
        ensures
            final(self).wf(),
            final(self).parameters == old(self).parameters,
            final(self).layers@.len() == old(self).layers@.len(),
            forall|l: int|
                0 <= l < old(self).layers@.len() ==> zeroed_grads_v(
                    old(self).layers@[l],
                    #[trigger] final(self).layers@[l],
                ),
    {
        let n = self.layers.len();
        let mut l: usize = 0;
        while l < n
            invariant
                old(self).wf(),
                l <= n,
                n == self.layers@.len(),
                n == old(self).layers@.len(),
                self.parameters == old(self).parameters,
                forall|k: int|
                    0 <= k < l ==> zeroed_grads_v(
                        old(self).layers@[k],
                        #[trigger] self.layers@[k],
                    ),
                forall|k: int| l <= k < n ==> #[trigger] self.layers@[k] == old(self).layers@[k],
            decreases n - l,
        {
            let ghost prev = self.layers@;
            let mut lay = self.layers.remove(l);
            lay.zero_grad();
            self.layers.insert(l, lay);
            proof {
                assert(self.layers@ =~= prev.update(l as int, lay));
            }
            l = l + 1;
        }
        proof {
            assert(forall|k: int|
                0 <= k < n ==> (#[trigger] self.layers@[k]).same_shape(old(self).layers@[k]));
            lemma_params_count_same_shape(old(self).layers@, self.layers@);
        }
    }
}

/// `post` and `out` are the result of one forward pass of `pre` on `x`:
/// the first layer caches `x`, every layer caches its pre-activation sums,
/// each later layer is fed the activated output of the one before it, and
/// `out` is the last layer's activated output.
pub open spec fn net_forward_rel(pre: Net, post: Net, x: Seq<i64>, out: Seq<i64>) -> bool {
    &&& x.len() == pre.n_in()
    &&& post.layers@.len() == pre.layers@.len()
    &&& forwarded_v(pre.layers@[0], post.layers@[0], x)
    &&& forall|l: int|
        1 <= l < post.layers@.len() ==> forwarded_v(
            pre.layers@[l],
            #[trigger] post.layers@[l],
            post.layers@[l].inputs@,
        )
    &&& forall|l: int|
        1 <= l < post.layers@.len() ==> feeds_v(post.layers@[l - 1], #[trigger] post.layers@[l])
    &&& out.len() == pre.n_out()
    &&& forall|j: int|
        0 <= j < out.len() ==> #[trigger] out[j] as int == act_apply_v(
            post.layers@.last().act,
            post.layers@.last().outputs@[j] as int,
        )
}

/// The parameter count of the network that [`Net::new`] builds from an
/// architecture: one dense layer between each pair of consecutive widths.
pub open spec fn arch_params_v(a: Seq<usize>) -> int
    decreases a.len(),
{
    if a.len() <= 1 {
        0
    } else {
        arch_params_v(a.drop_last()) + (a.last() * a[a.len() - 2] + a.last())
    }
}

impl Net {
    /// A fresh network from a list of widths: one sigmoid layer between each
    /// pair of consecutive widths, with every bias 1 and random weights.
    pub fn new(architecture: Vec<usize>) -> (r: Net)
        requires
            architecture@.len() >= 2,
            arch_params_v(architecture@) <= usize::MAX,
        ensures
            r.wf(),
            r.layers@.len() == architecture@.len() - 1,
            forall|l: int|
                0 <= l < r.layers@.len() ==> (#[trigger] r.layers@[l]).n_in()
                    == architecture@[l],
            forall|l: int|
                0 <= l < r.layers@.len() ==> (#[trigger] r.layers@[l]).n_out() == architecture@[l
                    + 1],
            forall|l: int|
                0 <= l < r.layers@.len() ==> (#[trigger] r.layers@[l]).act
                    == ActivationContainer::Sigmoid,
            forall|l: int, j: int|
                0 <= l < r.layers@.len() && 0 <= j < r.layers@[l].n_out()
                    ==> #[trigger] r.layers@[l].b@[j] == FX_ONE,
            r.parameters == arch_params_v(architecture@),
    {
        let n = architecture.len();
        let mut layers: Vec<Layer> = Vec::new();
        let mut i: usize = 1;
        while i < n
            invariant
                n == architecture@.len(),
                n >= 2,
                1 <= i <= n,
                layers@.len() == i - 1,
                forall|l: int| 0 <= l < layers@.len() ==> (#[trigger] layers@[l]).wf(),
                forall|l: int|
                    0 <= l < layers@.len() ==> (#[trigger] layers@[l]).n_in()
                        == architecture@[l],
                forall|l: int|
                    0 <= l < layers@.len() ==> (#[trigger] layers@[l]).n_out() == architecture@[l
                        + 1],
                forall|l: int|
                    0 <= l < layers@.len() ==> (#[trigger] layers@[l]).act
                        == ActivationContainer::Sigmoid,
                forall|l: int, j: int|
                    0 <= l < layers@.len() && 0 <= j < layers@[l].n_out()
                        ==> #[trigger] layers@[l].b@[j] == FX_ONE,
                params_count_v(layers@) == arch_params_v(architecture@.take(i as int)),
            decreases n - i,
        {
            let ghost prev = layers@;
            layers.push(
                Layer::new(
                    architecture[i - 1],
                    architecture[i],
                    FX_ONE,
                    ActivationContainer::Sigmoid,
                ),
            );
            proof {
                assert(layers@.drop_last() =~= prev);
                assert(architecture@.take(i + 1).drop_last() =~= architecture@.take(i as int));
                assert(architecture@.take(i + 1).last() == architecture@[i as int]);
            }
            i = i + 1;
        }
        proof {
            assert(architecture@.take(n as int) =~= architecture@);
            assert(forall|l: int|
                0 <= l < layers@.len() - 1 ==> (#[trigger] layers@[l]).n_out() == layers@[l
                    + 1].n_in());
        }
        Net::from_layers(layers)
    }
}

/// `post` is `pre` with its gradient accumulators reset to zero.
pub open spec fn zeroed_grads_v(pre: Layer, post: Layer) -> bool {
    &&& post.wf()
    &&& post.same_shape(pre)
    &&& post.inputs == pre.inputs
    &&& post.outputs == pre.outputs
    &&& post.w == pre.w
    &&& post.b == pre.b
    &&& post.w_prev_changes == pre.w_prev_changes
    &&& post.b_prev_changes == pre.b_prev_changes
    &&& forall|j: int| 0 <= j < post.local_grads@.len() ==> post.local_grads@[j] == 0i64
    &&& forall|j: int, i: int|
        0 <= j < pre.n_out() && 0 <= i < pre.n_in() ==> #[trigger] post.grads@[j]@[i] == 0i64
}

} // verus!
