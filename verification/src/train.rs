//! The compute cores of the training drivers: one gradient epoch over a
//! dataset, mean-loss evaluation, the particle-swarm training epoch, and
//! confusion counting. Reading datasets from disk, normalization and
//! plotting stay outside the library; samples arrive here as plain vectors.

use vstd::prelude::*;

verus! {

use crate::fx::{fx_add, fx_add_v, fx_clip, fx_div, fx_div_v, fx_from_int, FX_ONE, FX_HALF};
use crate::loss::{backprop_rel_v, loss_sum_v, Loss, LossKind};
use crate::mlp::{
    Layer, Net, net_forward_rel, net_params_v, reparameterized_v, updated_v,
    lemma_params_count_same_shape,
};
use crate::rng::sample_indices;
use crate::swarm::{IndividualGroup, gen_rho, speed_formula_v};

/// One sample: an input vector and the desired output vector.
pub struct Data {
    /// The (already normalized) input features.
    pub inputs: Vec<i64>,
    /// The desired outputs.
    pub labels: Vec<i64>,
}

/// The sample's vectors fit the network's input and output widths.
pub open spec fn sample_fits_v(d: Data, net: Net) -> bool {
    &&& d.inputs@.len() == net.n_in()
    &&& d.labels@.len() == net.n_out()
}

/// The nets have the same layer count and pointwise equal layer shapes.
pub open spec fn net_same_shape_v(a: Net, b: Net) -> bool {
    &&& b.layers@.len() == a.layers@.len()
    &&& forall|l: int|
        0 <= l < a.layers@.len() ==> (#[trigger] b.layers@[l]).same_shape(a.layers@[l])
}

/// The positions `0 .. n`, each exactly once, in some order.
pub open spec fn index_permutation_v(ord: Seq<int>, n: int) -> bool {
    &&& ord.len() == n
    &&& forall|k: int| 0 <= k < ord.len() ==> 0 <= #[trigger] ord[k] < n
    &&& forall|k1: int, k2: int| 0 <= k1 < k2 < ord.len() ==> ord[k1] != ord[k2]
}

/// `post` and `c` are what one forward pass plus one criterion of `pre` on
/// the sample produce: some output vector linked to `pre` by the forward
/// relation, summed elementwise by the loss.
pub open spec fn evaluated_on_v(pre: Net, post: Net, kind: LossKind, d: Data, c: int) -> bool {
    exists|out: Seq<i64>|
        #[trigger] net_forward_rel(pre, post, d.inputs@, out) && c == loss_sum_v(
            kind,
            out,
            d.labels@,
            out.len() as int,
        )
}

/// The chain of network states from evaluating the first `k` samples in
/// order: each step is one [`evaluated_on_v`], and `total` is the saturating
/// left fold of the per-sample criterion sums.
pub open spec fn eval_chain_v(
    pre: Net,
    post: Net,
    kind: LossKind,
    data: Seq<Data>,
    k: int,
    total: int,
) -> bool
    decreases k,
{
    if k <= 0 {
        &&& post == pre
        &&& total == 0
    } else {
        exists|mid: Net, sub: int, c: int|
            #![trigger evaluated_on_v(mid, post, kind, data[k - 1], c), fx_add_v(sub, c)]
            eval_chain_v(pre, mid, kind, data, k - 1, sub) && evaluated_on_v(
                mid,
                post,
                kind,
                data[k - 1],
                c,
            ) && total == fx_add_v(sub, c)
    }
}

/// `post` and `c` are what one full training step on the sample produces:
/// a forward pass, the loss criterion, the backward pass against the cached
/// pair, and one momentum update of every layer.
pub open spec fn trained_on_v(
    pre: Net,
    post: Net,
    kind: LossKind,
    d: Data,
    lr: int,
    momentum: int,
    c: int,
) -> bool {
    exists|fwd: Net, out: Seq<i64>, bck: Seq<Layer>|
        #![trigger net_forward_rel(pre, fwd, d.inputs@, out), backprop_rel_v(fwd.layers@, bck, out, d.labels@, kind)]
        {
            &&& net_forward_rel(pre, fwd, d.inputs@, out)
            &&& c == loss_sum_v(kind, out, d.labels@, out.len() as int)
            &&& fwd.parameters == pre.parameters
            &&& backprop_rel_v(fwd.layers@, bck, out, d.labels@, kind)
            &&& post.layers@.len() == bck.len()
            &&& post.parameters == pre.parameters
            &&& forall|l: int|
                0 <= l < bck.len() ==> updated_v(bck[l], #[trigger] post.layers@[l], lr, momentum)
        }
}

/// The chain of network states from training on the samples
/// `data[ord[0]], data[ord[1]], ...`: each step is one [`trained_on_v`], and
/// `total` is the saturating left fold of the per-sample criterion sums.
pub open spec fn train_chain_v(
    pre: Net,
    post: Net,
    kind: LossKind,
    data: Seq<Data>,
    ord: Seq<int>,
    k: int,
    lr: int,
    momentum: int,
    total: int,
) -> bool
    decreases k,
{
    if k <= 0 {
        &&& post == pre
        &&& total == 0
    } else {
        exists|mid: Net, sub: int, c: int|
            #![trigger trained_on_v(mid, post, kind, data[ord[k - 1]], lr, momentum, c), fx_add_v(sub, c)]
            train_chain_v(pre, mid, kind, data, ord, k - 1, lr, momentum, sub) && trained_on_v(
                mid,
                post,
                kind,
                data[ord[k - 1]],
                lr,
                momentum,
                c,
            ) && total == fx_add_v(sub, c)
    }
}

/// One training epoch of gradient descent with momentum: visit the samples
/// in a fresh random order; for each, run the forward pass, the loss
/// criterion, the backward pass, and one parameter update. Returns the
/// summed loss of the epoch.
#[verifier::rlimit(50)]
pub fn fit_epoch(net: &mut Net, loss: &mut Loss, data: &Vec<Data>, lr: i64, momentum: i64) -> (r:
    i64)
    requires
        old(net).wf(),
        forall|k: int| 0 <= k < data@.len() ==> sample_fits_v(#[trigger] data@[k], *old(net)),
    ensures
        final(net).wf(),
        final(net).parameters == old(net).parameters,
        net_same_shape_v(*old(net), *final(net)),
        final(loss).kind == old(loss).kind,
        exists|ord: Seq<int>|
            #[trigger] index_permutation_v(ord, data@.len() as int) && train_chain_v(
                *old(net),
                *final(net),
                old(loss).kind,
                data@,
                ord,
                data@.len() as int,
                lr as int,
                momentum as int,
                r as int,
            ),
{
    let n = data.len();
    let order = sample_indices(n, n);
    let ghost ordg = Seq::new(order@.len(), |t: int| order@[t] as int);
    let mut running: i64 = 0;
    let mut k: usize = 0;
    while k < n
        invariant
            old(net).wf(),
            net.wf(),
            net.parameters == old(net).parameters,
            net_same_shape_v(*old(net), *net),
            loss.kind == old(loss).kind,
            forall|t: int| 0 <= t < data@.len() ==> sample_fits_v(#[trigger] data@[t], *old(net)),
            n == data@.len(),
            order@.len() == n,
            forall|t: int| 0 <= t < order@.len() ==> #[trigger] order@[t] < n,
            ordg.len() == n,
            forall|t: int| 0 <= t < n ==> #[trigger] ordg[t] == order@[t] as int,
            k <= n,
            train_chain_v(
                *old(net),
                *net,
                old(loss).kind,
                data@,
                ordg,
                k as int,
                lr as int,
                momentum as int,
                running as int,
            ),
        decreases n - k,
    {
        let idx = order[k];
        let ghost prev_net = *net;
        let ghost prev_running = running as int;
        let result = match net.forward(&data[idx].inputs) {
            Result::Ok(v) => v,
            Result::Err(e) => {
                proof {
                    assert(false);
                }
                return 0;
            },
        };
        let ghost fwd_state = *net;
        let c = match loss.criterion(&result, &data[idx].labels) {
            Result::Ok(v) => v,
            Result::Err(e) => {
                proof {
                    assert(false);
                }
                return 0;
            },
        };
        running = fx_add(running, c);
        let ghost before = net.layers@;
        loss.backward(&mut net.layers);
        let ghost bck = net.layers@;
        proof {
            assert(forall|l: int|
                0 <= l < net.layers@.len() ==> (#[trigger] net.layers@[l]).same_shape(before[l]));
            lemma_params_count_same_shape(before, net.layers@);
        }
        net.update(lr, momentum);
        proof {
            let kk = k as int + 1;
            assert(net_forward_rel(prev_net, fwd_state, data@[ordg[kk - 1]].inputs@, result@));
            assert(backprop_rel_v(
                fwd_state.layers@,
                bck,
                result@,
                data@[ordg[kk - 1]].labels@,
                old(loss).kind,
            ));
            assert(trained_on_v(
                prev_net,
                *net,
                old(loss).kind,
                data@[ordg[kk - 1]],
                lr as int,
                momentum as int,
                c as int,
            ));
            assert(train_chain_v(
                *old(net),
                prev_net,
                old(loss).kind,
                data@,
                ordg,
                kk - 1,
                lr as int,
                momentum as int,
                prev_running,
            ));
            assert(train_chain_v(
                *old(net),
                *net,
                old(loss).kind,
                data@,
                ordg,
                kk,
                lr as int,
                momentum as int,
                fx_add_v(prev_running, c as int),
            ));
        }
        k = k + 1;
    }
    proof {
        assert forall|t1: int, t2: int| 0 <= t1 < t2 < ordg.len() implies ordg[t1] != ordg[
            t2
        ] by {
            assert(order@[t1] != order@[t2]);
        }
        assert(index_permutation_v(ordg, data@.len() as int));
    }
    running
}

/// The mean loss of the network over a dataset, in sample order: the summed
/// criterion divided by the number of samples.
#[verifier::rlimit(50)]
pub fn mean_loss(net: &mut Net, loss: &mut Loss, data: &Vec<Data>) -> (r: i64)
    requires
        old(net).wf(),
        0 < data@.len() < 0x8000000000000000,
        forall|k: int| 0 <= k < data@.len() ==> sample_fits_v(#[trigger] data@[k], *old(net)),
    ensures
        final(net).wf(),
        final(net).parameters == old(net).parameters,
        net_same_shape_v(*old(net), *final(net)),
        final(loss).kind == old(loss).kind,
        exists|total: int|
            #[trigger] eval_chain_v(
                *old(net),
                *final(net),
                old(loss).kind,
                data@,
                data@.len() as int,
                total,
            ) && r as int == fx_div_v(total, fx_clip(data@.len() * (FX_ONE as int))),
{
    let n = data.len();
    let mut total: i64 = 0;
    let mut k: usize = 0;
    while k < n
        invariant
            old(net).wf(),
            net.wf(),
            net.parameters == old(net).parameters,
            net_same_shape_v(*old(net), *net),
            loss.kind == old(loss).kind,
            forall|t: int| 0 <= t < data@.len() ==> sample_fits_v(#[trigger] data@[t], *old(net)),
            n == data@.len(),
            k <= n,
            eval_chain_v(*old(net), *net, old(loss).kind, data@, k as int, total as int),
        decreases n - k,
    {
        let ghost prev_net = *net;
        let ghost prev_total = total as int;
        let result = match net.forward(&data[k].inputs) {
            Result::Ok(v) => v,
            Result::Err(e) => {
                proof {
                    assert(false);
                }
                return 0;
            },
        };
        let c = match loss.criterion(&result, &data[k].labels) {
            Result::Ok(v) => v,
            Result::Err(e) => {
                proof {
                    assert(false);
                }
                return 0;
            },
        };
        total = fx_add(total, c);
        proof {
            let kk = k as int + 1;
            assert(net_forward_rel(prev_net, *net, data@[kk - 1].inputs@, result@));
            assert(evaluated_on_v(prev_net, *net, old(loss).kind, data@[kk - 1], c as int));
            assert(eval_chain_v(*old(net), prev_net, old(loss).kind, data@, kk - 1, prev_total));
            assert(eval_chain_v(
                *old(net),
                *net,
                old(loss).kind,
                data@,
                kk,
                fx_add_v(prev_total, c as int),
            ));
        }
        k = k + 1;
    }
    let divisor = fx_from_int(n as i64);
    proof {
        assert((n as int) * (FX_ONE as int) >= FX_ONE as int) by (nonlinear_arith)
            requires
                n >= 1,
        ;
    }
    fx_div(total, divisor)
}

/// `v_mae` and `t_mae` are the mean absolute errors of two evaluation
/// sweeps: one over the validation set from `pre`, then one over the
/// training set, ending at `post`.
pub open spec fn mean_abs_errors_v(
    pre: Net,
    post: Net,
    validation: Seq<Data>,
    training: Seq<Data>,
    v_mae: int,
    t_mae: int,
) -> bool {
    exists|mid: Net, tv: int, tt: int|
        #![trigger eval_chain_v(pre, mid, LossKind::AbsError, validation, validation.len() as int, tv), eval_chain_v(mid, post, LossKind::AbsError, training, training.len() as int, tt)]
        {
            &&& eval_chain_v(pre, mid, LossKind::AbsError, validation, validation.len() as int, tv)
            &&& v_mae == fx_div_v(tv, fx_clip(validation.len() * (FX_ONE as int)))
            &&& eval_chain_v(mid, post, LossKind::AbsError, training, training.len() as int, tt)
            &&& t_mae == fx_div_v(tt, fx_clip(training.len() * (FX_ONE as int)))
        }
}

/// The mean absolute error of the network on a validation set and on a
/// training set, in that order.
pub fn validation_test(net: &mut Net, validation_set: &Vec<Data>, training_set: &Vec<Data>) -> (r:
    (i64, i64))
    requires
        old(net).wf(),
        0 < validation_set@.len() < 0x8000000000000000,
        0 < training_set@.len() < 0x8000000000000000,
        forall|k: int|
            0 <= k < validation_set@.len() ==> sample_fits_v(
                #[trigger] validation_set@[k],
                *old(net),
            ),
        forall|k: int|
            0 <= k < training_set@.len() ==> sample_fits_v(#[trigger] training_set@[k], *old(net)),
    ensures
        final(net).wf(),
        final(net).parameters == old(net).parameters,
        net_same_shape_v(*old(net), *final(net)),
        mean_abs_errors_v(
            *old(net),
            *final(net),
            validation_set@,
            training_set@,
            r.0 as int,
            r.1 as int,
        ),
{
    let mut loss = Loss::abs_err();
    let mae = mean_loss(net, &mut loss, validation_set);
    let ghost mid_net = *net;
    let mut loss2 = Loss::abs_err();
    let t_mae = mean_loss(net, &mut loss2, training_set);
    proof {
        let tv = choose|tv: int|
            #[trigger] eval_chain_v(
                *old(net),
                mid_net,
                LossKind::AbsError,
                validation_set@,
                validation_set@.len() as int,
                tv,
            ) && mae as int == fx_div_v(tv, fx_clip(validation_set@.len() * (FX_ONE as int)));
        let tt = choose|tt: int|
            #[trigger] eval_chain_v(
                mid_net,
                *net,
                LossKind::AbsError,
                training_set@,
                training_set@.len() as int,
                tt,
            ) && t_mae as int == fx_div_v(tt, fx_clip(training_set@.len() * (FX_ONE as int)));
        assert(eval_chain_v(
            *old(net),
            mid_net,
            LossKind::AbsError,
            validation_set@,
            validation_set@.len() as int,
            tv,
        ));
        assert(eval_chain_v(
            mid_net,
            *net,
            LossKind::AbsError,
            training_set@,
            training_set@.len() as int,
            tt,
        ));
        assert(mean_abs_errors_v(
            *old(net),
            *net,
            validation_set@,
            training_set@,
            mae as int,
            t_mae as int,
        ));
    }
    (mae, t_mae)
}

/// Threshold-based confusion counts for a single binary prediction: the
/// first output is compared against the threshold, the first label against
/// 1.
pub struct ConfusionCount {
    /// Predictions above the threshold whose label is 1.
    pub true_pos: i64,
    /// Predictions above the threshold whose label is not 1.
    pub pred_pos_label_neg: i64,
    /// Predictions at or below the threshold whose label is 0.
    pub true_neg: i64,
    /// Predictions at or below the threshold whose label is not 0.
    pub pred_neg_label_pos: i64,
}

/// Count one prediction into the confusion counts: exactly one cell grows
/// by one, chosen by the first output against the threshold and the first
/// label against 1 (positive) or 0 (negative).
pub fn confusion_count(matrix: &mut ConfusionCount, result: &Vec<i64>, label: &Vec<i64>, threshold: i64)
    requires
        result@.len() >= 1,
        label@.len() >= 1,
        old(matrix).true_pos < i64::MAX,
        old(matrix).pred_pos_label_neg < i64::MAX,
        old(matrix).true_neg < i64::MAX,
        old(matrix).pred_neg_label_pos < i64::MAX,
    ensures
        final(matrix).true_pos == old(matrix).true_pos + (if result@[0] > threshold && label@[0]
            == FX_ONE {
            1int
        } else {
            0int
        }),
        final(matrix).pred_pos_label_neg == old(matrix).pred_pos_label_neg + (if result@[0]
            > threshold && label@[0] != FX_ONE {
            1int
        } else {
            0int
        }),
        final(matrix).true_neg == old(matrix).true_neg + (if result@[0] <= threshold && label@[0]
            == 0 {
            1int
        } else {
            0int
        }),
        final(matrix).pred_neg_label_pos == old(matrix).pred_neg_label_pos + (if result@[0]
            <= threshold && label@[0] != 0 {
            1int
        } else {
            0int
        }),
{
    if result[0] > threshold {
        if label[0] == FX_ONE {
            matrix.true_pos = matrix.true_pos + 1;
        } else {
            matrix.pred_pos_label_neg = matrix.pred_pos_label_neg + 1;
        }
    } else {
        if label[0] == 0 {
            matrix.true_neg = matrix.true_neg + 1;
        } else {
            matrix.pred_neg_label_pos = matrix.pred_neg_label_pos + 1;
        }
    }
}

/// `post` is `pre` with its weights and biases replaced by `params` and
/// nothing else touched: what one restore of a flattened vector does.
pub open spec fn reparam_to_v(pre: Net, post: Net, params: Seq<i64>) -> bool {
    &&& post.wf()
    &&& post.parameters == pre.parameters
    &&& post.layers@.len() == pre.layers@.len()
    &&& forall|l: int|
        0 <= l < pre.layers@.len() ==> reparameterized_v(
            pre.layers@[l],
            #[trigger] post.layers@[l],
        )
    &&& net_params_v(post.layers@) == params
}

/// `gpost` is `gpre` after particle `pi` reported the score `mae` (lower is
/// better): the particle's personal best and the group's local best each
/// absorb the score exactly when it improves on them.
pub open spec fn recorded_eval_v(
    gpre: IndividualGroup,
    gpost: IndividualGroup,
    pi: int,
    mae: int,
) -> bool {
    &&& gpost.particles@.len() == gpre.particles@.len()
    &&& forall|k: int|
        0 <= k < gpre.particles@.len() && k != pi ==> #[trigger] gpost.particles@[k]
            == gpre.particles@[k]
    &&& gpost.particles@[pi].position == gpre.particles@[pi].position
    &&& gpost.particles@[pi].speed == gpre.particles@[pi].speed
    &&& mae < gpre.particles@[pi].f ==> gpost.particles@[pi].f as int == mae
        && gpost.particles@[pi].best_pos@ == gpre.particles@[pi].position@
    &&& mae >= gpre.particles@[pi].f ==> gpost.particles@[pi].f == gpre.particles@[pi].f
        && gpost.particles@[pi].best_pos == gpre.particles@[pi].best_pos
    &&& mae < gpre.lbest_f ==> gpost.lbest_f as int == mae && gpost.lbest_pos@
        == gpre.particles@[pi].position@
    &&& mae >= gpre.lbest_f ==> gpost.lbest_f == gpre.lbest_f && gpost.lbest_pos
        == gpre.lbest_pos
}

/// `gpost` is `gpre` after particle `pi` moved: its velocity follows the
/// velocity rule toward its personal best and the group's local best with
/// the weights `rho1` and `rho2`, and its position moves by that velocity.
pub open spec fn advanced_with_v(
    gpre: IndividualGroup,
    gpost: IndividualGroup,
    pi: int,
    rho1: int,
    rho2: int,
) -> bool {
    &&& gpost.lbest_f == gpre.lbest_f
    &&& gpost.lbest_pos == gpre.lbest_pos
    &&& gpost.particles@.len() == gpre.particles@.len()
    &&& forall|k: int|
        0 <= k < gpre.particles@.len() && k != pi ==> #[trigger] gpost.particles@[k]
            == gpre.particles@[k]
    &&& gpost.particles@[pi].best_pos == gpre.particles@[pi].best_pos
    &&& gpost.particles@[pi].f == gpre.particles@[pi].f
    &&& forall|i: int|
        0 <= i < gpre.particles@[pi].speed@.len() ==> #[trigger] gpost.particles@[pi].speed@[i]
            as int == speed_formula_v(
            gpre.particles@[pi].speed@[i] as int,
            gpre.particles@[pi].position@[i] as int,
            gpre.particles@[pi].best_pos@[i] as int,
            gpre.lbest_pos@[i] as int,
            rho1,
            rho2,
        )
    &&& forall|i: int|
        0 <= i < gpre.particles@[pi].position@.len() ==> #[trigger] gpost.particles@[
            pi
        ].position@[i] as int == fx_add_v(
            gpre.particles@[pi].position@[i] as int,
            gpost.particles@[pi].speed@[i] as int,
        )
}

/// One swarm step of particle `pi`: the network takes the particle's
/// position, the particle is scored by its mean absolute loss over the data,
/// the bests absorb the score, and the particle moves by the velocity rule
/// with random accelerations drawn from `[0, 1]` and `[0, 1.5]`.
pub open spec fn pso_particle_step_v(
    net0: Net,
    net1: Net,
    g0: IndividualGroup,
    g1: IndividualGroup,
    data: Seq<Data>,
    pi: int,
) -> bool {
    exists|mid: Net, total: int, gmid: IndividualGroup, rho1: int, rho2: int|
        #![trigger eval_chain_v(mid, net1, LossKind::AbsError, data, data.len() as int, total), recorded_eval_v(g0, gmid, pi, fx_div_v(total, fx_clip(data.len() * (FX_ONE as int)))), advanced_with_v(gmid, g1, pi, rho1, rho2)]
        {
            &&& reparam_to_v(net0, mid, g0.particles@[pi].position@)
            &&& eval_chain_v(mid, net1, LossKind::AbsError, data, data.len() as int, total)
            &&& recorded_eval_v(
                g0,
                gmid,
                pi,
                fx_div_v(total, fx_clip(data.len() * (FX_ONE as int))),
            )
            &&& 0 <= rho1 <= FX_ONE
            &&& 0 <= rho2 <= FX_ONE + FX_HALF
            &&& advanced_with_v(gmid, g1, pi, rho1, rho2)
        }
}

/// The chain of swarm steps over a group's first `k` particles, the network
/// threading through the evaluations.
pub open spec fn pso_group_chain_v(
    net0: Net,
    net1: Net,
    g0: IndividualGroup,
    g1: IndividualGroup,
    data: Seq<Data>,
    k: int,
) -> bool
    decreases k,
{
    if k <= 0 {
        &&& net1 == net0
        &&& g1 == g0
    } else {
        exists|nmid: Net, gmid: IndividualGroup|
            #![trigger pso_particle_step_v(nmid, net1, gmid, g1, data, k - 1)]
            pso_group_chain_v(net0, nmid, g0, gmid, data, k - 1) && pso_particle_step_v(
                nmid,
                net1,
                gmid,
                g1,
                data,
                k - 1,
            )
    }
}

/// The network states threading one whole epoch: group `g` is stepped over
/// all its particles between `nets[g]` and `nets[g + 1]`.
pub open spec fn pso_threads_v(
    nets: Seq<Net>,
    net0: Net,
    net1: Net,
    gs0: Seq<IndividualGroup>,
    gs1: Seq<IndividualGroup>,
    data: Seq<Data>,
) -> bool {
    &&& nets.len() == gs0.len() + 1
    &&& nets[0] == net0
    &&& nets[gs0.len() as int] == net1
    &&& forall|g: int|
        0 <= g < gs0.len() ==> #[trigger] pso_group_chain_v(
            nets[g],
            nets[g + 1],
            gs0[g],
            gs1[g],
            data,
            gs0[g].particles@.len() as int,
        )
}

/// One particle-swarm epoch: every particle of every group is written into
/// the network, scored by its mean loss over the training data, its personal
/// and group bests are updated, and it then moves by the velocity rule with
/// fresh random accelerations (`c1 = 1`, `c2 = 1.5`). No personal-best
/// fitness and no group local-best fitness ever worsens.
#[verifier::rlimit(100)]
pub fn pso_epoch(net: &mut Net, groups: &mut Vec<IndividualGroup>, data: &Vec<Data>)
    requires
        old(net).wf(),
        0 < data@.len() < 0x8000000000000000,
        forall|k: int| 0 <= k < data@.len() ==> sample_fits_v(#[trigger] data@[k], *old(net)),
        forall|g: int| 0 <= g < old(groups)@.len() ==> (#[trigger] old(groups)@[g]).wf(),
        forall|g: int|
            0 <= g < old(groups)@.len() ==> (#[trigger] old(groups)@[g]).lbest_pos@.len() == old(
                net,
            ).parameters,
    ensures
        final(net).wf(),
        final(net).parameters == old(net).parameters,
        net_same_shape_v(*old(net), *final(net)),
        final(groups)@.len() == old(groups)@.len(),
        forall|g: int| 0 <= g < final(groups)@.len() ==> (#[trigger] final(groups)@[g]).wf(),
        forall|g: int|
            0 <= g < final(groups)@.len() ==> (#[trigger] final(groups)@[g]).lbest_pos@.len()
                == old(net).parameters,
        forall|g: int|
            0 <= g < final(groups)@.len() ==> (#[trigger] final(groups)@[g]).particles@.len()
                == old(groups)@[g].particles@.len(),
        forall|g: int|
            0 <= g < final(groups)@.len() ==> (#[trigger] final(groups)@[g]).lbest_f <= old(
                groups,
            )@[g].lbest_f,
        forall|g: int, k: int|
            0 <= g < final(groups)@.len() && 0 <= k < final(groups)@[g].particles@.len()
                ==> #[trigger] final(groups)@[g].particles@[k].f <= old(groups)@[
                g
            ].particles@[k].f,
        exists|nets: Seq<Net>| #[trigger] pso_threads_v(
            nets,
            *old(net),
            *final(net),
            old(groups)@,
            final(groups)@,
            data@,
        ),
{
    let n_groups = groups.len();
    let ghost mut nets: Seq<Net> = seq![*net];
    let mut gi: usize = 0;
    while gi < n_groups
        invariant
            old(net).wf(),
            net.wf(),
            net.parameters == old(net).parameters,
            net_same_shape_v(*old(net), *net),
            0 < data@.len() < 0x8000000000000000,
            forall|t: int| 0 <= t < data@.len() ==> sample_fits_v(#[trigger] data@[t], *old(net)),
            n_groups == groups@.len(),
            n_groups == old(groups)@.len(),
            gi <= n_groups,
            forall|g: int| 0 <= g < groups@.len() ==> (#[trigger] groups@[g]).wf(),
            forall|g: int|
                0 <= g < groups@.len() ==> (#[trigger] groups@[g]).lbest_pos@.len() == old(
                    net,
                ).parameters,
            forall|g: int|
                0 <= g < groups@.len() ==> (#[trigger] groups@[g]).particles@.len() == old(
                    groups,
                )@[g].particles@.len(),
            forall|g: int| gi <= g < n_groups ==> #[trigger] groups@[g] == old(groups)@[g],
            forall|g: int|
                0 <= g < gi ==> (#[trigger] groups@[g]).lbest_f <= old(groups)@[g].lbest_f,
            forall|g: int, k: int|
                0 <= g < gi && 0 <= k < groups@[g].particles@.len() ==> #[trigger] groups@[
                    g
                ].particles@[k].f <= old(groups)@[g].particles@[k].f,
            nets.len() == gi + 1,
            nets[0] == *old(net),
            nets[gi as int] == *net,
            forall|g: int|
                0 <= g < gi ==> #[trigger] pso_group_chain_v(
                    nets[g],
                    nets[g + 1],
                    old(groups)@[g],
                    groups@[g],
                    data@,
                    old(groups)@[g].particles@.len() as int,
                ),
        decreases n_groups - gi,
    {
        let ghost prev_groups = groups@;
        let ghost group_start_net = *net;
        let mut grp = groups.remove(gi);
        let ghost grp0 = grp;
        let n_particles = grp.particles.len();
        let mut pi: usize = 0;
        while pi < n_particles
            invariant
                old(net).wf(),
                net.wf(),
                net.parameters == old(net).parameters,
                net_same_shape_v(*old(net), *net),
                0 < data@.len() < 0x8000000000000000,
                forall|t: int|
                    0 <= t < data@.len() ==> sample_fits_v(#[trigger] data@[t], *old(net)),
                grp.wf(),
                grp.lbest_pos@.len() == old(net).parameters,
                n_particles == grp.particles@.len(),
                gi < n_groups,
                n_groups == old(groups)@.len(),
                n_particles == old(groups)@[gi as int].particles@.len(),
                grp.lbest_f <= old(groups)@[gi as int].lbest_f,
                forall|k: int|
                    0 <= k < n_particles ==> #[trigger] grp.particles@[k].f <= old(groups)@[
                        gi as int
                    ].particles@[k].f,
                grp0 == old(groups)@[gi as int],
                pso_group_chain_v(group_start_net, *net, grp0, grp, data@, pi as int),
                pi <= n_particles,
            decreases n_particles - pi,
        {
            let ghost step_net = *net;
            let ghost step_grp = grp;
            match net.set_params(&grp.particles[pi].position) {
                Result::Ok(u) => {},
                Result::Err(e) => {
                    proof {
                        assert(false);
                    }
                },
            };
            let ghost mid_net = *net;
            let mut loss = Loss::abs_err();
            let mae = mean_loss(net, &mut loss, data);
            proof {
                assert(reparam_to_v(step_net, mid_net, step_grp.particles@[pi as int].position@));
            }
            let ghost total = choose|total: int|
                #[trigger] eval_chain_v(
                    mid_net,
                    *net,
                    LossKind::AbsError,
                    data@,
                    data@.len() as int,
                    total,
                ) && mae as int == fx_div_v(total, fx_clip(data@.len() * (FX_ONE as int)));
            grp.record_eval(pi, mae);
            let ghost grp_mid = grp;
            proof {
                assert(recorded_eval_v(
                    step_grp,
                    grp_mid,
                    pi as int,
                    fx_div_v(total, fx_clip(data@.len() * (FX_ONE as int))),
                ));
            }
            let rho1 = gen_rho(FX_ONE);
            let rho2 = gen_rho(FX_ONE + FX_HALF);
            grp.advance(pi, rho1, rho2);
            proof {
                let kk = pi as int + 1;
                assert(advanced_with_v(grp_mid, grp, pi as int, rho1 as int, rho2 as int));
                assert(pso_particle_step_v(step_net, *net, step_grp, grp, data@, kk - 1));
                assert(pso_group_chain_v(group_start_net, step_net, grp0, step_grp, data@, kk - 1));
                assert(pso_group_chain_v(group_start_net, *net, grp0, grp, data@, kk));
            }
            pi = pi + 1;
        }
        groups.insert(gi, grp);
        proof {
            assert(groups@ =~= prev_groups.update(gi as int, grp));
            nets = nets.push(*net);
        }
        gi = gi + 1;
    }
    proof {
        assert(pso_threads_v(nets, *old(net), *net, old(groups)@, groups@, data@));
    }
}

} // verus!
