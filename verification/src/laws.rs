//! The engine's general laws, stated and proved over the contracts of the
//! neighbouring modules: the forward pass is a deterministic function of the
//! parameters and the input, it maps an input of the configured width to an
//! output of the configured width, the flatten/restore round trip leaves
//! every parameter unchanged, and the tracked best fitness of an elitist
//! search never decreases.

use vstd::prelude::*;

verus! {

use crate::mlp::{
    Layer, Net, net_forward_rel, forwarded_v, feeds_v, reparameterized_v, net_params_v,
    layer_params_v, layer_param_count, rows_flat_v, lemma_layer_params_len, lemma_net_params_len,
    lemma_rows_flat_len,
};

/// The layers hold the same weights, biases and activation (their training
/// caches may differ).
pub open spec fn layer_same_params_v(a: Layer, b: Layer) -> bool {
    &&& a.n_in() == b.n_in()
    &&& a.n_out() == b.n_out()
    &&& a.act == b.act
    &&& forall|j: int, i: int|
        0 <= j < a.n_out() && 0 <= i < a.n_in() ==> #[trigger] a.w@[j]@[i] == b.w@[j]@[i]
    &&& forall|j: int| 0 <= j < a.n_out() ==> #[trigger] a.b@[j] == b.b@[j]
}

/// The networks hold the same parameters, layer for layer.
pub open spec fn net_same_params_v(a: Net, b: Net) -> bool {
    &&& a.layers@.len() == b.layers@.len()
    &&& forall|l: int|
        0 <= l < a.layers@.len() ==> layer_same_params_v(
            #[trigger] a.layers@[l],
            b.layers@[l],
        )
}

/// Equally parameterized layers compute the same pre-activation sums.
proof fn lemma_preact_equal(a: Layer, b: Layer, x: Seq<i64>, j: int)
    requires
        a.wf(),
        b.wf(),
        layer_same_params_v(a, b),
        0 <= j < a.n_out(),
    ensures
        a.preact_v(x, j) == b.preact_v(x, j),
{
    assert(a.w@[j]@ =~= b.w@[j]@);
    assert(a.b@[j] == b.b@[j]);
}

/// Two forward passes of equally parameterized networks on the same input
/// fill equal caches at every layer.
proof fn lemma_chain_caches_equal(
    pre1: Net,
    post1: Net,
    pre2: Net,
    post2: Net,
    x: Seq<i64>,
    out1: Seq<i64>,
    out2: Seq<i64>,
    l: int,
)
    requires
        pre1.wf(),
        pre2.wf(),
        net_same_params_v(pre1, pre2),
        net_forward_rel(pre1, post1, x, out1),
        net_forward_rel(pre2, post2, x, out2),
        0 <= l < pre1.layers@.len(),
    ensures
        post1.layers@[l].inputs@ == post2.layers@[l].inputs@,
        forall|j: int|
            0 <= j < pre1.layers@[l].n_out() ==> #[trigger] post1.layers@[l].outputs@[j]
                == post2.layers@[l].outputs@[j],
    decreases l,
{
    if l == 0 {
        assert(post1.layers@[0].inputs@ == x);
        assert(post2.layers@[0].inputs@ == x);
        assert forall|j: int| 0 <= j < pre1.layers@[0].n_out() implies #[trigger] post1.layers@[
            0
        ].outputs@[j] == post2.layers@[0].outputs@[j] by {
            lemma_preact_equal(pre1.layers@[0], pre2.layers@[0], x, j);
            assert(post1.layers@[0].outputs@[j] as int == pre1.layers@[0].preact_v(x, j));
            assert(post2.layers@[0].outputs@[j] as int == pre2.layers@[0].preact_v(x, j));
        }
    } else {
        lemma_chain_caches_equal(pre1, post1, pre2, post2, x, out1, out2, l - 1);
        assert(feeds_v(post1.layers@[l - 1], post1.layers@[l]));
        assert(feeds_v(post2.layers@[l - 1], post2.layers@[l]));
        assert forall|k: int| 0 <= k < post1.layers@[l].inputs@.len() implies #[trigger] post1
            .layers@[l].inputs@[k] == post2.layers@[l].inputs@[k] by {
            assert(post1.layers@[l].inputs@[k] as int == crate::activator::act_apply_v(
                post1.layers@[l - 1].act,
                post1.layers@[l - 1].outputs@[k] as int,
            ));
            assert(post2.layers@[l].inputs@[k] as int == crate::activator::act_apply_v(
                post2.layers@[l - 1].act,
                post2.layers@[l - 1].outputs@[k] as int,
            ));
            assert(post1.layers@[l - 1].outputs@[k] == post2.layers@[l - 1].outputs@[k]);
            assert(post1.layers@[l - 1].act == post2.layers@[l - 1].act);
        }
        assert(post1.layers@[l].inputs@ =~= post2.layers@[l].inputs@);
        let y = post1.layers@[l].inputs@;
        assert forall|j: int| 0 <= j < pre1.layers@[l].n_out() implies #[trigger] post1.layers@[
            l
        ].outputs@[j] == post2.layers@[l].outputs@[j] by {
            lemma_preact_equal(pre1.layers@[l], pre2.layers@[l], y, j);
            assert(post1.layers@[l].outputs@[j] as int == pre1.layers@[l].preact_v(y, j));
            assert(post2.layers@[l].outputs@[j] as int == pre2.layers@[l].preact_v(y, j));
        }
    }
}

/// Forward determinism: the forward pass is a pure function of the weights,
/// biases, activations and input — two passes of equally parameterized
/// networks on the same input return the same output, whatever their cached
/// training state was.
pub proof fn lemma_forward_deterministic(
    pre1: Net,
    post1: Net,
    out1: Seq<i64>,
    pre2: Net,
    post2: Net,
    out2: Seq<i64>,
    x: Seq<i64>,
)
    requires
        pre1.wf(),
        pre2.wf(),
        net_same_params_v(pre1, pre2),
        net_forward_rel(pre1, post1, x, out1),
        net_forward_rel(pre2, post2, x, out2),
    ensures
        out1 == out2,
{
    let last = pre1.layers@.len() - 1;
    lemma_chain_caches_equal(pre1, post1, pre2, post2, x, out1, out2, last);
    assert forall|j: int| 0 <= j < out1.len() implies #[trigger] out1[j] == out2[j] by {
        assert(out1[j] as int == crate::activator::act_apply_v(
            post1.layers@.last().act,
            post1.layers@.last().outputs@[j] as int,
        ));
        assert(out2[j] as int == crate::activator::act_apply_v(
            post2.layers@.last().act,
            post2.layers@.last().outputs@[j] as int,
        ));
        assert(post1.layers@.last().outputs@[j] == post2.layers@.last().outputs@[j]);
        assert(post1.layers@.last().act == post2.layers@.last().act);
    }
    assert(out1 =~= out2);
}

/// Shape invariant: a forward pass consumes an input as wide as the first
/// layer's input count and produces an output as wide as the last layer's
/// output count, and every layer keeps its configured shape.
pub proof fn lemma_forward_shapes(pre: Net, post: Net, x: Seq<i64>, out: Seq<i64>)
    requires
        pre.wf(),
        net_forward_rel(pre, post, x, out),
    ensures
        x.len() == pre.n_in(),
        out.len() == pre.n_out(),
        post.layers@.len() == pre.layers@.len(),
        forall|l: int|
            0 <= l < pre.layers@.len() ==> (#[trigger] post.layers@[l]).same_shape(
                pre.layers@[l],
            ),
{
    assert forall|l: int| 0 <= l < pre.layers@.len() implies (#[trigger] post.layers@[
        l
    ]).same_shape(pre.layers@[l]) by {
        if l == 0 {
            assert(forwarded_v(pre.layers@[0], post.layers@[0], x));
        } else {
            assert(forwarded_v(pre.layers@[l], post.layers@[l], post.layers@[l].inputs@));
        }
    }
}

/// Laying equally shaped rows end to end is injective: equal flattenings
/// mean equal entries.
proof fn lemma_rows_flat_determine(r1: Seq<Vec<i64>>, r2: Seq<Vec<i64>>, cols: nat)
    requires
        r1.len() == r2.len(),
        forall|j: int| 0 <= j < r1.len() ==> (#[trigger] r1[j])@.len() == cols,
        forall|j: int| 0 <= j < r2.len() ==> (#[trigger] r2[j])@.len() == cols,
        rows_flat_v(r1) == rows_flat_v(r2),
    ensures
        forall|j: int, i: int|
            0 <= j < r1.len() && 0 <= i < cols ==> #[trigger] r1[j]@[i] == r2[j]@[i],
    decreases r1.len(),
{
    if r1.len() == 0 {
    } else {
        crate::mlp::lemma_rows_flat_len(r1.drop_last(), cols);
        crate::mlp::lemma_rows_flat_len(r2.drop_last(), cols);
        let f1 = rows_flat_v(r1);
        let n = f1.len();
        assert(rows_flat_v(r1.drop_last()) =~= f1.subrange(0, n - cols));
        assert(rows_flat_v(r2.drop_last()) =~= rows_flat_v(r2).subrange(0, n - cols));
        lemma_rows_flat_determine(r1.drop_last(), r2.drop_last(), cols);
        assert forall|j: int, i: int| 0 <= j < r1.len() && 0 <= i < cols implies #[trigger] r1[
            j
        ]@[i] == r2[j]@[i] by {
            if j < r1.len() - 1 {
                assert(r1.drop_last()[j]@[i] == r2.drop_last()[j]@[i]);
            } else {
                assert(r1.last()@[i] == f1[n - cols + i]);
                assert(r2.last()@[i] == rows_flat_v(r2)[n - cols + i]);
            }
        }
    }
}

/// A layer's flattened slice determines its weights and biases: two equally
/// shaped layers with the same slice hold the same parameters.
proof fn lemma_layer_params_determine(a: Layer, b: Layer)
    requires
        a.wf(),
        b.wf(),
        b.same_shape(a),
        layer_params_v(a) == layer_params_v(b),
    ensures
        forall|j: int| 0 <= j < a.n_out() ==> #[trigger] a.b@[j] == b.b@[j],
        forall|j: int, i: int|
            0 <= j < a.n_out() && 0 <= i < a.n_in() ==> #[trigger] a.w@[j]@[i] == b.w@[j]@[i],
{
    crate::mlp::lemma_rows_flat_len(a.w@, a.n_in());
    crate::mlp::lemma_rows_flat_len(b.w@, b.n_in());
    let pa = layer_params_v(a);
    let wlen = rows_flat_v(a.w@).len();
    assert(rows_flat_v(a.w@) =~= pa.subrange(0, wlen as int));
    assert(rows_flat_v(b.w@) =~= layer_params_v(b).subrange(0, wlen as int));
    assert(a.b@ =~= pa.subrange(wlen as int, pa.len() as int));
    assert(b.b@ =~= layer_params_v(b).subrange(wlen as int, pa.len() as int));
    lemma_rows_flat_determine(a.w@, b.w@, a.n_in());
    assert forall|j: int| 0 <= j < a.n_out() implies #[trigger] a.b@[j] == b.b@[j] by {
        assert(a.b@[j] == pa[wlen + j]);
    }
}

/// A stack's flattened vector determines every weight and bias: two equally
/// shaped stacks with the same flattening hold the same parameters.
proof fn lemma_net_params_determine(a: Seq<Layer>, b: Seq<Layer>)
    requires
        a.len() == b.len(),
        forall|l: int| 0 <= l < a.len() ==> (#[trigger] a[l]).wf(),
        forall|l: int| 0 <= l < b.len() ==> (#[trigger] b[l]).wf(),
        forall|l: int| 0 <= l < a.len() ==> (#[trigger] b[l]).same_shape(a[l]),
        net_params_v(a) == net_params_v(b),
    ensures
        forall|l: int, j: int|
            0 <= l < a.len() && 0 <= j < a[l].n_out() ==> #[trigger] a[l].b@[j] == b[l].b@[j],
        forall|l: int, j: int, i: int|
            0 <= l < a.len() && 0 <= j < a[l].n_out() && 0 <= i < a[l].n_in() ==> #[trigger] a[
                l
            ].w@[j]@[i] == b[l].w@[j]@[i],
    decreases a.len(),
{
    if a.len() == 0 {
    } else {
        assert(forall|l: int|
            0 <= l < a.drop_last().len() ==> (#[trigger] a.drop_last()[l]).wf());
        assert(forall|l: int|
            0 <= l < b.drop_last().len() ==> (#[trigger] b.drop_last()[l]).wf());
        lemma_net_params_len(a.drop_last());
        lemma_net_params_len(b.drop_last());
        lemma_layer_params_len(a.last());
        lemma_layer_params_len(b.last());
        let fa = net_params_v(a);
        let n = fa.len();
        let tail = layer_param_count(a.last());
        assert(net_params_v(a.drop_last()) =~= fa.subrange(0, n - tail));
        assert(net_params_v(b.drop_last()) =~= net_params_v(b).subrange(0, n - tail));
        assert(layer_params_v(a.last()) =~= fa.subrange(n - tail, n as int));
        assert(layer_params_v(b.last()) =~= net_params_v(b).subrange(n - tail, n as int));
        assert(forall|l: int|
            0 <= l < a.drop_last().len() ==> (#[trigger] b.drop_last()[l]).same_shape(
                a.drop_last()[l],
            ));
        lemma_net_params_determine(a.drop_last(), b.drop_last());
        lemma_layer_params_determine(a.last(), b.last());
        assert forall|l: int, j: int| 0 <= l < a.len() && 0 <= j < a[l].n_out() implies #[trigger]
            a[l].b@[j] == b[l].b@[j] by {
            if l < a.len() - 1 {
                assert(a.drop_last()[l].b@[j] == b.drop_last()[l].b@[j]);
            }
        }
        assert forall|l: int, j: int, i: int|
            0 <= l < a.len() && 0 <= j < a[l].n_out() && 0 <= i < a[l].n_in() implies #[trigger] a[
            l
        ].w@[j]@[i] == b[l].w@[j]@[i] by {
            if l < a.len() - 1 {
                assert(a.drop_last()[l].w@[j]@[i] == b.drop_last()[l].w@[j]@[i]);
            }
        }
    }
}

/// Flatten/restore round trip: restoring a network from its own flattened
/// parameter vector leaves every weight and bias unchanged (and the caches
/// were never touched). The hypotheses are exactly what
/// [`crate::mlp::Net::set_params`] ensures when it is fed the result of
/// [`crate::mlp::Net::flatten_params`].
pub proof fn lemma_flatten_restore_roundtrip(pre: Net, post: Net)
    requires
        pre.wf(),
        post.wf(),
        post.layers@.len() == pre.layers@.len(),
        forall|l: int|
            0 <= l < pre.layers@.len() ==> reparameterized_v(
                pre.layers@[l],
                #[trigger] post.layers@[l],
            ),
        net_params_v(post.layers@) == net_params_v(pre.layers@),
    ensures
        forall|l: int, j: int|
            0 <= l < pre.layers@.len() && 0 <= j < pre.layers@[l].n_out() ==> #[trigger] post
                .layers@[l].b@[j] == pre.layers@[l].b@[j],
        forall|l: int, j: int, i: int|
            0 <= l < pre.layers@.len() && 0 <= j < pre.layers@[l].n_out() && 0 <= i < pre.layers@[
                l
            ].n_in() ==> #[trigger] post.layers@[l].w@[j]@[i] == pre.layers@[l].w@[j]@[i],
{
    assert(forall|l: int|
        0 <= l < pre.layers@.len() ==> (#[trigger] post.layers@[l]).same_shape(pre.layers@[l]));
    lemma_net_params_determine(pre.layers@, post.layers@);
}

/// With elitism, the tracked best fitness never decreases: if each
/// generation's tracked best is at least the previous one's, then the whole
/// history is monotone.
pub proof fn lemma_tracked_best_monotone(history: Seq<int>)
    requires
        forall|i: int| 0 <= i < history.len() - 1 ==> #[trigger] history[i] <= history[i + 1],
    ensures
        forall|i: int, j: int| 0 <= i <= j < history.len() ==> history[i] <= history[j],
{
    assert forall|i: int, j: int| 0 <= i <= j < history.len() implies history[i] <= history[
        j
    ] by {
        lemma_monotone_step(history, i, j);
    }
}

proof fn lemma_monotone_step(history: Seq<int>, i: int, j: int)
    requires
        forall|k: int| 0 <= k < history.len() - 1 ==> #[trigger] history[k] <= history[k + 1],
        0 <= i <= j < history.len(),
    ensures
        history[i] <= history[j],
    decreases j - i,
{
    if i < j {
        lemma_monotone_step(history, i + 1, j);
        assert(history[i] <= history[i + 1]);
    }
}

} // verus!
