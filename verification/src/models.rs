//! The model architectures used by the training drivers: air-quality
//! regressors (rectified-linear hidden layers, one linear output) and
//! breast-cancer classifiers (all-sigmoid stacks), plus the small stacks for
//! the cross and flood datasets.

use vstd::prelude::*;

verus! {

use crate::activator::{ActivationContainer, relu, linear, sigmoid};
use crate::fx::FX_ONE;
use crate::mlp::{Layer, Net, params_count_v, layer_param_count};

/// The stack has the given activations, widths `dims[l] -> dims[l + 1]`,
/// and every bias 1.
pub open spec fn model_shape_v(r: Net, dims: Seq<int>, acts: Seq<ActivationContainer>) -> bool {
    &&& r.wf()
    &&& r.layers@.len() == acts.len()
    &&& dims.len() == acts.len() + 1
    &&& forall|l: int| 0 <= l < r.layers@.len() ==> (#[trigger] r.layers@[l]).n_in() == dims[l]
    &&& forall|l: int|
        0 <= l < r.layers@.len() ==> (#[trigger] r.layers@[l]).n_out() == dims[l + 1]
    &&& forall|l: int| 0 <= l < r.layers@.len() ==> (#[trigger] r.layers@[l]).act == acts[l]
    &&& forall|l: int, j: int|
        0 <= l < r.layers@.len() && 0 <= j < r.layers@[l].n_out() ==> #[trigger] r.layers@[
            l
        ].b@[j] == FX_ONE
}

/// Stack two fresh layers into a network.
fn stack2(first: Layer, second: Layer) -> (r: Net)
    requires
        first.wf(),
        second.wf(),
        first.n_out() == second.n_in(),
        layer_param_count(first) + layer_param_count(second) <= usize::MAX,
    ensures
        r.wf(),
        r.layers@.len() == 2,
        r.layers@[0] == first,
        r.layers@[1] == second,
        r.parameters == layer_param_count(first) + layer_param_count(second),
{
    let mut layers: Vec<Layer> = Vec::new();
    layers.push(first);
    layers.push(second);
    proof {
        assert(layers@.drop_last() =~= seq![layers@[0]]);
        assert(seq![layers@[0]].drop_last() =~= Seq::<Layer>::empty());
        assert(params_count_v(Seq::<Layer>::empty()) == 0);
        assert(params_count_v(seq![layers@[0]]) == layer_param_count(layers@[0]));
        assert(params_count_v(layers@) == layer_param_count(layers@[0]) + layer_param_count(
            layers@[1],
        ));
    }
    Net::from_layers(layers)
}

/// Stack three fresh layers into a network.
fn stack3(first: Layer, second: Layer, third: Layer) -> (r: Net)
    requires
        first.wf(),
        second.wf(),
        third.wf(),
        first.n_out() == second.n_in(),
        second.n_out() == third.n_in(),
        layer_param_count(first) + layer_param_count(second) + layer_param_count(third)
            <= usize::MAX,
    ensures
        r.wf(),
        r.layers@.len() == 3,
        r.layers@[0] == first,
        r.layers@[1] == second,
        r.layers@[2] == third,
        r.parameters == layer_param_count(first) + layer_param_count(second) + layer_param_count(
            third,
        ),
{
    let mut layers: Vec<Layer> = Vec::new();
    layers.push(first);
    layers.push(second);
    layers.push(third);
    proof {
        assert(layers@.drop_last() =~= seq![layers@[0], layers@[1]]);
        assert(seq![layers@[0], layers@[1]].drop_last() =~= seq![layers@[0]]);
        assert(seq![layers@[0]].drop_last() =~= Seq::<Layer>::empty());
        assert(params_count_v(Seq::<Layer>::empty()) == 0);
        assert(params_count_v(seq![layers@[0]]) == layer_param_count(layers@[0]));
        assert(params_count_v(seq![layers@[0], layers@[1]]) == layer_param_count(layers@[0])
            + layer_param_count(layers@[1]));
        assert(params_count_v(layers@) == layer_param_count(layers@[0]) + layer_param_count(
            layers@[1],
        ) + layer_param_count(layers@[2]));
    }
    Net::from_layers(layers)
}

/// The 8-4-1 air-quality regressor: a rectified-linear hidden layer and a
/// linear output layer.
pub fn air_8_4_1() -> (r: Net)
    ensures
        model_shape_v(
            r,
            seq![8, 4, 1],
            seq![ActivationContainer::Relu, ActivationContainer::Linear],
        ),
        r.parameters == 41,
{
    stack2(Layer::new(8, 4, FX_ONE, relu()), Layer::new(4, 1, FX_ONE, linear()))
}

/// The 8-1-1 air-quality regressor.
pub fn air_8_1_1() -> (r: Net)
    ensures
        model_shape_v(
            r,
            seq![8, 1, 1],
            seq![ActivationContainer::Relu, ActivationContainer::Linear],
        ),
        r.parameters == 11,
{
    stack2(Layer::new(8, 1, FX_ONE, relu()), Layer::new(1, 1, FX_ONE, linear()))
}

/// The 8-8-4-1 air-quality regressor with two rectified-linear hidden
/// layers.
pub fn air_8_8_4_1() -> (r: Net)
    ensures
        model_shape_v(
            r,
            seq![8, 8, 4, 1],
            seq![
                ActivationContainer::Relu,
                ActivationContainer::Relu,
                ActivationContainer::Linear,
            ],
        ),
        r.parameters == 113,
{
    stack3(
        Layer::new(8, 8, FX_ONE, relu()),
        Layer::new(8, 4, FX_ONE, relu()),
        Layer::new(4, 1, FX_ONE, linear()),
    )
}

/// The 30-15-1 breast-cancer classifier: all-sigmoid layers.
pub fn wdbc_30_15_1() -> (r: Net)
    ensures
        model_shape_v(
            r,
            seq![30, 15, 1],
            seq![ActivationContainer::Sigmoid, ActivationContainer::Sigmoid],
        ),
        r.parameters == 481,
{
    stack2(Layer::new(30, 15, FX_ONE, sigmoid()), Layer::new(15, 1, FX_ONE, sigmoid()))
}

/// The 30-7-1 breast-cancer classifier.
pub fn wdbc_30_7_1() -> (r: Net)
    ensures
        model_shape_v(
            r,
            seq![30, 7, 1],
            seq![ActivationContainer::Sigmoid, ActivationContainer::Sigmoid],
        ),
        r.parameters == 225,
{
    stack2(Layer::new(30, 7, FX_ONE, sigmoid()), Layer::new(7, 1, FX_ONE, sigmoid()))
}

/// The 30-15-7-1 breast-cancer classifier with two hidden layers.
pub fn wdbc_30_15_7_1() -> (r: Net)
    ensures
        model_shape_v(
            r,
            seq![30, 15, 7, 1],
            seq![
                ActivationContainer::Sigmoid,
                ActivationContainer::Sigmoid,
                ActivationContainer::Sigmoid,
            ],
        ),
        r.parameters == 585,
{
    stack3(
        Layer::new(30, 15, FX_ONE, sigmoid()),
        Layer::new(15, 7, FX_ONE, sigmoid()),
        Layer::new(7, 1, FX_ONE, sigmoid()),
    )
}

/// The 2-4-1 all-sigmoid stack for the cross dataset.
pub fn cross_2_4_1() -> (r: Net)
    ensures
        model_shape_v(
            r,
            seq![2, 4, 1],
            seq![ActivationContainer::Sigmoid, ActivationContainer::Sigmoid],
        ),
        r.parameters == 17,
{
    stack2(Layer::new(2, 4, FX_ONE, sigmoid()), Layer::new(4, 1, FX_ONE, sigmoid()))
}

/// The 2-8-1 all-sigmoid stack for the cross dataset.
pub fn cross_2_8_1() -> (r: Net)
    ensures
        model_shape_v(
            r,
            seq![2, 8, 1],
            seq![ActivationContainer::Sigmoid, ActivationContainer::Sigmoid],
        ),
        r.parameters == 33,
{
    stack2(Layer::new(2, 8, FX_ONE, sigmoid()), Layer::new(8, 1, FX_ONE, sigmoid()))
}

/// The 8-4-1 flood-forecast regressor: a sigmoid hidden layer, a linear
/// output.
pub fn flood_8_4_1() -> (r: Net)
    ensures
        model_shape_v(
            r,
            seq![8, 4, 1],
            seq![ActivationContainer::Sigmoid, ActivationContainer::Linear],
        ),
        r.parameters == 41,
{
    stack2(Layer::new(8, 4, FX_ONE, sigmoid()), Layer::new(4, 1, FX_ONE, linear()))
}

/// The 8-8-1 flood-forecast regressor.
pub fn flood_8_8_1() -> (r: Net)
    ensures
        model_shape_v(
            r,
            seq![8, 8, 1],
            seq![ActivationContainer::Sigmoid, ActivationContainer::Linear],
        ),
        r.parameters == 81,
{
    stack2(Layer::new(8, 8, FX_ONE, sigmoid()), Layer::new(8, 1, FX_ONE, linear()))
}

} // verus!
