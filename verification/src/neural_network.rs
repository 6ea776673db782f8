use vstd::prelude::*;

use crate::activation::{
    activation_backward_data, activation_backward_error, activation_forward_data, Activation,
    ActivationModel,
};
use crate::linear::{
    linear_backward_fits, linear_backward_result, linear_forward_error, linear_forward_fits,
    Linear, LinearModel,
};
use crate::loss::{
    bce_sigmoid_delta, bce_sigmoid_delta_model, loss_error, mse_loss_gradient,
    mse_loss_gradient_model,
};
use crate::scalar::Scalar;
use crate::tensor::{
    ew_error, matmul_model, unary_error, valid_rank, Tensor, TensorError, TensorModel,
};

verus! {

/// The loss-gradient capability a network trains with: which seed gradient
/// `fit` computes from the final output and the targets.
#[derive(Debug, Clone, Copy, PartialEq, Eq, Structural)]
pub enum LossGradient {
    /// The gradient of the mean squared error.
    MeanSquaredError,
    /// The binary-cross-entropy-after-sigmoid seed gradient.
    BceSigmoid,
}

/// The outcome the chosen loss gradient owes on the given output and targets.
pub open spec fn loss_gradient_error<T: Scalar>(
    k: LossGradient,
    p: TensorModel<T>,
    a: TensorModel<T>,
) -> Option<TensorError> {
    match k {
        LossGradient::MeanSquaredError => ew_error(p, a),
        LossGradient::BceSigmoid => loss_error(p, a),
    }
}

/// The seed gradient the chosen loss computes.
pub open spec fn loss_gradient_model<T: Scalar>(
    k: LossGradient,
    p: TensorModel<T>,
    a: TensorModel<T>,
) -> TensorModel<T> {
    match k {
        LossGradient::MeanSquaredError => mse_loss_gradient_model(p, a),
        LossGradient::BceSigmoid => bce_sigmoid_delta_model(p, a),
    }
}

impl LossGradient {
    /// The chosen loss-gradient function applied to an output and targets.
    pub fn apply<T: Scalar>(&self, predicted: &Tensor<T>, actual: &Tensor<T>) -> (r: Result<
        Tensor<T>,
        TensorError,
    >)
        ensures
            match r {
                Ok(t) => loss_gradient_error(*self, predicted@, actual@) is None && t@
                    == loss_gradient_model(*self, predicted@, actual@),
                Err(e) => loss_gradient_error(*self, predicted@, actual@) == Some(e),
            },
    {
        match self {
            LossGradient::MeanSquaredError => mse_loss_gradient(predicted, actual),
            LossGradient::BceSigmoid => bce_sigmoid_delta(predicted, actual),
        }
    }
}

/// The mathematical content of one network layer.
#[verifier::ext_equal]
#[verifier::reject_recursive_types(T)]
pub ghost enum LayerModel<T> {
    Linear(LinearModel<T>),
    Activation(ActivationModel<T>),
}

/// One layer of a network: the tagged union over the two layer kinds, so a
/// network can own a mixed stack by value.
pub enum NetworkLayer<T: Scalar> {
    Linear(Linear<T>),
    Activation(Activation<T>),
}

impl<T: Scalar> View for NetworkLayer<T> {
    type V = LayerModel<T>;

    closed spec fn view(&self) -> LayerModel<T> {
        match self {
            NetworkLayer::Linear(l) => LayerModel::Linear(l@),
            NetworkLayer::Activation(a) => LayerModel::Activation(a@),
        }
    }
}

/// The machine limit a layer's forward pass asks of its caller.
pub open spec fn layer_forward_fits<T: Scalar>(l: LayerModel<T>, x: TensorModel<T>) -> bool {
    match l {
        LayerModel::Linear(m) => linear_forward_fits(m, x),
        LayerModel::Activation(_) => true,
    }
}

/// The layer and result a forward pass leaves behind: a linear layer caches
/// the input and multiplies it by its weight, an activation layer caches the
/// input and applies its function element-wise.
pub open spec fn layer_forward_result<T: Scalar>(l: LayerModel<T>, x: TensorModel<T>) -> (
    LayerModel<T>,
    Result<TensorModel<T>, TensorError>,
) {
    match l {
        LayerModel::Linear(m) => match linear_forward_error(m, x) {
            Some(e) => (
                if !valid_rank(x.shape) {
                    l
                } else {
                    LayerModel::Linear(LinearModel { weight: m.weight, input: x })
                },
                Err(e),
            ),
            None => (
                LayerModel::Linear(LinearModel { weight: m.weight, input: x }),
                Ok(matmul_model(x, m.weight)),
            ),
        },
        LayerModel::Activation(m) => match unary_error(x) {
            Some(e) => (l, Err(e)),
            None => (
                LayerModel::Activation(ActivationModel { input: x, t: m.t }),
                Ok(TensorModel { data: activation_forward_data(m.t, x.data), shape: x.shape }),
            ),
        },
    }
}

/// The machine limit a layer's backward pass asks of its caller.
pub open spec fn layer_backward_fits<T: Scalar>(l: LayerModel<T>, e: TensorModel<T>) -> bool {
    match l {
        LayerModel::Linear(m) => linear_backward_fits(m, e),
        LayerModel::Activation(_) => true,
    }
}

/// The layer and result a backward pass leaves behind: a linear layer updates
/// its weight and hands the gradient upstream, an activation layer hands the
/// gradient times its derivative upstream unchanged.
pub open spec fn layer_backward_result<T: Scalar>(l: LayerModel<T>, e: TensorModel<T>, lr: T) -> (
    LayerModel<T>,
    Result<TensorModel<T>, TensorError>,
) {
    match l {
        LayerModel::Linear(m) => {
            let (m2, r) = linear_backward_result(m, e, lr);
            (LayerModel::Linear(m2), r)
        },
        LayerModel::Activation(m) => match activation_backward_error(m.input, e) {
            Some(err) => (l, Err(err)),
            None => (
                l,
                Ok(
                    TensorModel {
                        data: activation_backward_data(m.t, m.input.data, e.data),
                        shape: m.input.shape,
                    },
                ),
            ),
        },
    }
}

impl<T: Scalar> NetworkLayer<T> {
    /// The forward pass of whichever layer this is.
    pub fn forward(&mut self, input: &Tensor<T>) -> (r: Result<Tensor<T>, TensorError>)
        requires
            layer_forward_fits(old(self)@, input@),
        ensures
            ({
                let (lm, rr) = layer_forward_result(old(self)@, input@);
                final(self)@ == lm && (match (r, rr) {
                    (Ok(t), Ok(m)) => t@ == m,
                    (Err(e1), Err(e2)) => e1 == e2,
                    _ => false,
                })
            }),
    {
        match self {
            NetworkLayer::Linear(l) => l.forward(input),
            NetworkLayer::Activation(a) => a.forward(input),
        }
    }

    /// The backward pass of whichever layer this is.
    pub fn backward(&mut self, output_error: &Tensor<T>, learning_rate: T) -> (r: Result<
        Tensor<T>,
        TensorError,
    >)
        requires
            layer_backward_fits(old(self)@, output_error@),
        ensures
            ({
                let (lm, rr) = layer_backward_result(old(self)@, output_error@, learning_rate);
                final(self)@ == lm && (match (r, rr) {
                    (Ok(t), Ok(m)) => t@ == m,
                    (Err(e1), Err(e2)) => e1 == e2,
                    _ => false,
                })
            }),
    {
        match self {
            NetworkLayer::Linear(l) => l.backward(output_error, learning_rate),
            NetworkLayer::Activation(a) => a.backward(output_error),
        }
    }
}

/// The models of a stack of layers.
pub open spec fn layer_views<T: Scalar>(s: Seq<NetworkLayer<T>>) -> Seq<LayerModel<T>> {
    s.map_values(|l: NetworkLayer<T>| l@)
}

/// The layers and result a whole forward pass leaves behind: the value is
/// threaded through the layers in order, each call's output becoming the
/// next call's input; a failing layer aborts with the later layers untouched.
pub open spec fn network_forward_result<T: Scalar>(
    layers: Seq<LayerModel<T>>,
    x: TensorModel<T>,
) -> (Seq<LayerModel<T>>, Result<TensorModel<T>, TensorError>)
    decreases layers.len(),
{
    if layers.len() == 0 {
        (layers, Ok(x))
    } else {
        let (l0, r0) = layer_forward_result(layers[0], x);
        match r0 {
            Err(e) => (seq![l0] + layers.drop_first(), Err(e)),
            Ok(y) => {
                let (rest, rr) = network_forward_result(layers.drop_first(), y);
                (seq![l0] + rest, rr)
            },
        }
    }
}

/// A forward pass leaves as many layers as it found.
pub proof fn lemma_network_forward_len<T: Scalar>(layers: Seq<LayerModel<T>>, x: TensorModel<T>)
    ensures
        network_forward_result(layers, x).0.len() == layers.len(),
    decreases layers.len(),
{
    if layers.len() != 0 {
        let (l0, r0) = layer_forward_result(layers[0], x);
        match r0 {
            Err(_) => {},
            Ok(y) => {
                lemma_network_forward_len(layers.drop_first(), y);
            },
        }
    }
}

/// The machine limits a whole forward pass asks of its caller.
pub open spec fn network_forward_fits<T: Scalar>(
    layers: Seq<LayerModel<T>>,
    x: TensorModel<T>,
) -> bool
    decreases layers.len(),
{
    layers.len() == 0 || {
        &&& layer_forward_fits(layers[0], x)
        &&& (match layer_forward_result(layers[0], x).1 {
            Ok(y) => network_forward_fits(layers.drop_first(), y),
            Err(_) => true,
        })
    }
}

/// The layers and result a whole backward pass leaves behind: the gradient is
/// threaded through the layers in reverse order; a failing layer aborts with
/// the earlier layers untouched.
pub open spec fn network_backward_result<T: Scalar>(
    layers: Seq<LayerModel<T>>,
    g: TensorModel<T>,
    lr: T,
) -> (Seq<LayerModel<T>>, Result<TensorModel<T>, TensorError>)
    decreases layers.len(),
{
    if layers.len() == 0 {
        (layers, Ok(g))
    } else {
        let (ln, rn) = layer_backward_result(layers.last(), g, lr);
        match rn {
            Err(e) => (layers.update(layers.len() - 1, ln), Err(e)),
            Ok(g2) => {
                let (front, rf) = network_backward_result(layers.drop_last(), g2, lr);
                (front.push(ln), rf)
            },
        }
    }
}

/// A backward pass leaves as many layers as it found.
pub proof fn lemma_network_backward_len<T: Scalar>(
    layers: Seq<LayerModel<T>>,
    g: TensorModel<T>,
    lr: T,
)
    ensures
        network_backward_result(layers, g, lr).0.len() == layers.len(),
    decreases layers.len(),
{
    if layers.len() != 0 {
        let (ln, rn) = layer_backward_result(layers.last(), g, lr);
        match rn {
            Err(_) => {},
            Ok(g2) => {
                lemma_network_backward_len(layers.drop_last(), g2, lr);
            },
        }
    }
}

/// The machine limits a whole backward pass asks of its caller.
pub open spec fn network_backward_fits<T: Scalar>(
    layers: Seq<LayerModel<T>>,
    g: TensorModel<T>,
    lr: T,
) -> bool
    decreases layers.len(),
{
    layers.len() == 0 || {
        &&& layer_backward_fits(layers.last(), g)
        &&& (match layer_backward_result(layers.last(), g, lr).1 {
            Ok(g2) => network_backward_fits(layers.drop_last(), g2, lr),
            Err(_) => true,
        })
    }
}

/// The layers and result `epochs` training epochs leave behind. Each epoch
/// runs a forward pass on a fresh copy of the full batch, seeds the gradient
/// with the chosen loss, and threads it backward through every layer; the
/// first error aborts the remaining epochs.
pub open spec fn network_fit_result<T: Scalar>(
    layers: Seq<LayerModel<T>>,
    k: LossGradient,
    x: TensorModel<T>,
    y: TensorModel<T>,
    epochs: nat,
    lr: T,
) -> (Seq<LayerModel<T>>, Result<(), TensorError>)
    decreases epochs,
{
    if epochs == 0 {
        (layers, Ok(()))
    } else if !valid_rank(x.shape) {
        // the fresh per-epoch copy of the batch re-validates its rank
        (layers, Err(TensorError::InvalidRank))
    } else {
        let (l1, r1) = network_forward_result(layers, x);
        match r1 {
            Err(e) => (l1, Err(e)),
            Ok(out) => match loss_gradient_error(k, out, y) {
                Some(e) => (l1, Err(e)),
                None => {
                    let (l2, r2) = network_backward_result(l1, loss_gradient_model(k, out, y), lr);
                    match r2 {
                        Err(e) => (l2, Err(e)),
                        Ok(_) => network_fit_result(l2, k, x, y, (epochs - 1) as nat, lr),
                    }
                },
            },
        }
    }
}

/// The machine limits `epochs` training epochs ask of their caller.
pub open spec fn network_fit_fits<T: Scalar>(
    layers: Seq<LayerModel<T>>,
    k: LossGradient,
    x: TensorModel<T>,
    y: TensorModel<T>,
    epochs: nat,
    lr: T,
) -> bool
    decreases epochs,
{
    epochs == 0 || !valid_rank(x.shape) || {
        &&& network_forward_fits(layers, x)
        &&& ({
            let (l1, r1) = network_forward_result(layers, x);
            match r1 {
                Err(_) => true,
                Ok(out) => match loss_gradient_error(k, out, y) {
                    Some(_) => true,
                    None => {
                        let g = loss_gradient_model(k, out, y);
                        &&& network_backward_fits(l1, g, lr)
                        &&& (match network_backward_result(l1, g, lr).1 {
                            Err(_) => true,
                            Ok(_) => network_fit_fits(
                                network_backward_result(l1, g, lr).0,
                                k,
                                x,
                                y,
                                (epochs - 1) as nat,
                                lr,
                            ),
                        })
                    },
                },
            }
        })
    }
}

/// The mathematical content of a network: its layer models in order and the
/// chosen loss gradient.
#[verifier::ext_equal]
#[verifier::reject_recursive_types(T)]
pub ghost struct NetworkModel<T> {
    pub layers: Seq<LayerModel<T>>,
    pub loss_grad_fn: LossGradient,
}

/// A sequential network: an ordered stack of layers and one loss-gradient
/// function. `forward` runs inference; `fit` trains by plain gradient
/// descent on the full provided batch, every epoch.
pub struct Network<T: Scalar> {
    layers: Vec<NetworkLayer<T>>,
    loss_grad_fn: LossGradient,
}

impl<T: Scalar> View for Network<T> {
    type V = NetworkModel<T>;

    closed spec fn view(&self) -> NetworkModel<T> {
        NetworkModel { layers: layer_views(self.layers@), loss_grad_fn: self.loss_grad_fn }
    }
}

impl<T: Scalar> Network<T> {
    /// Passes the input through every layer in insertion order; an empty
    /// network returns the input unchanged. Each layer caches what its
    /// backward pass will need.
    #[verifier::loop_isolation(false)]
    pub fn forward(&mut self, input: Tensor<T>) -> (r: Result<Tensor<T>, TensorError>)
        requires
            network_forward_fits(old(self)@.layers, input@),
        ensures
            final(self)@.loss_grad_fn == old(self)@.loss_grad_fn,
            ({
                let (ls, rr) = network_forward_result(old(self)@.layers, input@);
                final(self)@.layers == ls && (match (r, rr) {
                    (Ok(t), Ok(m)) => t@ == m,
                    (Err(e1), Err(e2)) => e1 == e2,
                    _ => false,
                })
            }),
    {
        let ghost orig = layer_views(old(self).layers@);
        let ghost x0 = input@;
        let ghost pair = network_forward_result(orig, x0);
        let n = self.layers.len();
        let mut current = input;
        let mut i: usize = 0;
        proof {
            lemma_network_forward_len(orig, x0);
            assert(orig.subrange(0, n as int) =~= orig);
            assert(pair.0.subrange(0, n as int) =~= pair.0);
            assert(pair.0.subrange(0, 0) + orig.subrange(0, n as int) =~= orig);
        }
        while i < n
            invariant
                i <= n,
                n == self.layers.len(),
                layer_views(self.layers@) =~= pair.0.subrange(0, i as int) + orig.subrange(
                    i as int,
                    n as int,
                ),
                network_forward_result(orig.subrange(i as int, n as int), current@) == (
                    pair.0.subrange(i as int, n as int),
                    pair.1,
                ),
                network_forward_fits(orig.subrange(i as int, n as int), current@),
                self.loss_grad_fn == old(self).loss_grad_fn,
            decreases n - i,
        {
            let ghost tail = orig.subrange(i as int, n as int);
            proof {
                lemma_network_forward_len(tail, current@);
                assert(tail[0] == layer_views(self.layers@)[i as int]);
                assert(tail.drop_first() =~= orig.subrange(i as int + 1, n as int));
            }
            let ghost before_views = layer_views(self.layers@);
            let layer = &mut self.layers[i];
            let step = layer.forward(&current);
            proof {
                assert(layer_views(self.layers@) =~= before_views.update(
                    i as int,
                    layer_forward_result(tail[0], current@).0,
                ));
            }
            match step {
                Ok(next) => {
                    proof {
                        let (l0, r0) = layer_forward_result(tail[0], current@);
                        let (rest, rr) = network_forward_result(tail.drop_first(), next@);
                        lemma_network_forward_len(tail.drop_first(), next@);
                        assert(seq![l0] + rest =~= pair.0.subrange(i as int, n as int));
                        assert((seq![l0] + rest)[0] == l0);
                        assert(pair.0.subrange(i as int, n as int)[0] == pair.0[i as int]);
                        assert(l0 == pair.0[i as int]);
                        assert forall|j: int| 0 <= j < rest.len() implies rest[j] == pair.0[i
                            as int + 1 + j] by {
                            assert((seq![l0] + rest)[j + 1] == rest[j]);
                            assert(pair.0.subrange(i as int, n as int)[j + 1] == pair.0[i as int + 1
                                + j]);
                        }
                        assert(rest =~= pair.0.subrange(i as int + 1, n as int));
                        assert(layer_views(self.layers@) =~= pair.0.subrange(0, i as int + 1)
                            + orig.subrange(i as int + 1, n as int));
                    }
                    current = next;
                },
                Err(e) => {
                    proof {
                        let (l0, r0) = layer_forward_result(tail[0], current@);
                        assert(seq![l0] + tail.drop_first() =~= pair.0.subrange(i as int, n as int));
                        assert((seq![l0] + tail.drop_first())[0] == l0);
                        assert(pair.0.subrange(i as int, n as int)[0] == pair.0[i as int]);
                        assert(l0 == pair.0[i as int]);
                        assert forall|j: int|
                            0 <= j < n implies layer_views(self.layers@)[j] == pair.0[j] by {
                            if j < i {
                                assert(before_views[j] == pair.0.subrange(0, i as int)[j]);
                            } else if j > i {
                                assert(before_views[j] == orig.subrange(i as int, n as int)[j - i]);
                                assert((seq![l0] + tail.drop_first())[j - i] == tail.drop_first()[j
                                    - i - 1]);
                                assert(tail.drop_first()[j - i - 1] == tail[j - i]);
                                assert(pair.0.subrange(i as int, n as int)[j - i] == pair.0[j]);
                            }
                        }
                        assert(layer_views(self.layers@) =~= pair.0);
                    }
                    return Err(e);
                },
            }
            i = i + 1;
        }
        proof {
            assert(orig.subrange(n as int, n as int) =~= Seq::<LayerModel<T>>::empty());
            assert(pair.0.subrange(0, n as int) =~= pair.0);
            assert(layer_views(self.layers@) =~= pair.0);
        }
        Ok(current)
    }

    /// Threads a gradient backward through every layer in reverse insertion
    /// order, each layer updating its own state.
    #[verifier::loop_isolation(false)]
    fn backward_all(&mut self, gradient: Tensor<T>, learning_rate: T) -> (r: Result<
        Tensor<T>,
        TensorError,
    >)
        requires
            network_backward_fits(old(self)@.layers, gradient@, learning_rate),
        ensures
            final(self)@.loss_grad_fn == old(self)@.loss_grad_fn,
            ({
                let (ls, rr) = network_backward_result(
                    old(self)@.layers,
                    gradient@,
                    learning_rate,
                );
                final(self)@.layers == ls && (match (r, rr) {
                    (Ok(t), Ok(m)) => t@ == m,
                    (Err(e1), Err(e2)) => e1 == e2,
                    _ => false,
                })
            }),
    {
        let ghost orig = layer_views(old(self).layers@);
        let ghost pair = network_backward_result(orig, gradient@, learning_rate);
        let n = self.layers.len();
        let mut current = gradient;
        let mut i: usize = n;
        proof {
            lemma_network_backward_len(orig, gradient@, learning_rate);
            assert(orig.subrange(0, n as int) =~= orig);
            assert(pair.0.subrange(0, n as int) =~= pair.0);
            assert(orig.subrange(0, n as int) + pair.0.subrange(n as int, n as int) =~= orig);
        }
        while i > 0
            invariant
                i <= n,
                n == self.layers.len(),
                layer_views(self.layers@) =~= orig.subrange(0, i as int) + pair.0.subrange(
                    i as int,
                    n as int,
                ),
                network_backward_result(orig.subrange(0, i as int), current@, learning_rate) == (
                    pair.0.subrange(0, i as int),
                    pair.1,
                ),
                network_backward_fits(orig.subrange(0, i as int), current@, learning_rate),
                self.loss_grad_fn == old(self).loss_grad_fn,
            decreases i,
        {
            let ghost front = orig.subrange(0, i as int);
            proof {
                lemma_network_backward_len(front, current@, learning_rate);
                assert(front.last() == layer_views(self.layers@)[i as int - 1]);
                assert(front.drop_last() =~= orig.subrange(0, i as int - 1));
            }
            let ghost before_views = layer_views(self.layers@);
            let idx = i - 1;
            let layer = &mut self.layers[idx];
            let step = layer.backward(&current, learning_rate);
            proof {
                assert(layer_views(self.layers@) =~= before_views.update(
                    idx as int,
                    layer_backward_result(front.last(), current@, learning_rate).0,
                ));
            }
            match step {
                Ok(next) => {
                    proof {
                        let (ln, rn) = layer_backward_result(front.last(), current@, learning_rate);
                        let (fr, rf) = network_backward_result(
                            front.drop_last(),
                            next@,
                            learning_rate,
                        );
                        lemma_network_backward_len(front.drop_last(), next@, learning_rate);
                        assert(fr.push(ln) =~= pair.0.subrange(0, i as int));
                        assert(fr =~= pair.0.subrange(0, i as int - 1));
                        assert(ln == pair.0[i as int - 1]);
                        assert(layer_views(self.layers@) =~= orig.subrange(0, i as int - 1)
                            + pair.0.subrange(i as int - 1, n as int));
                    }
                    current = next;
                },
                Err(e) => {
                    proof {
                        let (ln, rn) = layer_backward_result(front.last(), current@, learning_rate);
                        assert(front.update(i as int - 1, ln) =~= pair.0.subrange(0, i as int));
                        assert(ln == pair.0[i as int - 1]);
                        assert(layer_views(self.layers@) =~= pair.0);
                    }
                    return Err(e);
                },
            }
            i = idx;
        }
        proof {
            assert(orig.subrange(0, 0) =~= Seq::<LayerModel<T>>::empty());
            assert(pair.0.subrange(0, n as int) =~= pair.0);
            assert(layer_views(self.layers@) =~= pair.0);
        }
        Ok(current)
    }

    /// The training loop: for each epoch, a forward pass over a fresh copy
    /// of the full batch, the loss gradient against the targets, and a
    /// backward pass through every layer in reverse, at the given learning
    /// rate. The first error aborts the remaining epochs.
    #[verifier::loop_isolation(false)]
    pub fn fit(
        &mut self,
        x_train: &Tensor<T>,
        y_train: &Tensor<T>,
        epochs: usize,
        learning_rate: T,
    ) -> (r: Result<(), TensorError>)
        requires
            network_fit_fits(
                old(self)@.layers,
                old(self)@.loss_grad_fn,
                x_train@,
                y_train@,
                epochs as nat,
                learning_rate,
            ),
        ensures
            final(self)@.loss_grad_fn == old(self)@.loss_grad_fn,
            ({
                let (ls, rr) = network_fit_result(
                    old(self)@.layers,
                    old(self)@.loss_grad_fn,
                    x_train@,
                    y_train@,
                    epochs as nat,
                    learning_rate,
                );
                final(self)@.layers == ls && r == rr
            }),
    {
        let ghost k = old(self)@.loss_grad_fn;
        let ghost pair = network_fit_result(
            old(self)@.layers,
            k,
            x_train@,
            y_train@,
            epochs as nat,
            learning_rate,
        );
        let mut epoch: usize = 0;
        while epoch < epochs
            invariant
                epoch <= epochs,
                self.loss_grad_fn == old(self).loss_grad_fn,
                network_fit_result(
                    layer_views(self.layers@),
                    k,
                    x_train@,
                    y_train@,
                    (epochs - epoch) as nat,
                    learning_rate,
                ) == pair,
                network_fit_fits(
                    layer_views(self.layers@),
                    k,
                    x_train@,
                    y_train@,
                    (epochs - epoch) as nat,
                    learning_rate,
                ),
            decreases epochs - epoch,
        {
            let ghost cur = layer_views(self.layers@);
            let ghost rem = (epochs - epoch) as nat;
            if x_train.shape().len() == 0 || x_train.shape().len() > 2 {
                return Err(TensorError::InvalidRank);
            }
            let input = x_train.clone();
            let output = match self.forward(input) {
                Ok(o) => o,
                Err(e) => {
                    return Err(e);
                },
            };
            let gradient = match self.loss_grad_fn.apply(&output, y_train) {
                Ok(g) => g,
                Err(e) => {
                    return Err(e);
                },
            };
            match self.backward_all(gradient, learning_rate) {
                Ok(_) => {
                    proof {
                        let (l1, r1) = network_forward_result(cur, x_train@);
                        let g0 = loss_gradient_model(k, output@, y_train@);
                        let (l2, r2) = network_backward_result(l1, g0, learning_rate);
                        assert(layer_views(self.layers@) == l2);
                        assert(network_fit_result(
                            layer_views(self.layers@),
                            k,
                            x_train@,
                            y_train@,
                            (rem - 1) as nat,
                            learning_rate,
                        ) == pair);
                    }
                },
                Err(e) => {
                    return Err(e);
                },
            }
            epoch = epoch + 1;
        }
        Ok(())
    }
}

/// The mathematical content of a builder: the layers added so far and the
/// loss gradient, if one was chosen yet.
#[verifier::ext_equal]
#[verifier::reject_recursive_types(T)]
pub ghost struct BuilderModel<T> {
    pub layers: Seq<LayerModel<T>>,
    pub loss_grad: Option<LossGradient>,
}

/// Accumulates layers and a loss gradient, then builds a network; building
/// fails unless a loss gradient was chosen.
pub struct NetworkBuilder<T: Scalar> {
    layers: Vec<NetworkLayer<T>>,
    loss_grad: Option<LossGradient>,
}

impl<T: Scalar> View for NetworkBuilder<T> {
    type V = BuilderModel<T>;

    closed spec fn view(&self) -> BuilderModel<T> {
        BuilderModel { layers: layer_views(self.layers@), loss_grad: self.loss_grad }
    }
}

impl<T: Scalar> NetworkBuilder<T> {
    /// A builder with no layers and no loss gradient yet.
    pub fn new() -> (r: Self)
        ensures
            r@.layers == Seq::<LayerModel<T>>::empty(),
            r@.loss_grad is None,
    {
        let b = NetworkBuilder { layers: Vec::new(), loss_grad: None };
        proof {
            assert(b@.layers =~= Seq::<LayerModel<T>>::empty());
        }
        b
    }

    /// Appends a layer to the stack.
    pub fn add_layer(self, layer: NetworkLayer<T>) -> (r: Self)
        ensures
            r@.layers == self@.layers.push(layer@),
            r@.loss_grad == self@.loss_grad,
    {
        let mut b = self;
        b.layers.push(layer);
        proof {
            assert(b@.layers =~= self@.layers.push(layer@));
        }
        b
    }

    /// Chooses the loss gradient the network will train with.
    pub fn loss_gradient(self, f: LossGradient) -> (r: Self)
        ensures
            r@.layers == self@.layers,
            r@.loss_grad == Some(f),
    {
        let mut b = self;
        b.loss_grad = Some(f);
        b
    }

    /// The finished network, or a message if no loss gradient was chosen.
    pub fn build(self) -> (r: Result<Network<T>, String>)
        ensures
            match r {
                Ok(n) => self@.loss_grad == Some(n@.loss_grad_fn) && n@.layers == self@.layers,
                Err(msg) => self@.loss_grad is None && msg@
                    == "Loss gradient function is required"@,
            },
    {
        match self.loss_grad {
            Some(loss_grad_fn) => Ok(Network { layers: self.layers, loss_grad_fn }),
            None => Err(String::from_str("Loss gradient function is required")),
        }
    }
}

} // verus!
