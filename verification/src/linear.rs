use vstd::prelude::*;

use crate::scalar::Scalar;
use crate::tensor::{
    empty_model, left_rows, matmul_error, matmul_model, right_cols, scale_data, sub_data,
    transpose_model, valid_rank, Tensor, TensorError, TensorModel,
};
use crate::{Layer, Rng};

verus! {

/// The mathematical content of a linear layer: its weight matrix and the
/// input its last forward pass cached.
#[verifier::ext_equal]
#[verifier::reject_recursive_types(T)]
pub ghost struct LinearModel<T> {
    pub weight: TensorModel<T>,
    pub input: TensorModel<T>,
}

/// The outcome the forward pass owes: `InvalidRank` on the empty sentinel,
/// then whatever the product `input . weight` owes.
pub open spec fn linear_forward_error<T>(l: LinearModel<T>, x: TensorModel<T>) -> Option<
    TensorError,
> {
    if !valid_rank(x.shape) {
        Some(TensorError::InvalidRank)
    } else {
        matmul_error(x, l.weight)
    }
}

/// The machine limit the forward pass asks of its caller: the product's
/// element count fits in memory.
pub open spec fn linear_forward_fits<T>(l: LinearModel<T>, x: TensorModel<T>) -> bool {
    matmul_error(x, l.weight) is None ==> left_rows(x.shape) * right_cols(l.weight.shape)
        <= usize::MAX
}

/// The layer and result a backward pass leaves behind, step by step: the
/// upstream gradient times the transposed weight is returned, the cached
/// input's transpose times the upstream gradient scales into a weight step,
/// and the weight moves one step against the gradient. The first failing
/// operation aborts with the layer unchanged.
pub open spec fn linear_backward_result<T: Scalar>(
    l: LinearModel<T>,
    e: TensorModel<T>,
    lr: T,
) -> (LinearModel<T>, Result<TensorModel<T>, TensorError>) {
    if !valid_rank(l.weight.shape) {
        (l, Err(TensorError::InvalidRank))
    } else {
        let wt = transpose_model(l.weight);
        match matmul_error(e, wt) {
            Some(err) => (l, Err(err)),
            None => {
                let input_error = matmul_model(e, wt);
                if !valid_rank(l.input.shape) {
                    (l, Err(TensorError::InvalidRank))
                } else {
                    let it = transpose_model(l.input);
                    match matmul_error(it, e) {
                        Some(err) => (l, Err(err)),
                        None => {
                            let grad = matmul_model(it, e);
                            let step = TensorModel {
                                data: scale_data(grad.data, lr),
                                shape: grad.shape,
                            };
                            if l.weight.shape != step.shape {
                                (l, Err(TensorError::ShapeMismatch))
                            } else {
                                (
                                    LinearModel {
                                        weight: TensorModel {
                                            data: sub_data(l.weight.data, step.data),
                                            shape: l.weight.shape,
                                        },
                                        input: l.input,
                                    },
                                    Ok(input_error),
                                )
                            }
                        },
                    }
                }
            },
        }
    }
}

/// The machine limits the backward pass asks of its caller: both products'
/// element counts fit in memory.
pub open spec fn linear_backward_fits<T: Scalar>(l: LinearModel<T>, e: TensorModel<T>) -> bool {
    &&& (valid_rank(l.weight.shape) && matmul_error(e, transpose_model(l.weight)) is None
        ==> left_rows(e.shape) * right_cols(transpose_model(l.weight).shape) <= usize::MAX)
    &&& (valid_rank(l.input.shape) && matmul_error(transpose_model(l.input), e) is None
        ==> left_rows(transpose_model(l.input).shape) * right_cols(e.shape) <= usize::MAX)
}

/// A fully connected layer without bias: a weight matrix of shape
/// `[in_features, out_features]` and the input its last forward pass cached
/// for the paired backward pass. Callers wanting a bias append a constant
/// one column to their input.
pub struct Linear<T: Scalar> {
    weight: Tensor<T>,
    input: Tensor<T>,
}

impl<T: Scalar> View for Linear<T> {
    type V = LinearModel<T>;

    closed spec fn view(&self) -> LinearModel<T> {
        LinearModel { weight: self.weight@, input: self.input@ }
    }
}

impl<T: Scalar> Linear<T> {
    /// A fresh layer whose `[in_features, out_features]` weight matrix is
    /// filled with draws from the caller's generator, normalized into the
    /// unit range; no input is cached yet.
    pub fn new<R: Rng>(in_features: usize, out_features: usize, rng: &mut R) -> (r: Self)
        requires
            in_features * out_features <= usize::MAX,
        ensures
            r@.weight.shape == seq![in_features, out_features],
            r@.weight.data.len() == in_features * out_features,
            r@.input == empty_model::<T>(),
    {
        let total = in_features * out_features;
        let mut weights: Vec<T> = Vec::new();
        let mut i: usize = 0;
        while i < total
            invariant
                i <= total,
                weights@.len() == i,
            decreases total - i,
        {
            weights.push(rng.next_unit());
            i = i + 1;
        }
        let mut shape: Vec<usize> = Vec::new();
        shape.push(in_features);
        shape.push(out_features);
        let ghost gs = shape@;
        let weight = Tensor::new(weights, shape).unwrap();
        proof {
            assert(gs =~= seq![in_features, out_features]);
        }
        Linear { weight, input: Tensor::empty() }
    }

    /// The forward pass: caches a copy of `input` and returns
    /// `input . weight` (shape `[batch, out_features]` for a `[batch,
    /// in_features]` input). Rejects the empty sentinel with `InvalidRank`
    /// before caching; shape errors surface from the product after caching.
    pub fn forward(&mut self, input: &Tensor<T>) -> (r: Result<Tensor<T>, TensorError>)
        requires
            linear_forward_fits(old(self)@, input@),
        ensures
            final(self)@.weight == old(self)@.weight,
            match r {
                Ok(out) => linear_forward_error(old(self)@, input@) is None && final(self)@.input
                    == input@ && out@ == matmul_model(input@, old(self)@.weight),
                Err(e) => linear_forward_error(old(self)@, input@) == Some(e) && (if !valid_rank(
                    input@.shape,
                ) {
                    final(self)@.input == old(self)@.input
                } else {
                    final(self)@.input == input@
                }),
            },
    {
        if input.shape().len() == 0 || input.shape().len() > 2 {
            return Err(TensorError::InvalidRank);
        }
        self.input = input.clone();
        input.matmul(&self.weight)
    }

    /// The backward pass: returns `output_error . weight^t` (the gradient to
    /// hand upstream), computes `input^t . output_error` as the weight
    /// gradient, and replaces the weight by `weight - learning_rate * grad`
    /// (plain gradient descent). The first failing step aborts with the
    /// weight unchanged.
    pub fn backward(&mut self, output_error: &Tensor<T>, learning_rate: T) -> (r: Result<
        Tensor<T>,
        TensorError,
    >)
        requires
            linear_backward_fits(old(self)@, output_error@),
        ensures
            ({
                let (lm, rr) = linear_backward_result(old(self)@, output_error@, learning_rate);
                final(self)@ == lm && (match (r, rr) {
                    (Ok(t), Ok(m)) => t@ == m,
                    (Err(e1), Err(e2)) => e1 == e2,
                    _ => false,
                })
            }),
    {
        let weight_t = self.weight.transpose()?;
        let input_error = output_error.matmul(&weight_t)?;
        let input_t = self.input.transpose()?;
        let weights_grad = input_t.matmul(output_error)?;
        let weight_step = weights_grad.scale(&learning_rate)?;
        self.weight = self.weight.sub(&weight_step)?;
        Ok(input_error)
    }

    /// The current weight matrix.
    pub fn weight(&self) -> (r: &Tensor<T>)
        ensures
            r@ == self@.weight,
    {
        &self.weight
    }

    /// Replaces the weight matrix, leaving the cached input alone.
    pub fn set_weight(&mut self, t: Tensor<T>)
        ensures
            final(self)@.weight == t@,
            final(self)@.input == old(self)@.input,
    {
        self.weight = t;
    }
}

impl<T: Scalar> Layer<T> for Linear<T> {
    open spec fn forward_req(&self, input: &Tensor<T>) -> bool {
        linear_forward_fits(self@, input@)
    }

    open spec fn backward_req(&self, output_error: &Tensor<T>, learning_rate: T) -> bool {
        linear_backward_fits(self@, output_error@)
    }

    fn forward(&mut self, input: &Tensor<T>) -> Result<Tensor<T>, TensorError> {
        Linear::forward(self, input)
    }

    fn backward(&mut self, output_error: &Tensor<T>, learning_rate: T) -> Result<
        Tensor<T>,
        TensorError,
    > {
        Linear::backward(self, output_error, learning_rate)
    }
}

} // verus!
