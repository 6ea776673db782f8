use vstd::prelude::*;

use crate::scalar::Scalar;
use crate::tensor::{
    clone_usize_vec, empty_model, mul_data, relu_data, relu_prime_data, unary_error, valid_rank,
    Tensor, TensorError, TensorModel,
};
use crate::Layer;

verus! {

/// The activation functions a layer can apply.
#[derive(Debug, Clone, Copy, PartialEq, Eq, Structural)]
pub enum ActivationType {
    ReLU,
    Sigmoid,
    Tanh,
}

/// Minus one: the factor that negates an input before exponentiation.
pub open spec fn neg_one_spec<T: Scalar>() -> T {
    T::sub_spec(T::zero_spec(), T::one_spec())
}

/// The logistic function `1 / (1 + e^(-v))`, composed exactly as the layer
/// computes it from the scalar operations.
pub open spec fn sigmoid_elem<T: Scalar>(v: T) -> T {
    T::div_spec(
        T::one_spec(),
        T::add_spec(T::one_spec(), T::exp_spec(T::mul_spec(v, neg_one_spec()))),
    )
}

/// Element-wise logistic function.
pub open spec fn sigmoid_data<T: Scalar>(d: Seq<T>) -> Seq<T> {
    Seq::new(d.len(), |i: int| sigmoid_elem(d[i]))
}

/// The hyperbolic tangent `(e^v - e^(-v)) / (e^v + e^(-v))`, composed exactly
/// as the layer computes it.
pub open spec fn tanh_elem<T: Scalar>(v: T) -> T {
    T::div_spec(
        T::sub_spec(T::exp_spec(v), T::exp_spec(T::mul_spec(v, neg_one_spec()))),
        T::add_spec(T::exp_spec(v), T::exp_spec(T::mul_spec(v, neg_one_spec()))),
    )
}

/// Element-wise hyperbolic tangent.
pub open spec fn tanh_data<T: Scalar>(d: Seq<T>) -> Seq<T> {
    Seq::new(d.len(), |i: int| tanh_elem(d[i]))
}

/// The logistic derivative `s(v) * (1 - s(v))`, recomputed from the cached
/// input.
pub open spec fn sigmoid_prime_elem<T: Scalar>(v: T) -> T {
    T::mul_spec(sigmoid_elem(v), T::sub_spec(T::one_spec(), sigmoid_elem(v)))
}

/// The hyperbolic tangent derivative `1 - tanh(v)^2`.
pub open spec fn tanh_prime_elem<T: Scalar>(v: T) -> T {
    T::sub_spec(T::one_spec(), T::mul_spec(tanh_elem(v), tanh_elem(v)))
}

/// What the forward pass returns: the chosen activation applied element-wise.
pub open spec fn activation_forward_data<T: Scalar>(t: ActivationType, d: Seq<T>) -> Seq<T> {
    match t {
        ActivationType::ReLU => relu_data(d),
        ActivationType::Sigmoid => sigmoid_data(d),
        ActivationType::Tanh => tanh_data(d),
    }
}

/// What the backward pass returns: the upstream gradient times the
/// activation's derivative at the cached input.
pub open spec fn activation_backward_data<T: Scalar>(
    t: ActivationType,
    input: Seq<T>,
    oe: Seq<T>,
) -> Seq<T> {
    match t {
        ActivationType::ReLU => mul_data(oe, relu_prime_data(input)),
        ActivationType::Sigmoid => mul_data(
            oe,
            Seq::new(input.len(), |i: int| sigmoid_prime_elem(input[i])),
        ),
        ActivationType::Tanh => mul_data(oe, Seq::new(input.len(), |i: int| tanh_prime_elem(input[i]))),
    }
}

/// The outcome the backward pass owes: `InvalidRank` while no forward pass
/// has cached an input, `ShapeMismatch` unless the upstream gradient matches
/// the cached input's shape.
pub open spec fn activation_backward_error<T>(
    input: TensorModel<T>,
    oe: TensorModel<T>,
) -> Option<TensorError> {
    if !valid_rank(input.shape) {
        Some(TensorError::InvalidRank)
    } else if oe.shape != input.shape {
        Some(TensorError::ShapeMismatch)
    } else {
        None
    }
}

/// The mathematical content of an activation layer: its kind and the input
/// its last forward pass cached.
#[verifier::ext_equal]
#[verifier::reject_recursive_types(T)]
pub ghost struct ActivationModel<T> {
    pub input: TensorModel<T>,
    pub t: ActivationType,
}

/// A shape-preserving activation layer. `forward` caches its input and
/// applies the chosen function element-wise; `backward` multiplies the
/// upstream gradient by the function's derivative at the cached input.
/// `forward` must precede its matching `backward`.
pub struct Activation<T: Scalar> {
    input: Tensor<T>,
    t: ActivationType,
}

impl<T: Scalar> View for Activation<T> {
    type V = ActivationModel<T>;

    closed spec fn view(&self) -> ActivationModel<T> {
        ActivationModel { input: self.input@, t: self.t }
    }
}

impl<T: Scalar> Activation<T> {
    /// A fresh layer of the given kind, with the empty sentinel cached in
    /// place of an input.
    pub fn new(t: ActivationType) -> (r: Self)
        ensures
            r@.input == empty_model::<T>(),
            r@.t == t,
    {
        Activation { input: Tensor::empty(), t }
    }

    /// The forward pass: caches a copy of `input` and returns the activation
    /// applied element-wise, preserving the shape. Rejects the empty sentinel
    /// with `InvalidRank`, leaving the cache untouched.
    pub fn forward(&mut self, input: &Tensor<T>) -> (r: Result<Tensor<T>, TensorError>)
        ensures
            match r {
                Ok(out) => unary_error(input@) is None && final(self)@.input == input@
                    && final(self)@.t == old(self)@.t && out@.shape == input@.shape && out@.data
                    == activation_forward_data(old(self)@.t, input@.data),
                Err(e) => unary_error(input@) == Some(e) && final(self)@ == old(self)@,
            },
    {
        proof {
            use_type_invariant(input);
        }
        if input.shape().len() == 0 || input.shape().len() > 2 {
            return Err(TensorError::InvalidRank);
        }
        // the buffer length bounds the element count the one-filled tensors
        // of the sigmoid and tanh compositions need
        let count = input.data().len();
        self.input = input.clone();
        match self.t {
            ActivationType::ReLU => input.relu(),
            ActivationType::Sigmoid => {
                let neg_one = T::sub(T::zero(), T::one());
                let neg_x = input.scale(&neg_one)?;
                let exp_neg = neg_x.exp()?;
                let ones = Tensor::one(clone_usize_vec(input.shape()))?;
                let denominator = ones.add(&exp_neg)?;
                let numerator = Tensor::one(clone_usize_vec(input.shape()))?;
                let out = numerator.div(&denominator)?;
                proof {
                    assert(out@.data =~= sigmoid_data(input@.data));
                }
                Ok(out)
            },
            ActivationType::Tanh => {
                let neg_one = T::sub(T::zero(), T::one());
                let exp_x = input.exp()?;
                let exp_neg_x = input.scale(&neg_one)?.exp()?;
                let numerator = exp_x.sub(&exp_neg_x)?;
                let denominator = exp_x.add(&exp_neg_x)?;
                let out = numerator.div(&denominator)?;
                proof {
                    assert(out@.data =~= tanh_data(input@.data));
                }
                Ok(out)
            },
        }
    }

    /// The backward pass: the upstream gradient multiplied element-wise by
    /// the activation's derivative at the input the last forward pass
    /// cached. Mutates nothing.
    pub fn backward(&mut self, output_error: &Tensor<T>) -> (r: Result<Tensor<T>, TensorError>)
        ensures
            final(self)@ == old(self)@,
            match r {
                Ok(out) => activation_backward_error(old(self)@.input, output_error@) is None
                    && out@.shape == old(self)@.input.shape && out@.data
                    == activation_backward_data(
                    old(self)@.t,
                    old(self)@.input.data,
                    output_error@.data,
                ),
                Err(e) => activation_backward_error(old(self)@.input, output_error@) == Some(e),
            },
    {
        proof {
            use_type_invariant(&self.input);
            use_type_invariant(output_error);
        }
        match self.t {
            ActivationType::ReLU => {
                let mask = self.input.relu_prime()?;
                let out = output_error.mul(&mask)?;
                proof {
                    assert(out@.data =~= activation_backward_data(
                        self@.t,
                        self@.input.data,
                        output_error@.data,
                    ));
                }
                Ok(out)
            },
            ActivationType::Sigmoid => {
                // bounds the element count of the one-filled tensors below
                let count = self.input.data().len();
                let neg_one = T::sub(T::zero(), T::one());
                let neg_input = self.input.scale(&neg_one)?;
                let denominator = Tensor::one(clone_usize_vec(self.input.shape()))?.add(
                    &neg_input.exp()?,
                )?;
                let a = Tensor::one(clone_usize_vec(self.input.shape()))?.div(&denominator)?;
                let one_t = Tensor::one(clone_usize_vec(a.shape()))?;
                let sigmoid_prime = a.mul(&one_t.sub(&a)?)?;
                let out = output_error.mul(&sigmoid_prime)?;
                proof {
                    assert(out@.data =~= activation_backward_data(
                        self@.t,
                        self@.input.data,
                        output_error@.data,
                    ));
                }
                Ok(out)
            },
            ActivationType::Tanh => {
                // bounds the element count of the one-filled tensors below
                let count = self.input.data().len();
                let neg_one = T::sub(T::zero(), T::one());
                let exp_x = self.input.exp()?;
                let exp_neg_x = self.input.scale(&neg_one)?.exp()?;
                let tanh_x = exp_x.sub(&exp_neg_x)?.div(&exp_x.add(&exp_neg_x)?)?;
                let one_t = Tensor::one(clone_usize_vec(tanh_x.shape()))?;
                let tanh_sq = tanh_x.mul(&tanh_x)?;
                let tanh_prime = one_t.sub(&tanh_sq)?;
                let out = output_error.mul(&tanh_prime)?;
                proof {
                    assert(out@.data =~= activation_backward_data(
                        self@.t,
                        self@.input.data,
                        output_error@.data,
                    ));
                }
                Ok(out)
            },
        }
    }
}

impl<T: Scalar> Layer<T> for Activation<T> {
    open spec fn forward_req(&self, input: &Tensor<T>) -> bool {
        true
    }

    open spec fn backward_req(&self, output_error: &Tensor<T>, learning_rate: T) -> bool {
        true
    }

    fn forward(&mut self, input: &Tensor<T>) -> Result<Tensor<T>, TensorError> {
        Activation::forward(self, input)
    }

    fn backward(&mut self, output_error: &Tensor<T>, learning_rate: T) -> Result<
        Tensor<T>,
        TensorError,
    > {
        Activation::backward(self, output_error)
    }
}

} // verus!
