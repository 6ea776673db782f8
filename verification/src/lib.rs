//! A small verified numerical core for training feed-forward networks: a
//! rank-limited tensor type with element-wise and matrix algebra, layers
//! implementing forward and backward propagation, loss functions, and a
//! sequential network with a gradient-descent training loop.
//!
//! Every tensor operation is specified element by element over an abstract
//! [`scalar::Scalar`] type, whose spec functions fix the meaning of the
//! scalar arithmetic. The crate proves each operation returns exactly the
//! specified composition of scalar operations, whatever the scalar type;
//! [`scalar::IntScalar`] is a fully verified exact instantiation, and a
//! caller may supply another (such as a machine float) outside this crate.

use vstd::prelude::*;

pub mod activation;
pub mod linear;
pub mod loss;
pub mod neural_network;
pub mod plot;
pub mod scalar;
pub mod tensor;

use crate::scalar::Scalar;
use crate::tensor::{Tensor, TensorError};

verus! {

/// A source of raw 32-bit draws. The caller supplies and seeds the
/// generator; the crate only consumes it, to fill fresh weight matrices.
pub trait Rng {
    fn next_u32(&mut self) -> i32;

    /// The next draw normalized into the scalar type's unit range (the raw
    /// 32-bit draw divided by `i32::MAX`, in the scalar's own terms).
    fn next_unit<T: Scalar>(&mut self) -> T {
        T::from_unit(self.next_u32())
    }
}

/// The capability a network layer offers: a forward pass from an input to an
/// output, and a backward pass from the gradient with respect to the output
/// to the gradient with respect to the input, updating any trainable state
/// on the way. `forward` must precede its matching `backward`, which reads
/// the input the last `forward` cached.
pub trait Layer<T: Scalar> {
    /// What a caller must establish before this layer's forward pass (for
    /// the linear layer, that the product's size fits in memory).
    spec fn forward_req(&self, input: &Tensor<T>) -> bool;

    /// What a caller must establish before this layer's backward pass.
    spec fn backward_req(&self, output_error: &Tensor<T>, learning_rate: T) -> bool;

    fn forward(&mut self, input: &Tensor<T>) -> Result<Tensor<T>, TensorError>
        requires
            old(self).forward_req(input),
    ;

    fn backward(&mut self, output_error: &Tensor<T>, learning_rate: T) -> Result<
        Tensor<T>,
        TensorError,
    >
        requires
            old(self).backward_req(output_error, learning_rate),
    ;
}

} // verus!
