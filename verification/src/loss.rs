use vstd::prelude::*;

use crate::scalar::{IntScalar, Scalar};
use crate::tensor::{
    ew_error, fold_prefix, scalar_tensor, shapes_equal, sub_data, abs_data, powf_data, scale_data,
    total_sum, valid_rank, Tensor, TensorError, TensorModel,
};

verus! {

/// The outcome a loss owes its caller: `ShapeMismatch` unless the operands'
/// shapes are identical, `InvalidRank` on two empty sentinels, success
/// otherwise.
pub open spec fn loss_error<T>(p: TensorModel<T>, a: TensorModel<T>) -> Option<TensorError> {
    if p.shape != a.shape {
        Some(TensorError::ShapeMismatch)
    } else if !valid_rank(p.shape) {
        Some(TensorError::InvalidRank)
    } else {
        None
    }
}

/// One over the element count `n`: the factor that turns a sum into a mean.
pub open spec fn mean_factor<T: Scalar>(n: usize) -> T {
    T::div_spec(T::one_spec(), T::from_count_spec(n))
}

/// The mean absolute difference, as a `[1]` tensor.
pub open spec fn l1_loss_model<T: Scalar>(p: TensorModel<T>, a: TensorModel<T>) -> TensorModel<T> {
    scalar_tensor(
        T::mul_spec(
            total_sum(abs_data(sub_data(p.data, a.data))),
            mean_factor(p.data.len() as usize),
        ),
    )
}

/// The mean squared difference, as a `[1]` tensor.
pub open spec fn mse_loss_model<T: Scalar>(p: TensorModel<T>, a: TensorModel<T>) -> TensorModel<
    T,
> {
    scalar_tensor(
        T::mul_spec(
            total_sum(powf_data(sub_data(p.data, a.data), T::from_count_spec(2))),
            mean_factor(p.data.len() as usize),
        ),
    )
}

/// Two over the batch size: the factor of the mean-squared-error gradient.
/// It divides by the first shape dimension alone, not by the element count
/// `mse_loss` divides by — for multi-column outputs the two deliberately
/// disagree.
pub open spec fn mse_gradient_factor<T: Scalar>(p: TensorModel<T>) -> T {
    T::div_spec(T::from_count_spec(2), T::from_count_spec(p.shape[0]))
}

/// The mean-squared-error gradient: the element-wise difference scaled by
/// two over the batch size, keeping the predictions' shape.
pub open spec fn mse_loss_gradient_model<T: Scalar>(
    p: TensorModel<T>,
    a: TensorModel<T>,
) -> TensorModel<T> {
    TensorModel {
        data: scale_data(sub_data(p.data, a.data), mse_gradient_factor(p)),
        shape: p.shape,
    }
}

/// The binary-cross-entropy-after-sigmoid seed gradient: the element-wise
/// difference scaled by one over the element count.
pub open spec fn bce_sigmoid_delta_model<T: Scalar>(
    p: TensorModel<T>,
    a: TensorModel<T>,
) -> TensorModel<T> {
    TensorModel {
        data: scale_data(sub_data(p.data, a.data), mean_factor(p.data.len() as usize)),
        shape: p.shape,
    }
}

/// The mean absolute difference between predictions and targets: the sum of
/// `|predicted - actual|` over every element, divided by the element count.
pub fn l1_loss<T: Scalar>(predicted: &Tensor<T>, actual: &Tensor<T>) -> (r: Result<
    Tensor<T>,
    TensorError,
>)
    ensures
        match r {
            Ok(t) => loss_error(predicted@, actual@) is None && t@ == l1_loss_model(
                predicted@,
                actual@,
            ),
            Err(e) => loss_error(predicted@, actual@) == Some(e),
        },
{
    if !shapes_equal(predicted.shape(), actual.shape()) {
        return Err(TensorError::ShapeMismatch);
    }
    let count = predicted.data().len();
    let diff = predicted.sub(actual)?;
    let abs_diff = diff.abs()?;
    let total = abs_diff.sum(None)?;
    let factor = T::div(T::one(), T::from_count(count));
    let out = total.scale(&factor)?;
    proof {
        assert(abs_diff@.data =~= abs_data(sub_data(predicted@.data, actual@.data)));
        assert(out@.data =~= l1_loss_model(predicted@, actual@).data);
        assert(out@.shape =~= l1_loss_model(predicted@, actual@).shape);
    }
    Ok(out)
}

/// The mean squared difference between predictions and targets: the sum of
/// `(predicted - actual)^2` over every element, divided by the element count.
pub fn mse_loss<T: Scalar>(predicted: &Tensor<T>, actual: &Tensor<T>) -> (r: Result<
    Tensor<T>,
    TensorError,
>)
    ensures
        match r {
            Ok(t) => loss_error(predicted@, actual@) is None && t@ == mse_loss_model(
                predicted@,
                actual@,
            ),
            Err(e) => loss_error(predicted@, actual@) == Some(e),
        },
{
    if !shapes_equal(predicted.shape(), actual.shape()) {
        return Err(TensorError::ShapeMismatch);
    }
    let count = predicted.data().len();
    let diff = predicted.sub(actual)?;
    let squared = diff.powf(T::from_count(2))?;
    let total = squared.sum(None)?;
    let factor = T::div(T::one(), T::from_count(count));
    let out = total.scale(&factor)?;
    proof {
        assert(squared@.data =~= powf_data(
            sub_data(predicted@.data, actual@.data),
            T::from_count_spec(2),
        ));
        assert(out@.data =~= mse_loss_model(predicted@, actual@).data);
        assert(out@.shape =~= mse_loss_model(predicted@, actual@).shape);
    }
    Ok(out)
}

/// The gradient of the mean squared error with respect to the predictions:
/// `(predicted - actual)` scaled by two over the batch size (the first shape
/// dimension). Shape errors surface from the subtraction itself.
pub fn mse_loss_gradient<T: Scalar>(predicted: &Tensor<T>, actual: &Tensor<T>) -> (r: Result<
    Tensor<T>,
    TensorError,
>)
    ensures
        match r {
            Ok(t) => ew_error(predicted@, actual@) is None && t@ == mse_loss_gradient_model(
                predicted@,
                actual@,
            ),
            Err(e) => ew_error(predicted@, actual@) == Some(e),
        },
{
    let diff = predicted.sub(actual)?;
    let batch = predicted.shape()[0];
    let factor = T::div(T::from_count(2), T::from_count(batch));
    let out = diff.scale(&factor)?;
    proof {
        assert(out@.data =~= mse_loss_gradient_model(predicted@, actual@).data);
    }
    Ok(out)
}

/// The seed gradient of binary cross-entropy composed with a sigmoid output:
/// `(predicted - actual)` scaled by one over the element count. It assumes
/// the predictions already went through a sigmoid and is only meant as the
/// entry gradient of a backward pass, never as a loss value.
pub fn bce_sigmoid_delta<T: Scalar>(predicted: &Tensor<T>, actual: &Tensor<T>) -> (r: Result<
    Tensor<T>,
    TensorError,
>)
    ensures
        match r {
            Ok(t) => loss_error(predicted@, actual@) is None && t@ == bce_sigmoid_delta_model(
                predicted@,
                actual@,
            ),
            Err(e) => loss_error(predicted@, actual@) == Some(e),
        },
{
    if !shapes_equal(predicted.shape(), actual.shape()) {
        return Err(TensorError::ShapeMismatch);
    }
    let count = predicted.data().len();
    let diff = predicted.sub(actual)?;
    let factor = T::div(T::one(), T::from_count(count));
    let out = diff.scale(&factor)?;
    proof {
        assert(out@.data =~= bce_sigmoid_delta_model(predicted@, actual@).data);
    }
    Ok(out)
}

/// Folding a buffer of zeros gives zero, whatever its length.
proof fn lemma_fold_zero(d: Seq<IntScalar>, k: int)
    requires
        forall|i: int| 0 <= i < d.len() ==> d[i] == IntScalar(0),
        k <= d.len(),
    ensures
        fold_prefix(d, k) == IntScalar(0),
    decreases k,
{
    if k > 0 {
        lemma_fold_zero(d, k - 1);
    }
}

/// A prediction measured against itself has no error: over the exact integer
/// scalar, the mean absolute difference of a tensor with itself is the zero
/// tensor `[0]`. (An IEEE float scalar can break this on non-finite
/// elements, where `x - x` is not zero.)
pub proof fn lemma_l1_loss_self_zero(m: TensorModel<IntScalar>)
    ensures
        l1_loss_model(m, m) == scalar_tensor(IntScalar(0)),
{
    let d = abs_data(sub_data(m.data, m.data));
    assert forall|i: int| 0 <= i < d.len() implies d[i] == IntScalar(0) by {
        assert(IntScalar::sub_spec(m.data[i], m.data[i]) == IntScalar(0));
    }
    lemma_fold_zero(d, d.len() as int);
    assert(total_sum(d) == IntScalar(0));
    assert(l1_loss_model(m, m) =~= scalar_tensor(IntScalar(0)));
}

/// A prediction measured against itself has no error: over the exact integer
/// scalar, the mean squared difference of a tensor with itself is the zero
/// tensor `[0]`. (An IEEE float scalar can break this on non-finite
/// elements.)
pub proof fn lemma_mse_loss_self_zero(m: TensorModel<IntScalar>)
    ensures
        mse_loss_model(m, m) == scalar_tensor(IntScalar(0)),
{
    let d = powf_data(sub_data(m.data, m.data), IntScalar::from_count_spec(2));
    assert forall|i: int| 0 <= i < d.len() implies d[i] == IntScalar(0) by {
        assert(IntScalar::sub_spec(m.data[i], m.data[i]) == IntScalar(0));
        assert(IntScalar::powf_spec(IntScalar(0), IntScalar(2)) == IntScalar(0)) by {
            assert(vstd::wrapping::i64_specs::wrapping_mul(crate::scalar::int_pow(0i64, 1nat), 0i64)
                == 0i64);
        }
    }
    lemma_fold_zero(d, d.len() as int);
    assert(total_sum(d) == IntScalar(0));
    assert(mse_loss_model(m, m) =~= scalar_tensor(IntScalar(0)));
}

} // verus!
