use build_your_own_nn::scalar::Scalar;
use build_your_own_nn::tensor::{Tensor, TensorError};

/// A single-precision float scalar: the element type the networks are
/// meant to train with. The `*_spec` items mirror the executable operations.
#[derive(Clone, Copy, Debug, PartialEq)]
struct F(f32);

impl Scalar for F {
    fn zero_spec() -> Self {
        F(0.0)
    }
    fn one_spec() -> Self {
        F(1.0)
    }
    fn add_spec(a: Self, b: Self) -> Self {
        F(a.0 + b.0)
    }
    fn sub_spec(a: Self, b: Self) -> Self {
        F(a.0 - b.0)
    }
    fn mul_spec(a: Self, b: Self) -> Self {
        F(a.0 * b.0)
    }
    fn div_spec(a: Self, b: Self) -> Self {
        F(a.0 / b.0)
    }
    fn abs_spec(a: Self) -> Self {
        F(a.0.abs())
    }
    fn powf_spec(a: Self, p: Self) -> Self {
        F(a.0.powf(p.0))
    }
    fn exp_spec(a: Self) -> Self {
        F(a.0.exp())
    }
    fn relu_spec(a: Self) -> Self {
        if a.0 > 0.0 { a } else { F(0.0) }
    }
    fn relu_prime_spec(a: Self) -> Self {
        if a.0 > 0.0 { F(1.0) } else { F(0.0) }
    }
    fn from_count_spec(n: usize) -> Self {
        F(n as f32)
    }
    fn from_unit_spec(x: i32) -> Self {
        F(x as f32 / i32::MAX as f32)
    }
    fn zero() -> Self {
        F(0.0)
    }
    fn one() -> Self {
        F(1.0)
    }
    fn add(a: Self, b: Self) -> Self {
        F(a.0 + b.0)
    }
    fn sub(a: Self, b: Self) -> Self {
        F(a.0 - b.0)
    }
    fn mul(a: Self, b: Self) -> Self {
        F(a.0 * b.0)
    }
    fn div(a: Self, b: Self) -> Self {
        F(a.0 / b.0)
    }
    fn abs(a: Self) -> Self {
        F(a.0.abs())
    }
    fn powf(a: Self, p: Self) -> Self {
        F(a.0.powf(p.0))
    }
    fn exp(a: Self) -> Self {
        F(a.0.exp())
    }
    fn relu(a: Self) -> Self {
        if a.0 > 0.0 { a } else { F(0.0) }
    }
    fn relu_prime(a: Self) -> Self {
        if a.0 > 0.0 { F(1.0) } else { F(0.0) }
    }
    fn from_count(n: usize) -> Self {
        F(n as f32)
    }
    fn from_unit(x: i32) -> Self {
        F(x as f32 / i32::MAX as f32)
    }
}

fn fv(data: Vec<f32>) -> Vec<F> {
    data.into_iter().map(F).collect()
}

fn new_tensor(data: Vec<f32>, shape: Vec<usize>) -> Result<Tensor<F>, TensorError> {
    Tensor::new(fv(data), shape)
}

// The happy path test
#[test]
fn test_tensor_creation() {
    let data = vec![1.0, 2.0, 3.0, 4.0];
    let shape = vec![2, 2];
    let tensor = new_tensor(data.clone(), shape.clone()).unwrap();

    assert_eq!(tensor.data(), &fv(data));
    assert_eq!(tensor.shape(), &shape);
}

// Test the invariant; ensure data and shape are consistent with each other
#[test]
fn test_invalid_shape_creation() {
    let result = new_tensor(vec![1.0], vec![2, 2]);
    assert!(result.is_err());
    assert_eq!(result.unwrap_err(), TensorError::InconsistentData);
}

// To test our self imposed restriction to allow only up to 2D
// When we'll allow more dimensions, this test should be removed
#[test]
fn test_rank_limits() {
    // We currently don't support 3D tensors (Rank 3)
    let result = new_tensor(vec![1.0; 8], vec![2, 2, 2]);

    assert!(result.is_err());
    assert_eq!(result.unwrap_err(), TensorError::InvalidRank);
}

#[test]
fn test_tensor_operations() -> Result<(), TensorError> {
    let a = new_tensor(vec![1.0, 2.0, 3.0, 4.0], vec![2, 2])?;
    let b = new_tensor(vec![5.0, 6.0, 7.0, 8.0], vec![2, 2])?;

    let c = a.add(&b)?;
    assert_eq!(c.data(), &fv(vec![6.0, 8.0, 10.0, 12.0]));
    assert_eq!(c.shape(), &[2, 2]);

    let d = a.sub(&b)?;
    assert_eq!(d.data(), &fv(vec![-4.0, -4.0, -4.0, -4.0]));

    let e = a.mul(&b)?;
    assert_eq!(e.data(), &fv(vec![5.0, 12.0, 21.0, 32.0]));

    Ok(())
}

#[test]
fn test_transpose_square() -> Result<(), TensorError> {
    // 1.0, 2.0

    // 3.0, 4.0

    let a = new_tensor(vec![1.0, 2.0, 3.0, 4.0], vec![2, 2])?;

    let swapped = a.transpose()?;

    // Should become:

    // 1.0, 3.0

    // 2.0, 4.0

    assert_eq!(swapped.data(), &fv(vec![1.0, 3.0, 2.0, 4.0]));

    assert_eq!(swapped.shape(), &[2, 2]);
    Ok(())
}

#[test]
fn test_transpose_rectangular() -> Result<(), TensorError> {
    let a = new_tensor(vec![1.0, 2.0, 3.0, 4.0, 5.0, 6.0], vec![2, 3])?;
    let swapped = a.transpose()?;

    assert_eq!(swapped.data(), &fv(vec![1.0, 4.0, 2.0, 5.0, 3.0, 6.0]));
    assert_eq!(swapped.shape(), &[3, 2]);
    Ok(())
}

#[test]
fn test_transpose_1d() -> Result<(), TensorError> {
    let a = new_tensor(vec![1.0, 2.0, 3.0, 4.0, 5.0, 6.0], vec![6])?;
    let swapped = a.transpose()?;

    assert_eq!(swapped.data(), &fv(vec![1.0, 2.0, 3.0, 4.0, 5.0, 6.0]));
    assert_eq!(swapped.shape(), &[6]);
    Ok(())
}

#[test]
fn test_matmul() -> Result<(), TensorError> {
    let a = new_tensor(vec![1.0, 2.0, 3.0, 4.0], vec![2, 2])?;
    let b = new_tensor(vec![5.0, 6.0, 7.0, 8.0], vec![2, 2])?;
    let c = a.matmul_naive(&b)?;
    let c1 = a.matmul(&b)?;
    assert_eq!(c.data(), &fv(vec![19.0, 22.0, 43.0, 50.0]));
    assert_eq!(c.shape(), &[2, 2]);
    assert_eq!(c.data(), c1.data());
    assert_eq!(c.shape(), c1.shape());

    let d = new_tensor(vec![1.0, 2.0, 3.0, 4.0, 5.0, 6.0], vec![2, 3])?;
    let e = new_tensor(vec![7.0, 8.0, 9.0, 10.0, 11.0, 12.0], vec![3, 2])?;
    let f = d.matmul_naive(&e)?;
    let f1 = d.matmul(&e)?;
    assert_eq!(f.data(), &fv(vec![58.0, 64.0, 139.0, 154.0]));
    assert_eq!(f.shape(), &[2, 2]);
    assert_eq!(f.data(), f1.data());
    assert_eq!(f.shape(), f1.shape());

    let g = new_tensor(vec![1.0, 2.0, 3.0], vec![3, 1])?;
    let h = new_tensor(vec![4.0, 5.0, 6.0], vec![1, 3])?;
    let i = g.matmul_naive(&h)?;
    let i1 = g.matmul(&h)?;
    assert_eq!(
        i.data(),
        &fv(vec![4.0, 5.0, 6.0, 8.0, 10.0, 12.0, 12.0, 15.0, 18.0])
    );
    assert_eq!(i.shape(), &[3, 3]);
    assert_eq!(i.data(), i1.data());
    assert_eq!(i.shape(), i1.shape());

    let j = new_tensor(vec![1.0, 2.0, 3.0], vec![1, 3])?;
    let k = new_tensor(vec![4.0, 5.0, 6.0], vec![3, 1])?;
    let l = j.matmul_naive(&k)?;
    let l1 = j.matmul(&k)?;
    assert_eq!(l.data(), &fv(vec![32.0]));
    assert_eq!(l.shape(), &[1, 1]);
    assert_eq!(l.data(), l1.data());
    assert_eq!(l.shape(), l1.shape());

    let m = new_tensor(vec![1.0, 2.0, 3.0], vec![3])?;
    let n = new_tensor(vec![4.0, 5.0, 6.0], vec![3])?;
    let o = m.matmul_naive(&n)?;
    let o1 = m.matmul(&n)?;
    assert_eq!(o.data(), &fv(vec![32.0]));
    assert_eq!(o.shape(), &[1]);
    assert_eq!(o.data(), o1.data());
    assert_eq!(o.shape(), o1.shape());

    let p = new_tensor(vec![1.0, 2.0, 3.0], vec![3])?;
    let q = new_tensor(vec![4.0, 5.0, 6.0], vec![1, 3])?;
    let r = q.matmul_naive(&p)?;
    let r1 = q.matmul(&p)?;
    assert_eq!(r.data(), &fv(vec![32.0]));
    assert_eq!(r.shape(), &[1]);
    assert_eq!(r.data(), r1.data());
    assert_eq!(r.shape(), r1.shape());

    let s = new_tensor(vec![1.0, 2.0, 3.0], vec![3])?;
    let t = new_tensor(vec![4.0, 5.0, 6.0], vec![3, 1])?;
    let u = s.matmul_naive(&t)?;
    let u1 = s.matmul(&t)?;
    assert_eq!(u.data(), &fv(vec![32.0]));
    assert_eq!(u.shape(), &[1]);
    assert_eq!(u.data(), u1.data());
    assert_eq!(u.shape(), u1.shape());

    Ok(())
}

fn setup_matrix_for_reduction() -> Tensor<F> {
    let data = vec![
        1000.0, 2000.0, 3000.0, 1200.0, 1800.0, 2000.0, 1500.0, 2500.0, 2200.0,
    ];
    new_tensor(data, vec![3, 3]).expect("Failed to create matrix for reduction tests")
}

#[test]
fn test_reduce_sum_global() {
    let tensor = setup_matrix_for_reduction();
    let res = tensor.sum(None).unwrap();

    assert_eq!(res.data(), &fv(vec![17200.0]));
    assert_eq!(res.shape(), &[1]);
}

#[test]
fn test_reduce_sum_axis_0_brand_total() {
    let tensor = setup_matrix_for_reduction();
    let res = tensor.sum(Some(0)).unwrap();

    assert_eq!(res.data(), &fv(vec![3700.0, 6300.0, 7200.0]));
    assert_eq!(res.shape(), &[3]);
}

#[test]
fn test_reduce_sum_axis_1_monthly_total() {
    let tensor = setup_matrix_for_reduction();
    let res = tensor.sum(Some(1)).unwrap();

    assert_eq!(res.data(), &fv(vec![6000.0, 5000.0, 6200.0]));
    assert_eq!(res.shape(), &[3]);
}

#[test]
fn test_reduce_sum_1d_tensor() {
    let tensor = new_tensor(vec![1.0, 2.0, 3.0], vec![3]).unwrap();
    let res = tensor.sum(Some(0)).unwrap();

    assert_eq!(res.data(), &fv(vec![6.0]));
    assert_eq!(res.shape(), &[1]);
}

#[test]
fn test_reduce_sum_invalid_axis() {
    let tensor = setup_matrix_for_reduction();
    let res = tensor.sum(Some(2));

    assert_eq!(res.err(), Some(TensorError::InvalidRank));
}

#[test]
fn test_reduce_sum_empty() {
    let tensor = new_tensor(vec![], vec![0]).unwrap();
    let res = tensor.sum(Some(2));

    assert_eq!(res.err(), Some(TensorError::InvalidRank));
}

// The global sum of a matrix agrees with summing either axis reduction.
#[test]
fn test_reduce_sum_axes_agree_with_global() {
    let tensor = setup_matrix_for_reduction();
    let global = tensor.sum(None).unwrap();
    let cols = tensor.sum(Some(0)).unwrap().sum(None).unwrap();
    let rows = tensor.sum(Some(1)).unwrap().sum(None).unwrap();

    assert_eq!(global.data(), cols.data());
    assert_eq!(global.data(), rows.data());
}

// Transposing twice gives the starting tensor back, for matrices and vectors.
#[test]
fn test_transpose_involution() -> Result<(), TensorError> {
    let a = new_tensor(vec![1.0, 2.0, 3.0, 4.0, 5.0, 6.0], vec![2, 3])?;
    let back = a.transpose()?.transpose()?;
    assert_eq!(back.data(), a.data());
    assert_eq!(back.shape(), a.shape());

    let v = new_tensor(vec![7.0, 8.0], vec![2])?;
    let vback = v.transpose()?.transpose()?;
    assert_eq!(vback.data(), v.data());
    assert_eq!(vback.shape(), v.shape());
    Ok(())
}

// Element-wise operations on disagreeing shapes fail with ShapeMismatch.
#[test]
fn test_elementwise_shape_mismatch() {
    let a = new_tensor(vec![1.0, 2.0], vec![2]).unwrap();
    let b = new_tensor(vec![1.0, 2.0], vec![2, 1]).unwrap();
    assert_eq!(a.add(&b).unwrap_err(), TensorError::ShapeMismatch);
    assert_eq!(a.sub(&b).unwrap_err(), TensorError::ShapeMismatch);
    assert_eq!(a.mul(&b).unwrap_err(), TensorError::ShapeMismatch);
    assert_eq!(a.div(&b).unwrap_err(), TensorError::ShapeMismatch);
}

// Matrix multiplication with disagreeing inner dimensions fails.
#[test]
fn test_matmul_shape_mismatch() {
    let a = new_tensor(vec![1.0, 2.0, 3.0, 4.0], vec![2, 2]).unwrap();
    let b = new_tensor(vec![1.0, 2.0, 3.0], vec![3, 1]).unwrap();
    assert_eq!(a.matmul(&b).unwrap_err(), TensorError::ShapeMismatch);
    assert_eq!(a.matmul_naive(&b).unwrap_err(), TensorError::ShapeMismatch);
}

// The empty sentinel is rejected wherever a rank is needed.
#[test]
fn test_empty_sentinel_rank_errors() {
    let e: Tensor<F> = Tensor::empty();
    assert_eq!(e.data().len(), 0);
    assert_eq!(e.shape().len(), 0);
    assert_eq!(e.add(&Tensor::empty()).unwrap_err(), TensorError::InvalidRank);
    assert_eq!(e.relu().unwrap_err(), TensorError::InvalidRank);
    assert_eq!(e.transpose().unwrap_err(), TensorError::InvalidRank);
    let v = new_tensor(vec![1.0], vec![1]).unwrap();
    assert_eq!(e.matmul(&v).unwrap_err(), TensorError::InvalidRank);
    assert_eq!(v.matmul(&e).unwrap_err(), TensorError::InvalidRank);
}

// The unary operations, element by element.
#[test]
fn test_unary_operations() -> Result<(), TensorError> {
    let a = new_tensor(vec![-1.5, 0.0, 2.0], vec![3])?;
    assert_eq!(a.abs()?.data(), &fv(vec![1.5, 0.0, 2.0]));
    assert_eq!(a.relu()?.data(), &fv(vec![0.0, 0.0, 2.0]));
    assert_eq!(a.relu_prime()?.data(), &fv(vec![0.0, 0.0, 1.0]));
    assert_eq!(a.scale(&F(-2.0))?.data(), &fv(vec![3.0, -0.0, -4.0]));
    assert_eq!(a.powf(F(2.0))?.data(), &fv(vec![2.25, 0.0, 4.0]));

    let b = new_tensor(vec![0.0, 1.0], vec![2])?;
    let exp = b.exp()?;
    assert_eq!(exp.data()[0], F(1.0));
    assert!((exp.data()[1].0 - std::f32::consts::E).abs() < 1e-6);

    let one = Tensor::<F>::one(vec![2, 2])?;
    assert_eq!(one.data(), &fv(vec![1.0, 1.0, 1.0, 1.0]));
    assert_eq!(one.shape(), &[2, 2]);

    let c = new_tensor(vec![1.0, -4.0], vec![2])?;
    let d = new_tensor(vec![2.0, 8.0], vec![2])?;
    assert_eq!(c.div(&d)?.data(), &fv(vec![0.5, -0.5]));

    let copy = c.clone();
    assert_eq!(copy.data(), c.data());
    assert_eq!(copy.shape(), c.shape());
    Ok(())
}

// Each error's description.
#[test]
fn test_error_messages() {
    assert_eq!(
        TensorError::ShapeMismatch.message(),
        "Tensor shapes do not match for the operation."
    );
    assert_eq!(
        TensorError::InvalidRank.message(),
        "Tensor rank is invalid (must be 1D or 2D)."
    );
    assert_eq!(
        TensorError::InconsistentData.message(),
        "Data length does not match tensor shape."
    );
}
