use build_your_own_nn::loss::{bce_sigmoid_delta, l1_loss, mse_loss, mse_loss_gradient};
use build_your_own_nn::scalar::{IntScalar, Scalar};
use build_your_own_nn::tensor::{Tensor, TensorError};

/// A single-precision float scalar: the element type the networks are
/// meant to train with. The `*_spec` items mirror the executable operations.
#[derive(Clone, Copy, Debug, PartialEq)]
struct F(f32);

impl Scalar for F {
    fn zero_spec() -> Self {
        F(0.0)
    }
    fn one_spec() -> Self {
        F(1.0)
    }
    fn add_spec(a: Self, b: Self) -> Self {
        F(a.0 + b.0)
    }
    fn sub_spec(a: Self, b: Self) -> Self {
        F(a.0 - b.0)
    }
    fn mul_spec(a: Self, b: Self) -> Self {
        F(a.0 * b.0)
    }
    fn div_spec(a: Self, b: Self) -> Self {
        F(a.0 / b.0)
    }
    fn abs_spec(a: Self) -> Self {
        F(a.0.abs())
    }
    fn powf_spec(a: Self, p: Self) -> Self {
        F(a.0.powf(p.0))
    }
    fn exp_spec(a: Self) -> Self {
        F(a.0.exp())
    }
    fn relu_spec(a: Self) -> Self {
        if a.0 > 0.0 { a } else { F(0.0) }
    }
    fn relu_prime_spec(a: Self) -> Self {
        if a.0 > 0.0 { F(1.0) } else { F(0.0) }
    }
    fn from_count_spec(n: usize) -> Self {
        F(n as f32)
    }
    fn from_unit_spec(x: i32) -> Self {
        F(x as f32 / i32::MAX as f32)
    }
    fn zero() -> Self {
        F(0.0)
    }
    fn one() -> Self {
        F(1.0)
    }
    fn add(a: Self, b: Self) -> Self {
        F(a.0 + b.0)
    }
    fn sub(a: Self, b: Self) -> Self {
        F(a.0 - b.0)
    }
    fn mul(a: Self, b: Self) -> Self {
        F(a.0 * b.0)
    }
    fn div(a: Self, b: Self) -> Self {
        F(a.0 / b.0)
    }
    fn abs(a: Self) -> Self {
        F(a.0.abs())
    }
    fn powf(a: Self, p: Self) -> Self {
        F(a.0.powf(p.0))
    }
    fn exp(a: Self) -> Self {
        F(a.0.exp())
    }
    fn relu(a: Self) -> Self {
        if a.0 > 0.0 { a } else { F(0.0) }
    }
    fn relu_prime(a: Self) -> Self {
        if a.0 > 0.0 { F(1.0) } else { F(0.0) }
    }
    fn from_count(n: usize) -> Self {
        F(n as f32)
    }
    fn from_unit(x: i32) -> Self {
        F(x as f32 / i32::MAX as f32)
    }
}

fn fv(data: Vec<f32>) -> Vec<F> {
    data.into_iter().map(F).collect()
}

fn create_tensor(data: Vec<f32>, shape: Vec<usize>) -> Tensor<F> {
    Tensor::new(fv(data), shape).unwrap()
}

#[test]
fn test_l1_loss_correctness() {
    // L1 = sum(|predicted - actual|)
    // |2.0 - 1.0| + |4.0 - 5.0| = 1.0 + 1.0 = 2.0
    let pred = create_tensor(vec![2.0, 4.0], vec![2, 1]);
    let actual = create_tensor(vec![1.0, 5.0], vec![2, 1]);

    let loss = l1_loss(&pred, &actual).unwrap();

    assert_eq!(loss.data()[0], F(1.0));
}

#[test]
fn test_mse_loss_correctness() {
    // MSE = 1/n * sum((predicted - actual)^2)
    // (1/2) * ((2.0 - 1.0)^2 + (4.0 - 6.0)^2)
    // (1/2) * (1.0 + 4.0) = 2.5
    let pred = create_tensor(vec![2.0, 4.0], vec![2, 1]);
    let actual = create_tensor(vec![1.0, 6.0], vec![2, 1]);

    let loss = mse_loss(&pred, &actual).unwrap();

    assert_eq!(loss.data()[0], F(2.5));
}

#[test]
fn test_loss_shape_mismatch() {
    let pred = create_tensor(vec![1.0, 2.0, 3.0], vec![3, 1]);
    let actual = create_tensor(vec![1.0, 2.0], vec![2, 1]);

    let l1_result = l1_loss(&pred, &actual);
    let mse_result = mse_loss(&pred, &actual);

    assert!(matches!(l1_result, Err(TensorError::ShapeMismatch)));
    assert!(matches!(mse_result, Err(TensorError::ShapeMismatch)));
}

#[test]
fn test_zero_loss() {
    let pred = create_tensor(vec![1.0, 2.0, 3.0], vec![3, 1]);
    let actual = create_tensor(vec![1.0, 2.0, 3.0], vec![3, 1]);

    let loss = mse_loss(&pred, &actual).unwrap();
    assert_eq!(loss.data()[0], F(0.0));
}

// A tensor measured against itself has zero loss under both losses, for the
// exact integer scalar too.
#[test]
fn test_zero_loss_l1_and_int() {
    let pred = create_tensor(vec![1.5, -2.0, 3.25], vec![3, 1]);
    assert_eq!(l1_loss(&pred, &pred).unwrap().data()[0], F(0.0));

    let ints = Tensor::new(
        vec![IntScalar(4), IntScalar(-9), IntScalar(123456789)],
        vec![3],
    )
    .unwrap();
    assert_eq!(l1_loss(&ints, &ints).unwrap().data()[0], IntScalar(0));
    assert_eq!(mse_loss(&ints, &ints).unwrap().data()[0], IntScalar(0));
}

// The mean-squared-error gradient divides by the batch size (first shape
// dimension) while mse_loss divides by the element count: for multi-column
// outputs the two deliberately disagree, and this pins the gradient's side.
#[test]
fn test_mse_loss_gradient_values() {
    let pred = create_tensor(vec![2.0, 4.0, 1.0, 3.0], vec![2, 2]);
    let actual = create_tensor(vec![1.0, 6.0, 1.0, 7.0], vec![2, 2]);

    // (pred - actual) * 2 / 2 = [1, -2, 0, -4]
    let grad = mse_loss_gradient(&pred, &actual).unwrap();
    assert_eq!(grad.data(), &fv(vec![1.0, -2.0, 0.0, -4.0]));
    assert_eq!(grad.shape(), &[2, 2]);

    let wrong = create_tensor(vec![1.0], vec![1]);
    assert!(matches!(
        mse_loss_gradient(&pred, &wrong),
        Err(TensorError::ShapeMismatch)
    ));
}

// The binary-cross-entropy seed gradient divides by the element count.
#[test]
fn test_bce_sigmoid_delta_values() {
    let pred = create_tensor(vec![0.5, 0.75, 0.25, 0.5], vec![4, 1]);
    let actual = create_tensor(vec![0.0, 1.0, 1.0, 0.0], vec![4, 1]);

    // (pred - actual) / 4
    let delta = bce_sigmoid_delta(&pred, &actual).unwrap();
    assert_eq!(delta.data(), &fv(vec![0.125, -0.0625, -0.1875, 0.125]));

    let wrong = create_tensor(vec![1.0], vec![1]);
    assert!(matches!(
        bce_sigmoid_delta(&pred, &wrong),
        Err(TensorError::ShapeMismatch)
    ));
}
