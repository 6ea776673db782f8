use build_your_own_nn::activation::{Activation, ActivationType};
use build_your_own_nn::linear::Linear;
use build_your_own_nn::loss::{mse_loss, mse_loss_gradient};
use build_your_own_nn::neural_network::{LossGradient, NetworkBuilder, NetworkLayer};
use build_your_own_nn::scalar::Scalar;
use build_your_own_nn::tensor::{Tensor, TensorError};
use build_your_own_nn::Rng;

/// A single-precision float scalar: the element type the networks are
/// meant to train with. The `*_spec` items mirror the executable operations.
#[derive(Clone, Copy, Debug, PartialEq)]
struct F(f32);

impl Scalar for F {
    fn zero_spec() -> Self {
        F(0.0)
    }
    fn one_spec() -> Self {
        F(1.0)
    }
    fn add_spec(a: Self, b: Self) -> Self {
        F(a.0 + b.0)
    }
    fn sub_spec(a: Self, b: Self) -> Self {
        F(a.0 - b.0)
    }
    fn mul_spec(a: Self, b: Self) -> Self {
        F(a.0 * b.0)
    }
    fn div_spec(a: Self, b: Self) -> Self {
        F(a.0 / b.0)
    }
    fn abs_spec(a: Self) -> Self {
        F(a.0.abs())
    }
    fn powf_spec(a: Self, p: Self) -> Self {
        F(a.0.powf(p.0))
    }
    fn exp_spec(a: Self) -> Self {
        F(a.0.exp())
    }
    fn relu_spec(a: Self) -> Self {
        if a.0 > 0.0 { a } else { F(0.0) }
    }
    fn relu_prime_spec(a: Self) -> Self {
        if a.0 > 0.0 { F(1.0) } else { F(0.0) }
    }
    fn from_count_spec(n: usize) -> Self {
        F(n as f32)
    }
    fn from_unit_spec(x: i32) -> Self {
        F(x as f32 / i32::MAX as f32)
    }
    fn zero() -> Self {
        F(0.0)
    }
    fn one() -> Self {
        F(1.0)
    }
    fn add(a: Self, b: Self) -> Self {
        F(a.0 + b.0)
    }
    fn sub(a: Self, b: Self) -> Self {
        F(a.0 - b.0)
    }
    fn mul(a: Self, b: Self) -> Self {
        F(a.0 * b.0)
    }
    fn div(a: Self, b: Self) -> Self {
        F(a.0 / b.0)
    }
    fn abs(a: Self) -> Self {
        F(a.0.abs())
    }
    fn powf(a: Self, p: Self) -> Self {
        F(a.0.powf(p.0))
    }
    fn exp(a: Self) -> Self {
        F(a.0.exp())
    }
    fn relu(a: Self) -> Self {
        if a.0 > 0.0 { a } else { F(0.0) }
    }
    fn relu_prime(a: Self) -> Self {
        if a.0 > 0.0 { F(1.0) } else { F(0.0) }
    }
    fn from_count(n: usize) -> Self {
        F(n as f32)
    }
    fn from_unit(x: i32) -> Self {
        F(x as f32 / i32::MAX as f32)
    }
}

fn fv(data: Vec<f32>) -> Vec<F> {
    data.into_iter().map(F).collect()
}

fn t(data: Vec<f32>, shape: Vec<usize>) -> Tensor<F> {
    Tensor::new(fv(data), shape).unwrap()
}

/// A small linear-congruential generator, seeded by the caller.
struct SimpleRng {
    state: u64,
}

impl Rng for SimpleRng {
    fn next_u32(&mut self) -> i32 {
        self.state = self.state.wrapping_mul(6364136223846793005).wrapping_add(1);
        (self.state >> 32) as u32 as i32
    }
}

// Linear regression: one Linear(2, 1) layer on inputs with a constant one
// column learns slope about 2 and intercept about 3, and the loss drops.
#[test]
fn test_linear_regression_convergence() {
    let mut rng = SimpleRng { state: 73 };
    let mut linear: Linear<F> = Linear::new(2, 1, &mut rng);

    let input = t(
        vec![1.0, 1.0, 2.0, 1.0, 3.0, 1.0, 4.0, 1.0, 5.0, 1.0],
        vec![5, 2],
    );
    let actual = t(vec![5.6, 6.6, 9.5, 10.2, 14.0], vec![5, 1]);

    let initial_out = linear.forward(&input).unwrap();
    let initial_loss = mse_loss(&initial_out, &actual).unwrap().data()[0].0;

    for _ in 0..8000 {
        let predicted = linear.forward(&input).unwrap();
        let grad = mse_loss_gradient(&predicted, &actual).unwrap();
        linear.backward(&grad, F(0.01)).unwrap();
    }

    let final_out = linear.forward(&input).unwrap();
    let final_loss = mse_loss(&final_out, &actual).unwrap().data()[0].0;

    assert!(final_loss < initial_loss);
    let slope = linear.weight().data()[0].0;
    let intercept = linear.weight().data()[1].0;
    assert!((slope - 2.0).abs() <= 1.0);
    assert!((2.0..=5.0).contains(&intercept));
}

// The same regression through the sequential network's training loop.
#[test]
fn test_network_fit_regression() {
    let mut rng = SimpleRng { state: 73 };
    let linear: Linear<F> = Linear::new(2, 1, &mut rng);

    let mut net = NetworkBuilder::new()
        .add_layer(NetworkLayer::Linear(linear))
        .loss_gradient(LossGradient::MeanSquaredError)
        .build()
        .unwrap();

    let input = t(
        vec![1.0, 1.0, 2.0, 1.0, 3.0, 1.0, 4.0, 1.0, 5.0, 1.0],
        vec![5, 2],
    );
    let actual = t(vec![5.6, 6.6, 9.5, 10.2, 14.0], vec![5, 1]);

    let initial_out = net.forward(input.clone()).unwrap();
    let initial_loss = mse_loss(&initial_out, &actual).unwrap().data()[0].0;

    net.fit(&input, &actual, 8000, F(0.01)).unwrap();

    let final_out = net.forward(input.clone()).unwrap();
    let final_loss = mse_loss(&final_out, &actual).unwrap().data()[0].0;
    assert!(final_loss < initial_loss);
    assert!(final_loss < 1.0);
}

// XOR needs a hidden layer: a Linear-ReLU-Linear-Sigmoid stack trained with
// the binary-cross-entropy seed gradient separates the four samples.
#[test]
fn test_network_fit_xor() {
    let mut rng = SimpleRng { state: 42 };
    let hidden: Linear<F> = Linear::new(3, 4, &mut rng);
    let out: Linear<F> = Linear::new(4, 1, &mut rng);

    let mut net = NetworkBuilder::new()
        .add_layer(NetworkLayer::Linear(hidden))
        .add_layer(NetworkLayer::Activation(Activation::new(
            ActivationType::ReLU,
        )))
        .add_layer(NetworkLayer::Linear(out))
        .add_layer(NetworkLayer::Activation(Activation::new(
            ActivationType::Sigmoid,
        )))
        .loss_gradient(LossGradient::BceSigmoid)
        .build()
        .unwrap();

    let input = t(
        vec![0.0, 0.0, 1.0, 0.0, 1.0, 1.0, 1.0, 0.0, 1.0, 1.0, 1.0, 1.0],
        vec![4, 3],
    );
    let target = [0.0f32, 1.0, 1.0, 0.0];
    let actual = t(target.to_vec(), vec![4, 1]);

    net.fit(&input, &actual, 20000, F(0.5)).unwrap();

    let output = net.forward(input).unwrap();
    for (o, want) in output.data().iter().zip(target.iter()) {
        assert!((o.0 - want).abs() <= 0.2, "output {} target {}", o.0, want);
    }
}

// A single linear layer with a sigmoid output cannot separate XOR: at least
// one of the four outputs stays off by more than the tolerance.
#[test]
fn test_single_layer_cannot_separate_xor() {
    let mut rng = SimpleRng { state: 42 };
    let out: Linear<F> = Linear::new(3, 1, &mut rng);

    let mut net = NetworkBuilder::new()
        .add_layer(NetworkLayer::Linear(out))
        .add_layer(NetworkLayer::Activation(Activation::new(
            ActivationType::Sigmoid,
        )))
        .loss_gradient(LossGradient::BceSigmoid)
        .build()
        .unwrap();

    let input = t(
        vec![0.0, 0.0, 1.0, 0.0, 1.0, 1.0, 1.0, 0.0, 1.0, 1.0, 1.0, 1.0],
        vec![4, 3],
    );
    let target = [0.0f32, 1.0, 1.0, 0.0];
    let actual = t(target.to_vec(), vec![4, 1]);

    net.fit(&input, &actual, 20000, F(0.5)).unwrap();

    let output = net.forward(input).unwrap();
    let separated = output
        .data()
        .iter()
        .zip(target.iter())
        .all(|(o, want)| (o.0 - want).abs() <= 0.2);
    assert!(!separated);
}

fn activation_value(kind: ActivationType, x: f32) -> f32 {
    let mut layer: Activation<F> = Activation::new(kind);
    layer.forward(&t(vec![x], vec![1])).unwrap().data()[0].0
}

fn activation_derivative(kind: ActivationType, x: f32) -> f32 {
    let mut layer: Activation<F> = Activation::new(kind);
    layer.forward(&t(vec![x], vec![1])).unwrap();
    layer.backward(&t(vec![1.0], vec![1])).unwrap().data()[0].0
}

// The analytic backward derivatives match central finite differences within
// a thousandth, for all three activation kinds.
#[test]
fn test_activation_backward_matches_finite_difference() {
    let kinds = [
        ActivationType::ReLU,
        ActivationType::Sigmoid,
        ActivationType::Tanh,
    ];
    let points = [-1.7f32, -0.6, 0.35, 1.2, 2.1];
    let h = 0.01f32;
    for kind in kinds {
        for x in points {
            let analytic = activation_derivative(kind, x);
            let fd =
                (activation_value(kind, x + h) - activation_value(kind, x - h)) / (2.0 * h);
            assert!(
                (analytic - fd).abs() <= 1e-3,
                "kind {:?} at {}: analytic {} fd {}",
                kind,
                x,
                analytic,
                fd
            );
        }
    }
}

// Exact activation values and derivatives at zero and a positive point.
#[test]
fn test_activation_values() {
    assert_eq!(activation_value(ActivationType::Sigmoid, 0.0), 0.5);
    assert_eq!(activation_value(ActivationType::Tanh, 0.0), 0.0);
    assert_eq!(activation_value(ActivationType::ReLU, -3.0), 0.0);
    assert_eq!(activation_value(ActivationType::ReLU, 3.0), 3.0);
    assert_eq!(activation_derivative(ActivationType::Sigmoid, 0.0), 0.25);
    assert_eq!(activation_derivative(ActivationType::Tanh, 0.0), 1.0);
    assert_eq!(activation_derivative(ActivationType::ReLU, 3.0), 1.0);
    assert_eq!(activation_derivative(ActivationType::ReLU, -3.0), 0.0);
}

// Backward before any forward is a caller error the layer rejects.
#[test]
fn test_activation_backward_before_forward() {
    let mut layer: Activation<F> = Activation::new(ActivationType::ReLU);
    let err = layer.backward(&t(vec![1.0], vec![1])).unwrap_err();
    assert_eq!(err, TensorError::InvalidRank);
}

// One hand-checked step of the linear layer's forward and backward passes.
#[test]
fn test_linear_forward_backward_step() {
    let mut rng = SimpleRng { state: 1 };
    let mut linear: Linear<F> = Linear::new(2, 1, &mut rng);
    linear.set_weight(t(vec![0.5, -1.0], vec![2, 1]));

    let x = t(vec![1.0, 2.0], vec![1, 2]);
    let out = linear.forward(&x).unwrap();
    assert_eq!(out.data(), &fv(vec![-1.5]));
    assert_eq!(out.shape(), &[1, 1]);

    let upstream = linear.backward(&t(vec![1.0], vec![1, 1]), F(0.1)).unwrap();
    assert_eq!(upstream.data(), &fv(vec![0.5, -1.0]));
    assert_eq!(upstream.shape(), &[1, 2]);
    assert_eq!(linear.weight().data(), &fv(vec![0.4, -1.2]));
    assert_eq!(linear.weight().shape(), &[2, 1]);
}

// An empty network is the identity, and building without a loss gradient
// fails with the required message.
#[test]
fn test_builder_and_identity_network() {
    let missing = NetworkBuilder::<F>::new().build();
    assert_eq!(
        missing.err().unwrap(),
        String::from("Loss gradient function is required")
    );

    let mut net = NetworkBuilder::<F>::new()
        .loss_gradient(LossGradient::MeanSquaredError)
        .build()
        .unwrap();
    let input = t(vec![1.0, 2.0, 3.0], vec![3]);
    let out = net.forward(input).unwrap();
    assert_eq!(out.data(), &fv(vec![1.0, 2.0, 3.0]));
    assert_eq!(out.shape(), &[3]);
}

// Training through the network equals training the layers by hand, step by
// step, on the same data.
#[test]
fn test_fit_matches_manual_training() {
    let mut rng = SimpleRng { state: 9 };
    let net_linear: Linear<F> = Linear::new(2, 2, &mut rng);
    let mut hand_linear: Linear<F> = Linear::new(2, 2, &mut SimpleRng { state: 9 });
    let mut hand_act: Activation<F> = Activation::new(ActivationType::Tanh);

    let mut net = NetworkBuilder::new()
        .add_layer(NetworkLayer::Linear(net_linear))
        .add_layer(NetworkLayer::Activation(Activation::new(
            ActivationType::Tanh,
        )))
        .loss_gradient(LossGradient::MeanSquaredError)
        .build()
        .unwrap();

    let x = t(vec![0.2, -0.4, 1.0, 0.5], vec![2, 2]);
    let y = t(vec![0.1, 0.9, -0.3, 0.4], vec![2, 2]);

    net.fit(&x, &y, 3, F(0.05)).unwrap();

    for _ in 0..3 {
        let a = hand_linear.forward(&x).unwrap();
        let b = hand_act.forward(&a).unwrap();
        let g = mse_loss_gradient(&b, &y).unwrap();
        let g2 = hand_act.backward(&g).unwrap();
        hand_linear.backward(&g2, F(0.05)).unwrap();
    }

    let net_out = net.forward(x.clone()).unwrap();
    let a = hand_linear.forward(&x).unwrap();
    let hand_out = hand_act.forward(&a).unwrap();
    assert_eq!(net_out.data(), hand_out.data());
    assert_eq!(net_out.shape(), hand_out.shape());
}

// Zero epochs train nothing; an uninitialized batch is rejected each epoch.
#[test]
fn test_fit_edge_cases() {
    let mut rng = SimpleRng { state: 5 };
    let linear: Linear<F> = Linear::new(2, 1, &mut rng);
    let mut net = NetworkBuilder::new()
        .add_layer(NetworkLayer::Linear(linear))
        .loss_gradient(LossGradient::MeanSquaredError)
        .build()
        .unwrap();

    let x = t(vec![1.0, 2.0], vec![1, 2]);
    let y = t(vec![3.0], vec![1, 1]);
    assert_eq!(net.fit(&x, &y, 0, F(0.1)), Ok(()));

    let empty: Tensor<F> = Tensor::empty();
    assert_eq!(net.fit(&empty, &y, 1, F(0.1)), Err(TensorError::InvalidRank));
}
