use nncore::functions::{argmax, cross_entropy_error, identity, mean_squared_error, numerical_diff, relu, sigmoid, softmax, step};
use nncore::gradient::{gradient_descent, numerical_gradient};
use nncore::layers::SigmoidLayer;
use nncore::matrix::Matrix;
use nncore::network::TwoLayerNet;
use nncore::optimize::{AdaGrad, Momentum, Optimizer};
use nncore::{Element, Transcendental};

/// The production scalar: a 64-bit float.  The specification-level items
/// of the field traits are compiled to ordinary trait items; outside of
/// verification they are given the same meaning as the executable
/// operations.
#[derive(Debug, Clone, Copy, PartialEq)]
struct F64(f64);

impl Element for F64 {
    fn zero_spec() -> F64 {
        F64(0.0)
    }
    fn one_spec() -> F64 {
        F64(1.0)
    }
    fn from_usize_spec(n: usize) -> F64 {
        F64(n as f64)
    }
    fn add_spec(self, other: F64) -> F64 {
        F64(self.0 + other.0)
    }
    fn sub_spec(self, other: F64) -> F64 {
        F64(self.0 - other.0)
    }
    fn mul_spec(self, other: F64) -> F64 {
        F64(self.0 * other.0)
    }
    fn div_spec(self, other: F64) -> F64 {
        F64(self.0 / other.0)
    }
    fn sqrt_spec(self) -> F64 {
        F64(self.0.sqrt())
    }
    fn lt_spec(self, other: F64) -> bool {
        self.0 < other.0
    }
    fn is_zero_spec(self) -> bool {
        self.0 == 0.0
    }
    fn zero() -> F64 {
        F64(0.0)
    }
    fn one() -> F64 {
        F64(1.0)
    }
    fn from_usize(n: usize) -> F64 {
        F64(n as f64)
    }
    fn add(self, other: F64) -> F64 {
        F64(self.0 + other.0)
    }
    fn sub(self, other: F64) -> F64 {
        F64(self.0 - other.0)
    }
    fn mul(self, other: F64) -> F64 {
        F64(self.0 * other.0)
    }
    fn div(self, other: F64) -> F64 {
        F64(self.0 / other.0)
    }
    fn sqrt(self) -> F64 {
        F64(self.0.sqrt())
    }
    fn lt(self, other: F64) -> bool {
        self.0 < other.0
    }
    fn is_zero(self) -> bool {
        self.0 == 0.0
    }
}

impl Transcendental for F64 {
    fn exp_spec(self) -> F64 {
        F64(self.0.exp())
    }
    fn ln_spec(self) -> F64 {
        F64(self.0.ln())
    }
    fn epsilon_spec() -> F64 {
        F64(f64::EPSILON)
    }
    fn exp(self) -> F64 {
        F64(self.0.exp())
    }
    fn ln(self) -> F64 {
        F64(self.0.ln())
    }
    fn epsilon() -> F64 {
        F64(f64::EPSILON)
    }
}

fn fv(xs: &[f64]) -> Vec<F64> {
    xs.iter().map(|&v| F64(v)).collect()
}

fn raw(xs: Vec<F64>) -> Vec<f64> {
    xs.into_iter().map(|v| v.0).collect()
}

fn fm(rows: Vec<Vec<f64>>) -> Matrix<F64> {
    Matrix::from(rows.into_iter().map(|r| fv(&r)).collect()).unwrap()
}

fn raw_m(m: Matrix<F64>) -> Vec<Vec<f64>> {
    m.into_vec().into_iter().map(raw).collect()
}

#[test]
fn float_matrix_add_works() {
    let a = fm(vec![vec![1.0, 2.0]]);
    let b = fm(vec![vec![0.5, 0.25]]);
    let c = a.add(&b).unwrap();
    assert_eq!(raw_m(c), vec![vec![1.5, 2.25]]);
}

#[test]
fn scalar_activations_work() {
    assert_eq!(step(F64(0.5)), F64(1.0));
    assert_eq!(step(F64(-0.5)), F64(0.0));
    assert_eq!(identity(F64(3.5)), F64(3.5));
    assert_eq!(relu(F64(-2.0)), F64(0.0));
    assert_eq!(relu(F64(2.0)), F64(2.0));
    assert_eq!(sigmoid(F64(0.0)), F64(0.5));
}

#[test]
fn softmax_works() {
    assert_eq!(
        raw(softmax(&fv(&[1010.0, 1000.0, 990.0]))),
        [
            0.999954600070331,
            0.00004539786860886666,
            0.000000002061060046209062
        ]
    );
}

#[test]
fn softmax_sums_to_one_and_is_shift_invariant() {
    let xs = [0.3, -1.2, 2.5, 0.0, -0.7];
    let ys = raw(softmax(&fv(&xs)));
    let sum: f64 = ys.iter().sum();
    assert!((sum - 1.0).abs() < 1e-12);

    let shifted: Vec<f64> = xs.iter().map(|v| v + 123.456).collect();
    let zs = raw(softmax(&fv(&shifted)));
    for (y, z) in ys.iter().zip(zs.iter()) {
        assert!((y - z).abs() < 1e-12);
    }
}

#[test]
fn mean_squared_error_works() {
    let observed = fv(&[0.0, 0.0, 1.0, 0.0, 0.0, 0.0, 0.0, 0.0, 0.0, 0.0]);
    let predicted = fv(&[0.1, 0.05, 0.6, 0.0, 0.05, 0.1, 0.0, 0.1, 0.0, 0.0]);
    assert_eq!(
        mean_squared_error(&predicted, &observed),
        F64(0.09750000000000003)
    );
}

#[test]
fn cross_entropy_error_works() {
    let observed = fv(&[0.0, 0.0, 1.0, 0.0, 0.0, 0.0, 0.0, 0.0, 0.0, 0.0]);
    let predicted = fv(&[0.1, 0.05, 0.6, 0.0, 0.05, 0.1, 0.0, 0.1, 0.0, 0.0]);
    assert_eq!(
        cross_entropy_error(&predicted, &observed),
        F64(0.5108256237659907)
    );
}

#[test]
fn numerical_diff_works() {
    fn function_1(x: F64) -> F64 {
        F64(0.01 * x.0.powi(2) + 0.1 * x.0)
    }
    let h = F64(1e-4);
    assert_eq!(numerical_diff(function_1, F64(5.0), h), F64(0.1999999999990898));
    assert_eq!(numerical_diff(function_1, F64(10.0), h), F64(0.2999999999986347));
}

#[test]
fn numerical_gradient_works() {
    fn function_2(xs: &Vec<F64>) -> F64 {
        F64(xs[0].0.powi(2) + xs[1].0.powi(2))
    }
    assert_eq!(
        raw(numerical_gradient(function_2, &fv(&[3.0, 4.0]), F64(1e-4))),
        [6.00000000000378, 7.999999999999119]
    );
}

#[test]
fn gradient_descent_works() {
    fn function_2(xs: &Vec<F64>) -> F64 {
        F64(xs[0].0.powi(2) + xs[1].0.powi(2))
    }
    let mut xs = fv(&[-3.0, 4.0]);
    gradient_descent(function_2, &mut xs, F64(0.1), 100, F64(1e-4));
    assert_eq!(
        raw(xs),
        [-0.0000000006111107928998789, 0.0000000008148143905314271]
    );
}

#[test]
fn section_3_4_3() {
    struct Network {
        w1: Matrix<F64>,
        b1: Matrix<F64>,
        w2: Matrix<F64>,
        b2: Matrix<F64>,
        w3: Matrix<F64>,
        b3: Matrix<F64>,
    }
    impl Network {
        fn forward(&self, input: &[f64]) -> Vec<f64> {
            let x = fm(vec![Vec::from(input)]);
            let a1 = x.dot_product(&self.w1).unwrap().add(&self.b1).unwrap();
            let z1 = a1.map(|v| sigmoid(v));
            let a2 = z1.dot_product(&self.w2).unwrap().add(&self.b2).unwrap();
            let z2 = a2.map(|v| sigmoid(v));
            let a3 = z2.dot_product(&self.w3).unwrap().add(&self.b3).unwrap();
            let y = a3.map(|v| identity(v));
            raw(y.into_vector())
        }
    }

    let network = Network {
        w1: fm(vec![vec![0.0, 0.3, 0.5], vec![0.2, 0.4, 0.6]]),
        b1: fm(vec![vec![0.1, 0.2, 0.3]]),
        w2: fm(vec![vec![0.1, 0.4], vec![0.2, 0.5], vec![0.3, 0.6]]),
        b2: fm(vec![vec![0.1, 0.2]]),
        w3: fm(vec![vec![0.1, 0.3], vec![0.2, 0.4]]),
        b3: fm(vec![vec![0.1, 0.2]]),
    };

    let x = [1.0, 0.5];
    let y = network.forward(&x);
    assert_eq!(y, [0.3164209556565184, 0.6954092315109959]);
}

#[test]
fn two_layer_net_works() {
    let net = TwoLayerNet::new(
        Matrix::<F64>::new(784, 100),
        Matrix::<F64>::new(1, 100),
        Matrix::<F64>::new(100, 10),
        Matrix::<F64>::new(1, 10),
    );
    assert_eq!(net.affine1_layer.w.shape(), (784, 100));
    assert_eq!(net.affine1_layer.b.shape(), (1, 100));
    assert_eq!(net.affine2_layer.w.shape(), (100, 10));
    assert_eq!(net.affine2_layer.b.shape(), (1, 10));
}

#[test]
fn predict_twice_gives_identical_logits() {
    let mut net = TwoLayerNet::new(
        fm(vec![vec![0.3, -0.2, 0.5], vec![0.1, 0.4, -0.6]]),
        fm(vec![vec![0.05, -0.1, 0.2]]),
        fm(vec![vec![0.7, -0.3], vec![-0.4, 0.2], vec![0.1, 0.6]]),
        fm(vec![vec![0.0, 0.1]]),
    );
    let x1 = fm(vec![vec![0.6, -0.9], vec![-0.3, 0.8]]);
    let x2 = fm(vec![vec![0.6, -0.9], vec![-0.3, 0.8]]);
    let y1 = net.predict(x1).unwrap();
    let y2 = net.predict(x2).unwrap();
    assert_eq!(raw_m(y1), raw_m(y2));
}

#[test]
fn backprop_gradient_matches_numerical_gradient() {
    let mut net = TwoLayerNet::new(
        fm(vec![vec![0.3, -0.2, 0.5], vec![0.1, 0.4, -0.6]]),
        fm(vec![vec![0.05, -0.1, 0.2]]),
        fm(vec![vec![0.7, -0.3], vec![-0.4, 0.2], vec![0.1, 0.6]]),
        fm(vec![vec![0.0, 0.1]]),
    );
    let x = fm(vec![vec![0.6, -0.9], vec![-0.3, 0.8]]);
    let t = fm(vec![vec![1.0, 0.0], vec![0.0, 1.0]]);

    let numeric = net.numerical_gradient(&x, &t, F64(1e-4)).unwrap();
    let analytic = net.gradient(x, t).unwrap();

    let pairs = [
        (raw_m(analytic.w1), raw_m(numeric.w1)),
        (raw_m(analytic.b1), raw_m(numeric.b1)),
        (raw_m(analytic.w2), raw_m(numeric.w2)),
        (raw_m(analytic.b2), raw_m(numeric.b2)),
    ];
    for (a, n) in pairs.iter() {
        for (ar, nr) in a.iter().zip(n.iter()) {
            for (av, nv) in ar.iter().zip(nr.iter()) {
                let scale = av.abs().max(nv.abs()).max(1e-4);
                assert!(
                    (av - nv).abs() / scale < 1e-4,
                    "analytic {} vs numerical {}",
                    av,
                    nv
                );
            }
        }
    }
}

#[test]
fn accuracy_counts_matching_argmax_rows() {
    // identity-ish network: logits equal the input
    let mut net = TwoLayerNet::new(
        fm(vec![vec![1.0, 0.0], vec![0.0, 1.0]]),
        fm(vec![vec![0.0, 0.0]]),
        fm(vec![vec![1.0, 0.0], vec![0.0, 1.0]]),
        fm(vec![vec![0.0, 0.0]]),
    );
    let x = fm(vec![vec![3.0, 1.0], vec![0.5, 2.0], vec![4.0, 5.0]]);
    let t = fm(vec![vec![1.0, 0.0], vec![1.0, 0.0], vec![0.0, 1.0]]);
    let acc = net.accuracy(x, t).unwrap();
    assert!((acc.0 - 2.0 / 3.0).abs() < 1e-15);
}

#[test]
fn batched_loss_is_low_after_sgd_training() {
    // a tiny deterministic training loop: the mean loss must drop
    let mut net = TwoLayerNet::new(
        fm(vec![vec![0.3, -0.2, 0.5], vec![0.1, 0.4, -0.6]]),
        fm(vec![vec![0.05, -0.1, 0.2]]),
        fm(vec![vec![0.7, -0.3], vec![-0.4, 0.2], vec![0.1, 0.6]]),
        fm(vec![vec![0.0, 0.1]]),
    );
    let mut opt = nncore::optimize::Sgd::new(F64(0.5));
    let before = net
        .batched_loss(
            fm(vec![vec![0.6, -0.9], vec![-0.3, 0.8]]),
            fm(vec![vec![1.0, 0.0], vec![0.0, 1.0]]),
        )
        .unwrap();
    for _ in 0..50 {
        let x = fm(vec![vec![0.6, -0.9], vec![-0.3, 0.8]]);
        let t = fm(vec![vec![1.0, 0.0], vec![0.0, 1.0]]);
        let g = net.gradient(x, t).unwrap();
        let mut params = vec![
            net.affine1_layer.w.clone(),
            net.affine1_layer.b.clone(),
            net.affine2_layer.w.clone(),
            net.affine2_layer.b.clone(),
        ];
        let grads = vec![g.w1, g.b1, g.w2, g.b2];
        opt.update(&mut params, &grads).unwrap();
        net.affine2_layer.b = params.pop().unwrap();
        net.affine2_layer.w = params.pop().unwrap();
        net.affine1_layer.b = params.pop().unwrap();
        net.affine1_layer.w = params.pop().unwrap();
    }
    let after = net
        .batched_loss(
            fm(vec![vec![0.6, -0.9], vec![-0.3, 0.8]]),
            fm(vec![vec![1.0, 0.0], vec![0.0, 1.0]]),
        )
        .unwrap();
    assert!(after.0 < before.0);
    assert!(after.0 < 0.1);
}

#[test]
fn sigmoid_layer_forward_and_backward_use_the_output() {
    let mut layer = SigmoidLayer::new();
    let out = layer.forward(&fv(&[0.0, 2.0]));
    let y0 = 0.5;
    let y1 = 1.0 / (1.0 + (-2.0f64).exp());
    assert_eq!(raw(out.clone()), [y0, y1]);
    let dx = layer.backword(&fv(&[1.0, 1.0])).unwrap();
    assert_eq!(raw(dx), [1.0 * (1.0 - y0) * y0, 1.0 * (1.0 - y1) * y1]);

    let mut fresh: SigmoidLayer<F64> = SigmoidLayer::new();
    assert!(fresh.backword(&fv(&[1.0])).is_err());
}

#[test]
fn momentum_float_recurrence_three_steps() {
    // v ← 0.9·v − 0.1·g ; p ← p + v, replayed by hand beside the optimizer
    let mut opt = Momentum::new(F64(0.1), F64(0.9));
    let mut params = vec![fm(vec![vec![1.0]])];
    let grads = vec![fm(vec![vec![1.0]])];
    let mut v = 0.0f64;
    let mut p = 1.0f64;
    for _ in 0..3 {
        opt.update(&mut params, &grads).unwrap();
        v = 0.9 * v - 0.1 * 1.0;
        p = p + v;
        assert_eq!(raw_m(params[0].clone()), vec![vec![p]]);
    }
}

#[test]
fn adagrad_float_recurrence_three_steps() {
    // h ← h + g² ; p ← p − lr·g/(√h + 1e-7), replayed by hand
    let mut opt = AdaGrad::new(F64(0.1), F64(1e-7));
    let mut params = vec![fm(vec![vec![1.0]])];
    let grads = vec![fm(vec![vec![2.0]])];
    let mut h = 0.0f64;
    let mut p = 1.0f64;
    for _ in 0..3 {
        opt.update(&mut params, &grads).unwrap();
        h = h + 2.0 * 2.0;
        p = p - (2.0 * 0.1) / (h.sqrt() + 1e-7);
        assert_eq!(raw_m(params[0].clone()), vec![vec![p]]);
    }
}

#[test]
fn matrix_numerical_gradient_estimates_a_quadratic() {
    let a = fm(vec![vec![3.0, -1.0], vec![0.5, 2.0]]);
    let g = a.numerical_gradient(F64(1e-4), |m: &Matrix<F64>| {
        let rows = m.clone().into_vec();
        let mut s = 0.0f64;
        for r in rows.iter() {
            for v in r.iter() {
                s += v.0 * v.0;
            }
        }
        F64(s)
    });
    let gv = raw_m(g);
    let av = vec![vec![3.0, -1.0], vec![0.5, 2.0]];
    for (gr, ar) in gv.iter().zip(av.iter()) {
        for (gvv, avv) in gr.iter().zip(ar.iter()) {
            assert!((gvv - 2.0 * avv).abs() < 1e-6);
        }
    }
}

#[test]
fn map_row_applies_softmax_per_row() {
    let a = fm(vec![vec![1.0, 2.0], vec![0.0, 0.0]]);
    let s = a.map_row(|r: &Vec<F64>| softmax(r)).unwrap();
    let rows = raw_m(s);
    assert_eq!(rows[1], vec![0.5, 0.5]);
    assert!((rows[0][0] + rows[0][1] - 1.0).abs() < 1e-12);
    assert!(rows[0][1] > rows[0][0]);
}

#[test]
fn argmax_on_floats_picks_the_first_maximum() {
    assert_eq!(argmax(&fv(&[0.1, 0.9, 0.9, 0.3])), 1);
}
