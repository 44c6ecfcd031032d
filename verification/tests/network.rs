use convoluted::array::{Array1D, Array2D};
use convoluted::cost::{CostKind, CrossEntropy, Label, Mse};
use convoluted::fixed::{FX_LN2, FX_ONE};
use convoluted::layer::bias::BiasLayer;
use convoluted::layer::convolution::Convolution;
use convoluted::layer::dense::DenseLayer;
use convoluted::layer::pooling::MaxPooling;
use convoluted::layer::reshape::{Flatten, Shape};
use convoluted::layer::sigmoid::SigmoidLayer;
use convoluted::layer::{Dims, Layer, LayerChain, Value};
use convoluted::Network;

fn fx(x: f64) -> i64 {
    (x * FX_ONE as f64).round() as i64
}

fn to_f(x: i64) -> f64 {
    x as f64 / FX_ONE as f64
}

#[test]
fn mse_cost_exact() {
    let p = Array1D::from_vec(vec![fx(1.0), fx(0.0)]);
    let t = Label::Dense(Array1D::from_vec(vec![fx(0.0), fx(1.0)]));
    assert_eq!(Mse::cost(&p, &t), fx(1.0));
    let p2 = Array1D::from_vec(vec![fx(0.5), fx(0.0)]);
    assert_eq!(Mse::cost(&p2, &Label::Class(0)), fx(0.125));
    let d = Mse::derivative(&p, &t);
    assert_eq!(d.get(0), fx(2.0));
    assert_eq!(d.get(1), fx(-2.0));
}

#[test]
fn cross_entropy_exact_at_uniform() {
    // For the all-zero prediction the softmax is exactly uniform, so the
    // cost is exactly ln 2 and the gradient is the softmax with one unit
    // subtracted at the true class.
    let p = Array1D::from_vec(vec![0, 0]);
    assert_eq!(CrossEntropy::cost(&p, &Label::Class(0)), FX_LN2);
    let d = CrossEntropy::derivative(&p, &Label::Class(0));
    assert_eq!(d.get(0), -FX_ONE / 2);
    assert_eq!(d.get(1), FX_ONE / 2);
}

#[test]
fn cross_entropy_gradient_matches_finite_differences() {
    // Numerically approximate d(cost)/d(prediction[i]) by central finite
    // differences and compare with the analytic gradient.
    let base = vec![fx(0.3), fx(-0.2), fx(0.5)];
    let label = Label::Class(1);
    let h = fx(0.05);
    let analytic = CrossEntropy::derivative(&Array1D::from_vec(base.clone()), &label);
    for i in 0..3 {
        let mut up = base.clone();
        up[i] += h;
        let mut dn = base.clone();
        dn[i] -= h;
        let c_up = CrossEntropy::cost(&Array1D::from_vec(up), &label);
        let c_dn = CrossEntropy::cost(&Array1D::from_vec(dn), &label);
        let approx = (to_f(c_up) - to_f(c_dn)) / (2.0 * to_f(h));
        let exact = to_f(analytic.get(i));
        assert!(
            (approx - exact).abs() < 0.01,
            "component {i}: finite difference {approx} vs analytic {exact}"
        );
    }
}

/// A small two-layer sigmoid network computing an XOR-like map, close to the
/// classic exact solution.
fn xor_network(offset: f64) -> Network {
    let hidden = DenseLayer {
        weights: Array2D::from_rows(vec![
            vec![fx(8.0 + offset), fx(8.0)],
            vec![fx(8.0), fx(8.0 + offset)],
        ]),
        biases: Array1D::from_vec(vec![fx(-4.0 + offset), fx(-12.0)]),
    };
    let out = DenseLayer {
        weights: Array2D::from_rows(vec![vec![fx(8.0), fx(-8.0 - offset)]]),
        biases: Array1D::from_vec(vec![fx(-4.0)]),
    };
    let chain = LayerChain::new(Dims::D1(2))
        .push(Layer::Dense(hidden))
        .unwrap()
        .push(Layer::Sigmoid(SigmoidLayer::new()))
        .unwrap()
        .push(Layer::Dense(out))
        .unwrap()
        .push(Layer::Sigmoid(SigmoidLayer::new()))
        .unwrap();
    Network::new(chain, CostKind::Mse)
}

fn xor_points() -> Vec<(Vec<i64>, i64)> {
    vec![
        (vec![0, 0], 0),
        (vec![0, FX_ONE], FX_ONE),
        (vec![FX_ONE, 0], FX_ONE),
        (vec![FX_ONE, FX_ONE], 0),
    ]
}

fn xor_batch() -> Vec<(Value, Label)> {
    xor_points()
        .into_iter()
        .map(|(input, label)| {
            (
                Value::D1(Array1D::from_vec(input)),
                Label::Dense(Array1D::from_vec(vec![label])),
            )
        })
        .collect()
}

fn batch_cost(net: &Network) -> i64 {
    let mut total = 0i64;
    for (input, label) in xor_points() {
        let (out, _) = net.forward(Value::D1(Array1D::from_vec(input)));
        let p = match out {
            Value::D1(p) => p,
            Value::D2(_) => panic!("expected a vector"),
        };
        total += Mse::cost(&p, &Label::Dense(Array1D::from_vec(vec![label])));
    }
    total
}

#[test]
fn xor_network_classifies_confidently() {
    let net = xor_network(0.0);
    for (input, label) in xor_points() {
        let (out, _) = net.forward(Value::D1(Array1D::from_vec(input)));
        let p = match out {
            Value::D1(p) => p,
            Value::D2(_) => panic!("expected a vector"),
        };
        if label == 0 {
            assert!(to_f(p.get(0)) < 0.1, "false point predicted {}", to_f(p.get(0)));
        } else {
            assert!(to_f(p.get(0)) > 0.9, "true point predicted {}", to_f(p.get(0)));
        }
    }
}

#[test]
fn gradient_descent_reduces_cost() {
    // Start from a perturbed network whose cost is clearly above the
    // optimum; one batch step with a positive learning rate must not raise
    // the cost, and continued training must lower it and classify every
    // point on the correct side.
    let mut net = xor_network(1.5);
    let cost0 = batch_cost(&net);
    net.learn_batch(xor_batch(), fx(0.5));
    let cost1 = batch_cost(&net);
    assert!(cost1 <= cost0, "one step raised the cost: {} -> {}", to_f(cost0), to_f(cost1));
    for _ in 0..2000 {
        net.learn_batch(xor_batch(), fx(1.0));
    }
    let cost_final = batch_cost(&net);
    assert!(
        cost_final < cost0,
        "training did not reduce the cost: {} -> {}",
        to_f(cost0),
        to_f(cost_final)
    );
    assert!(
        to_f(cost_final) < 0.05,
        "final cumulative cost too high: {}",
        to_f(cost_final)
    );
    for (input, label) in xor_points() {
        let (out, _) = net.forward(Value::D1(Array1D::from_vec(input)));
        let p = match out {
            Value::D1(p) => p,
            Value::D2(_) => panic!("expected a vector"),
        };
        if label == 0 {
            assert!(to_f(p.get(0)) < 0.2, "false point predicted {}", to_f(p.get(0)));
        } else {
            assert!(to_f(p.get(0)) > 0.8, "true point predicted {}", to_f(p.get(0)));
        }
    }
}

#[test]
fn empty_batch_is_a_no_op() {
    let mut net = xor_network(0.0);
    let before = batch_cost(&net);
    net.learn_batch(Vec::new(), fx(1.0));
    let after = batch_cost(&net);
    assert_eq!(before, after);
}

#[test]
fn random_layers_sample_within_one_unit() {
    let dense = DenseLayer::random(5, 4);
    for o in 0..4 {
        assert!(dense.biases.get(o).abs() <= FX_ONE);
        for i in 0..5 {
            assert!(dense.weights.get(i, o).abs() <= FX_ONE);
        }
    }
    let conv = convoluted::layer::convolution::Convolution::random(3).unwrap();
    for y in 0..3 {
        for x in 0..3 {
            assert!(conv.kernel.get(x, y).abs() <= FX_ONE);
        }
    }
    let bias = convoluted::layer::bias::BiasLayer::random(2, 3);
    for y in 0..3 {
        for x in 0..2 {
            assert!(bias.biases.get(x, y).abs() <= FX_ONE);
        }
    }
}

#[test]
fn convolutional_pipeline_trains_end_to_end() {
    let mut conv = Convolution::new(3).unwrap();
    conv.kernel.set(1, 1, FX_ONE);
    conv.update_rotated_kernel();
    let chain = LayerChain::new(Dims::D1(16))
        .push(Layer::Shape(Shape::new(4, 4)))
        .unwrap()
        .push(Layer::Convolution(conv))
        .unwrap()
        .push(Layer::Bias(BiasLayer::new(4, 4)))
        .unwrap()
        .push(Layer::Sigmoid(SigmoidLayer::new()))
        .unwrap()
        .push(Layer::MaxPooling(MaxPooling::new(2)))
        .unwrap()
        .push(Layer::Flatten(Flatten::new(2, 2)))
        .unwrap()
        .push(Layer::Dense(DenseLayer::new(4, 2)))
        .unwrap();
    assert_eq!(chain.output_dims, Dims::D1(2));
    let mut net = Network::new(chain, CostKind::CrossEntropy);

    let sample = |class: usize| {
        let mut img = vec![0i64; 16];
        if class == 1 {
            for (i, v) in img.iter_mut().enumerate() {
                *v = (i as i64 % 4) * FX_ONE / 4;
            }
        }
        (Value::D1(Array1D::from_vec(img)), Label::Class(class))
    };
    let eval_cost = |net: &Network| {
        let mut total = 0i64;
        for class in 0..2usize {
            let (out, _) = net.forward(sample(class).0);
            let p = match out {
                Value::D1(p) => p,
                Value::D2(_) => panic!("expected a vector"),
            };
            total += CrossEntropy::cost(&p, &Label::Class(class));
        }
        total
    };

    let cost0 = eval_cost(&net);
    for _ in 0..50 {
        net.learn_batch(vec![sample(0), sample(1)], fx(0.5));
    }
    let cost1 = eval_cost(&net);
    assert!(cost1 < cost0, "training did not help: {} -> {}", to_f(cost0), to_f(cost1));

    // The dense stage's parameters really moved.
    let moved = match &net.layer.layers[6] {
        Layer::Dense(d) => d.biases.get(0) != 0 || d.biases.get(1) != 0,
        _ => panic!("expected the dense stage"),
    };
    assert!(moved);
}

#[test]
fn network_round_trips_its_pipeline() {
    let net = xor_network(0.0);
    let chain = net.into_layer();
    assert_eq!(chain.layers.len(), 4);
    assert_eq!(chain.input_dims, Dims::D1(2));
    assert_eq!(chain.output_dims, Dims::D1(1));
}
