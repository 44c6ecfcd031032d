use convoluted::activation::leaky_relu::LeakyRelu;
use convoluted::activation::relu::Relu;
use convoluted::activation::sigmoid::Sigmoid;
use convoluted::activation::Activation;
use convoluted::array::{Array1D, Array2D};
use convoluted::fixed::FX_ONE;
use convoluted::layer::bias::BiasLayer;
use convoluted::layer::convolution::Convolution;
use convoluted::layer::dense::DenseLayer;
use convoluted::layer::pooling::MaxPooling;
use convoluted::layer::relu::ReluLayer;
use convoluted::layer::reshape::{Flatten, Shape};
use convoluted::layer::sigmoid::SigmoidLayer;
use convoluted::layer::{Dims, Layer, LayerChain, ShapeError, Value};

fn fx(x: f64) -> i64 {
    (x * FX_ONE as f64).round() as i64
}

#[test]
fn activation_scalar_values() {
    assert_eq!(Relu::activate(-FX_ONE), 0);
    assert_eq!(Relu::activate(5 * FX_ONE), 5 * FX_ONE);
    assert_eq!(Relu::derivate(FX_ONE), FX_ONE);
    assert_eq!(Relu::derivate(-1), 0);
    assert_eq!(LeakyRelu::activate(-FX_ONE), -655);
    assert_eq!(LeakyRelu::activate(3 * FX_ONE), 3 * FX_ONE);
    assert_eq!(LeakyRelu::derivate(-1), 655);
    assert_eq!(LeakyRelu::derivate(0), FX_ONE);
    // The sigmoid of zero is exactly one half.
    assert_eq!(Sigmoid::activate(0), FX_ONE / 2);
    // And its derivative there is exactly one quarter.
    assert_eq!(Sigmoid::derivate(0), FX_ONE / 4);
    let _ = (Relu::new(), Sigmoid::new(), LeakyRelu::new());
}

#[test]
fn dense_forward_matches_affine_map() {
    // Fixed small weight matrix and bias: forward must equal the explicit
    // matrix-vector-plus-bias computation exactly.
    let layer = DenseLayer {
        weights: Array2D::from_rows(vec![vec![fx(1.0), fx(2.0)], vec![fx(0.5), fx(-1.0)]]),
        biases: Array1D::from_vec(vec![fx(0.25), 0]),
    };
    let input = Array1D::from_vec(vec![fx(1.0), fx(0.5)]);
    let (out, fd) = layer.forward(input);
    assert_eq!(out.get(0), fx(2.25));
    assert_eq!(out.get(1), 0);
    assert_eq!(fd.get(0), fx(1.0));
    assert_eq!(fd.get(1), fx(0.5));
}

#[test]
fn dense_backward_gradients() {
    let layer = DenseLayer {
        weights: Array2D::from_rows(vec![vec![fx(1.0), fx(2.0)], vec![fx(0.5), fx(-1.0)]]),
        biases: Array1D::from_vec(vec![0, 0]),
    };
    let grad = Array1D::from_vec(vec![fx(1.0), fx(2.0)]);
    let fd = Array1D::from_vec(vec![fx(0.5), fx(-0.5)]);
    let (in_grad, (w_grad, b_grad)) = layer.backward(grad, fd);
    // Bias gradient is the output gradient itself.
    assert_eq!(b_grad.get(0), fx(1.0));
    assert_eq!(b_grad.get(1), fx(2.0));
    // Weight gradient is the outer product input x output-gradient.
    assert_eq!(w_grad.get(0, 0), fx(0.5));
    assert_eq!(w_grad.get(1, 0), fx(-0.5));
    assert_eq!(w_grad.get(0, 1), fx(1.0));
    assert_eq!(w_grad.get(1, 1), fx(-1.0));
    // Input gradient is the transposed weights times the output gradient.
    assert_eq!(in_grad.get(0), fx(1.0 * 1.0 + 0.5 * 2.0));
    assert_eq!(in_grad.get(1), fx(2.0 * 1.0 + (-1.0) * 2.0));
}

#[test]
fn dense_apply_gradients_steps_parameters() {
    let mut layer = DenseLayer {
        weights: Array2D::from_rows(vec![vec![fx(1.0)]]),
        biases: Array1D::from_vec(vec![fx(0.5)]),
    };
    let w_grad = Array2D::from_rows(vec![vec![fx(2.0)]]);
    let b_grad = Array1D::from_vec(vec![fx(1.0)]);
    layer.apply_gradients(&w_grad, &b_grad, fx(-0.25));
    assert_eq!(layer.weights.get(0, 0), fx(0.5));
    assert_eq!(layer.biases.get(0), fx(0.25));
}

#[test]
fn bias_layer_adds_and_routes() {
    let layer = BiasLayer { biases: Array2D::from_rows(vec![vec![fx(1.0), fx(-1.0)]]) };
    let input = Array2D::from_rows(vec![vec![fx(0.5), fx(0.5)]]);
    let out = layer.forward(input);
    assert_eq!(out.get(0, 0), fx(1.5));
    assert_eq!(out.get(1, 0), fx(-0.5));
    let grad = Array2D::from_rows(vec![vec![fx(2.0), fx(3.0)]]);
    let (in_grad, b_grad) = layer.backward(grad);
    assert_eq!(in_grad.get(0, 0), fx(2.0));
    assert_eq!(b_grad.get(1, 0), fx(3.0));
}

#[test]
fn reshape_flatten_round_trip() {
    // flatten(reshape(v)) == v, element for element.
    let v: Vec<i64> = (0..12).map(|i| i * FX_ONE + 7).collect();
    let shape = Shape::new(4, 3);
    let flatten = Flatten::new(4, 3);
    let grid = shape.forward(Array1D::from_vec(v.clone()));
    assert_eq!(grid.get(0, 0), v[0]);
    assert_eq!(grid.get(3, 0), v[3]);
    assert_eq!(grid.get(0, 1), v[4]);
    assert_eq!(grid.get(3, 2), v[11]);
    let back = flatten.forward(grid);
    for (i, x) in v.iter().enumerate() {
        assert_eq!(back.get(i), *x);
    }
}

#[test]
fn pooling_forward_records_argmax() {
    let pool = MaxPooling::new(2);
    let input = Array2D::from_rows(vec![
        vec![fx(1.0), fx(2.0), fx(9.0), fx(0.0)],
        vec![fx(3.0), fx(4.0), fx(0.0), fx(0.0)],
        vec![fx(5.0), fx(5.0), fx(1.0), fx(2.0)],
        vec![fx(5.0), fx(5.0), fx(3.0), fx(4.0)],
    ]);
    let (out, fd) = pool.forward(input);
    assert_eq!(out.get(0, 0), fx(4.0));
    assert_eq!(out.get(1, 0), fx(9.0));
    assert_eq!(out.get(0, 1), fx(5.0));
    assert_eq!(out.get(1, 1), fx(4.0));
    // Packed argmax: window row in the upper 16 bits, window column below.
    assert_eq!(fd.get(0, 0), 1 * 65536 + 1);
    assert_eq!(fd.get(1, 0), 0 * 65536 + 0);
    // Tied maxima keep the first position in scan order (columns outer, rows
    // inner), so the all-equal window records position (0, 0).
    assert_eq!(fd.get(0, 1), 0);
    assert_eq!(fd.get(1, 1), 1 * 65536 + 1);
}

#[test]
fn pooling_backward_routes_gradient() {
    let pool = MaxPooling::new(2);
    let input = Array2D::from_rows(vec![
        vec![fx(1.0), fx(2.0)],
        vec![fx(3.0), fx(4.0)],
    ]);
    let (_, fd) = pool.forward(input);
    let grad = Array2D::from_rows(vec![vec![fx(7.0)]]);
    let routed = pool.backward(grad, fd);
    // The whole gradient lands on the unique maximum; everything else is zero.
    assert_eq!(routed.get(0, 0), 0);
    assert_eq!(routed.get(1, 0), 0);
    assert_eq!(routed.get(0, 1), 0);
    assert_eq!(routed.get(1, 1), fx(7.0));
}

#[test]
fn convolution_center_kernel_is_identity() {
    let mut conv = Convolution::new(3).unwrap();
    conv.kernel.set(1, 1, FX_ONE);
    conv.update_rotated_kernel();
    let input = Array2D::from_rows(vec![
        vec![fx(1.0), fx(2.0), fx(3.0)],
        vec![fx(4.0), fx(5.0), fx(6.0)],
        vec![fx(7.0), fx(8.0), fx(9.0)],
    ]);
    let (out, fd) = conv.forward(input);
    for y in 0..3 {
        for x in 0..3 {
            assert_eq!(out.get(x, y), fd.get(x, y));
        }
    }
    assert_eq!(out.get(0, 0), fx(1.0));
    assert_eq!(out.get(2, 2), fx(9.0));
}

#[test]
fn convolution_offcenter_kernel_shifts() {
    let mut conv = Convolution::new(3).unwrap();
    // A tap right of centre reads the neighbour to the right, with zero
    // padding at the border.
    conv.kernel.set(2, 1, FX_ONE);
    conv.update_rotated_kernel();
    let input = Array2D::from_rows(vec![
        vec![fx(1.0), fx(2.0), fx(3.0)],
        vec![fx(4.0), fx(5.0), fx(6.0)],
        vec![fx(7.0), fx(8.0), fx(9.0)],
    ]);
    let (out, _) = conv.forward(input);
    assert_eq!(out.get(0, 0), fx(2.0));
    assert_eq!(out.get(1, 0), fx(3.0));
    assert_eq!(out.get(2, 0), 0);
    assert_eq!(out.get(0, 2), fx(8.0));
}

#[test]
fn convolution_rejects_even_size() {
    assert!(matches!(Convolution::new(2), Err(ShapeError::EvenConvolutionSize)));
    assert!(matches!(Convolution::random(4), Err(ShapeError::EvenConvolutionSize)));
    assert!(Convolution::new(5).is_ok());
}

#[test]
fn rotated_kernel_stays_in_sync() {
    // After any apply_gradients call the rotated kernel equals the
    // 180-degree point reflection of the live kernel, element for element.
    let mut conv = Convolution::new(3).unwrap();
    let mut rows = Vec::new();
    for y in 0..3i64 {
        rows.push((0..3i64).map(|x| (y * 3 + x + 1) * FX_ONE).collect::<Vec<i64>>());
    }
    let grad = Array2D::from_rows(rows);
    conv.apply_gradients(&grad, FX_ONE);
    for y in 0..3 {
        for x in 0..3 {
            assert_eq!(conv.kernel.get(x, y), ((y as i64) * 3 + (x as i64) + 1) * FX_ONE);
            assert_eq!(conv.rotated_kernel.get(x, y), conv.kernel.get(2 - x, 2 - y));
        }
    }
}

#[test]
fn chain_checks_shapes_at_construction() {
    // A compatible pipeline builds and forwards with the right shapes.
    let chain = LayerChain::new(Dims::D1(4));
    let chain = chain.push(Layer::Shape(Shape::new(2, 2))).unwrap();
    let chain = chain.push(Layer::Sigmoid(SigmoidLayer::new())).unwrap();
    let chain = chain.push(Layer::Flatten(Flatten::new(2, 2))).unwrap();
    let chain = chain.push(Layer::Dense(DenseLayer::new(4, 3))).unwrap();
    let chain = chain.push(Layer::Relu(ReluLayer::new())).unwrap();
    assert_eq!(chain.output_dims, Dims::D1(3));
    let (out, fds) = chain.forward(Value::D1(Array1D::from_vec(vec![0, 0, 0, 0])));
    match out {
        Value::D1(v) => assert_eq!(v.len(), 3),
        Value::D2(_) => panic!("expected a vector"),
    }
    assert_eq!(fds.len(), 5);

    // Mismatched adjacent stages are rejected before any data flows.
    let chain = LayerChain::new(Dims::D1(4));
    assert!(matches!(
        chain.push(Layer::Dense(DenseLayer::new(3, 2))),
        Err(ShapeError::StageMismatch)
    ));
    let chain = LayerChain::new(Dims::D2(4, 4));
    assert!(matches!(
        chain.push(Layer::MaxPooling(MaxPooling::new(3))),
        Err(ShapeError::BadPoolingWindow)
    ));
    let chain = LayerChain::new(Dims::D2(3, 3));
    assert!(matches!(
        chain.push(Layer::Flatten(Flatten::new(2, 2))),
        Err(ShapeError::StageMismatch)
    ));
}
