//! The layer abstraction and pipeline composition.
//!
//! Every stage of a pipeline implements one uniform contract: `forward` maps
//! an input tensor to an output tensor and an opaque forward state, `backward`
//! maps the gradient of the loss with respect to the output (together with
//! that forward state) to the gradient with respect to the input and the
//! gradient with respect to the stage's own parameters, and `apply_gradients`
//! adds a scaled parameter gradient into the parameters in place.
//!
//! A pipeline is an ordered sequence of stages whose adjacent tensor shapes
//! agree; that agreement is checked when the pipeline is built, never during a
//! forward or backward pass.

use vstd::prelude::*;

use crate::activation::ActivationFn;
use crate::array::{grid_is, grid_width, Array1D, Array2D};
use crate::fixed::{spec_fx_add, spec_fx_mul};

use bias::{grid_add, BiasLayer};
use convolution::{conv_grid, rot180, Convolution};
use dense::{dense_forward, dense_in_grad, dense_w_grad, DenseLayer};
use pooling::{
    lemma_pool_fd_grid_ok, pool_back_grid, pool_fd_grid, pool_fd_ok, pool_out_grid, MaxPooling,
};
use relu::ReluLayer;
use reshape::{flatten_spec, reshape_spec, Flatten, Shape};
use sigmoid::SigmoidLayer;

pub mod bias;
pub mod convolution;
pub mod dense;
pub mod pooling;
pub mod relu;
pub mod reshape;
pub mod sigmoid;

verus! {

/// Why a layer or pipeline could not be constructed.  Shape mismatches are
/// rejected here, before any data flows; no forward or backward call fails.
#[derive(Clone, Copy, Debug, PartialEq, Eq, Structural)]
pub enum ShapeError {
    /// A convolution kernel must have odd size.
    EvenConvolutionSize,
    /// A pooling window must divide both grid dimensions and fit 16 bits.
    BadPoolingWindow,
    /// Adjacent pipeline stages disagree about the tensor shape between them.
    StageMismatch,
}

/// A grid moved by `grad * multiplier`, elementwise: the shape every
/// parameter update takes.
pub open spec fn grid_stepped(w: Seq<Seq<int>>, g: Seq<Seq<int>>, mult: int) -> Seq<Seq<int>> {
    Seq::new(
        w.len(),
        |o: int| Seq::new(w[o].len(), |i: int| spec_fx_add(w[o][i], spec_fx_mul(g[o][i], mult))),
    )
}

/// A vector moved by `grad * multiplier`, elementwise.
pub open spec fn vec_stepped(b: Seq<int>, g: Seq<int>, mult: int) -> Seq<int> {
    Seq::new(b.len(), |o: int| spec_fx_add(b[o], spec_fx_mul(g[o], mult)))
}

/// A tensor value flowing through a pipeline.
pub enum Value {
    D1(Array1D),
    D2(Array2D),
}

/// The mathematical contents of a tensor value.
pub enum ValView {
    D1(Seq<int>),
    D2(Seq<Seq<int>>),
}

impl View for Value {
    type V = ValView;

    open spec fn view(&self) -> ValView {
        match self {
            Value::D1(v) => ValView::D1(v@),
            Value::D2(m) => ValView::D2(m@),
        }
    }
}

/// A tensor shape, fixed at pipeline construction time: a vector length or a
/// grid width and height.
#[derive(Clone, Copy, Debug, PartialEq, Eq, Structural)]
pub enum Dims {
    D1(usize),
    D2(usize, usize),
}

/// The value has exactly the given shape (grids are rectangular).
pub open spec fn vdims_ok(v: ValView, d: Dims) -> bool {
    match v {
        ValView::D1(s) => match d {
            Dims::D1(n) => s.len() == n,
            Dims::D2(_, _) => false,
        },
        ValView::D2(m) => match d {
            Dims::D1(_) => false,
            Dims::D2(x, y) => grid_is(m, x as nat, y as nat),
        },
    }
}

/// The forward state one stage hands to its own backward pass.
pub enum ForwardData {
    Unit,
    D1(Array1D),
    D2(Array2D),
}

/// The mathematical contents of a forward state.
pub enum FdView {
    Unit,
    D1(Seq<int>),
    D2(Seq<Seq<int>>),
}

impl View for ForwardData {
    type V = FdView;

    open spec fn view(&self) -> FdView {
        match self {
            ForwardData::Unit => FdView::Unit,
            ForwardData::D1(v) => FdView::D1(v@),
            ForwardData::D2(m) => FdView::D2(m@),
        }
    }
}

/// The gradient of the loss with respect to one stage's parameters.
pub enum Gradients {
    /// The stage has no parameters.
    Unit,
    /// Weight-matrix and bias-vector gradients of a dense stage.
    Dense(Array2D, Array1D),
    /// The grid-shaped gradient of a convolution kernel or a bias grid.
    Grid(Array2D),
}

/// The mathematical contents of a parameter gradient.
pub enum GradView {
    Unit,
    Dense(Seq<Seq<int>>, Seq<int>),
    Grid(Seq<Seq<int>>),
}

impl View for Gradients {
    type V = GradView;

    open spec fn view(&self) -> GradView {
        match self {
            Gradients::Unit => GradView::Unit,
            Gradients::Dense(w, b) => GradView::Dense(w@, b@),
            Gradients::Grid(m) => GradView::Grid(m@),
        }
    }
}

/// One pipeline stage.
pub enum Layer {
    Dense(DenseLayer),
    Convolution(Convolution),
    Bias(BiasLayer),
    MaxPooling(MaxPooling),
    Shape(Shape),
    Flatten(Flatten),
    Sigmoid(SigmoidLayer),
    Relu(ReluLayer),
    Activation(ActivationFn),
}

/// The mathematical contents of one pipeline stage.
#[allow(inconsistent_fields)]
pub enum LayerView {
    Dense { weights: Seq<Seq<int>>, biases: Seq<int> },
    Convolution { kernel: Seq<Seq<int>>, rotated: Seq<Seq<int>> },
    Bias { biases: Seq<Seq<int>> },
    MaxPooling { n: usize },
    Shape { x: usize, y: usize },
    Flatten { x: usize, y: usize },
    Sigmoid,
    Relu,
    Activation(ActivationFn),
}

impl View for Layer {
    type V = LayerView;

    open spec fn view(&self) -> LayerView {
        match self {
            Layer::Dense(d) => LayerView::Dense { weights: d.weights@, biases: d.biases@ },
            Layer::Convolution(c) => LayerView::Convolution {
                kernel: c.kernel@,
                rotated: c.rotated(),
            },
            Layer::Bias(b) => LayerView::Bias { biases: b.biases@ },
            Layer::MaxPooling(p) => LayerView::MaxPooling { n: p.n },
            Layer::Shape(s) => LayerView::Shape { x: s.x, y: s.y },
            Layer::Flatten(f) => LayerView::Flatten { x: f.x, y: f.y },
            Layer::Sigmoid(_) => LayerView::Sigmoid,
            Layer::Relu(_) => LayerView::Relu,
            Layer::Activation(a) => LayerView::Activation(*a),
        }
    }
}

/// The stage's internal invariant: parameters are rectangular, a convolution
/// kernel is square with odd size, and its rotated buffer is in sync.
pub open spec fn layer_wf(l: LayerView) -> bool {
    match l {
        LayerView::Dense { weights, biases } => grid_is(
            weights,
            grid_width(weights),
            biases.len(),
        ) && biases.len() <= usize::MAX,
        LayerView::Convolution { kernel, rotated } => grid_is(kernel, kernel.len(), kernel.len())
            && kernel.len() % 2 == 1 && rotated == rot180(kernel),
        LayerView::Bias { biases } => grid_is(biases, grid_width(biases), biases.len()),
        LayerView::MaxPooling { n } => 1 <= n <= 65535,
        LayerView::Shape { x, y } => true,
        LayerView::Flatten { x, y } => true,
        LayerView::Sigmoid => true,
        LayerView::Relu => true,
        LayerView::Activation(_) => true,
    }
}

/// The stage accepts inputs of shape `d` (its construction-time shape check).
pub open spec fn layer_in_ok(l: LayerView, d: Dims) -> bool {
    match l {
        LayerView::Dense { weights, biases } => match d {
            Dims::D1(n) => grid_is(weights, n as nat, biases.len()),
            Dims::D2(_, _) => false,
        },
        LayerView::Convolution { kernel, .. } => match d {
            Dims::D1(_) => false,
            Dims::D2(x, y) => x + kernel.len() <= usize::MAX && y + kernel.len() <= usize::MAX,
        },
        LayerView::Bias { biases } => match d {
            Dims::D1(_) => false,
            Dims::D2(x, y) => grid_is(biases, x as nat, y as nat),
        },
        LayerView::MaxPooling { n } => match d {
            Dims::D1(_) => false,
            Dims::D2(x, y) => x % n == 0 && y % n == 0,
        },
        LayerView::Shape { x, y } => match d {
            Dims::D1(m) => m == x * y,
            Dims::D2(_, _) => false,
        },
        LayerView::Flatten { x, y } => match d {
            Dims::D1(_) => false,
            Dims::D2(a, b) => a == x && b == y && x * y <= usize::MAX,
        },
        LayerView::Sigmoid => true,
        LayerView::Relu => true,
        LayerView::Activation(_) => true,
    }
}

/// The shape of the stage's output for an input of shape `d`.
pub open spec fn layer_out_dims(l: LayerView, d: Dims) -> Dims {
    match l {
        LayerView::Dense { weights, biases } => Dims::D1(biases.len() as usize),
        LayerView::Convolution { .. } => d,
        LayerView::Bias { .. } => d,
        LayerView::MaxPooling { n } => match d {
            Dims::D1(m) => d,
            Dims::D2(x, y) => Dims::D2((x as int / n as int) as usize, (y as int / n as int) as usize),
        },
        LayerView::Shape { x, y } => Dims::D2(x, y),
        LayerView::Flatten { x, y } => Dims::D1((x * y) as usize),
        LayerView::Sigmoid => d,
        LayerView::Relu => d,
        LayerView::Activation(_) => d,
    }
}

/// The stage accepts this concrete value (the dynamic counterpart of
/// `layer_in_ok`).
pub open spec fn layer_val_ok(l: LayerView, v: ValView) -> bool {
    match l {
        LayerView::Dense { weights, biases } => match v {
            ValView::D1(s) => grid_is(weights, s.len(), biases.len()),
            ValView::D2(_) => false,
        },
        LayerView::Convolution { kernel, .. } => match v {
            ValView::D1(_) => false,
            ValView::D2(m) => grid_is(m, grid_width(m), m.len()) && grid_width(m) + kernel.len()
                <= usize::MAX && m.len() + kernel.len() <= usize::MAX,
        },
        LayerView::Bias { biases } => match v {
            ValView::D1(_) => false,
            ValView::D2(m) => grid_is(m, grid_width(m), m.len()) && grid_is(
                biases,
                grid_width(m),
                m.len(),
            ),
        },
        LayerView::MaxPooling { n } => match v {
            ValView::D1(_) => false,
            ValView::D2(m) => grid_is(m, grid_width(m), m.len()) && grid_width(m) % (n as nat)
                == 0 && m.len() % (n as nat) == 0,
        },
        LayerView::Shape { x, y } => match v {
            ValView::D1(s) => s.len() == x * y,
            ValView::D2(_) => false,
        },
        LayerView::Flatten { x, y } => match v {
            ValView::D1(_) => false,
            ValView::D2(m) => grid_is(m, x as nat, y as nat) && x * y <= usize::MAX,
        },
        LayerView::Sigmoid => true,
        LayerView::Relu => true,
        LayerView::Activation(_) => true,
    }
}

/// What the stage's forward pass returns.
pub open spec fn layer_fwd(l: LayerView, v: ValView) -> ValView {
    match l {
        LayerView::Dense { weights, biases } => match v {
            ValView::D1(s) => ValView::D1(dense_forward(weights, biases, s)),
            ValView::D2(_) => v,
        },
        LayerView::Convolution { kernel, .. } => match v {
            ValView::D1(_) => v,
            ValView::D2(m) => ValView::D2(
                conv_grid(m, kernel, (kernel.len() - 1) as int / 2, grid_width(m), m.len()),
            ),
        },
        LayerView::Bias { biases } => match v {
            ValView::D1(_) => v,
            ValView::D2(m) => ValView::D2(grid_add(m, biases)),
        },
        LayerView::MaxPooling { n } => match v {
            ValView::D1(_) => v,
            ValView::D2(m) => ValView::D2(
                pool_out_grid(m, n as nat, grid_width(m) / (n as nat), m.len() / (n as nat)),
            ),
        },
        LayerView::Shape { x, y } => match v {
            ValView::D1(s) => ValView::D2(reshape_spec(s, x as nat, y as nat)),
            ValView::D2(_) => v,
        },
        LayerView::Flatten { x, y } => match v {
            ValView::D1(_) => v,
            ValView::D2(m) => ValView::D1(flatten_spec(m, x as nat, y as nat)),
        },
        LayerView::Sigmoid => match v {
            ValView::D1(s) => ValView::D1(crate::activation::act_map_1d::<SigmoidLayer>(s)),
            ValView::D2(m) => ValView::D2(crate::activation::act_map_2d::<SigmoidLayer>(m)),
        },
        LayerView::Relu => match v {
            ValView::D1(s) => ValView::D1(crate::activation::act_map_1d::<ReluLayer>(s)),
            ValView::D2(m) => ValView::D2(crate::activation::act_map_2d::<ReluLayer>(m)),
        },
        LayerView::Activation(a) => match v {
            ValView::D1(s) => ValView::D1(a.map_1d(s)),
            ValView::D2(m) => ValView::D2(a.map_2d(m)),
        },
    }
}

/// What the stage's forward pass retains for its backward pass.
pub open spec fn layer_fd(l: LayerView, v: ValView) -> FdView {
    match l {
        LayerView::Dense { .. } => match v {
            ValView::D1(s) => FdView::D1(s),
            ValView::D2(_) => FdView::Unit,
        },
        LayerView::Convolution { .. } => match v {
            ValView::D1(_) => FdView::Unit,
            ValView::D2(m) => FdView::D2(m),
        },
        LayerView::Bias { .. } => FdView::Unit,
        LayerView::MaxPooling { n } => match v {
            ValView::D1(_) => FdView::Unit,
            ValView::D2(m) => FdView::D2(
                pool_fd_grid(m, n as nat, grid_width(m) / (n as nat), m.len() / (n as nat)),
            ),
        },
        LayerView::Shape { .. } => FdView::Unit,
        LayerView::Flatten { .. } => FdView::Unit,
        LayerView::Sigmoid => match v {
            ValView::D1(s) => FdView::D1(s),
            ValView::D2(m) => FdView::D2(m),
        },
        LayerView::Relu => match v {
            ValView::D1(s) => FdView::D1(s),
            ValView::D2(m) => FdView::D2(m),
        },
        LayerView::Activation(_) => match v {
            ValView::D1(s) => FdView::D1(s),
            ValView::D2(m) => FdView::D2(m),
        },
    }
}

/// The stage's backward pass accepts this output gradient and forward state.
pub open spec fn layer_bwd_ok(l: LayerView, g: ValView, fd: FdView) -> bool {
    match l {
        LayerView::Dense { weights, biases } => match (g, fd) {
            (ValView::D1(gs), FdView::D1(fs)) => gs.len() == biases.len() && grid_is(
                weights,
                fs.len(),
                biases.len(),
            ),
            _ => false,
        },
        LayerView::Convolution { kernel, .. } => match (g, fd) {
            (ValView::D2(gm), FdView::D2(fm)) => grid_is(gm, grid_width(gm), gm.len()) && grid_is(
                fm,
                grid_width(fm),
                fm.len(),
            ) && grid_width(gm) + kernel.len() <= usize::MAX && gm.len() + kernel.len()
                <= usize::MAX && kernel.len() + grid_width(gm) <= usize::MAX && kernel.len()
                + gm.len() <= usize::MAX,
            _ => false,
        },
        LayerView::Bias { .. } => g is D2 && fd is Unit,
        LayerView::MaxPooling { n } => match (g, fd) {
            (ValView::D2(gm), FdView::D2(fm)) => grid_is(gm, grid_width(gm), gm.len()) && grid_is(
                fm,
                grid_width(gm),
                gm.len(),
            ) && pool_fd_ok(fm, n as nat) && grid_width(gm) * (n as nat) <= usize::MAX && gm.len()
                * (n as nat) <= usize::MAX,
            _ => false,
        },
        LayerView::Shape { x, y } => match (g, fd) {
            (ValView::D2(gm), FdView::Unit) => grid_is(gm, x as nat, y as nat) && x * y
                <= usize::MAX,
            _ => false,
        },
        LayerView::Flatten { x, y } => match (g, fd) {
            (ValView::D1(gs), FdView::Unit) => gs.len() == x * y,
            _ => false,
        },
        LayerView::Sigmoid => act_bwd_ok(g, fd),
        LayerView::Relu => act_bwd_ok(g, fd),
        LayerView::Activation(_) => act_bwd_ok(g, fd),
    }
}

/// An activation's backward pass needs gradient and retained input of the
/// same shape.
pub open spec fn act_bwd_ok(g: ValView, fd: FdView) -> bool {
    match (g, fd) {
        (ValView::D1(gs), FdView::D1(fs)) => gs.len() == fs.len(),
        (ValView::D2(gm), FdView::D2(fm)) => gm.len() == fm.len() && forall|i: int|
            0 <= i < fm.len() ==> (#[trigger] gm[i]).len() == fm[i].len(),
        _ => false,
    }
}

/// The gradient the stage propagates to its input.
pub open spec fn layer_bwd_in(l: LayerView, g: ValView, fd: FdView) -> ValView {
    match l {
        LayerView::Dense { weights, biases } => match (g, fd) {
            (ValView::D1(gs), FdView::D1(fs)) => ValView::D1(dense_in_grad(weights, gs, fs.len())),
            _ => g,
        },
        LayerView::Convolution { kernel, rotated } => match g {
            ValView::D2(gm) => ValView::D2(
                conv_grid(gm, rotated, (kernel.len() - 1) as int / 2, grid_width(gm), gm.len()),
            ),
            _ => g,
        },
        LayerView::Bias { .. } => g,
        LayerView::MaxPooling { n } => match (g, fd) {
            (ValView::D2(gm), FdView::D2(fm)) => ValView::D2(
                pool_back_grid(gm, fm, n as nat, grid_width(gm), gm.len()),
            ),
            _ => g,
        },
        LayerView::Shape { x, y } => match g {
            ValView::D2(gm) => ValView::D1(flatten_spec(gm, x as nat, y as nat)),
            _ => g,
        },
        LayerView::Flatten { x, y } => match g {
            ValView::D1(gs) => ValView::D2(reshape_spec(gs, x as nat, y as nat)),
            _ => g,
        },
        LayerView::Sigmoid => match (g, fd) {
            (ValView::D1(gs), FdView::D1(fs)) => ValView::D1(
                crate::activation::act_grad_1d::<SigmoidLayer>(gs, fs),
            ),
            (ValView::D2(gm), FdView::D2(fm)) => ValView::D2(
                crate::activation::act_grad_2d::<SigmoidLayer>(gm, fm),
            ),
            _ => g,
        },
        LayerView::Relu => match (g, fd) {
            (ValView::D1(gs), FdView::D1(fs)) => ValView::D1(
                crate::activation::act_grad_1d::<ReluLayer>(gs, fs),
            ),
            (ValView::D2(gm), FdView::D2(fm)) => ValView::D2(
                crate::activation::act_grad_2d::<ReluLayer>(gm, fm),
            ),
            _ => g,
        },
        LayerView::Activation(a) => match (g, fd) {
            (ValView::D1(gs), FdView::D1(fs)) => ValView::D1(a.grad_1d(gs, fs)),
            (ValView::D2(gm), FdView::D2(fm)) => ValView::D2(a.grad_2d(gm, fm)),
            _ => g,
        },
    }
}

/// The gradient of the stage's own parameters.
pub open spec fn layer_bwd_grad(l: LayerView, g: ValView, fd: FdView) -> GradView {
    match l {
        LayerView::Dense { .. } => match (g, fd) {
            (ValView::D1(gs), FdView::D1(fs)) => GradView::Dense(dense_w_grad(fs, gs), gs),
            _ => GradView::Unit,
        },
        LayerView::Convolution { kernel, .. } => match (g, fd) {
            (ValView::D2(gm), FdView::D2(fm)) => GradView::Grid(
                conv_grid(fm, gm, (kernel.len() - 1) as int / 2, kernel.len(), kernel.len()),
            ),
            _ => GradView::Unit,
        },
        LayerView::Bias { .. } => match g {
            ValView::D2(gm) => GradView::Grid(gm),
            _ => GradView::Unit,
        },
        _ => GradView::Unit,
    }
}

/// The parameter gradient fits the stage's parameters.
pub open spec fn layer_grad_ok(l: LayerView, g: GradView) -> bool {
    match l {
        LayerView::Dense { weights, biases } => match g {
            GradView::Dense(wg, bg) => bg.len() == biases.len() && wg.len() == weights.len()
                && forall|i: int| 0 <= i < wg.len() ==> (#[trigger] wg[i]).len()
                == weights[i].len(),
            _ => false,
        },
        LayerView::Convolution { kernel, .. } => match g {
            GradView::Grid(kg) => kg.len() == kernel.len() && forall|i: int|
                0 <= i < kg.len() ==> (#[trigger] kg[i]).len() == kernel.len(),
            _ => false,
        },
        LayerView::Bias { biases } => match g {
            GradView::Grid(bg) => bg.len() == biases.len() && forall|i: int|
                0 <= i < bg.len() ==> (#[trigger] bg[i]).len() == biases[i].len(),
            _ => false,
        },
        _ => g is Unit,
    }
}

/// The stage after one parameter update by `grad * mult`.
pub open spec fn layer_applied(l: LayerView, g: GradView, mult: int) -> LayerView {
    match l {
        LayerView::Dense { weights, biases } => match g {
            GradView::Dense(wg, bg) => LayerView::Dense {
                weights: grid_stepped(weights, wg, mult),
                biases: vec_stepped(biases, bg, mult),
            },
            _ => l,
        },
        LayerView::Convolution { kernel, .. } => match g {
            GradView::Grid(kg) => LayerView::Convolution {
                kernel: grid_stepped(kernel, kg, mult),
                rotated: rot180(grid_stepped(kernel, kg, mult)),
            },
            _ => l,
        },
        LayerView::Bias { biases } => match g {
            GradView::Grid(bg) => LayerView::Bias { biases: grid_stepped(biases, bg, mult) },
            _ => l,
        },
        _ => l,
    }
}

impl Layer {
    /// Forward evaluation: the output value and the retained forward state.
    pub fn forward(&self, input: Value) -> (r: (Value, ForwardData))
        requires
            layer_wf(self@),
            layer_val_ok(self@, input@),
        ensures
            r.0@ == layer_fwd(self@, input@),
            r.1@ == layer_fd(self@, input@),
    {
        match self {
            Layer::Dense(d) => match input {
                Value::D1(v) => {
                    let (o, fd) = d.forward(v);
                    (Value::D1(o), ForwardData::D1(fd))
                },
                Value::D2(_) => vstd::pervasive::unreached(),
            },
            Layer::Convolution(c) => match input {
                Value::D2(m) => {
                    let (o, fd) = c.forward(m);
                    (Value::D2(o), ForwardData::D2(fd))
                },
                Value::D1(_) => vstd::pervasive::unreached(),
            },
            Layer::Bias(b) => match input {
                Value::D2(m) => {
                    let o = b.forward(m);
                    (Value::D2(o), ForwardData::Unit)
                },
                Value::D1(_) => vstd::pervasive::unreached(),
            },
            Layer::MaxPooling(p) => match input {
                Value::D2(m) => {
                    let (o, fd) = p.forward(m);
                    (Value::D2(o), ForwardData::D2(fd))
                },
                Value::D1(_) => vstd::pervasive::unreached(),
            },
            Layer::Shape(s) => match input {
                Value::D1(v) => {
                    let o = s.forward(v);
                    (Value::D2(o), ForwardData::Unit)
                },
                Value::D2(_) => vstd::pervasive::unreached(),
            },
            Layer::Flatten(f) => match input {
                Value::D2(m) => {
                    let o = f.forward(m);
                    (Value::D1(o), ForwardData::Unit)
                },
                Value::D1(_) => vstd::pervasive::unreached(),
            },
            Layer::Sigmoid(s) => match input {
                Value::D1(v) => {
                    let (o, fd) = s.forward_1d(v);
                    (Value::D1(o), ForwardData::D1(fd))
                },
                Value::D2(m) => {
                    let (o, fd) = s.forward_2d(m);
                    (Value::D2(o), ForwardData::D2(fd))
                },
            },
            Layer::Relu(rl) => match input {
                Value::D1(v) => {
                    let (o, fd) = rl.forward_1d(v);
                    (Value::D1(o), ForwardData::D1(fd))
                },
                Value::D2(m) => {
                    let (o, fd) = rl.forward_2d(m);
                    (Value::D2(o), ForwardData::D2(fd))
                },
            },
            Layer::Activation(a) => match input {
                Value::D1(v) => {
                    let (o, fd) = a.forward_1d(v);
                    (Value::D1(o), ForwardData::D1(fd))
                },
                Value::D2(m) => {
                    let (o, fd) = a.forward_2d(m);
                    (Value::D2(o), ForwardData::D2(fd))
                },
            },
        }
    }

    /// Backpropagation: the gradient with respect to the stage input and the
    /// gradient with respect to the stage's parameters.
    pub fn backward(&self, forward: Value, forward_data: ForwardData) -> (r: (Value, Gradients))
        requires
            layer_wf(self@),
            layer_bwd_ok(self@, forward@, forward_data@),
        ensures
            r.0@ == layer_bwd_in(self@, forward@, forward_data@),
            r.1@ == layer_bwd_grad(self@, forward@, forward_data@),
    {
        match self {
            Layer::Dense(d) => match (forward, forward_data) {
                (Value::D1(g), ForwardData::D1(fd)) => {
                    let (ig, grads) = d.backward(g, fd);
                    (Value::D1(ig), Gradients::Dense(grads.0, grads.1))
                },
                _ => vstd::pervasive::unreached(),
            },
            Layer::Convolution(c) => match (forward, forward_data) {
                (Value::D2(g), ForwardData::D2(fd)) => {
                    let (ig, kg) = c.backward(g, fd);
                    (Value::D2(ig), Gradients::Grid(kg))
                },
                _ => vstd::pervasive::unreached(),
            },
            Layer::Bias(b) => match (forward, forward_data) {
                (Value::D2(g), ForwardData::Unit) => {
                    let (ig, bg) = b.backward(g);
                    (Value::D2(ig), Gradients::Grid(bg))
                },
                _ => vstd::pervasive::unreached(),
            },
            Layer::MaxPooling(p) => match (forward, forward_data) {
                (Value::D2(g), ForwardData::D2(fd)) => {
                    let ig = p.backward(g, fd);
                    (Value::D2(ig), Gradients::Unit)
                },
                _ => vstd::pervasive::unreached(),
            },
            Layer::Shape(s) => match (forward, forward_data) {
                (Value::D2(g), ForwardData::Unit) => {
                    let ig = s.backward(g);
                    (Value::D1(ig), Gradients::Unit)
                },
                _ => vstd::pervasive::unreached(),
            },
            Layer::Flatten(f) => match (forward, forward_data) {
                (Value::D1(g), ForwardData::Unit) => {
                    let ig = f.backward(g);
                    (Value::D2(ig), Gradients::Unit)
                },
                _ => vstd::pervasive::unreached(),
            },
            Layer::Sigmoid(s) => match (forward, forward_data) {
                (Value::D1(g), ForwardData::D1(fd)) => (
                    Value::D1(s.backward_1d(g, &fd)),
                    Gradients::Unit,
                ),
                (Value::D2(g), ForwardData::D2(fd)) => (
                    Value::D2(s.backward_2d(g, &fd)),
                    Gradients::Unit,
                ),
                _ => vstd::pervasive::unreached(),
            },
            Layer::Relu(rl) => match (forward, forward_data) {
                (Value::D1(g), ForwardData::D1(fd)) => (
                    Value::D1(rl.backward_1d(g, &fd)),
                    Gradients::Unit,
                ),
                (Value::D2(g), ForwardData::D2(fd)) => (
                    Value::D2(rl.backward_2d(g, &fd)),
                    Gradients::Unit,
                ),
                _ => vstd::pervasive::unreached(),
            },
            Layer::Activation(a) => match (forward, forward_data) {
                (Value::D1(g), ForwardData::D1(fd)) => (
                    Value::D1(a.backward_1d(g, &fd)),
                    Gradients::Unit,
                ),
                (Value::D2(g), ForwardData::D2(fd)) => (
                    Value::D2(a.backward_2d(g, &fd)),
                    Gradients::Unit,
                ),
                _ => vstd::pervasive::unreached(),
            },
        }
    }

    /// Add `grad * multiplier` into the stage's parameters in place; stages
    /// without parameters are unchanged.
    pub fn apply_gradients(&mut self, gradients: &Gradients, multiplier: i64)
        requires
            layer_wf(old(self)@),
            layer_grad_ok(old(self)@, gradients@),
        ensures
            final(self)@ == layer_applied(old(self)@, gradients@, multiplier as int),
            layer_wf(final(self)@),
    {
        match self {
            Layer::Dense(d) => match gradients {
                Gradients::Dense(wg, bg) => {
                    d.apply_gradients(wg, bg, multiplier);
                },
                _ => vstd::pervasive::unreached(),
            },
            Layer::Convolution(c) => match gradients {
                Gradients::Grid(kg) => {
                    c.apply_gradients(kg, multiplier);
                },
                _ => vstd::pervasive::unreached(),
            },
            Layer::Bias(b) => match gradients {
                Gradients::Grid(bg) => {
                    b.apply_gradients(bg, multiplier);
                },
                _ => vstd::pervasive::unreached(),
            },
            Layer::MaxPooling(_) => {},
            Layer::Shape(_) => {},
            Layer::Flatten(_) => {},
            Layer::Sigmoid(_) => {},
            Layer::Relu(_) => {},
            Layer::Activation(_) => {},
        }
    }
}

/// The mathematical contents of a stage sequence.
pub open spec fn layer_views(ls: Seq<Layer>) -> Seq<LayerView> {
    Seq::new(ls.len(), |i: int| ls[i]@)
}

/// The mathematical contents of a forward-state sequence.
pub open spec fn fd_views(fds: Seq<ForwardData>) -> Seq<FdView> {
    Seq::new(fds.len(), |i: int| fds[i]@)
}

/// The mathematical contents of a gradient sequence.
pub open spec fn grad_views(gs: Seq<Gradients>) -> Seq<GradView> {
    Seq::new(gs.len(), |i: int| gs[i]@)
}

/// Every stage is internally well formed and accepts the shape the stage
/// before it produces, starting from input shape `d`.
pub open spec fn chain_ok(ls: Seq<LayerView>, d: Dims) -> bool
    decreases ls.len(),
{
    ls.len() == 0 || (layer_wf(ls[0]) && layer_in_ok(ls[0], d) && chain_ok(
        ls.drop_first(),
        layer_out_dims(ls[0], d),
    ))
}

/// The shape a chain produces from input shape `d`.
pub open spec fn chain_out_dims(ls: Seq<LayerView>, d: Dims) -> Dims
    decreases ls.len(),
{
    if ls.len() == 0 {
        d
    } else {
        chain_out_dims(ls.drop_first(), layer_out_dims(ls[0], d))
    }
}

/// Forward evaluation of a whole chain: each stage's output is the next
/// stage's input.
pub open spec fn chain_fwd(ls: Seq<LayerView>, v: ValView) -> ValView
    decreases ls.len(),
{
    if ls.len() == 0 {
        v
    } else {
        chain_fwd(ls.drop_first(), layer_fwd(ls[0], v))
    }
}

/// The forward states a whole chain retains, one per stage.
pub open spec fn chain_fds(ls: Seq<LayerView>, v: ValView) -> Seq<FdView>
    decreases ls.len(),
{
    if ls.len() == 0 {
        Seq::empty()
    } else {
        seq![layer_fd(ls[0], v)] + chain_fds(ls.drop_first(), layer_fwd(ls[0], v))
    }
}

/// Backward evaluation of a whole chain, strictly in reverse: the gradient
/// that reaches the chain input, and one parameter gradient per stage.
pub open spec fn chain_bwd(ls: Seq<LayerView>, g: ValView, fds: Seq<FdView>) -> (
    ValView,
    Seq<GradView>,
)
    decreases ls.len(),
{
    if ls.len() == 0 {
        (g, Seq::<GradView>::empty())
    } else {
        let g1 = layer_bwd_in(ls.last(), g, fds.last());
        let gr = layer_bwd_grad(ls.last(), g, fds.last());
        let rest = chain_bwd(ls.drop_last(), g1, fds.drop_last());
        (rest.0, rest.1.push(gr))
    }
}

/// Every stage moved by its own gradient, scaled by one common multiplier.
pub open spec fn applied_views(ls: Seq<LayerView>, gs: Seq<GradView>, mult: int) -> Seq<
    LayerView,
> {
    Seq::new(ls.len(), |i: int| layer_applied(ls[i], gs[i], mult))
}

/// A shape-correct stage applied to a value of its input shape accepts the
/// value and produces a value of its output shape.
proof fn lemma_layer_shapes(l: LayerView, d: Dims, v: ValView)
    requires
        layer_wf(l),
        layer_in_ok(l, d),
        vdims_ok(v, d),
    ensures
        layer_val_ok(l, v),
        vdims_ok(layer_fwd(l, v), layer_out_dims(l, d)),
{
    match l {
        LayerView::MaxPooling { n } => {
            match (v, d) {
                (ValView::D2(m), Dims::D2(x, y)) => {
                    assert(m.len() == y as nat);
                    if m.len() > 0 {
                        assert(grid_width(m) == x as nat);
                    }
                },
                _ => {},
            }
        },
        _ => {},
    }
}

/// A shape-correct stage, its retained forward state, and a gradient of its
/// output shape: the backward pass accepts them, propagates a gradient of the
/// input shape, and produces a parameter gradient that fits the parameters.
proof fn lemma_layer_bwd_shapes(l: LayerView, d: Dims, v: ValView, g: ValView)
    requires
        layer_wf(l),
        layer_in_ok(l, d),
        vdims_ok(v, d),
        vdims_ok(g, layer_out_dims(l, d)),
    ensures
        layer_bwd_ok(l, g, layer_fd(l, v)),
        vdims_ok(layer_bwd_in(l, g, layer_fd(l, v)), d),
        layer_grad_ok(l, layer_bwd_grad(l, g, layer_fd(l, v))),
{
    let fd = layer_fd(l, v);
    match l {
        LayerView::MaxPooling { n } => {
            match (v, d, g) {
                (ValView::D2(m), Dims::D2(x, y), ValView::D2(gm)) => {
                    let nn = n as nat;
                    let a = x as int / n as int;
                    let b = y as int / n as int;
                    lemma_pool_fd_grid_ok(m, nn, grid_width(m) / nn, m.len() / nn);
                    vstd::arithmetic::div_mod::lemma_fundamental_div_mod(x as int, n as int);
                    vstd::arithmetic::div_mod::lemma_fundamental_div_mod(y as int, n as int);
                    assert(a * (n as int) == x as int) by (nonlinear_arith)
                        requires
                            x as int == (n as int) * a,
                    ;
                    assert(b * (n as int) == y as int) by (nonlinear_arith)
                        requires
                            y as int == (n as int) * b,
                    ;
                    assert(m.len() == y as nat && gm.len() == b as nat);
                    if gm.len() > 0 {
                        assert(grid_width(gm) == a as nat);
                        assert(grid_width(m) == x as nat);
                    }
                    assert(grid_width(gm) * nn <= usize::MAX) by {
                        if gm.len() > 0 {
                            assert(grid_width(gm) * nn == x as nat);
                        }
                    }
                    assert(gm.len() * nn == y as nat);
                    match fd {
                        FdView::D2(fm) => {
                            assert(fm.len() == m.len() / nn);
                            assert(layer_bwd_ok(l, g, fd)) by {
                                if gm.len() > 0 {
                                    assert(grid_is(fm, grid_width(gm), gm.len()));
                                }
                            }
                            assert(vdims_ok(layer_bwd_in(l, g, fd), d)) by {
                                let back = pool_back_grid(gm, fm, nn, grid_width(gm), gm.len());
                                assert(back.len() == gm.len() * nn);
                                assert(gm.len() * nn == y as nat);
                                if gm.len() > 0 {
                                    assert(forall|r0: int| 0 <= r0 < back.len()
                                        ==> (#[trigger] back[r0]).len() == grid_width(gm) * nn);
                                }
                            }
                        },
                        _ => {},
                    }
                },
                _ => {},
            }
        },
        _ => {},
    }
}

/// One parameter update keeps a stage well formed and keeps both its input
/// and output shapes.
proof fn lemma_layer_applied(l: LayerView, d: Dims, g: GradView, mult: int)
    requires
        layer_wf(l),
        layer_in_ok(l, d),
        layer_grad_ok(l, g),
    ensures
        layer_wf(layer_applied(l, g, mult)),
        layer_in_ok(layer_applied(l, g, mult), d),
        layer_out_dims(layer_applied(l, g, mult), d) == layer_out_dims(l, d),
{
    match l {
        LayerView::Convolution { kernel, rotated } => {
            match g {
                GradView::Grid(kg) => {
                    let stepped = grid_stepped(kernel, kg, mult);
                    assert(grid_is(stepped, stepped.len(), stepped.len()));
                },
                _ => {},
            }
        },
        _ => {},
    }
}

/// The facts a pipeline walk needs at stage `i`: the stage is well formed,
/// accepts the shape so far, and the recorded forward state at `i` is the
/// stage's own; prefix shapes and values unfold one stage at a time.
proof fn lemma_chain_at(ls: Seq<LayerView>, d: Dims, v: ValView, i: int)
    requires
        chain_ok(ls, d),
        vdims_ok(v, d),
        0 <= i < ls.len(),
    ensures
        layer_wf(ls[i]),
        layer_in_ok(ls[i], chain_out_dims(ls.take(i), d)),
        vdims_ok(chain_fwd(ls.take(i), v), chain_out_dims(ls.take(i), d)),
        chain_fds(ls, v).len() == ls.len(),
        chain_fds(ls, v)[i] == layer_fd(ls[i], chain_fwd(ls.take(i), v)),
        chain_out_dims(ls.take(i + 1), d) == layer_out_dims(ls[i], chain_out_dims(ls.take(i), d)),
        chain_fwd(ls.take(i + 1), v) == layer_fwd(ls[i], chain_fwd(ls.take(i), v)),
    decreases i,
{
    if i == 0 {
        assert(ls.take(0) =~= Seq::<LayerView>::empty());
        assert(ls.take(1).drop_first() =~= Seq::<LayerView>::empty());
        assert(ls.take(1)[0] == ls[0]);
        assert(chain_out_dims(ls.take(1), d) == chain_out_dims(
            ls.take(1).drop_first(),
            layer_out_dims(ls.take(1)[0], d),
        ));
        assert(chain_fwd(ls.take(1), v) == chain_fwd(
            ls.take(1).drop_first(),
            layer_fwd(ls.take(1)[0], v),
        ));
        assert(chain_fds(ls, v)[0] == layer_fd(ls[0], v));
        lemma_chain_fds_len(ls, v);
    } else {
        let tail = ls.drop_first();
        let d1 = layer_out_dims(ls[0], d);
        let v1 = layer_fwd(ls[0], v);
        lemma_layer_shapes(ls[0], d, v);
        lemma_chain_at(tail, d1, v1, i - 1);
        assert(ls.take(i).drop_first() =~= tail.take(i - 1));
        assert(ls.take(i + 1).drop_first() =~= tail.take(i));
        assert(ls.take(i)[0] == ls[0]);
        assert(ls.take(i + 1)[0] == ls[0]);
        assert(tail[i - 1] == ls[i]);
        assert(chain_out_dims(ls.take(i), d) == chain_out_dims(
            ls.take(i).drop_first(),
            layer_out_dims(ls.take(i)[0], d),
        ));
        assert(chain_out_dims(ls.take(i + 1), d) == chain_out_dims(
            ls.take(i + 1).drop_first(),
            layer_out_dims(ls.take(i + 1)[0], d),
        ));
        assert(chain_fwd(ls.take(i), v) == chain_fwd(
            ls.take(i).drop_first(),
            layer_fwd(ls.take(i)[0], v),
        ));
        assert(chain_fwd(ls.take(i + 1), v) == chain_fwd(
            ls.take(i + 1).drop_first(),
            layer_fwd(ls.take(i + 1)[0], v),
        ));
        assert(chain_fds(ls, v)[i] == chain_fds(tail, v1)[i - 1]);
        lemma_chain_fds_len(ls, v);
    }
}

/// A chain retains exactly one forward state per stage.
proof fn lemma_chain_fds_len(ls: Seq<LayerView>, v: ValView)
    ensures
        chain_fds(ls, v).len() == ls.len(),
    decreases ls.len(),
{
    if ls.len() > 0 {
        lemma_chain_fds_len(ls.drop_first(), layer_fwd(ls[0], v));
    }
}

/// Appending a shape-compatible stage keeps a chain well formed and moves its
/// output shape through the new stage.
proof fn lemma_chain_push(ls: Seq<LayerView>, d: Dims, l: LayerView)
    requires
        chain_ok(ls, d),
        layer_wf(l),
        layer_in_ok(l, chain_out_dims(ls, d)),
    ensures
        chain_ok(ls.push(l), d),
        chain_out_dims(ls.push(l), d) == layer_out_dims(l, chain_out_dims(ls, d)),
    decreases ls.len(),
{
    if ls.len() == 0 {
        assert(ls.push(l)[0] == l);
        assert(ls.push(l).drop_first() =~= Seq::<LayerView>::empty());
        assert(chain_out_dims(ls.push(l), d) == chain_out_dims(
            ls.push(l).drop_first(),
            layer_out_dims(ls.push(l)[0], d),
        ));
        assert(chain_ok(ls.push(l).drop_first(), layer_out_dims(ls.push(l)[0], d)));
        assert(chain_ok(ls.push(l), d) == (layer_wf(ls.push(l)[0]) && layer_in_ok(
            ls.push(l)[0],
            d,
        ) && chain_ok(ls.push(l).drop_first(), layer_out_dims(ls.push(l)[0], d))));
    } else {
        lemma_chain_push(ls.drop_first(), layer_out_dims(ls[0], d), l);
        assert(ls.push(l).drop_first() =~= ls.drop_first().push(l));
        assert(ls.push(l)[0] == ls[0]);
        assert(chain_out_dims(ls.push(l), d) == chain_out_dims(
            ls.push(l).drop_first(),
            layer_out_dims(ls.push(l)[0], d),
        ));
        assert(chain_ok(ls.push(l), d) == (layer_wf(ls.push(l)[0]) && layer_in_ok(
            ls.push(l)[0],
            d,
        ) && chain_ok(ls.push(l).drop_first(), layer_out_dims(ls.push(l)[0], d))));
    }
}

/// One parameter update, stage by stage, keeps a whole chain well formed and
/// keeps its shapes.
proof fn lemma_chain_applied(ls: Seq<LayerView>, d: Dims, gs: Seq<GradView>, mult: int)
    requires
        chain_ok(ls, d),
        gs.len() == ls.len(),
        forall|i: int| 0 <= i < ls.len() ==> layer_grad_ok(ls[i], #[trigger] gs[i]),
    ensures
        chain_ok(applied_views(ls, gs, mult), d),
        chain_out_dims(applied_views(ls, gs, mult), d) == chain_out_dims(ls, d),
    decreases ls.len(),
{
    if ls.len() > 0 {
        lemma_layer_applied(ls[0], d, gs[0], mult);
        lemma_chain_applied(ls.drop_first(), layer_out_dims(ls[0], d), gs.drop_first(), mult);
        assert(applied_views(ls, gs, mult).drop_first() =~= applied_views(
            ls.drop_first(),
            gs.drop_first(),
            mult,
        ));
        assert(applied_views(ls, gs, mult)[0] == layer_applied(ls[0], gs[0], mult));
    }
}

/// Shape closure of composition: two shape-compatible stages, composed, take
/// any value of the first stage's input shape to a value of the second
/// stage's output shape (and the verified `forward` bodies cannot panic).
pub proof fn lemma_shape_closure(a: LayerView, b: LayerView, d: Dims, v: ValView)
    requires
        layer_wf(a),
        layer_wf(b),
        layer_in_ok(a, d),
        layer_in_ok(b, layer_out_dims(a, d)),
        vdims_ok(v, d),
    ensures
        vdims_ok(
            layer_fwd(b, layer_fwd(a, v)),
            layer_out_dims(b, layer_out_dims(a, d)),
        ),
{
    lemma_layer_shapes(a, d, v);
    lemma_layer_shapes(b, layer_out_dims(a, d), layer_fwd(a, v));
}

/// Runtime check of `layer_in_ok`: does the stage accept inputs of shape `d`?
fn check_layer_in_ok(layer: &Layer, d: Dims) -> (b: bool)
    requires
        layer_wf(layer@),
    ensures
        b == layer_in_ok(layer@, d),
{
    match layer {
        Layer::Dense(dl) => match d {
            Dims::D1(n) => {
                let rows = dl.weights.rows();
                if rows != dl.biases.len() {
                    return false;
                }
                dl.weights.has_dims(n, rows)
            },
            Dims::D2(_, _) => false,
        },
        Layer::Convolution(c) => match d {
            Dims::D2(x, y) => {
                let n = c.kernel.rows();
                x <= usize::MAX - n && y <= usize::MAX - n
            },
            Dims::D1(_) => false,
        },
        Layer::Bias(bl) => match d {
            Dims::D2(x, y) => bl.biases.has_dims(x, y),
            Dims::D1(_) => false,
        },
        Layer::MaxPooling(p) => match d {
            Dims::D2(x, y) => x % p.n == 0 && y % p.n == 0,
            Dims::D1(_) => false,
        },
        Layer::Shape(s) => match d {
            Dims::D1(m) => match s.x.checked_mul(s.y) {
                Some(p) => p == m,
                None => false,
            },
            Dims::D2(_, _) => false,
        },
        Layer::Flatten(f) => match d {
            Dims::D2(a, b) => a == f.x && b == f.y && f.x.checked_mul(f.y).is_some(),
            Dims::D1(_) => false,
        },
        Layer::Sigmoid(_) => true,
        Layer::Relu(_) => true,
        Layer::Activation(_) => true,
    }
}

/// The output shape of a stage for an accepted input shape.
fn layer_out_dims_exec(layer: &Layer, d: Dims) -> (r: Dims)
    requires
        layer_wf(layer@),
        layer_in_ok(layer@, d),
    ensures
        r == layer_out_dims(layer@, d),
{
    match layer {
        Layer::Dense(dl) => Dims::D1(dl.biases.len()),
        Layer::Convolution(_) => d,
        Layer::Bias(_) => d,
        Layer::MaxPooling(p) => match d {
            Dims::D1(m) => d,
            Dims::D2(x, y) => Dims::D2(x / p.n, y / p.n),
        },
        Layer::Shape(s) => Dims::D2(s.x, s.y),
        Layer::Flatten(f) => Dims::D1(f.x * f.y),
        Layer::Sigmoid(_) => d,
        Layer::Relu(_) => d,
        Layer::Activation(_) => d,
    }
}

/// The error `push` reports when a stage does not fit the pipeline.
pub open spec fn push_error(l: LayerView) -> ShapeError {
    match l {
        LayerView::MaxPooling { .. } => ShapeError::BadPoolingWindow,
        _ => ShapeError::StageMismatch,
    }
}

/// An ordered pipeline of stages whose adjacent shapes agree, built by
/// repeated `push`; the empty chain is the identity pipeline.
pub struct LayerChain {
    pub layers: Vec<Layer>,
    pub input_dims: Dims,
    pub output_dims: Dims,
}

impl LayerChain {
    /// Every stage is well formed, adjacent shapes agree from `input_dims`
    /// on, and `output_dims` is what the last stage produces.
    pub open spec fn wf(&self) -> bool {
        &&& chain_ok(layer_views(self.layers@), self.input_dims)
        &&& self.output_dims == chain_out_dims(layer_views(self.layers@), self.input_dims)
    }

    /// The empty pipeline on tensors of shape `input_dims`: the identity.
    pub fn new(input_dims: Dims) -> (r: Self)
        ensures
            r.wf(),
            r.layers@.len() == 0,
            r.input_dims == input_dims,
            r.output_dims == input_dims,
    {
        LayerChain { layers: Vec::new(), input_dims, output_dims: input_dims }
    }

    /// Append a stage.  The stage must accept the pipeline's current output
    /// shape; a stage that does not is rejected here, before any data flows.
    pub fn push(self, layer: Layer) -> (r: Result<LayerChain, ShapeError>)
        requires
            self.wf(),
            layer_wf(layer@),
        ensures
            layer_in_ok(layer@, self.output_dims) ==> {
                &&& r is Ok
                &&& r.unwrap().wf()
                &&& r.unwrap().layers@ == self.layers@.push(layer)
                &&& r.unwrap().input_dims == self.input_dims
                &&& r.unwrap().output_dims == layer_out_dims(layer@, self.output_dims)
            },
            !layer_in_ok(layer@, self.output_dims) ==> r == Result::<
                LayerChain,
                ShapeError,
            >::Err(push_error(layer@)),
    {
        if !check_layer_in_ok(&layer, self.output_dims) {
            let e = match layer {
                Layer::MaxPooling(_) => ShapeError::BadPoolingWindow,
                _ => ShapeError::StageMismatch,
            };
            return Err(e);
        }
        let out = layer_out_dims_exec(&layer, self.output_dims);
        let mut layers = self.layers;
        let ghost old_views = layer_views(layers@);
        layers.push(layer);
        proof {
            assert(layer_views(layers@) =~= old_views.push(layer@));
            lemma_chain_push(old_views, self.input_dims, layer@);
        }
        Ok(LayerChain { layers, input_dims: self.input_dims, output_dims: out })
    }

    /// Forward evaluation of the whole pipeline: the output value and the
    /// retained forward states, one per stage in order.
    pub fn forward(&self, input: Value) -> (r: (Value, Vec<ForwardData>))
        requires
            self.wf(),
            vdims_ok(input@, self.input_dims),
        ensures
            r.0@ == chain_fwd(layer_views(self.layers@), input@),
            vdims_ok(r.0@, self.output_dims),
            fd_views(r.1@) == chain_fds(layer_views(self.layers@), input@),
    {
        let ghost views = layer_views(self.layers@);
        let ghost v0 = input@;
        let n = self.layers.len();
        let mut cur = input;
        let mut fds: Vec<ForwardData> = Vec::new();
        let mut i: usize = 0;
        proof {
            lemma_chain_fds_len(views, v0);
        }
        while i < n
            invariant
                i <= n,
                n == self.layers@.len(),
                views == layer_views(self.layers@),
                chain_ok(views, self.input_dims),
                vdims_ok(v0, self.input_dims),
                chain_fds(views, v0).len() == n,
                cur@ == chain_fwd(views.take(i as int), v0),
                vdims_ok(cur@, chain_out_dims(views.take(i as int), self.input_dims)),
                fds@.len() == i,
                fd_views(fds@) == chain_fds(views, v0).take(i as int),
            decreases n - i,
        {
            proof {
                lemma_chain_at(views, self.input_dims, v0, i as int);
                lemma_layer_shapes(
                    views[i as int],
                    chain_out_dims(views.take(i as int), self.input_dims),
                    cur@,
                );
                assert(views[i as int] == self.layers@[i as int]@);
            }
            let (next, fd) = self.layers[i].forward(cur);
            cur = next;
            fds.push(fd);
            proof {
                assert(fd_views(fds@) =~= chain_fds(views, v0).take(i + 1));
            }
            i = i + 1;
        }
        proof {
            assert(views.take(n as int) =~= views);
            assert(fd_views(fds@) =~= chain_fds(views, v0));
        }
        (cur, fds)
    }

    /// Backpropagation through the whole pipeline, strictly in reverse:
    /// the gradient that reaches the pipeline input, and one parameter
    /// gradient per stage in stage order.  The forward states must be the
    /// ones the matching `forward` call produced.
    pub fn backward(&self, forward: Value, forward_data: Vec<ForwardData>) -> (r: (
        Value,
        Vec<Gradients>,
    ))
        requires
            self.wf(),
            vdims_ok(forward@, self.output_dims),
            exists|v0: ValView|
                vdims_ok(v0, self.input_dims) && fd_views(forward_data@) == #[trigger] chain_fds(
                    layer_views(self.layers@),
                    v0,
                ),
        ensures
            r.0@ == chain_bwd(layer_views(self.layers@), forward@, fd_views(forward_data@)).0,
            vdims_ok(r.0@, self.input_dims),
            grad_views(r.1@) == chain_bwd(
                layer_views(self.layers@),
                forward@,
                fd_views(forward_data@),
            ).1,
            r.1@.len() == self.layers@.len(),
            forall|i: int|
                0 <= i < self.layers@.len() ==> layer_grad_ok(
                    layer_views(self.layers@)[i],
                    #[trigger] grad_views(r.1@)[i],
                ),
    {
        let ghost views = layer_views(self.layers@);
        let ghost g0 = forward@;
        let ghost fdv = fd_views(forward_data@);
        let ghost v0 = choose|v0: ValView|
            vdims_ok(v0, self.input_dims) && fd_views(forward_data@) == #[trigger] chain_fds(
                layer_views(self.layers@),
                v0,
            );
        let ghost total = chain_bwd(views, g0, fdv);
        let n = self.layers.len();
        proof {
            lemma_chain_fds_len(views, v0);
            assert(views.take(n as int) =~= views);
            assert(fdv.take(n as int) =~= fdv);
        }
        let mut fd_vec = forward_data;
        let mut cur = forward;
        let mut grads: Vec<Gradients> = Vec::new();
        let mut i: usize = n;
        while i > 0
            invariant
                i <= n,
                n == self.layers@.len(),
                views == layer_views(self.layers@),
                chain_ok(views, self.input_dims),
                vdims_ok(v0, self.input_dims),
                fdv == chain_fds(views, v0),
                fdv.len() == n,
                fdv == fd_views(forward_data@),
                forward_data@.len() == n,
                fd_vec@ == forward_data@.take(i as int),
                total == chain_bwd(views, g0, fdv),
                vdims_ok(cur@, chain_out_dims(views.take(i as int), self.input_dims)),
                total.0 == chain_bwd(views.take(i as int), cur@, fdv.take(i as int)).0,
                total.1 == chain_bwd(views.take(i as int), cur@, fdv.take(i as int)).1
                    + grad_views(grads@),
                grads@.len() == n - i,
                forall|j: int|
                    0 <= j < grads@.len() ==> layer_grad_ok(
                        views[i + j],
                        #[trigger] grad_views(grads@)[j],
                    ),
            decreases i,
        {
            let k = i - 1;
            proof {
                lemma_chain_at(views, self.input_dims, v0, k as int);
                lemma_layer_bwd_shapes(
                    views[k as int],
                    chain_out_dims(views.take(k as int), self.input_dims),
                    chain_fwd(views.take(k as int), v0),
                    cur@,
                );
                assert(fdv[k as int] == layer_fd(
                    views[k as int],
                    chain_fwd(views.take(k as int), v0),
                ));
                assert(views[k as int] == self.layers@[k as int]@);
                assert(forward_data@[k as int]@ == fdv[k as int]);
                assert(fd_vec@.len() == i);
                assert(fd_vec@.last() == forward_data@[k as int]);
            }
            let fd_k = fd_vec.pop().unwrap();
            let ghost cur_pre = cur@;
            let ghost grads_pre = grads@;
            let (next, gr) = self.layers[k].backward(cur, fd_k);
            cur = next;
            grads.insert(0, gr);
            proof {
                let pre = chain_bwd(views.take(i as int), cur_pre, fdv.take(i as int));
                assert(views.take(i as int).drop_last() =~= views.take(k as int));
                assert(fdv.take(i as int).drop_last() =~= fdv.take(k as int));
                assert(views.take(i as int).last() == views[k as int]);
                assert(fdv.take(i as int).last() == fdv[k as int]);
                let rest = chain_bwd(views.take(k as int), cur@, fdv.take(k as int));
                assert(pre.0 == rest.0);
                assert(pre.1 == rest.1.push(gr@));
                assert(grad_views(grads@) =~= seq![gr@] + grad_views(grads_pre));
                assert(rest.1.push(gr@) + grad_views(grads_pre) =~= rest.1 + (seq![gr@]
                    + grad_views(grads_pre)));
                assert(fd_vec@ =~= forward_data@.take(k as int));
                assert forall|j: int| 0 <= j < grads@.len() implies layer_grad_ok(
                    views[k + j],
                    #[trigger] grad_views(grads@)[j],
                ) by {
                    if j > 0 {
                        assert(grad_views(grads@)[j] == grad_views(grads_pre)[j - 1]);
                    }
                }
            }
            i = k;
        }
        proof {
            assert(views.take(0) =~= Seq::<LayerView>::empty());
            assert(fdv.take(0) =~= Seq::<FdView>::empty());
            assert(total.1 =~= grad_views(grads@));
        }
        (cur, grads)
    }

    /// Add every stage's gradient, scaled by one common multiplier, into that
    /// stage's parameters.
    pub fn apply_gradients(&mut self, gradients: &Vec<Gradients>, multiplier: i64)
        requires
            old(self).wf(),
            gradients@.len() == old(self).layers@.len(),
            forall|i: int|
                0 <= i < gradients@.len() ==> layer_grad_ok(
                    layer_views(old(self).layers@)[i],
                    #[trigger] grad_views(gradients@)[i],
                ),
        ensures
            final(self).wf(),
            layer_views(final(self).layers@) == applied_views(
                layer_views(old(self).layers@),
                grad_views(gradients@),
                multiplier as int,
            ),
            final(self).input_dims == old(self).input_dims,
            final(self).output_dims == old(self).output_dims,
            final(self).layers@.len() == old(self).layers@.len(),
    {
        let ghost views0 = layer_views(old(self).layers@);
        let ghost gv = grad_views(gradients@);
        let n = self.layers.len();
        let mut i: usize = 0;
        while i < n
            invariant
                i <= n,
                n == self.layers@.len(),
                n == old(self).layers@.len(),
                gradients@.len() == n,
                views0 == layer_views(old(self).layers@),
                gv == grad_views(gradients@),
                chain_ok(views0, old(self).input_dims),
                self.input_dims == old(self).input_dims,
                self.output_dims == old(self).output_dims,
                forall|j: int|
                    0 <= j < n ==> layer_grad_ok(views0[j], #[trigger] gv[j]),
                forall|j: int| 0 <= j < i
                    ==> #[trigger] self.layers@[j]@ == layer_applied(
                        views0[j],
                        gv[j],
                        multiplier as int,
                    ),
                forall|j: int| i <= j < n ==> #[trigger] self.layers@[j] == old(self).layers@[j],
            decreases n - i,
        {
            proof {
                assert(self.layers@[i as int] == old(self).layers@[i as int]);
                assert(views0[i as int] == old(self).layers@[i as int]@);
                assert(gv[i as int] == gradients@[i as int]@);
                lemma_chain_wf_at(views0, old(self).input_dims, i as int);
            }
            let l = vstd::std_specs::vec::vec_index_mut(&mut self.layers, i);
            l.apply_gradients(&gradients[i], multiplier);
            i = i + 1;
        }
        proof {
            assert(layer_views(self.layers@) =~= applied_views(views0, gv, multiplier as int));
            lemma_chain_applied(views0, old(self).input_dims, gv, multiplier as int);
        }
    }
}

/// Every stage of a well-formed chain is itself well formed.
proof fn lemma_chain_wf_at(ls: Seq<LayerView>, d: Dims, i: int)
    requires
        chain_ok(ls, d),
        0 <= i < ls.len(),
    ensures
        layer_wf(ls[i]),
    decreases i,
{
    if i > 0 {
        lemma_chain_wf_at(ls.drop_first(), layer_out_dims(ls[0], d), i - 1);
    }
}

} // verus!
