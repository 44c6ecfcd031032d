//! Activation functions: pure scalar maps lifted elementwise over one- and
//! two-dimensional tensors.
//!
//! An activation has no learnable state.  Its layer keeps the pre-activation
//! input as forward state; the backward pass multiplies the incoming gradient
//! elementwise by the scalar derivative evaluated at that retained input
//! (chain rule).

use vstd::prelude::*;

use crate::array::{Array1D, Array2D};
use crate::fixed::{fx_mul, spec_fx_mul};

pub mod leaky_relu;
pub mod relu;
pub mod sigmoid;

verus! {

/// A pure scalar activation map together with its derivative.
pub trait Activation {
    /// The exact fixed-point value `activate` returns.
    spec fn spec_activate(x: int) -> int;

    /// The exact fixed-point value `derivate` returns.
    spec fn spec_derivate(x: int) -> int;

    fn activate(x: i64) -> (r: i64)
        ensures
            r == Self::spec_activate(x as int),
    ;

    fn derivate(x: i64) -> (r: i64)
        ensures
            r == Self::spec_derivate(x as int),
    ;
}

/// `v` with the activation applied to every element.
pub open spec fn act_map_1d<T: Activation>(v: Seq<int>) -> Seq<int> {
    Seq::new(v.len(), |i: int| T::spec_activate(v[i]))
}

/// The gradient through an elementwise activation: the incoming gradient `g`
/// scaled at each position by the derivative at the retained input `fd`.
pub open spec fn act_grad_1d<T: Activation>(g: Seq<int>, fd: Seq<int>) -> Seq<int> {
    Seq::new(g.len(), |i: int| spec_fx_mul(g[i], T::spec_derivate(fd[i])))
}

/// `m` with the activation applied to every element.
pub open spec fn act_map_2d<T: Activation>(m: Seq<Seq<int>>) -> Seq<Seq<int>> {
    Seq::new(m.len(), |i: int| act_map_1d::<T>(m[i]))
}

/// Rowwise gradient through an elementwise activation on a grid.
pub open spec fn act_grad_2d<T: Activation>(g: Seq<Seq<int>>, fd: Seq<Seq<int>>) -> Seq<Seq<int>> {
    Seq::new(g.len(), |i: int| act_grad_1d::<T>(g[i], fd[i]))
}

/// One of the activation functions, as a value a pipeline stage can carry.
pub enum ActivationFn {
    Relu(relu::Relu),
    Sigmoid(sigmoid::Sigmoid),
    LeakyRelu(leaky_relu::LeakyRelu),
}

impl ActivationFn {
    /// The elementwise map of the carried activation.
    pub open spec fn map_1d(&self, v: Seq<int>) -> Seq<int> {
        match self {
            ActivationFn::Relu(_) => act_map_1d::<relu::Relu>(v),
            ActivationFn::Sigmoid(_) => act_map_1d::<sigmoid::Sigmoid>(v),
            ActivationFn::LeakyRelu(_) => act_map_1d::<leaky_relu::LeakyRelu>(v),
        }
    }

    /// The gradient through the carried activation.
    pub open spec fn grad_1d(&self, g: Seq<int>, fd: Seq<int>) -> Seq<int> {
        match self {
            ActivationFn::Relu(_) => act_grad_1d::<relu::Relu>(g, fd),
            ActivationFn::Sigmoid(_) => act_grad_1d::<sigmoid::Sigmoid>(g, fd),
            ActivationFn::LeakyRelu(_) => act_grad_1d::<leaky_relu::LeakyRelu>(g, fd),
        }
    }

    /// The elementwise map of the carried activation, on a grid.
    pub open spec fn map_2d(&self, m: Seq<Seq<int>>) -> Seq<Seq<int>> {
        match self {
            ActivationFn::Relu(_) => act_map_2d::<relu::Relu>(m),
            ActivationFn::Sigmoid(_) => act_map_2d::<sigmoid::Sigmoid>(m),
            ActivationFn::LeakyRelu(_) => act_map_2d::<leaky_relu::LeakyRelu>(m),
        }
    }

    /// The gradient through the carried activation, on a grid.
    pub open spec fn grad_2d(&self, g: Seq<Seq<int>>, fd: Seq<Seq<int>>) -> Seq<Seq<int>> {
        match self {
            ActivationFn::Relu(_) => act_grad_2d::<relu::Relu>(g, fd),
            ActivationFn::Sigmoid(_) => act_grad_2d::<sigmoid::Sigmoid>(g, fd),
            ActivationFn::LeakyRelu(_) => act_grad_2d::<leaky_relu::LeakyRelu>(g, fd),
        }
    }

    /// Apply the carried activation elementwise; the forward state is the
    /// pre-activation input.
    pub fn forward_1d(&self, input: Array1D) -> (r: (Array1D, Array1D))
        ensures
            r.0@ == self.map_1d(input@),
            r.1@ == input@,
    {
        match self {
            ActivationFn::Relu(_) => act_forward_1d::<relu::Relu>(input),
            ActivationFn::Sigmoid(_) => act_forward_1d::<sigmoid::Sigmoid>(input),
            ActivationFn::LeakyRelu(_) => act_forward_1d::<leaky_relu::LeakyRelu>(input),
        }
    }

    /// Chain rule at the retained pre-activation input.
    pub fn backward_1d(&self, forward: Array1D, forward_data: &Array1D) -> (r: Array1D)
        requires
            forward@.len() == forward_data@.len(),
        ensures
            r@ == self.grad_1d(forward@, forward_data@),
    {
        match self {
            ActivationFn::Relu(_) => act_backward_1d::<relu::Relu>(forward, forward_data),
            ActivationFn::Sigmoid(_) => act_backward_1d::<sigmoid::Sigmoid>(forward, forward_data),
            ActivationFn::LeakyRelu(_) => act_backward_1d::<leaky_relu::LeakyRelu>(
                forward,
                forward_data,
            ),
        }
    }

    /// Apply the carried activation elementwise on a grid.
    pub fn forward_2d(&self, input: Array2D) -> (r: (Array2D, Array2D))
        ensures
            r.0@ == self.map_2d(input@),
            r.1@ == input@,
    {
        match self {
            ActivationFn::Relu(_) => act_forward_2d::<relu::Relu>(input),
            ActivationFn::Sigmoid(_) => act_forward_2d::<sigmoid::Sigmoid>(input),
            ActivationFn::LeakyRelu(_) => act_forward_2d::<leaky_relu::LeakyRelu>(input),
        }
    }

    /// Chain rule at the retained pre-activation input, on a grid.
    pub fn backward_2d(&self, forward: Array2D, forward_data: &Array2D) -> (r: Array2D)
        requires
            forward@.len() == forward_data@.len(),
            forall|i: int| 0 <= i < forward_data@.len()
                ==> (#[trigger] forward@[i]).len() == forward_data@[i].len(),
        ensures
            r@ == self.grad_2d(forward@, forward_data@),
    {
        match self {
            ActivationFn::Relu(_) => act_backward_2d::<relu::Relu>(forward, forward_data),
            ActivationFn::Sigmoid(_) => act_backward_2d::<sigmoid::Sigmoid>(forward, forward_data),
            ActivationFn::LeakyRelu(_) => act_backward_2d::<leaky_relu::LeakyRelu>(
                forward,
                forward_data,
            ),
        }
    }
}

/// Apply the activation elementwise; returns the result and the retained
/// pre-activation input (the forward state).
pub fn act_forward_1d<T: Activation>(input: Array1D) -> (r: (Array1D, Array1D))
    ensures
        r.0@ == act_map_1d::<T>(input@),
        r.1@ == input@,
{
    let fd = input.duplicate();
    let n = input.len();
    let mut out = input;
    let ghost orig = fd@;
    let mut i: usize = 0;
    while i < n
        invariant
            i <= n,
            n == orig.len(),
            out@.len() == n,
            forall|j: int| 0 <= j < i ==> out@[j] == T::spec_activate(orig[j]),
            forall|j: int| i <= j < n ==> out@[j] == orig[j],
        decreases n - i,
    {
        let v = T::activate(out.get(i));
        out.set(i, v);
        i = i + 1;
    }
    proof {
        assert(out@ =~= act_map_1d::<T>(orig));
    }
    (out, fd)
}

/// Multiply the incoming gradient elementwise by the derivative at the
/// retained input.
pub fn act_backward_1d<T: Activation>(forward: Array1D, fd: &Array1D) -> (r: Array1D)
    requires
        forward@.len() == fd@.len(),
    ensures
        r@ == act_grad_1d::<T>(forward@, fd@),
    {
    let ghost g0 = forward@;
    let n = forward.len();
    let mut out = forward;
    let mut i: usize = 0;
    while i < n
        invariant
            i <= n,
            n == g0.len(),
            out@.len() == n,
            fd@.len() == n,
            forall|j: int| 0 <= j < i ==> out@[j] == spec_fx_mul(g0[j], T::spec_derivate(fd@[j])),
            forall|j: int| i <= j < n ==> out@[j] == g0[j],
        decreases n - i,
    {
        let v = fx_mul(out.get(i), T::derivate(fd.get(i)));
        out.set(i, v);
        i = i + 1;
    }
    proof {
        assert(out@ =~= act_grad_1d::<T>(g0, fd@));
    }
    out
}

/// Apply the activation elementwise on a grid; returns the result and the
/// retained pre-activation input.
pub fn act_forward_2d<T: Activation>(input: Array2D) -> (r: (Array2D, Array2D))
    ensures
        r.0@ == act_map_2d::<T>(input@),
        r.1@ == input@,
{
    let fd = input.duplicate();
    let n = input.rows();
    let mut out = input;
    let ghost orig = fd@;
    let mut i: usize = 0;
    while i < n
        invariant
            i <= n,
            n == orig.len(),
            out@.len() == n,
            forall|a: int| 0 <= a < i ==> (#[trigger] out@[a]).len() == orig[a].len(),
            forall|a: int, b: int|
                0 <= a < i && 0 <= b < orig[a].len()
                    ==> #[trigger] out@[a][b] == T::spec_activate(orig[a][b]),
            forall|a: int| i <= a < n ==> #[trigger] out@[a] == orig[a],
        decreases n - i,
    {
        let m = out.row_len(i);
        let mut j: usize = 0;
        while j < m
            invariant
                j <= m,
                i < n,
                n == orig.len(),
                out@.len() == n,
                m == orig[i as int].len(),
                out@[i as int].len() == m,
                forall|a: int| 0 <= a < i ==> (#[trigger] out@[a]).len() == orig[a].len(),
                forall|a: int, b: int|
                    0 <= a < i && 0 <= b < orig[a].len()
                        ==> #[trigger] out@[a][b] == T::spec_activate(orig[a][b]),
                forall|b: int| 0 <= b < j
                    ==> #[trigger] out@[i as int][b] == T::spec_activate(orig[i as int][b]),
                forall|b: int| j <= b < m ==> #[trigger] out@[i as int][b] == orig[i as int][b],
                forall|a: int| i < a < n ==> #[trigger] out@[a] == orig[a],
            decreases m - j,
        {
            let v = T::activate(out.get(j, i));
            out.set(j, i, v);
            j = j + 1;
        }
        i = i + 1;
    }
    proof {
        assert forall|a: int| 0 <= a < orig.len() implies out@[a] =~= act_map_1d::<T>(
            orig[a],
        ) by {}
        assert(out@ =~~= act_map_2d::<T>(orig));
    }
    (out, fd)
}

/// Multiply the incoming grid gradient elementwise by the derivative at the
/// retained input.
pub fn act_backward_2d<T: Activation>(forward: Array2D, fd: &Array2D) -> (r: Array2D)
    requires
        forward@.len() == fd@.len(),
        forall|i: int| 0 <= i < fd@.len()
            ==> (#[trigger] forward@[i]).len() == fd@[i].len(),
    ensures
        r@ == act_grad_2d::<T>(forward@, fd@),
{
    let ghost g0 = forward@;
    let n = forward.rows();
    let mut out = forward;
    let mut i: usize = 0;
    while i < n
        invariant
            i <= n,
            n == g0.len(),
            out@.len() == n,
            fd@.len() == n,
            forall|a: int| 0 <= a < n ==> (#[trigger] g0[a]).len() == fd@[a].len(),
            forall|a: int| 0 <= a < i ==> (#[trigger] out@[a]).len() == g0[a].len(),
            forall|a: int, b: int|
                0 <= a < i && 0 <= b < g0[a].len()
                    ==> #[trigger] out@[a][b] == spec_fx_mul(g0[a][b], T::spec_derivate(fd@[a][b])),
            forall|a: int| i <= a < n ==> #[trigger] out@[a] == g0[a],
        decreases n - i,
    {
        let m = out.row_len(i);
        let mut j: usize = 0;
        while j < m
            invariant
                j <= m,
                i < n,
                n == g0.len(),
                out@.len() == n,
                fd@.len() == n,
                m == g0[i as int].len(),
                out@[i as int].len() == m,
                forall|a: int| 0 <= a < n ==> (#[trigger] g0[a]).len() == fd@[a].len(),
                forall|a: int| 0 <= a < i ==> (#[trigger] out@[a]).len() == g0[a].len(),
                forall|a: int, b: int|
                    0 <= a < i && 0 <= b < g0[a].len()
                        ==> #[trigger] out@[a][b]
                            == spec_fx_mul(g0[a][b], T::spec_derivate(fd@[a][b])),
                forall|b: int| 0 <= b < j
                    ==> #[trigger] out@[i as int][b]
                        == spec_fx_mul(g0[i as int][b], T::spec_derivate(fd@[i as int][b])),
                forall|b: int| j <= b < m ==> #[trigger] out@[i as int][b] == g0[i as int][b],
                forall|a: int| i < a < n ==> #[trigger] out@[a] == g0[a],
            decreases m - j,
        {
            let v = fx_mul(out.get(j, i), T::derivate(fd.get(j, i)));
            out.set(j, i, v);
            j = j + 1;
        }
        i = i + 1;
    }
    proof {
        assert forall|a: int| 0 <= a < g0.len() implies out@[a] =~= act_grad_1d::<T>(
            g0[a],
            fd@[a],
        ) by {}
        assert(out@ =~~= act_grad_2d::<T>(g0, fd@));
    }
    out
}

} // verus!
