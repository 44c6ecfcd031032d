//! Dense (fully-connected affine) layer.
//!
//! Parameters are a weight matrix (one row per output, one column per input)
//! and a bias vector (one entry per output).  Forward computes
//! `out[o] = bias[o] + sum_i weight[o][i] * input[i]`; backward returns the
//! transpose-matrix-vector product as the input gradient, the outer product of
//! the retained input with the output gradient as the weight gradient, and the
//! output gradient itself as the bias gradient.

use vstd::prelude::*;

use super::{grid_stepped, vec_stepped};
use crate::array::{grid_is, grid_zero, Array1D, Array2D};
use crate::fixed::{fx_add, fx_mul, spec_fx_add, spec_fx_mul, FX_ONE};
use crate::rng::random_unit;

verus! {

/// `bias` plus the first `k` products `row[j] * input[j]`, folded in index
/// order with saturating fixed-point arithmetic.
pub open spec fn dense_acc(row: Seq<int>, input: Seq<int>, bias: int, k: nat) -> int
    decreases k,
{
    if k == 0 {
        bias
    } else {
        spec_fx_add(
            dense_acc(row, input, bias, (k - 1) as nat),
            spec_fx_mul(row[k - 1], input[k - 1]),
        )
    }
}

/// The affine map of a dense layer: `w * input + b`, row by row.
pub open spec fn dense_forward(w: Seq<Seq<int>>, b: Seq<int>, input: Seq<int>) -> Seq<int> {
    Seq::new(b.len(), |o: int| dense_acc(w[o], input, b[o], input.len()))
}

/// The first `k` products `w[o][i] * g[o]` folded in output order: one entry
/// of the transpose-matrix-vector product.
pub open spec fn dense_in_grad_acc(w: Seq<Seq<int>>, g: Seq<int>, i: int, k: nat) -> int
    decreases k,
{
    if k == 0 {
        0
    } else {
        spec_fx_add(
            dense_in_grad_acc(w, g, i, (k - 1) as nat),
            spec_fx_mul(w[k - 1][i], g[k - 1]),
        )
    }
}

/// The gradient with respect to the layer input: `w` transposed times `g`.
pub open spec fn dense_in_grad(w: Seq<Seq<int>>, g: Seq<int>, in_len: nat) -> Seq<int> {
    Seq::new(in_len, |i: int| dense_in_grad_acc(w, g, i, g.len()))
}

/// The gradient with respect to the weights: the outer product of the
/// retained input `fd` and the output gradient `g`.
pub open spec fn dense_w_grad(fd: Seq<int>, g: Seq<int>) -> Seq<Seq<int>> {
    Seq::new(g.len(), |o: int| Seq::new(fd.len(), |i: int| spec_fx_mul(fd[i], g[o])))
}

/// A fully-connected affine layer.
pub struct DenseLayer {
    /// One row per output, one column per input.
    pub weights: Array2D,
    /// One bias per output.
    pub biases: Array1D,
}

impl DenseLayer {
    /// Shape consistency with a given input width.
    pub open spec fn wf_dims(&self, inputs: nat) -> bool {
        grid_is(self.weights@, inputs, self.biases@.len())
    }

    /// A zero-initialized layer mapping `inputs` values to `outputs` values.
    pub fn new(inputs: usize, outputs: usize) -> (r: Self)
        ensures
            r.weights@ == grid_zero(inputs as nat, outputs as nat),
            r.biases@ == Seq::new(outputs as nat, |i: int| 0int),
            r.wf_dims(inputs as nat),
    {
        DenseLayer { weights: Array2D::new(inputs, outputs), biases: Array1D::new(outputs) }
    }

    /// A layer with every parameter drawn uniformly from one unit either side
    /// of zero.
    pub fn random(inputs: usize, outputs: usize) -> (r: Self)
        ensures
            r.wf_dims(inputs as nat),
            r.biases@.len() == outputs as nat,
            forall|o: int, i: int|
                0 <= o < outputs as int && 0 <= i < inputs as int ==> -(FX_ONE as int)
                    <= #[trigger] r.weights@[o][i] <= FX_ONE as int,
            forall|o: int| 0 <= o < outputs as int ==> -(FX_ONE as int) <= #[trigger] r.biases@[o]
                <= FX_ONE as int,
    {
        let mut weights = Array2D::new(inputs, outputs);
        let mut o: usize = 0;
        while o < outputs
            invariant
                o <= outputs,
                weights@.len() == outputs as nat,
                forall|a: int| 0 <= a < outputs as int
                    ==> (#[trigger] weights@[a]).len() == inputs as nat,
                forall|a: int, b: int|
                    0 <= a < o && 0 <= b < inputs as int ==> -(FX_ONE as int)
                        <= #[trigger] weights@[a][b] <= FX_ONE as int,
            decreases outputs - o,
        {
            let mut i: usize = 0;
            while i < inputs
                invariant
                    i <= inputs,
                    o < outputs,
                    weights@.len() == outputs as nat,
                    forall|a: int| 0 <= a < outputs as int
                        ==> (#[trigger] weights@[a]).len() == inputs as nat,
                    forall|a: int, b: int|
                        0 <= a < o && 0 <= b < inputs as int ==> -(FX_ONE as int)
                            <= #[trigger] weights@[a][b] <= FX_ONE as int,
                    forall|b: int| 0 <= b < i ==> -(FX_ONE as int)
                        <= #[trigger] weights@[o as int][b] <= FX_ONE as int,
                decreases inputs - i,
            {
                let v = random_unit();
                weights.set(i, o, v);
                i = i + 1;
            }
            o = o + 1;
        }
        let mut biases = Array1D::new(outputs);
        let mut o: usize = 0;
        while o < outputs
            invariant
                o <= outputs,
                biases@.len() == outputs as nat,
                forall|a: int| 0 <= a < o ==> -(FX_ONE as int) <= #[trigger] biases@[a]
                    <= FX_ONE as int,
            decreases outputs - o,
        {
            let v = random_unit();
            biases.set(o, v);
            o = o + 1;
        }
        DenseLayer { weights, biases }
    }

    /// The affine forward map; the forward state is the input itself.
    pub fn forward(&self, input: Array1D) -> (r: (Array1D, Array1D))
        requires
            self.wf_dims(input@.len()),
        ensures
            r.0@ == dense_forward(self.weights@, self.biases@, input@),
            r.1@ == input@,
    {
        let fd = input.duplicate();
        let i_n = input.len();
        let o_n = self.biases.len();
        let mut output = self.biases.duplicate();
        let mut o: usize = 0;
        while o < o_n
            invariant
                o <= o_n,
                o_n == self.biases@.len(),
                i_n == input@.len(),
                self.wf_dims(input@.len()),
                output@.len() == o_n,
                forall|k: int| 0 <= k < o
                    ==> output@[k] == dense_acc(
                        self.weights@[k],
                        input@,
                        self.biases@[k],
                        i_n as nat,
                    ),
                forall|k: int| o <= k < o_n ==> output@[k] == self.biases@[k],
            decreases o_n - o,
        {
            let mut node = output.get(o);
            let mut j: usize = 0;
            while j < i_n
                invariant
                    j <= i_n,
                    o < o_n,
                    o_n == self.biases@.len(),
                    i_n == input@.len(),
                    self.wf_dims(input@.len()),
                    node == dense_acc(self.weights@[o as int], input@, self.biases@[o as int], j as nat),
                decreases i_n - j,
            {
                node = fx_add(node, fx_mul(self.weights.get(j, o), input.get(j)));
                j = j + 1;
            }
            output.set(o, node);
            o = o + 1;
        }
        proof {
            assert(output@ =~= dense_forward(self.weights@, self.biases@, input@));
        }
        (output, fd)
    }

    /// Backpropagation: input gradient, then (weight gradient, bias gradient).
    pub fn backward(&self, forward: Array1D, forward_data: Array1D) -> (r: (
        Array1D,
        (Array2D, Array1D),
    ))
        requires
            self.wf_dims(forward_data@.len()),
            forward@.len() == self.biases@.len(),
        ensures
            r.0@ == dense_in_grad(self.weights@, forward@, forward_data@.len()),
            r.1.0@ == dense_w_grad(forward_data@, forward@),
            r.1.1@ == forward@,
    {
        let i_n = forward_data.len();
        let o_n = forward.len();
        let bias_grad = forward.duplicate();

        let mut w_grad = Array2D::new(i_n, o_n);
        let mut o: usize = 0;
        while o < o_n
            invariant
                o <= o_n,
                o_n == forward@.len(),
                i_n == forward_data@.len(),
                w_grad@.len() == o_n,
                forall|a: int| 0 <= a < o_n as int
                    ==> (#[trigger] w_grad@[a]).len() == i_n as nat,
                forall|a: int, b: int|
                    0 <= a < o && 0 <= b < i_n as int
                        ==> #[trigger] w_grad@[a][b] == spec_fx_mul(forward_data@[b], forward@[a]),
            decreases o_n - o,
        {
            let mut i: usize = 0;
            while i < i_n
                invariant
                    i <= i_n,
                    o < o_n,
                    o_n == forward@.len(),
                    i_n == forward_data@.len(),
                    w_grad@.len() == o_n,
                    forall|a: int| 0 <= a < o_n as int
                        ==> (#[trigger] w_grad@[a]).len() == i_n as nat,
                    forall|a: int, b: int|
                        0 <= a < o && 0 <= b < i_n as int
                            ==> #[trigger] w_grad@[a][b]
                                == spec_fx_mul(forward_data@[b], forward@[a]),
                    forall|b: int| 0 <= b < i
                        ==> #[trigger] w_grad@[o as int][b]
                            == spec_fx_mul(forward_data@[b], forward@[o as int]),
                decreases i_n - i,
            {
                let v = fx_mul(forward_data.get(i), forward.get(o));
                w_grad.set(i, o, v);
                i = i + 1;
            }
            o = o + 1;
        }

        let mut in_grad = Array1D::new(i_n);
        let mut i: usize = 0;
        while i < i_n
            invariant
                i <= i_n,
                o_n == forward@.len(),
                i_n == forward_data@.len(),
                self.wf_dims(forward_data@.len()),
                self.weights@.len() == o_n,
                in_grad@.len() == i_n,
                forall|k: int| 0 <= k < i
                    ==> in_grad@[k] == dense_in_grad_acc(self.weights@, forward@, k, o_n as nat),
            decreases i_n - i,
        {
            let mut acc: i64 = 0;
            let mut o: usize = 0;
            while o < o_n
                invariant
                    o <= o_n,
                    i < i_n,
                    o_n == forward@.len(),
                    i_n == forward_data@.len(),
                    self.wf_dims(forward_data@.len()),
                    self.weights@.len() == o_n,
                    acc == dense_in_grad_acc(self.weights@, forward@, i as int, o as nat),
                decreases o_n - o,
            {
                acc = fx_add(acc, fx_mul(self.weights.get(i, o), forward.get(o)));
                o = o + 1;
            }
            in_grad.set(i, acc);
            i = i + 1;
        }
        proof {
            assert forall|a: int| 0 <= a < o_n as int implies w_grad@[a] =~= dense_w_grad(
                forward_data@,
                forward@,
            )[a] by {}
            assert(w_grad@ =~~= dense_w_grad(forward_data@, forward@));
            assert(in_grad@ =~= dense_in_grad(self.weights@, forward@, forward_data@.len()));
        }
        (in_grad, (w_grad, bias_grad))
    }

    /// Add `grad * multiplier` into the parameters in place.
    pub fn apply_gradients(&mut self, w_grad: &Array2D, b_grad: &Array1D, multiplier: i64)
        requires
            b_grad@.len() == old(self).biases@.len(),
            w_grad@.len() == old(self).weights@.len(),
            forall|o: int| 0 <= o < w_grad@.len()
                ==> (#[trigger] w_grad@[o]).len() == old(self).weights@[o].len(),
        ensures
            final(self).weights@ == grid_stepped(
                old(self).weights@,
                w_grad@,
                multiplier as int,
            ),
            final(self).biases@ == vec_stepped(
                old(self).biases@,
                b_grad@,
                multiplier as int,
            ),
    {
        let o_n = self.biases.len();
        let mut o: usize = 0;
        while o < o_n
            invariant
                o <= o_n,
                o_n == old(self).biases@.len(),
                b_grad@.len() == o_n,
                self.biases@.len() == o_n,
                self.weights == old(self).weights,
                forall|k: int| 0 <= k < o
                    ==> self.biases@[k] == spec_fx_add(
                        old(self).biases@[k],
                        spec_fx_mul(b_grad@[k], multiplier as int),
                    ),
                forall|k: int| o <= k < o_n ==> self.biases@[k] == old(self).biases@[k],
            decreases o_n - o,
        {
            let v = fx_add(self.biases.get(o), fx_mul(b_grad.get(o), multiplier));
            self.biases.set(o, v);
            o = o + 1;
        }
        proof {
            assert(self.biases@ =~= vec_stepped(
                old(self).biases@,
                b_grad@,
                multiplier as int,
            ));
        }

        let w_n = self.weights.rows();
        let mut a: usize = 0;
        while a < w_n
            invariant
                a <= w_n,
                w_n == old(self).weights@.len(),
                w_grad@.len() == w_n,
                forall|k: int| 0 <= k < w_n as int
                    ==> (#[trigger] w_grad@[k]).len() == old(self).weights@[k].len(),
                self.weights@.len() == w_n,
                self.biases@ == vec_stepped(old(self).biases@, b_grad@, multiplier as int),
                forall|k: int| 0 <= k < a
                    ==> (#[trigger] self.weights@[k]).len() == old(self).weights@[k].len(),
                forall|k: int, b: int|
                    0 <= k < a && 0 <= b < old(self).weights@[k].len()
                        ==> #[trigger] self.weights@[k][b] == spec_fx_add(
                            old(self).weights@[k][b],
                            spec_fx_mul(w_grad@[k][b], multiplier as int),
                        ),
                forall|k: int| a <= k < w_n ==> #[trigger] self.weights@[k]
                    == old(self).weights@[k],
            decreases w_n - a,
        {
            proof {
                assert(self.weights@[a as int] == old(self).weights@[a as int]);
            }
            let m = self.weights.row_len(a);
            let mut b: usize = 0;
            while b < m
                invariant
                    b <= m,
                    a < w_n,
                    w_n == old(self).weights@.len(),
                    w_grad@.len() == w_n,
                    m == old(self).weights@[a as int].len(),
                    forall|k: int| 0 <= k < w_n as int
                        ==> (#[trigger] w_grad@[k]).len() == old(self).weights@[k].len(),
                    self.weights@.len() == w_n,
                    self.weights@[a as int].len() == m,
                    self.biases@ == vec_stepped(old(self).biases@, b_grad@, multiplier as int),
                    forall|k: int| 0 <= k < a
                        ==> (#[trigger] self.weights@[k]).len() == old(self).weights@[k].len(),
                    forall|k: int, c: int|
                        0 <= k < a && 0 <= c < old(self).weights@[k].len()
                            ==> #[trigger] self.weights@[k][c] == spec_fx_add(
                                old(self).weights@[k][c],
                                spec_fx_mul(w_grad@[k][c], multiplier as int),
                            ),
                    forall|c: int| 0 <= c < b
                        ==> #[trigger] self.weights@[a as int][c] == spec_fx_add(
                            old(self).weights@[a as int][c],
                            spec_fx_mul(w_grad@[a as int][c], multiplier as int),
                        ),
                    forall|c: int| b <= c < m
                        ==> #[trigger] self.weights@[a as int][c]
                            == old(self).weights@[a as int][c],
                    forall|k: int| a < k < w_n ==> #[trigger] self.weights@[k]
                        == old(self).weights@[k],
                decreases m - b,
            {
                let v = fx_add(
                    self.weights.get(b, a),
                    fx_mul(w_grad.get(b, a), multiplier),
                );
                self.weights.set(b, a, v);
                b = b + 1;
            }
            a = a + 1;
        }
        proof {
            assert forall|k: int| 0 <= k < w_n as int implies self.weights@[k] =~= grid_stepped(
                old(self).weights@,
                w_grad@,
                multiplier as int,
            )[k] by {}
            assert(self.weights@ =~~= grid_stepped(
                old(self).weights@,
                w_grad@,
                multiplier as int,
            ));
        }
    }
}

} // verus!
