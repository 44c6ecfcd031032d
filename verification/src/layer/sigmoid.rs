//! Standalone sigmoid layer, usable on one- and two-dimensional tensors.

use vstd::prelude::*;

use crate::activation::sigmoid::{spec_sigmoid, spec_sigmoid_deriv};
use crate::activation::{
    act_backward_1d, act_backward_2d, act_forward_1d, act_forward_2d, act_grad_1d, act_grad_2d,
    act_map_1d, act_map_2d, Activation,
};
use crate::array::{Array1D, Array2D};
use crate::fixed::{fx_add, fx_div, fx_exp, fx_mul, fx_neg, fx_sub, FX_ONE};

verus! {

pub struct SigmoidLayer;

impl SigmoidLayer {
    pub fn new() -> Self {
        SigmoidLayer
    }
}

impl Activation for SigmoidLayer {
    open spec fn spec_activate(x: int) -> int {
        spec_sigmoid(x)
    }

    open spec fn spec_derivate(x: int) -> int {
        spec_sigmoid_deriv(x)
    }

    fn activate(x: i64) -> (r: i64) {
        fx_div(FX_ONE, fx_add(FX_ONE, fx_exp(fx_neg(x))))
    }

    fn derivate(x: i64) -> (r: i64) {
        let a = Self::activate(x);
        fx_mul(a, fx_sub(FX_ONE, a))
    }
}

impl SigmoidLayer {
    /// Elementwise sigmoid; the forward state is the pre-activation input.
    pub fn forward_1d(&self, input: Array1D) -> (r: (Array1D, Array1D))
        ensures
            r.0@ == act_map_1d::<SigmoidLayer>(input@),
            r.1@ == input@,
    {
        act_forward_1d::<SigmoidLayer>(input)
    }

    /// Chain rule at the retained pre-activation input.
    pub fn backward_1d(&self, forward: Array1D, forward_data: &Array1D) -> (r: Array1D)
        requires
            forward@.len() == forward_data@.len(),
        ensures
            r@ == act_grad_1d::<SigmoidLayer>(forward@, forward_data@),
    {
        act_backward_1d::<SigmoidLayer>(forward, forward_data)
    }

    /// Elementwise sigmoid on a grid; the forward state is the input.
    pub fn forward_2d(&self, input: Array2D) -> (r: (Array2D, Array2D))
        ensures
            r.0@ == act_map_2d::<SigmoidLayer>(input@),
            r.1@ == input@,
    {
        act_forward_2d::<SigmoidLayer>(input)
    }

    /// Chain rule at the retained pre-activation input, on a grid.
    pub fn backward_2d(&self, forward: Array2D, forward_data: &Array2D) -> (r: Array2D)
        requires
            forward@.len() == forward_data@.len(),
            forall|i: int| 0 <= i < forward_data@.len()
                ==> (#[trigger] forward@[i]).len() == forward_data@[i].len(),
        ensures
            r@ == act_grad_2d::<SigmoidLayer>(forward@, forward_data@),
    {
        act_backward_2d::<SigmoidLayer>(forward, forward_data)
    }
}

} // verus!
