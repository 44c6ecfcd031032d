//! Standalone rectified-linear layer, usable on one- and two-dimensional
//! tensors.

use vstd::prelude::*;

use crate::activation::relu::{spec_relu, spec_relu_deriv};
use crate::activation::{
    act_backward_1d, act_backward_2d, act_forward_1d, act_forward_2d, act_grad_1d, act_grad_2d,
    act_map_1d, act_map_2d, Activation,
};
use crate::array::{Array1D, Array2D};
use crate::fixed::FX_ONE;

verus! {

pub struct ReluLayer;

impl ReluLayer {
    pub fn new() -> Self {
        ReluLayer
    }
}

impl Activation for ReluLayer {
    open spec fn spec_activate(x: int) -> int {
        spec_relu(x)
    }

    open spec fn spec_derivate(x: int) -> int {
        spec_relu_deriv(x)
    }

    fn activate(x: i64) -> (r: i64) {
        if x < 0 {
            0
        } else {
            x
        }
    }

    fn derivate(x: i64) -> (r: i64) {
        if x >= 0 {
            FX_ONE
        } else {
            0
        }
    }
}

impl ReluLayer {
    /// Elementwise rectification; the forward state is the pre-activation
    /// input.
    pub fn forward_1d(&self, input: Array1D) -> (r: (Array1D, Array1D))
        ensures
            r.0@ == act_map_1d::<ReluLayer>(input@),
            r.1@ == input@,
    {
        act_forward_1d::<ReluLayer>(input)
    }

    /// Chain rule at the retained pre-activation input.
    pub fn backward_1d(&self, forward: Array1D, forward_data: &Array1D) -> (r: Array1D)
        requires
            forward@.len() == forward_data@.len(),
        ensures
            r@ == act_grad_1d::<ReluLayer>(forward@, forward_data@),
    {
        act_backward_1d::<ReluLayer>(forward, forward_data)
    }

    /// Elementwise rectification on a grid; the forward state is the input.
    pub fn forward_2d(&self, input: Array2D) -> (r: (Array2D, Array2D))
        ensures
            r.0@ == act_map_2d::<ReluLayer>(input@),
            r.1@ == input@,
    {
        act_forward_2d::<ReluLayer>(input)
    }

    /// Chain rule at the retained pre-activation input, on a grid.
    pub fn backward_2d(&self, forward: Array2D, forward_data: &Array2D) -> (r: Array2D)
        requires
            forward@.len() == forward_data@.len(),
            forall|i: int| 0 <= i < forward_data@.len()
                ==> (#[trigger] forward@[i]).len() == forward_data@[i].len(),
        ensures
            r@ == act_grad_2d::<ReluLayer>(forward@, forward_data@),
    {
        act_backward_2d::<ReluLayer>(forward, forward_data)
    }
}

} // verus!
