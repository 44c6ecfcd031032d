//! Rectified-linear activation: negative inputs are cut to zero.

use vstd::prelude::*;

use super::Activation;
use crate::fixed::FX_ONE;

verus! {

/// The exact fixed-point value of the rectified-linear map.
pub open spec fn spec_relu(x: int) -> int {
    if x < 0 {
        0
    } else {
        x
    }
}

/// The derivative of the rectified-linear map: 1 at and above zero, else 0.
pub open spec fn spec_relu_deriv(x: int) -> int {
    if x >= 0 {
        FX_ONE as int
    } else {
        0
    }
}

pub struct Relu;

impl Relu {
    pub fn new() -> Self {
        Relu
    }
}

impl Activation for Relu {
    open spec fn spec_activate(x: int) -> int {
        spec_relu(x)
    }

    open spec fn spec_derivate(x: int) -> int {
        spec_relu_deriv(x)
    }

    fn activate(x: i64) -> (r: i64) {
        if x < 0 {
            0
        } else {
            x
        }
    }

    fn derivate(x: i64) -> (r: i64) {
        if x >= 0 {
            FX_ONE
        } else {
            0
        }
    }
}

} // verus!
