//! Leaky rectified-linear activation: negative inputs keep a small slope.

use vstd::prelude::*;

use super::Activation;
use crate::fixed::{fx_mul, spec_fx_mul, FX_ONE};

verus! {

/// The slope used below zero: 0.01 in fixed-point units.
pub const FX_LEAK: i64 = 655;

/// The exact fixed-point value of the leaky rectified-linear map.
pub open spec fn spec_leaky_relu(x: int) -> int {
    if x < 0 {
        spec_fx_mul(x, FX_LEAK as int)
    } else {
        x
    }
}

/// Its derivative: 1 at and above zero, the leak slope below.
pub open spec fn spec_leaky_relu_deriv(x: int) -> int {
    if x >= 0 {
        FX_ONE as int
    } else {
        FX_LEAK as int
    }
}

pub struct LeakyRelu;

impl LeakyRelu {
    pub fn new() -> Self {
        LeakyRelu
    }
}

impl Activation for LeakyRelu {
    open spec fn spec_activate(x: int) -> int {
        spec_leaky_relu(x)
    }

    open spec fn spec_derivate(x: int) -> int {
        spec_leaky_relu_deriv(x)
    }

    fn activate(x: i64) -> (r: i64) {
        if x < 0 {
            fx_mul(x, FX_LEAK)
        } else {
            x
        }
    }

    fn derivate(x: i64) -> (r: i64) {
        if x >= 0 {
            FX_ONE
        } else {
            FX_LEAK
        }
    }
}

} // verus!
