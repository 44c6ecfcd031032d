//! Saturating sigmoid activation.

use vstd::prelude::*;

use super::Activation;
use crate::fixed::{
    fx_add, fx_div, fx_exp, fx_mul, fx_neg, fx_sub, spec_fx_add, spec_fx_div, spec_fx_exp,
    spec_fx_mul, spec_fx_neg, spec_fx_sub, FX_ONE,
};

verus! {

/// The exact fixed-point value of the sigmoid `1 / (1 + e^(-x))`.
pub open spec fn spec_sigmoid(x: int) -> int {
    spec_fx_div(FX_ONE as int, spec_fx_add(FX_ONE as int, spec_fx_exp(spec_fx_neg(x))))
}

/// The sigmoid derivative, computed from the activated value:
/// `sigmoid(x) * (1 - sigmoid(x))`.
pub open spec fn spec_sigmoid_deriv(x: int) -> int {
    let a = spec_sigmoid(x);
    spec_fx_mul(a, spec_fx_sub(FX_ONE as int, a))
}

pub struct Sigmoid;

impl Sigmoid {
    pub fn new() -> Self {
        Sigmoid
    }
}

impl Activation for Sigmoid {
    open spec fn spec_activate(x: int) -> int {
        spec_sigmoid(x)
    }

    open spec fn spec_derivate(x: int) -> int {
        spec_sigmoid_deriv(x)
    }

    fn activate(x: i64) -> (r: i64) {
        fx_div(FX_ONE, fx_add(FX_ONE, fx_exp(fx_neg(x))))
    }

    fn derivate(x: i64) -> (r: i64) {
        let a = Self::activate(x);
        fx_mul(a, fx_sub(FX_ONE, a))
    }
}

} // verus!
