//! Cost functions: a scalar loss and the gradient of that loss with respect
//! to the prediction.
//!
//! Two costs are provided: mean squared error against a dense target vector
//! (or a sparse class index read as a one-hot vector), and cross-entropy with
//! implicit softmax against a sparse class index, whose gradient is the
//! standard fused shortcut `softmax(prediction)` minus one at the true class.

use vstd::prelude::*;

use crate::array::Array1D;
use crate::fixed::{
    fx_add, fx_div, fx_div_int, fx_exp, fx_ln, fx_mul, fx_neg, fx_sub, spec_fx_add, spec_fx_div,
    spec_fx_div_int, spec_fx_exp, spec_fx_ln, spec_fx_mul, spec_fx_neg, spec_fx_sub, FX_ONE,
};

verus! {

/// A training label: a dense target vector or a sparse class index.
pub enum Label {
    Dense(Array1D),
    Class(usize),
}

/// The mathematical contents of a label.
pub enum LabelView {
    Dense(Seq<int>),
    Class(usize),
}

impl View for Label {
    type V = LabelView;

    open spec fn view(&self) -> LabelView {
        match self {
            Label::Dense(t) => LabelView::Dense(t@),
            Label::Class(c) => LabelView::Class(*c),
        }
    }
}

/// The one-hot vector of length `len` with one unit at index `c`.
pub open spec fn one_hot(len: nat, c: int) -> Seq<int> {
    Seq::new(len, |i: int| if i == c { FX_ONE as int } else { 0int })
}

/// The dense target a label stands for, against a prediction of length `len`.
pub open spec fn label_target(e: LabelView, len: nat) -> Seq<int> {
    match e {
        LabelView::Dense(t) => t,
        LabelView::Class(c) => one_hot(len, c as int),
    }
}

/// Sum of squared differences over the first `k` entries, folded in index
/// order.
pub open spec fn mse_acc(p: Seq<int>, e: Seq<int>, k: nat) -> int
    decreases k,
{
    if k == 0 {
        0
    } else {
        let d = spec_fx_sub(p[k - 1], e[k - 1]);
        spec_fx_add(mse_acc(p, e, (k - 1) as nat), spec_fx_mul(d, d))
    }
}

/// Mean squared error of a prediction against a dense target.
pub open spec fn mse_cost_spec(p: Seq<int>, e: Seq<int>) -> int {
    spec_fx_div_int(mse_acc(p, e, p.len()), p.len() as int)
}

/// Gradient of the mean squared error: `2 * (prediction - target)`.
pub open spec fn mse_deriv_spec(p: Seq<int>, e: Seq<int>) -> Seq<int> {
    Seq::new(p.len(), |i: int| spec_fx_mul(2 * FX_ONE as int, spec_fx_sub(p[i], e[i])))
}

/// Sum of `e^p[i]` over the first `k` entries, folded in index order.
pub open spec fn exp_sum(p: Seq<int>, k: nat) -> int
    decreases k,
{
    if k == 0 {
        0
    } else {
        spec_fx_add(exp_sum(p, (k - 1) as nat), spec_fx_exp(p[k - 1]))
    }
}

/// The softmax of a prediction: each exponential divided by their sum.
pub open spec fn softmax_spec(p: Seq<int>) -> Seq<int> {
    Seq::new(p.len(), |i: int| spec_fx_div(spec_fx_exp(p[i]), exp_sum(p, p.len())))
}

/// Cross-entropy cost of a prediction against a class index:
/// `-ln(softmax(prediction)[class])`.
pub open spec fn ce_cost_spec(p: Seq<int>, c: int) -> int {
    spec_fx_neg(spec_fx_ln(softmax_spec(p)[c]))
}

/// The fused softmax and cross-entropy gradient: the softmax with one unit
/// subtracted at the true class.
pub open spec fn ce_deriv_spec(p: Seq<int>, c: int) -> Seq<int> {
    Seq::new(
        p.len(),
        |i: int| if i == c {
            spec_fx_sub(softmax_spec(p)[i], FX_ONE as int)
        } else {
            softmax_spec(p)[i]
        },
    )
}

/// The label shapes a cost accepts for a prediction of length `len`.
pub open spec fn label_ok_for_mse(e: LabelView, len: nat) -> bool {
    match e {
        LabelView::Dense(t) => t.len() == len,
        LabelView::Class(_) => true,
    }
}

/// Mean-squared-error cost.
pub struct Mse;

impl Mse {
    /// The loss: mean of the squared entrywise differences.
    pub fn cost(predicted: &Array1D, expected: &Label) -> (r: i64)
        requires
            label_ok_for_mse(expected@, predicted@.len()),
            predicted@.len() <= i64::MAX,
        ensures
            r == mse_cost_spec(predicted@, label_target(expected@, predicted@.len())),
    {
        let ghost target = label_target(expected@, predicted@.len());
        let n = predicted.len();
        let mut acc: i64 = 0;
        let mut i: usize = 0;
        while i < n
            invariant
                i <= n,
                n == predicted@.len(),
                label_ok_for_mse(expected@, predicted@.len()),
                target == label_target(expected@, predicted@.len()),
                acc == mse_acc(predicted@, target, i as nat),
            decreases n - i,
        {
            let e_i: i64 = match expected {
                Label::Dense(t) => t.get(i),
                Label::Class(c) => if i == *c {
                    FX_ONE
                } else {
                    0
                },
            };
            proof {
                assert(e_i == target[i as int]);
            }
            let d = fx_sub(predicted.get(i), e_i);
            acc = fx_add(acc, fx_mul(d, d));
            i = i + 1;
        }
        fx_div_int(acc, n as i64)
    }

    /// The gradient of the loss with respect to the prediction.
    pub fn derivative(predicted: &Array1D, expected: &Label) -> (r: Array1D)
        requires
            label_ok_for_mse(expected@, predicted@.len()),
        ensures
            r@ == mse_deriv_spec(predicted@, label_target(expected@, predicted@.len())),
    {
        let ghost target = label_target(expected@, predicted@.len());
        let n = predicted.len();
        let mut out = Array1D::new(n);
        let mut i: usize = 0;
        while i < n
            invariant
                i <= n,
                n == predicted@.len(),
                label_ok_for_mse(expected@, predicted@.len()),
                target == label_target(expected@, predicted@.len()),
                out@.len() == n,
                forall|k: int| 0 <= k < i
                    ==> out@[k] == spec_fx_mul(
                        2 * FX_ONE as int,
                        spec_fx_sub(predicted@[k], target[k]),
                    ),
            decreases n - i,
        {
            let e_i: i64 = match expected {
                Label::Dense(t) => t.get(i),
                Label::Class(c) => if i == *c {
                    FX_ONE
                } else {
                    0
                },
            };
            proof {
                assert(e_i == target[i as int]);
            }
            let v = fx_mul(2 * FX_ONE, fx_sub(predicted.get(i), e_i));
            out.set(i, v);
            i = i + 1;
        }
        proof {
            assert(out@ =~= mse_deriv_spec(predicted@, target));
        }
        out
    }
}

/// Cross-entropy cost with implicit softmax, against a sparse class index.
pub struct CrossEntropy;

impl CrossEntropy {
    /// The softmax of a prediction.
    fn softmax(values: &Array1D) -> (r: Array1D)
        ensures
            r@ == softmax_spec(values@),
    {
        let n = values.len();
        let mut total: i64 = 0;
        let mut i: usize = 0;
        while i < n
            invariant
                i <= n,
                n == values@.len(),
                total == exp_sum(values@, i as nat),
            decreases n - i,
        {
            total = fx_add(total, fx_exp(values.get(i)));
            i = i + 1;
        }
        let mut out = Array1D::new(n);
        let mut i: usize = 0;
        while i < n
            invariant
                i <= n,
                n == values@.len(),
                total == exp_sum(values@, n as nat),
                out@.len() == n,
                forall|k: int| 0 <= k < i
                    ==> out@[k] == spec_fx_div(
                        spec_fx_exp(values@[k]),
                        exp_sum(values@, values@.len()),
                    ),
            decreases n - i,
        {
            let v = fx_div(fx_exp(values.get(i)), total);
            out.set(i, v);
            i = i + 1;
        }
        proof {
            assert(out@ =~= softmax_spec(values@));
        }
        out
    }

    /// The loss: `-ln(softmax(prediction)[class])`.  The class index must be
    /// in range; an out-of-range index is a caller error, rejected before any
    /// data flows.
    pub fn cost(predicted: &Array1D, expected: &Label) -> (r: i64)
        requires
            expected@ is Class,
            (expected@)->Class_0 < predicted@.len(),
        ensures
            r == ce_cost_spec(predicted@, (expected@)->Class_0 as int),
    {
        let c: usize = match expected {
            Label::Class(c) => *c,
            Label::Dense(_) => vstd::pervasive::unreached(),
        };
        let sm = Self::softmax(predicted);
        fx_neg(fx_ln(sm.get(c)))
    }

    /// The gradient of the loss with respect to the pre-softmax prediction:
    /// the softmax with one unit subtracted at the true class.
    pub fn derivative(predicted: &Array1D, expected: &Label) -> (r: Array1D)
        requires
            expected@ is Class,
            (expected@)->Class_0 < predicted@.len(),
        ensures
            r@ == ce_deriv_spec(predicted@, (expected@)->Class_0 as int),
    {
        let c: usize = match expected {
            Label::Class(c) => *c,
            Label::Dense(_) => vstd::pervasive::unreached(),
        };
        let mut sm = Self::softmax(predicted);
        let v = fx_sub(sm.get(c), FX_ONE);
        sm.set(c, v);
        proof {
            assert(sm@ =~= ce_deriv_spec(predicted@, c as int));
        }
        sm
    }
}

/// Which cost function a network trains with.
#[derive(Clone, Copy, Debug, PartialEq, Eq, Structural)]
pub enum CostKind {
    Mse,
    CrossEntropy,
}

/// The labels a cost accepts for a prediction of length `len`.
pub open spec fn cost_label_ok(k: CostKind, e: LabelView, len: nat) -> bool {
    match k {
        CostKind::Mse => label_ok_for_mse(e, len),
        CostKind::CrossEntropy => match e {
            LabelView::Class(c) => (c as nat) < len,
            LabelView::Dense(_) => false,
        },
    }
}

/// The gradient of the chosen cost with respect to the prediction.
pub open spec fn cost_deriv(k: CostKind, p: Seq<int>, e: LabelView) -> Seq<int> {
    match k {
        CostKind::Mse => mse_deriv_spec(p, label_target(e, p.len())),
        CostKind::CrossEntropy => match e {
            LabelView::Class(c) => ce_deriv_spec(p, c as int),
            LabelView::Dense(_) => p,
        },
    }
}

/// The loss of the chosen cost.
pub open spec fn cost_value(k: CostKind, p: Seq<int>, e: LabelView) -> int {
    match k {
        CostKind::Mse => mse_cost_spec(p, label_target(e, p.len())),
        CostKind::CrossEntropy => match e {
            LabelView::Class(c) => ce_cost_spec(p, c as int),
            LabelView::Dense(_) => 0,
        },
    }
}

/// Evaluate the chosen cost.
pub fn cost_exec(k: CostKind, predicted: &Array1D, expected: &Label) -> (r: i64)
    requires
        cost_label_ok(k, expected@, predicted@.len()),
        predicted@.len() <= i64::MAX,
    ensures
        r == cost_value(k, predicted@, expected@),
{
    match k {
        CostKind::Mse => Mse::cost(predicted, expected),
        CostKind::CrossEntropy => CrossEntropy::cost(predicted, expected),
    }
}

/// Evaluate the gradient of the chosen cost.
pub fn cost_deriv_exec(k: CostKind, predicted: &Array1D, expected: &Label) -> (r: Array1D)
    requires
        cost_label_ok(k, expected@, predicted@.len()),
    ensures
        r@ == cost_deriv(k, predicted@, expected@),
{
    match k {
        CostKind::Mse => Mse::derivative(predicted, expected),
        CostKind::CrossEntropy => CrossEntropy::derivative(predicted, expected),
    }
}

} // verus!
