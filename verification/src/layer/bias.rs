//! Bias layer over a two-dimensional grid.
//!
//! The parameters are one bias per grid cell.  Forward adds them elementwise;
//! backward passes the output gradient through unchanged and hands it back as
//! the bias gradient (`d out / d bias == 1`).

use vstd::prelude::*;

use super::grid_stepped;
use crate::array::{grid_is, grid_zero, Array2D};
use crate::fixed::{spec_fx_add, FX_ONE};
use crate::rng::random_unit;

verus! {

/// Elementwise saturating sum of two equally shaped grids.
pub open spec fn grid_add(a: Seq<Seq<int>>, b: Seq<Seq<int>>) -> Seq<Seq<int>> {
    Seq::new(a.len(), |i: int| Seq::new(a[i].len(), |j: int| spec_fx_add(a[i][j], b[i][j])))
}

/// A per-cell additive bias over an `x` by `y` grid.
pub struct BiasLayer {
    pub biases: Array2D,
}

impl BiasLayer {
    /// Shape consistency with the grid the layer is applied to.
    pub open spec fn wf_dims(&self, x: nat, y: nat) -> bool {
        grid_is(self.biases@, x, y)
    }

    /// A zero-initialized bias grid.
    pub fn new(x: usize, y: usize) -> (r: Self)
        ensures
            r.biases@ == grid_zero(x as nat, y as nat),
            r.wf_dims(x as nat, y as nat),
    {
        BiasLayer { biases: Array2D::new(x, y) }
    }

    /// A bias grid with every cell drawn uniformly from one unit either side
    /// of zero.
    pub fn random(x: usize, y: usize) -> (r: Self)
        ensures
            r.wf_dims(x as nat, y as nat),
            forall|b: int, a: int|
                0 <= b < y as int && 0 <= a < x as int ==> -(FX_ONE as int)
                    <= #[trigger] r.biases@[b][a] <= FX_ONE as int,
    {
        let mut biases = Array2D::new(x, y);
        let mut yy: usize = 0;
        while yy < y
            invariant
                yy <= y,
                biases@.len() == y as nat,
                forall|a: int| 0 <= a < y as int ==> (#[trigger] biases@[a]).len() == x as nat,
                forall|b: int, a: int|
                    0 <= b < yy && 0 <= a < x as int ==> -(FX_ONE as int)
                        <= #[trigger] biases@[b][a] <= FX_ONE as int,
            decreases y - yy,
        {
            let mut xx: usize = 0;
            while xx < x
                invariant
                    xx <= x,
                    yy < y,
                    biases@.len() == y as nat,
                    forall|a: int| 0 <= a < y as int
                        ==> (#[trigger] biases@[a]).len() == x as nat,
                    forall|b: int, a: int|
                        0 <= b < yy && 0 <= a < x as int ==> -(FX_ONE as int)
                            <= #[trigger] biases@[b][a] <= FX_ONE as int,
                    forall|a: int| 0 <= a < xx ==> -(FX_ONE as int)
                        <= #[trigger] biases@[yy as int][a] <= FX_ONE as int,
                decreases x - xx,
            {
                let v = random_unit();
                biases.set(xx, yy, v);
                xx = xx + 1;
            }
            yy = yy + 1;
        }
        BiasLayer { biases }
    }

    /// Elementwise addition of the bias grid; this layer keeps no forward
    /// state.
    pub fn forward(&self, input: Array2D) -> (r: Array2D)
        requires
            input@.len() == self.biases@.len(),
            forall|i: int| 0 <= i < input@.len()
                ==> (#[trigger] input@[i]).len() == self.biases@[i].len(),
        ensures
            r@ == grid_add(input@, self.biases@),
    {
        let ghost in0 = input@;
        let mut out = input;
        out.add_assign(&self.biases);
        proof {
            assert(out@ =~~= grid_add(in0, self.biases@));
        }
        out
    }

    /// The gradient passes through unchanged; the bias gradient is the output
    /// gradient itself.
    pub fn backward(&self, forward: Array2D) -> (r: (Array2D, Array2D))
        ensures
            r.0@ == forward@,
            r.1@ == forward@,
    {
        let in_grad = forward.duplicate();
        (in_grad, forward)
    }

    /// Add `grad * multiplier` into the biases in place.
    pub fn apply_gradients(&mut self, gradients: &Array2D, multiplier: i64)
        requires
            gradients@.len() == old(self).biases@.len(),
            forall|i: int| 0 <= i < gradients@.len()
                ==> (#[trigger] gradients@[i]).len() == old(self).biases@[i].len(),
        ensures
            final(self).biases@ == grid_stepped(
                old(self).biases@,
                gradients@,
                multiplier as int,
            ),
    {
        let mut scaled = gradients.duplicate();
        scaled.mul_assign_scalar(multiplier);
        self.biases.add_assign(&scaled);
        proof {
            assert(self.biases@ =~~= grid_stepped(
                old(self).biases@,
                gradients@,
                multiplier as int,
            ));
        }
    }
}

} // verus!
