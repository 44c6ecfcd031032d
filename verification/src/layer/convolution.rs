//! Convolution layer.
//!
//! The parameters are one square kernel of odd size `n` (even sizes are
//! rejected at construction).  A derived buffer, the 180-degree-rotated
//! kernel, is kept in sync on every parameter update.  Forward is the valid
//! cross-correlation of the input against the kernel with zero padding for
//! out-of-bounds taps, the kernel centre aligned to each output cell.
//! Backward computes the input gradient by cross-correlating the output
//! gradient against the rotated kernel (the transpose of the forward linear
//! map), and the kernel gradient by cross-correlating the retained input
//! against the output gradient, evaluated on the kernel-sized `n` by `n` grid.

use vstd::prelude::*;

use super::{grid_stepped, ShapeError};
use crate::array::{grid_is, grid_width, grid_zero, Array2D};
use crate::fixed::{fx_add, fx_mul, spec_fx_add, spec_fx_mul, FX_ONE};
use crate::rng::random_unit;

verus! {

/// The 180-degree point reflection of a square grid.
pub open spec fn rot180(k: Seq<Seq<int>>) -> Seq<Seq<int>> {
    Seq::new(
        k.len(),
        |y: int| Seq::new(k.len(), |x: int| k[k.len() - 1 - y][k.len() - 1 - x]),
    )
}

/// Zero-padded sample: out-of-bounds taps read zero.
pub open spec fn conv_sample(a: Seq<Seq<int>>, xi: int, yi: int) -> int {
    if 0 <= yi < a.len() && 0 <= xi < a[yi].len() {
        a[yi][xi]
    } else {
        0
    }
}

/// The first `j` kernel taps accumulated for output cell `(ox, oy)`, the
/// kernel scanned column by column, each column top to bottom, with the
/// kernel centre moved by `off`.
pub open spec fn conv_acc(
    a: Seq<Seq<int>>,
    k: Seq<Seq<int>>,
    off: int,
    ox: int,
    oy: int,
    j: nat,
) -> int
    decreases j,
{
    if j == 0 {
        0
    } else {
        let kh = k.len() as int;
        let kx = (j - 1) as int / kh;
        let ky = (j - 1) as int % kh;
        spec_fx_add(
            conv_acc(a, k, off, ox, oy, (j - 1) as nat),
            spec_fx_mul(k[ky][kx], conv_sample(a, ox + kx - off, oy + ky - off)),
        )
    }
}

/// One output cell of the zero-padded cross-correlation.
pub open spec fn conv_cell(a: Seq<Seq<int>>, k: Seq<Seq<int>>, off: int, ox: int, oy: int) -> int {
    conv_acc(a, k, off, ox, oy, grid_width(k) * k.len())
}

/// The `out_w` by `out_h` grid of the zero-padded cross-correlation of `a`
/// against `k`, kernel centre moved by `off`.
pub open spec fn conv_grid(
    a: Seq<Seq<int>>,
    k: Seq<Seq<int>>,
    off: int,
    out_w: nat,
    out_h: nat,
) -> Seq<Seq<int>> {
    Seq::new(out_h, |oy: int| Seq::new(out_w, |ox: int| conv_cell(a, k, off, ox, oy)))
}

/// The zero-padded cross-correlation of `array` against `kernel` on an
/// `out_w` by `out_h` output grid.
fn cross_correlate(array: &Array2D, kernel: &Array2D, off: usize, out_w: usize, out_h: usize) -> (r:
    Array2D)
    requires
        grid_is(array@, grid_width(array@), array@.len()),
        grid_is(kernel@, grid_width(kernel@), kernel@.len()),
        out_w + grid_width(kernel@) <= usize::MAX,
        out_h + kernel@.len() <= usize::MAX,
    ensures
        r@ == conv_grid(array@, kernel@, off as int, out_w as nat, out_h as nat),
{
    let kh = kernel.rows();
    let kw = if kh == 0 {
        0
    } else {
        kernel.row_len(0)
    };
    let ah = array.rows();
    let aw = if ah == 0 {
        0
    } else {
        array.row_len(0)
    };
    proof {
        assert(kw as nat == grid_width(kernel@));
        assert(aw as nat == grid_width(array@));
    }
    let ghost taps: nat = grid_width(kernel@) * kernel@.len();
    let mut out = Array2D::new(out_w, out_h);
    let mut oy: usize = 0;
    while oy < out_h
        invariant
            oy <= out_h,
            grid_is(array@, aw as nat, ah as nat),
            grid_is(kernel@, kw as nat, kh as nat),
            out_w + kw <= usize::MAX,
            out_h + kh <= usize::MAX,
            taps == (kw as nat) * (kh as nat),
            out@.len() == out_h as nat,
            forall|r0: int| 0 <= r0 < out_h as int ==> (#[trigger] out@[r0]).len() == out_w as nat,
            forall|qy: int, qx: int|
                0 <= qy < oy && 0 <= qx < out_w as int
                    ==> #[trigger] out@[qy][qx] == conv_cell(array@, kernel@, off as int, qx, qy),
        decreases out_h - oy,
    {
        let mut ox: usize = 0;
        while ox < out_w
            invariant
                ox <= out_w,
                oy < out_h,
                grid_is(array@, aw as nat, ah as nat),
                grid_is(kernel@, kw as nat, kh as nat),
                out_w + kw <= usize::MAX,
                out_h + kh <= usize::MAX,
                taps == (kw as nat) * (kh as nat),
                out@.len() == out_h as nat,
                forall|r0: int| 0 <= r0 < out_h as int
                    ==> (#[trigger] out@[r0]).len() == out_w as nat,
                forall|qy: int, qx: int|
                    0 <= qy < oy && 0 <= qx < out_w as int
                        ==> #[trigger] out@[qy][qx] == conv_cell(
                            array@,
                            kernel@,
                            off as int,
                            qx,
                            qy,
                        ),
                forall|qx: int| 0 <= qx < ox
                    ==> #[trigger] out@[oy as int][qx] == conv_cell(
                        array@,
                        kernel@,
                        off as int,
                        qx,
                        oy as int,
                    ),
            decreases out_w - ox,
        {
            let mut acc: i64 = 0;
            let mut kx: usize = 0;
            while kx < kw
                invariant
                    kx <= kw,
                    ox < out_w,
                    oy < out_h,
                    grid_is(array@, aw as nat, ah as nat),
                    grid_is(kernel@, kw as nat, kh as nat),
                    out_w + kw <= usize::MAX,
                    out_h + kh <= usize::MAX,
                    acc == conv_acc(
                        array@,
                        kernel@,
                        off as int,
                        ox as int,
                        oy as int,
                        (kx * kh) as nat,
                    ),
                decreases kw - kx,
            {
                let mut ky: usize = 0;
                while ky < kh
                    invariant
                        ky <= kh,
                        kx < kw,
                        ox < out_w,
                        oy < out_h,
                        grid_is(array@, aw as nat, ah as nat),
                        grid_is(kernel@, kw as nat, kh as nat),
                        out_w + kw <= usize::MAX,
                        out_h + kh <= usize::MAX,
                        acc == conv_acc(
                            array@,
                            kernel@,
                            off as int,
                            ox as int,
                            oy as int,
                            (kx * kh + ky) as nat,
                        ),
                    decreases kh - ky,
                {
                    let xi = ox + kx;
                    let yi = oy + ky;
                    let s: i64 = if xi >= off && yi >= off && xi - off < aw && yi - off < ah {
                        array.get(xi - off, yi - off)
                    } else {
                        0
                    };
                    proof {
                        assert(s == conv_sample(
                            array@,
                            ox + kx - off as int,
                            oy + ky - off as int,
                        ));
                        assert((kx * kh + ky) + 1 == kx * kh + (ky + 1));
                        lemma_tap_coords(kh as int, kx as int, ky as int);
                    }
                    acc = fx_add(acc, fx_mul(kernel.get(kx, ky), s));
                    ky = ky + 1;
                }
                proof {
                    assert((kx + 1) * (kh as int) == kx * (kh as int) + kh) by (nonlinear_arith);
                }
                kx = kx + 1;
            }
            proof {
                assert(acc == conv_cell(array@, kernel@, off as int, ox as int, oy as int));
            }
            out.set(ox, oy, acc);
            ox = ox + 1;
        }
        oy = oy + 1;
    }
    proof {
        assert forall|r0: int| 0 <= r0 < out_h as int implies out@[r0] =~= conv_grid(
            array@,
            kernel@,
            off as int,
            out_w as nat,
            out_h as nat,
        )[r0] by {}
        assert(out@ =~~= conv_grid(array@, kernel@, off as int, out_w as nat, out_h as nat));
    }
    out
}

/// Scan-index decomposition of a kernel tap: `(c * h + d) / h == c` and
/// `(c * h + d) % h == d` whenever `0 <= d < h`.
proof fn lemma_tap_coords(h: int, c: int, d: int)
    requires
        1 <= h,
        0 <= c,
        0 <= d < h,
    ensures
        (c * h + d) / h == c,
        (c * h + d) % h == d,
{
    assert(c * h == h * c) by (nonlinear_arith);
    vstd::arithmetic::div_mod::lemma_div_multiples_vanish_fancy(c, d, h);
    vstd::arithmetic::div_mod::lemma_mod_multiples_vanish(c, d, h);
    vstd::arithmetic::div_mod::lemma_small_mod(d as nat, h as nat);
}

/// A convolution layer: one square odd-size kernel, plus the derived rotated
/// kernel kept in sync with it.
pub struct Convolution {
    /// The live kernel.
    pub kernel: Array2D,
    /// The derived buffer; `wf` pins it to the point reflection of `kernel`.
    pub rotated_kernel: Array2D,
}

impl Convolution {
    /// The contents of the derived rotated-kernel buffer.
    pub open spec fn rotated(&self) -> Seq<Seq<int>> {
        self.rotated_kernel@
    }

    /// The kernel is square with odd size, and the derived buffer holds its
    /// 180-degree point reflection.
    pub open spec fn wf(&self) -> bool {
        &&& grid_is(self.kernel@, self.kernel@.len(), self.kernel@.len())
        &&& self.kernel@.len() % 2 == 1
        &&& self.rotated() == rot180(self.kernel@)
    }

    /// Kernel size.
    pub open spec fn spec_size(&self) -> nat {
        self.kernel@.len()
    }

    /// Recompute the rotated kernel from the live kernel by point reflection.
    pub fn update_rotated_kernel(&mut self)
        requires
            grid_is(old(self).kernel@, old(self).kernel@.len(), old(self).kernel@.len()),
        ensures
            final(self).kernel == old(self).kernel,
            final(self).rotated() == rot180(old(self).kernel@),
    {
        let n = self.kernel.rows();
        let mut rotated = Array2D::new(n, n);
        let mut y: usize = 0;
        while y < n
            invariant
                y <= n,
                n == self.kernel@.len(),
                grid_is(self.kernel@, n as nat, n as nat),
                rotated@.len() == n as nat,
                forall|r0: int| 0 <= r0 < n as int ==> (#[trigger] rotated@[r0]).len() == n as nat,
                forall|qy: int, qx: int|
                    0 <= qy < y && 0 <= qx < n as int
                        ==> #[trigger] rotated@[qy][qx] == self.kernel@[n - 1 - qy][n - 1 - qx],
            decreases n - y,
        {
            let mut x: usize = 0;
            while x < n
                invariant
                    x <= n,
                    y < n,
                    n == self.kernel@.len(),
                    grid_is(self.kernel@, n as nat, n as nat),
                    rotated@.len() == n as nat,
                    forall|r0: int| 0 <= r0 < n as int
                        ==> (#[trigger] rotated@[r0]).len() == n as nat,
                    forall|qy: int, qx: int|
                        0 <= qy < y && 0 <= qx < n as int
                            ==> #[trigger] rotated@[qy][qx] == self.kernel@[n - 1 - qy][n - 1 - qx],
                    forall|qx: int| 0 <= qx < x
                        ==> #[trigger] rotated@[y as int][qx]
                            == self.kernel@[n - 1 - y as int][n - 1 - qx],
                decreases n - x,
            {
                let v = self.kernel.get(n - 1 - x, n - 1 - y);
                rotated.set(x, y, v);
                x = x + 1;
            }
            y = y + 1;
        }
        self.rotated_kernel = rotated;
        proof {
            assert forall|r0: int| 0 <= r0 < n as int implies self.rotated_kernel@[r0] =~= rot180(
                self.kernel@,
            )[r0] by {}
            assert(self.rotated_kernel@ =~~= rot180(self.kernel@));
        }
    }

    /// A zero-initialized kernel of odd size `n`; even sizes are rejected.
    pub fn new(n: usize) -> (r: Result<Self, ShapeError>)
        ensures
            n % 2 == 1 ==> r is Ok && r.unwrap().wf() && r.unwrap().kernel@ == grid_zero(
                n as nat,
                n as nat,
            ),
            n % 2 == 0 ==> r == Result::<Self, ShapeError>::Err(ShapeError::EvenConvolutionSize),
    {
        if n % 2 == 0 {
            return Err(ShapeError::EvenConvolutionSize);
        }
        let mut c = Convolution { kernel: Array2D::new(n, n), rotated_kernel: Array2D::new(n, n) };
        c.update_rotated_kernel();
        Ok(c)
    }

    /// A kernel of odd size `n` with every tap drawn uniformly from one unit
    /// either side of zero; even sizes are rejected.
    pub fn random(n: usize) -> (r: Result<Self, ShapeError>)
        ensures
            n % 2 == 1 ==> r is Ok && r.unwrap().wf() && r.unwrap().spec_size() == n as nat
                && forall|y: int, x: int|
                0 <= y < n as int && 0 <= x < n as int ==> -(FX_ONE as int)
                    <= #[trigger] r.unwrap().kernel@[y][x] <= FX_ONE as int,
            n % 2 == 0 ==> r == Result::<Self, ShapeError>::Err(ShapeError::EvenConvolutionSize),
    {
        if n % 2 == 0 {
            return Err(ShapeError::EvenConvolutionSize);
        }
        let mut kernel = Array2D::new(n, n);
        let mut y: usize = 0;
        while y < n
            invariant
                y <= n,
                kernel@.len() == n as nat,
                forall|r0: int| 0 <= r0 < n as int ==> (#[trigger] kernel@[r0]).len() == n as nat,
                forall|b: int, a: int|
                    0 <= b < y && 0 <= a < n as int ==> -(FX_ONE as int)
                        <= #[trigger] kernel@[b][a] <= FX_ONE as int,
            decreases n - y,
        {
            let mut x: usize = 0;
            while x < n
                invariant
                    x <= n,
                    y < n,
                    kernel@.len() == n as nat,
                    forall|r0: int| 0 <= r0 < n as int
                        ==> (#[trigger] kernel@[r0]).len() == n as nat,
                    forall|b: int, a: int|
                        0 <= b < y && 0 <= a < n as int ==> -(FX_ONE as int)
                            <= #[trigger] kernel@[b][a] <= FX_ONE as int,
                    forall|a: int| 0 <= a < x ==> -(FX_ONE as int)
                        <= #[trigger] kernel@[y as int][a] <= FX_ONE as int,
                decreases n - x,
            {
                let v = random_unit();
                kernel.set(x, y, v);
                x = x + 1;
            }
            y = y + 1;
        }
        let mut c = Convolution { kernel, rotated_kernel: Array2D::new(n, n) };
        c.update_rotated_kernel();
        Ok(c)
    }

    /// Valid zero-padded cross-correlation of the input against the kernel;
    /// the forward state is the full input.
    pub fn forward(&self, input: Array2D) -> (r: (Array2D, Array2D))
        requires
            self.wf(),
            grid_is(input@, grid_width(input@), input@.len()),
            grid_width(input@) + self.spec_size() <= usize::MAX,
            input@.len() + self.spec_size() <= usize::MAX,
        ensures
            r.0@ == conv_grid(
                input@,
                self.kernel@,
                ((self.spec_size() - 1) / 2) as int,
                grid_width(input@),
                input@.len(),
            ),
            r.1@ == input@,
    {
        let n = self.kernel.rows();
        let off = (n - 1) / 2;
        let h = input.rows();
        let w = if h == 0 {
            0
        } else {
            input.row_len(0)
        };
        proof {
            assert(w as nat == grid_width(input@));
        }
        let out = cross_correlate(&input, &self.kernel, off, w, h);
        (out, input)
    }

    /// Input gradient: the output gradient cross-correlated against the
    /// rotated kernel.  Kernel gradient: the retained input cross-correlated
    /// against the output gradient, on the kernel-sized grid.
    pub fn backward(&self, forward: Array2D, forward_data: Array2D) -> (r: (Array2D, Array2D))
        requires
            self.wf(),
            grid_is(forward@, grid_width(forward@), forward@.len()),
            grid_is(forward_data@, grid_width(forward_data@), forward_data@.len()),
            grid_width(forward@) + self.spec_size() <= usize::MAX,
            forward@.len() + self.spec_size() <= usize::MAX,
            self.spec_size() + grid_width(forward@) <= usize::MAX,
            self.spec_size() + forward@.len() <= usize::MAX,
        ensures
            r.0@ == conv_grid(
                forward@,
                rot180(self.kernel@),
                ((self.spec_size() - 1) / 2) as int,
                grid_width(forward@),
                forward@.len(),
            ),
            r.1@ == conv_grid(
                forward_data@,
                forward@,
                ((self.spec_size() - 1) / 2) as int,
                self.spec_size(),
                self.spec_size(),
            ),
    {
        let n = self.kernel.rows();
        let off = (n - 1) / 2;
        let h = forward.rows();
        let w = if h == 0 {
            0
        } else {
            forward.row_len(0)
        };
        proof {
            assert(w as nat == grid_width(forward@));
            assert(self.rotated() == rot180(self.kernel@));
            assert(rot180(self.kernel@).len() == n as nat);
            assert(grid_is(rot180(self.kernel@), n as nat, n as nat)) by {
                assert forall|r0: int| 0 <= r0 < n as int implies (#[trigger] rot180(
                    self.kernel@,
                )[r0]).len() == n as nat by {}
            }
        }
        let in_grad = cross_correlate(&forward, &self.rotated_kernel, off, w, h);
        let kernel_grad = cross_correlate(&forward_data, &forward, off, n, n);
        (in_grad, kernel_grad)
    }

    /// Add `grad * multiplier` into the kernel in place, then bring the
    /// rotated kernel back in sync: after any update the derived buffer again
    /// equals the 180-degree point reflection of the live kernel.
    pub fn apply_gradients(&mut self, gradients: &Array2D, multiplier: i64)
        requires
            old(self).wf(),
            gradients@.len() == old(self).spec_size(),
            forall|i: int| 0 <= i < gradients@.len()
                ==> (#[trigger] gradients@[i]).len() == old(self).spec_size(),
        ensures
            final(self).kernel@ == grid_stepped(
                old(self).kernel@,
                gradients@,
                multiplier as int,
            ),
            final(self).wf(),
    {
        let mut scaled = gradients.duplicate();
        scaled.mul_assign_scalar(multiplier);
        self.kernel.add_assign(&scaled);
        proof {
            assert(self.kernel@ =~~= grid_stepped(
                old(self).kernel@,
                gradients@,
                multiplier as int,
            ));
        }
        self.update_rotated_kernel();
    }
}

} // verus!
