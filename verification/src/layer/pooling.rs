//! Max-pooling layer.
//!
//! A fixed non-overlapping window of size `n` by `n` maps an `x` by `y` grid
//! to an `(x/n)` by `(y/n)` grid; `x` and `y` must be exact multiples of `n`.
//! Forward records, per output cell, the maximum of its window and the packed
//! window coordinates of the argmax (16 bits per coordinate, window row above
//! window column).  Backward routes the whole output gradient of each window
//! to exactly the recorded argmax position; every other position gets zero.
//! Ties are broken by scan order: the first maximum encountered wins
//! (windows are scanned column by column, each column top to bottom).

use vstd::prelude::*;

use crate::array::{grid_is, grid_width, Array2D};

verus! {

/// Value at scan position `k` (window column `k / n`, window row `k % n`) of
/// the window at chunk `(cx, cy)`.
pub open spec fn pool_elem(m: Seq<Seq<int>>, n: nat, cx: int, cy: int, k: int) -> int {
    m[cy * n + k % (n as int)][cx * n + k / (n as int)]
}

/// Best (value, scan index) over scan positions `0 ..= k`, keeping the first
/// maximum: a later position replaces the best only by being strictly larger.
pub open spec fn pool_scan(m: Seq<Seq<int>>, n: nat, cx: int, cy: int, k: nat) -> (int, int)
    decreases k,
{
    if k == 0 {
        (pool_elem(m, n, cx, cy, 0), 0int)
    } else {
        let prev = pool_scan(m, n, cx, cy, (k - 1) as nat);
        let v = pool_elem(m, n, cx, cy, k as int);
        if v > prev.0 {
            (v, k as int)
        } else {
            prev
        }
    }
}

/// The maximum of the window at chunk `(cx, cy)`.
pub open spec fn pool_out(m: Seq<Seq<int>>, n: nat, cx: int, cy: int) -> int {
    pool_scan(m, n, cx, cy, (n * n - 1) as nat).0
}

/// The packed argmax of the window: window row times 65536 plus window column.
pub open spec fn pool_fd(m: Seq<Seq<int>>, n: nat, cx: int, cy: int) -> int {
    let k = pool_scan(m, n, cx, cy, (n * n - 1) as nat).1;
    (k % (n as int)) * 65536 + k / (n as int)
}

/// The pooled output grid, `a` chunks wide and `b` chunks high.
pub open spec fn pool_out_grid(m: Seq<Seq<int>>, n: nat, a: nat, b: nat) -> Seq<Seq<int>> {
    Seq::new(b, |cy: int| Seq::new(a, |cx: int| pool_out(m, n, cx, cy)))
}

/// The grid of packed argmax records, `a` chunks wide and `b` chunks high.
pub open spec fn pool_fd_grid(m: Seq<Seq<int>>, n: nat, a: nat, b: nat) -> Seq<Seq<int>> {
    Seq::new(b, |cy: int| Seq::new(a, |cx: int| pool_fd(m, n, cx, cy)))
}

/// A forward-state grid is decodable: each packed record holds a window row
/// and window column below `n`.
pub open spec fn pool_fd_ok(fd: Seq<Seq<int>>, n: nat) -> bool {
    forall|cy: int, cx: int|
        0 <= cy < fd.len() && 0 <= cx < fd[cy].len()
            ==> 0 <= #[trigger] fd[cy][cx] && fd[cy][cx] % 65536 < n && fd[cy][cx] / 65536 < n
}

/// Where backward sends the gradient: cell `(xx, yy)` receives its chunk's
/// gradient exactly when its window coordinates match the packed argmax
/// recorded for the chunk, and zero otherwise.
pub open spec fn pool_route(
    g: Seq<Seq<int>>,
    fd: Seq<Seq<int>>,
    n: nat,
    xx: int,
    yy: int,
) -> int {
    let cx = xx / (n as int);
    let cy = yy / (n as int);
    let p = fd[cy][cx];
    if xx % (n as int) == p % 65536 && yy % (n as int) == p / 65536 {
        g[cy][cx]
    } else {
        0
    }
}

/// The whole routed gradient grid for an `a` by `b` grid of chunks.
pub open spec fn pool_back_grid(
    g: Seq<Seq<int>>,
    fd: Seq<Seq<int>>,
    n: nat,
    a: nat,
    b: nat,
) -> Seq<Seq<int>> {
    Seq::new(b * n, |yy: int| Seq::new(a * n, |xx: int| pool_route(g, fd, n, xx, yy)))
}

/// Division and remainder of an in-chunk coordinate: `(c * n + d) / n == c`
/// and `(c * n + d) % n == d` whenever `0 <= d < n`.
proof fn lemma_chunk_coords(n: int, c: int, d: int)
    requires
        1 <= n,
        0 <= c,
        0 <= d < n,
    ensures
        (c * n + d) / n == c,
        (c * n + d) % n == d,
{
    assert(c * n == n * c) by (nonlinear_arith);
    vstd::arithmetic::div_mod::lemma_div_multiples_vanish_fancy(c, d, n);
    vstd::arithmetic::div_mod::lemma_mod_multiples_vanish(c, d, n);
    vstd::arithmetic::div_mod::lemma_small_mod(d as nat, n as nat);
}

/// The scan keeps the first maximum: the recorded index is in range, holds the
/// recorded value, no scanned position is larger, and every position before
/// the recorded one is strictly smaller (the pooling tie-break).
pub proof fn lemma_pool_scan_first_max(m: Seq<Seq<int>>, n: nat, cx: int, cy: int, k: nat)
    ensures
        0 <= pool_scan(m, n, cx, cy, k).1 <= k,
        pool_scan(m, n, cx, cy, k).0 == pool_elem(m, n, cx, cy, pool_scan(m, n, cx, cy, k).1),
        forall|j: int| 0 <= j <= k ==> #[trigger] pool_elem(m, n, cx, cy, j)
            <= pool_scan(m, n, cx, cy, k).0,
        forall|j: int| 0 <= j < pool_scan(m, n, cx, cy, k).1
            ==> #[trigger] pool_elem(m, n, cx, cy, j) < pool_scan(m, n, cx, cy, k).0,
    decreases k,
{
    if k > 0 {
        lemma_pool_scan_first_max(m, n, cx, cy, (k - 1) as nat);
    }
}

/// A packed argmax decodes to window coordinates below `n`.
proof fn lemma_pool_fd_bounds(m: Seq<Seq<int>>, n: nat, cx: int, cy: int)
    requires
        1 <= n <= 65535,
    ensures
        0 <= pool_fd(m, n, cx, cy),
        pool_fd(m, n, cx, cy) % 65536 < n,
        pool_fd(m, n, cx, cy) / 65536 < n,
{
    let nn = (n * n) as int;
    assert(1 <= n * n) by (nonlinear_arith)
        requires
            1 <= n,
    ;
    lemma_pool_scan_first_max(m, n, cx, cy, (n * n - 1) as nat);
    let k = pool_scan(m, n, cx, cy, (n * n - 1) as nat).1;
    assert(0 <= k <= nn - 1);
    vstd::arithmetic::div_mod::lemma_mod_division_less_than_divisor(k, n as int);
    assert(k / (n as int) < n as int) by {
        vstd::arithmetic::div_mod::lemma_multiply_divide_lt(k, n as int, n as int);
    }
    let my = k % (n as int);
    let mx = k / (n as int);
    lemma_chunk_coords(65536, my, mx);
}

/// Every grid of packed argmax records is decodable.
pub proof fn lemma_pool_fd_grid_ok(m: Seq<Seq<int>>, n: nat, a: nat, b: nat)
    requires
        1 <= n <= 65535,
    ensures
        pool_fd_ok(pool_fd_grid(m, n, a, b), n),
{
    let fd = pool_fd_grid(m, n, a, b);
    assert forall|cy: int, cx: int|
        0 <= cy < fd.len() && 0 <= cx < fd[cy].len() implies 0 <= #[trigger] fd[cy][cx]
        && fd[cy][cx] % 65536 < n && fd[cy][cx] / 65536 < n by {
        lemma_pool_fd_bounds(m, n, cx, cy);
    }
}

/// Max-pooling gradient routing: for a window whose maximum is unique, the
/// recorded forward state names exactly that position, so the backward pass
/// places the whole incoming gradient there and zero at every other position
/// of the window.  (With tied maxima the first position in scan order is
/// recorded instead: `lemma_pool_scan_first_max` states that tie-break.)
pub proof fn lemma_pool_routes_to_unique_max(
    m: Seq<Seq<int>>,
    g: Seq<Seq<int>>,
    fd: Seq<Seq<int>>,
    n: nat,
    cx: int,
    cy: int,
    kmax: int,
)
    requires
        1 <= n <= 65535,
        0 <= kmax < n * n,
        forall|j: int|
            0 <= j < n * n && j != kmax ==> #[trigger] pool_elem(m, n, cx, cy, j) < pool_elem(
                m,
                n,
                cx,
                cy,
                kmax,
            ),
        fd[cy][cx] == pool_fd(m, n, cx, cy),
        0 <= cx,
        0 <= cy,
    ensures
        pool_out(m, n, cx, cy) == pool_elem(m, n, cx, cy, kmax),
        forall|k: int|
            0 <= k < n * n ==> #[trigger] pool_route(
                g,
                fd,
                n,
                cx * n + k / (n as int),
                cy * n + k % (n as int),
            ) == if k == kmax {
                g[cy][cx]
            } else {
                0int
            },
{
    assert(1 <= n * n) by (nonlinear_arith)
        requires
            1 <= n,
    ;
    lemma_pool_scan_first_max(m, n, cx, cy, (n * n - 1) as nat);
    let ka = pool_scan(m, n, cx, cy, (n * n - 1) as nat).1;
    assert(ka == kmax) by {
        if ka != kmax {
            assert(pool_elem(m, n, cx, cy, ka) < pool_elem(m, n, cx, cy, kmax));
            assert(pool_elem(m, n, cx, cy, kmax) <= pool_scan(m, n, cx, cy, (n * n - 1) as nat).0);
        }
    }
    assert(kmax / (n as int) < n as int) by {
        assert((n as int) * (n as int) == n * n) by (nonlinear_arith);
        vstd::arithmetic::div_mod::lemma_multiply_divide_lt(kmax, n as int, n as int);
    }
    vstd::arithmetic::div_mod::lemma_mod_division_less_than_divisor(kmax, n as int);
    lemma_chunk_coords(65536, kmax % (n as int), kmax / (n as int));
    vstd::arithmetic::div_mod::lemma_fundamental_div_mod(kmax, n as int);
    assert forall|k: int| 0 <= k < n * n implies #[trigger] pool_route(
        g,
        fd,
        n,
        cx * n + k / (n as int),
        cy * n + k % (n as int),
    ) == if k == kmax {
        g[cy][cx]
    } else {
        0int
    } by {
        assert(k / (n as int) < n as int) by {
            assert((n as int) * (n as int) == n * n) by (nonlinear_arith);
            vstd::arithmetic::div_mod::lemma_multiply_divide_lt(k, n as int, n as int);
        }
        vstd::arithmetic::div_mod::lemma_mod_division_less_than_divisor(k, n as int);
        lemma_chunk_coords(n as int, cx, k / (n as int));
        lemma_chunk_coords(n as int, cy, k % (n as int));
        vstd::arithmetic::div_mod::lemma_fundamental_div_mod(k, n as int);
        if k / (n as int) == kmax / (n as int) && k % (n as int) == kmax % (n as int) {
            assert(k == kmax);
        }
    }
}

/// The non-overlapping max-pooling layer with an `n` by `n` window.
pub struct MaxPooling {
    pub n: usize,
}

impl MaxPooling {
    /// The window size is at least 1 and its coordinates fit 16 bits.
    pub open spec fn wf(&self) -> bool {
        1 <= self.n <= 65535
    }

    pub fn new(n: usize) -> (r: Self)
        ensures
            r.n == n,
    {
        MaxPooling { n }
    }

    /// Per output cell, the window maximum and the packed argmax coordinates
    /// of the first maximum in scan order.
    pub fn forward(&self, input: Array2D) -> (r: (Array2D, Array2D))
        requires
            self.wf(),
            grid_is(input@, grid_width(input@), input@.len()),
            grid_width(input@) % (self.n as nat) == 0,
            input@.len() % (self.n as nat) == 0,
        ensures
            r.0@ == pool_out_grid(
                input@,
                self.n as nat,
                grid_width(input@) / (self.n as nat),
                input@.len() / (self.n as nat),
            ),
            r.1@ == pool_fd_grid(
                input@,
                self.n as nat,
                grid_width(input@) / (self.n as nat),
                input@.len() / (self.n as nat),
            ),
            pool_fd_ok(r.1@, self.n as nat),
    {
        let n = self.n;
        let y = input.rows();
        let x = if y == 0 {
            0
        } else {
            input.row_len(0)
        };
        proof {
            assert(x as nat == grid_width(input@));
        }
        let a = x / n;
        let b = y / n;
        proof {
            vstd::arithmetic::div_mod::lemma_fundamental_div_mod(x as int, n as int);
            vstd::arithmetic::div_mod::lemma_fundamental_div_mod(y as int, n as int);
            assert((a as int) * (n as int) == x as int) by (nonlinear_arith)
                requires
                    x as int == (n as int) * (a as int),
            ;
            assert((b as int) * (n as int) == y as int) by (nonlinear_arith)
                requires
                    y as int == (n as int) * (b as int),
            ;
        }
        let mut out = Array2D::new(a, b);
        let mut fd = Array2D::new(a, b);
        let mut cy: usize = 0;
        while cy < b
            invariant
                cy <= b,
                self.wf(),
                n == self.n,
                grid_is(input@, x as nat, y as nat),
                a as int == x as int / n as int,
                b as int == y as int / n as int,
                (a as int) * (n as int) == x as int,
                (b as int) * (n as int) == y as int,
                out@.len() == b as nat,
                fd@.len() == b as nat,
                forall|r0: int| 0 <= r0 < b as int ==> (#[trigger] out@[r0]).len() == a as nat,
                forall|r0: int| 0 <= r0 < b as int ==> (#[trigger] fd@[r0]).len() == a as nat,
                forall|qy: int, qx: int|
                    0 <= qy < cy && 0 <= qx < a as int
                        ==> #[trigger] out@[qy][qx] == pool_out(input@, n as nat, qx, qy),
                forall|qy: int, qx: int|
                    0 <= qy < cy && 0 <= qx < a as int
                        ==> #[trigger] fd@[qy][qx] == pool_fd(input@, n as nat, qx, qy),
            decreases b - cy,
        {
            let mut cx: usize = 0;
            while cx < a
                invariant
                    cx <= a,
                    cy < b,
                    self.wf(),
                    n == self.n,
                    grid_is(input@, x as nat, y as nat),
                    a as int == x as int / n as int,
                    b as int == y as int / n as int,
                    (a as int) * (n as int) == x as int,
                    (b as int) * (n as int) == y as int,
                    out@.len() == b as nat,
                    fd@.len() == b as nat,
                    forall|r0: int| 0 <= r0 < b as int ==> (#[trigger] out@[r0]).len() == a as nat,
                    forall|r0: int| 0 <= r0 < b as int ==> (#[trigger] fd@[r0]).len() == a as nat,
                    forall|qy: int, qx: int|
                        0 <= qy < cy && 0 <= qx < a as int
                            ==> #[trigger] out@[qy][qx] == pool_out(input@, n as nat, qx, qy),
                    forall|qy: int, qx: int|
                        0 <= qy < cy && 0 <= qx < a as int
                            ==> #[trigger] fd@[qy][qx] == pool_fd(input@, n as nat, qx, qy),
                    forall|qx: int| 0 <= qx < cx
                        ==> #[trigger] out@[cy as int][qx] == pool_out(input@, n as nat, qx, cy as int),
                    forall|qx: int| 0 <= qx < cx
                        ==> #[trigger] fd@[cy as int][qx] == pool_fd(input@, n as nat, qx, cy as int),
                decreases a - cx,
            {
                proof {
                    assert((cx as int) * (n as int) + (n as int) <= (a as int) * (n as int)
                        && (cy as int) * (n as int) + (n as int) <= (b as int) * (n as int))
                        by (nonlinear_arith)
                        requires
                            cx < a,
                            cy < b,
                            n >= 1,
                    ;
                    assert(1 <= n * n && n * n <= 4294836225) by (nonlinear_arith)
                        requires
                            1 <= n <= 65535,
                    ;
                }
                let bx = cx * n;
                let by = cy * n;
                let nn = n * n;
                let mut best = input.get(bx, by);
                let mut bi: usize = 0;
                proof {
                    assert(pool_elem(input@, n as nat, cx as int, cy as int, 0)
                        == input@[by as int][bx as int]) by {
                        assert(0int % (n as int) == 0 && 0int / (n as int) == 0);
                    }
                }
                let mut k: usize = 1;
                while k < nn
                    invariant
                        1 <= k <= nn,
                        cx < a,
                        cy < b,
                        self.wf(),
                        n == self.n,
                        nn == n * n,
                        grid_is(input@, x as nat, y as nat),
                        (a as int) * (n as int) == x as int,
                        (b as int) * (n as int) == y as int,
                        (cx as int) * (n as int) + (n as int) <= x as int,
                        (cy as int) * (n as int) + (n as int) <= y as int,
                        bx == cx * n,
                        by == cy * n,
                        best == pool_scan(input@, n as nat, cx as int, cy as int, (k - 1) as nat).0,
                        bi == pool_scan(input@, n as nat, cx as int, cy as int, (k - 1) as nat).1,
                        bi < nn,
                    decreases nn - k,
                {
                    let dx = k / n;
                    let dy = k % n;
                    proof {
                        assert(dx < n) by {
                            vstd::arithmetic::div_mod::lemma_multiply_divide_lt(
                                k as int,
                                n as int,
                                n as int,
                            );
                            assert((n as int) * (n as int) == nn as int) by (nonlinear_arith)
                                requires
                                    nn == n * n,
                            ;
                        }
                        assert(dy < n) by {
                            vstd::arithmetic::div_mod::lemma_mod_division_less_than_divisor(
                                k as int,
                                n as int,
                            );
                        }
                    }
                    let v = input.get(bx + dx, by + dy);
                    proof {
                        assert(v == pool_elem(input@, n as nat, cx as int, cy as int, k as int));
                    }
                    if v > best {
                        best = v;
                        bi = k;
                    }
                    k = k + 1;
                }
                out.set(cx, cy, best);
                proof {
                    assert(bi % n < n) by {
                        vstd::arithmetic::div_mod::lemma_mod_division_less_than_divisor(
                            bi as int,
                            n as int,
                        );
                    }
                    assert(bi / n < n) by {
                        vstd::arithmetic::div_mod::lemma_multiply_divide_lt(
                            bi as int,
                            n as int,
                            n as int,
                        );
                        assert((n as int) * (n as int) == nn as int) by (nonlinear_arith)
                            requires
                                nn == n * n,
                        ;
                    }
                }
                let p: i64 = ((bi % n) as i64) * 65536 + (bi / n) as i64;
                fd.set(cx, cy, p);
                cx = cx + 1;
            }
            cy = cy + 1;
        }
        proof {
            assert forall|r0: int| 0 <= r0 < b as int implies out@[r0] =~= pool_out_grid(
                input@,
                n as nat,
                a as nat,
                b as nat,
            )[r0] by {}
            assert(out@ =~~= pool_out_grid(input@, n as nat, a as nat, b as nat));
            assert forall|r0: int| 0 <= r0 < b as int implies fd@[r0] =~= pool_fd_grid(
                input@,
                n as nat,
                a as nat,
                b as nat,
            )[r0] by {}
            assert(fd@ =~~= pool_fd_grid(input@, n as nat, a as nat, b as nat));
            assert forall|qy: int, qx: int|
                0 <= qy < fd@.len() && 0 <= qx < fd@[qy].len() implies 0 <= #[trigger] fd@[qy][qx]
                && fd@[qy][qx] % 65536 < n as nat && fd@[qy][qx] / 65536 < n as nat by {
                lemma_pool_fd_bounds(input@, n as nat, qx, qy);
            }
        }
        (out, fd)
    }

    /// Route each chunk's gradient to the recorded argmax cell of its window;
    /// all other cells receive zero.
    pub fn backward(&self, forward: Array2D, forward_data: Array2D) -> (r: Array2D)
        requires
            self.wf(),
            grid_is(forward@, grid_width(forward@), forward@.len()),
            grid_is(forward_data@, grid_width(forward@), forward@.len()),
            pool_fd_ok(forward_data@, self.n as nat),
            grid_width(forward@) * (self.n as nat) <= usize::MAX,
            forward@.len() * (self.n as nat) <= usize::MAX,
        ensures
            r@ == pool_back_grid(
                forward@,
                forward_data@,
                self.n as nat,
                grid_width(forward@),
                forward@.len(),
            ),
    {
        let n = self.n;
        let b = forward.rows();
        let a = if b == 0 {
            0
        } else {
            forward.row_len(0)
        };
        proof {
            assert(a as nat == grid_width(forward@));
            assert((a as int) * (n as int) == (a as nat * (n as nat)) as int);
        }
        let x = a * n;
        let y = b * n;
        let mut out = Array2D::new(x, y);
        let mut cy: usize = 0;
        while cy < b
            invariant
                cy <= b,
                self.wf(),
                n == self.n,
                a as nat == grid_width(forward@),
                b as nat == forward@.len(),
                x == a * n,
                y == b * n,
                grid_is(forward@, a as nat, b as nat),
                grid_is(forward_data@, a as nat, b as nat),
                pool_fd_ok(forward_data@, n as nat),
                out@.len() == y as nat,
                forall|yy: int| 0 <= yy < y as int ==> (#[trigger] out@[yy]).len() == x as nat,
                forall|yy: int, xx: int|
                    0 <= yy < y as int && 0 <= xx < x as int
                        ==> #[trigger] out@[yy][xx] == (if yy / (n as int) < cy as int {
                            pool_route(forward@, forward_data@, n as nat, xx, yy)
                        } else {
                            0int
                        }),
            decreases b - cy,
        {
            let mut cx: usize = 0;
            while cx < a
                invariant
                    cx <= a,
                    cy < b,
                    self.wf(),
                    n == self.n,
                    a as nat == grid_width(forward@),
                    b as nat == forward@.len(),
                    x == a * n,
                    y == b * n,
                    grid_is(forward@, a as nat, b as nat),
                    grid_is(forward_data@, a as nat, b as nat),
                    pool_fd_ok(forward_data@, n as nat),
                    out@.len() == y as nat,
                    forall|yy: int| 0 <= yy < y as int ==> (#[trigger] out@[yy]).len() == x as nat,
                    forall|yy: int, xx: int|
                        0 <= yy < y as int && 0 <= xx < x as int
                            ==> #[trigger] out@[yy][xx] == (if yy / (n as int) < cy as int || (yy
                                / (n as int) == cy as int && xx / (n as int) < cx as int) {
                                pool_route(forward@, forward_data@, n as nat, xx, yy)
                            } else {
                                0int
                            }),
                decreases a - cx,
            {
                proof {
                    assert((cx as int) * (n as int) + (n as int) <= (a as int) * (n as int)
                        && (cy as int) * (n as int) + (n as int) <= (b as int) * (n as int)
                        && (a as int) * (n as int) == x as int
                        && (b as int) * (n as int) == y as int)
                        by (nonlinear_arith)
                        requires
                            cx < a,
                            cy < b,
                            n >= 1,
                            x == a * n,
                            y == b * n,
                    ;
                }
                let ghost opre = out@;
                let p = forward_data.get(cx, cy);
                let pu = p as u64;
                let px = (pu % 65536) as usize;
                let py = (pu / 65536) as usize;
                proof {
                    assert(px as int == p as int % 65536 && py as int == p as int / 65536);
                    assert(px < n && py < n);
                }
                let g = forward.get(cx, cy);
                out.set(cx * n + px, cy * n + py, g);
                proof {
                    lemma_chunk_coords(n as int, cx as int, px as int);
                    lemma_chunk_coords(n as int, cy as int, py as int);
                    assert forall|yy: int, xx: int|
                        0 <= yy < y as int && 0 <= xx < x as int implies #[trigger] out@[yy][xx]
                        == (if yy / (n as int) < cy as int || (yy / (n as int) == cy as int && xx
                            / (n as int) < cx as int + 1) {
                            pool_route(forward@, forward_data@, n as nat, xx, yy)
                        } else {
                            0int
                        }) by {
                        vstd::arithmetic::div_mod::lemma_fundamental_div_mod(yy, n as int);
                        vstd::arithmetic::div_mod::lemma_fundamental_div_mod(xx, n as int);
                        vstd::arithmetic::div_mod::lemma_mod_division_less_than_divisor(
                            yy,
                            n as int,
                        );
                        vstd::arithmetic::div_mod::lemma_mod_division_less_than_divisor(
                            xx,
                            n as int,
                        );
                        if yy == cy as int * n as int + py as int && xx == cx as int * n as int
                            + px as int {
                            assert(out@[yy][xx] == g);
                        } else {
                            assert(out@[yy][xx] == opre[yy][xx]);
                            if yy / (n as int) == cy as int && xx / (n as int) == cx as int {
                                if yy % (n as int) == py as int && xx % (n as int) == px as int {
                                    assert(yy == (cy as int) * (n as int) + py as int)
                                        by (nonlinear_arith)
                                        requires
                                            yy == (n as int) * (yy / (n as int)) + yy % (n as int),
                                            yy / (n as int) == cy as int,
                                            yy % (n as int) == py as int,
                                    ;
                                    assert(xx == (cx as int) * (n as int) + px as int)
                                        by (nonlinear_arith)
                                        requires
                                            xx == (n as int) * (xx / (n as int)) + xx % (n as int),
                                            xx / (n as int) == cx as int,
                                            xx % (n as int) == px as int,
                                    ;
                                }
                            }
                        }
                    }
                }
                cx = cx + 1;
            }
            proof {
                assert forall|yy: int, xx: int|
                    0 <= yy < y as int && 0 <= xx < x as int implies #[trigger] out@[yy][xx]
                    == (if yy / (n as int) < cy as int + 1 {
                        pool_route(forward@, forward_data@, n as nat, xx, yy)
                    } else {
                        0int
                    }) by {
                    if yy / (n as int) == cy as int {
                        assert(xx / (n as int) < a as int) by {
                            assert((n as int) * (a as int) == x as int) by (nonlinear_arith)
                                requires
                                    x == a * n,
                            ;
                            vstd::arithmetic::div_mod::lemma_multiply_divide_lt(
                                xx,
                                n as int,
                                a as int,
                            );
                        }
                    }
                }
            }
            cy = cy + 1;
        }
        proof {
            assert forall|yy: int, xx: int|
                0 <= yy < y as int && 0 <= xx < x as int implies #[trigger] out@[yy][xx]
                == pool_route(forward@, forward_data@, n as nat, xx, yy) by {
                assert(yy / (n as int) < b as int) by {
                    assert((n as int) * (b as int) == y as int) by (nonlinear_arith)
                        requires
                            y == b * n,
                    ;
                    vstd::arithmetic::div_mod::lemma_multiply_divide_lt(yy, n as int, b as int);
                }
            }
            assert((a as nat) * (n as nat) == x as nat && (b as nat) * (n as nat) == y as nat);
            assert forall|yy: int| 0 <= yy < y as int implies out@[yy] =~= pool_back_grid(
                forward@,
                forward_data@,
                n as nat,
                a as nat,
                b as nat,
            )[yy] by {}
            assert(out@ =~~= pool_back_grid(
                forward@,
                forward_data@,
                n as nat,
                a as nat,
                b as nat,
            ));
        }
        out
    }
}

} // verus!
