//! Reshape and flatten layers: pure reinterpretation between a vector of
//! length `x * y` and an `x` by `y` grid.  No value changes; forward and
//! backward are mutual inverses.

use vstd::prelude::*;

use crate::array::{grid_is, Array1D, Array2D};

verus! {

/// The grid holding `v` row-major: `reshape(v)[r][c] == v[r * x + c]`.
pub open spec fn reshape_spec(v: Seq<int>, x: nat, y: nat) -> Seq<Seq<int>> {
    Seq::new(y, |r: int| Seq::new(x as nat, |c: int| v[r * (x as int) + c]))
}

/// The vector holding `m` row-major: `flatten(m)[i] == m[i / x][i % x]`.
pub open spec fn flatten_spec(m: Seq<Seq<int>>, x: nat, y: nat) -> Seq<int> {
    Seq::new(x * y, |i: int| m[i / (x as int)][i % (x as int)])
}

/// Reshape then flatten hands every vector back unchanged: the two
/// reinterpretations are mutual inverses.
pub proof fn lemma_reshape_flatten_round_trip(v: Seq<int>, x: nat, y: nat)
    requires
        v.len() == x * y,
    ensures
        flatten_spec(reshape_spec(v, x, y), x, y) == v,
{
    let m = reshape_spec(v, x, y);
    let f = flatten_spec(m, x, y);
    if x == 0 {
        assert(v.len() == 0) by (nonlinear_arith)
            requires
                v.len() == x * y,
                x == 0,
        ;
    } else {
        assert forall|i: int| 0 <= i < v.len() implies f[i] == v[i] by {
            let xi = x as int;
            vstd::arithmetic::div_mod::lemma_fundamental_div_mod(i, xi);
            vstd::arithmetic::div_mod::lemma_multiply_divide_lt(i, xi, y as int);
            vstd::arithmetic::div_mod::lemma_mod_division_less_than_divisor(i, xi);
            let r = i / xi;
            let c = i % xi;
            assert(m[r][c] == v[r * xi + c]);
            assert(r * xi + c == i) by (nonlinear_arith)
                requires
                    i == xi * r + c,
            ;
        }
    }
    assert(f =~= v);
}

fn reshape_exec(input: &Array1D, x: usize, y: usize) -> (r: Array2D)
    requires
        input@.len() == x * y,
    ensures
        r@ == reshape_spec(input@, x as nat, y as nat),
{
    let n = input.len();
    let mut data: Vec<Vec<i64>> = Vec::new();
    let mut rr: usize = 0;
    while rr < y
        invariant
            rr <= y,
            input@.len() == x * y,
            n == input@.len(),
            data@.len() == rr,
            forall|a: int| 0 <= a < rr ==> (#[trigger] data@[a])@.len() == x as nat,
            forall|a: int, b: int|
                0 <= a < rr && 0 <= b < x as int
                    ==> #[trigger] data@[a]@[b] as int == input@[a * (x as int) + b],
        decreases y - rr,
    {
        proof {
            assert((rr as int) * (x as int) + (x as int) <= (x as int) * (y as int))
                by (nonlinear_arith)
                requires
                    rr < y,
                    x >= 0,
            ;
            assert((x as int) * (y as int) == x * y);
        }
        let base = rr * x;
        let mut row: Vec<i64> = Vec::new();
        let mut c: usize = 0;
        while c < x
            invariant
                c <= x,
                rr < y,
                input@.len() == x * y,
                n == input@.len(),
                base == rr * x,
                base + x <= n,
                row@.len() == c,
                forall|b: int| 0 <= b < c
                    ==> #[trigger] row@[b] as int == input@[rr * (x as int) + b],
            decreases x - c,
        {
            row.push(input.get(base + c));
            c = c + 1;
        }
        data.push(row);
        rr = rr + 1;
    }
    let out = Array2D::from_rows(data);
    proof {
        assert forall|a: int| 0 <= a < y as int implies out@[a] =~= reshape_spec(
            input@,
            x as nat,
            y as nat,
        )[a] by {}
        assert(out@ =~~= reshape_spec(input@, x as nat, y as nat));
    }
    out
}

fn flatten_exec(input: &Array2D, x: usize, y: usize) -> (r: Array1D)
    requires
        grid_is(input@, x as nat, y as nat),
        x * y <= usize::MAX,
    ensures
        r@ == flatten_spec(input@, x as nat, y as nat),
{
    let mut data: Vec<i64> = Vec::new();
    let mut rr: usize = 0;
    while rr < y
        invariant
            rr <= y,
            grid_is(input@, x as nat, y as nat),
            x * y <= usize::MAX,
            data@.len() == rr * x,
            rr * x <= x * y,
            forall|a: int, b: int|
                0 <= a < rr && 0 <= b < x as int
                    ==> #[trigger] data@[a * (x as int) + b] as int == input@[a][b],
        decreases y - rr,
    {
        proof {
            assert((rr as int) * (x as int) + (x as int) <= (x as int) * (y as int)
                && (rr + 1) * (x as int) == (rr as int) * (x as int) + (x as int))
                by (nonlinear_arith)
                requires
                    rr < y,
                    x >= 0,
            ;
        }
        let mut c: usize = 0;
        while c < x
            invariant
                c <= x,
                rr < y,
                grid_is(input@, x as nat, y as nat),
                x * y <= usize::MAX,
                (rr as int) * (x as int) + (x as int) <= (x as int) * (y as int),
                data@.len() == rr * x + c,
                forall|a: int, b: int|
                    0 <= a < rr && 0 <= b < x as int
                        ==> #[trigger] data@[a * (x as int) + b] as int == input@[a][b],
                forall|b: int| 0 <= b < c
                    ==> #[trigger] data@[rr * (x as int) + b] as int == input@[rr as int][b],
            decreases x - c,
        {
            let ghost dpre = data@;
            data.push(input.get(c, rr));
            proof {
                assert forall|a: int, b: int|
                    0 <= a < rr && 0 <= b < x as int implies #[trigger] data@[a * (x as int)
                    + b] as int == input@[a][b] by {
                    assert(0 <= a * (x as int) + b < rr * (x as int)) by (nonlinear_arith)
                        requires
                            0 <= a < rr as int,
                            0 <= b < x as int,
                    ;
                    assert(dpre[a * (x as int) + b] as int == input@[a][b]);
                    assert(data@[a * (x as int) + b] == dpre[a * (x as int) + b]);
                }
                assert forall|b: int| 0 <= b < c + 1 implies #[trigger] data@[rr * (x as int)
                    + b] as int == input@[rr as int][b] by {
                    if b < c {
                        assert(dpre[rr * (x as int) + b] as int == input@[rr as int][b]);
                        assert(data@[rr * (x as int) + b] == dpre[rr * (x as int) + b]);
                    }
                }
            }
            c = c + 1;
        }
        proof {
            assert((rr + 1) * (x as int) == (rr as int) * (x as int) + (x as int))
                by (nonlinear_arith);
            assert forall|a: int, b: int|
                0 <= a < rr + 1 && 0 <= b < x as int implies #[trigger] data@[a * (x as int)
                + b] as int == input@[a][b] by {
                if a == rr as int {
                    assert(data@[rr * (x as int) + b] as int == input@[rr as int][b]);
                }
            }
        }
        rr = rr + 1;
    }
    let out = Array1D::from_vec(data);
    proof {
        assert((y as int) * (x as int) == (x as int) * (y as int)) by (nonlinear_arith);
        assert(out@.len() == (x as int) * (y as int));
        assert forall|i: int| 0 <= i < out@.len() implies out@[i] == flatten_spec(
            input@,
            x as nat,
            y as nat,
        )[i] by {
            let xi = x as int;
            assert(0 < xi) by (nonlinear_arith)
                requires
                    0 <= i,
                    i < xi * (y as int),
            ;
            vstd::arithmetic::div_mod::lemma_fundamental_div_mod(i, xi);
            vstd::arithmetic::div_mod::lemma_multiply_divide_lt(i, xi, y as int);
            vstd::arithmetic::div_mod::lemma_mod_division_less_than_divisor(i, xi);
            let r = i / xi;
            let c = i % xi;
            assert(r * xi + c == i) by (nonlinear_arith)
                requires
                    i == xi * r + c,
            ;
            assert(data@[r * xi + c] as int == input@[r][c]);
        }
        assert(out@ =~= flatten_spec(input@, x as nat, y as nat));
    }
    out
}

/// Reinterpret a vector of length `x * y` as an `x` by `y` grid.
pub struct Shape {
    pub x: usize,
    pub y: usize,
}

impl Shape {
    pub fn new(x: usize, y: usize) -> (r: Self)
        ensures
            r.x == x,
            r.y == y,
    {
        Shape { x, y }
    }

    /// Row-major reinterpretation; no forward state is kept.
    pub fn forward(&self, input: Array1D) -> (r: Array2D)
        requires
            input@.len() == self.x * self.y,
        ensures
            r@ == reshape_spec(input@, self.x as nat, self.y as nat),
    {
        reshape_exec(&input, self.x, self.y)
    }

    /// The inverse reinterpretation: gradients flow back unchanged.
    pub fn backward(&self, forward: Array2D) -> (r: Array1D)
        requires
            grid_is(forward@, self.x as nat, self.y as nat),
            self.x * self.y <= usize::MAX,
        ensures
            r@ == flatten_spec(forward@, self.x as nat, self.y as nat),
    {
        flatten_exec(&forward, self.x, self.y)
    }
}

/// Reinterpret an `x` by `y` grid as a vector of length `x * y`.
pub struct Flatten {
    pub x: usize,
    pub y: usize,
}

impl Flatten {
    pub fn new(x: usize, y: usize) -> (r: Self)
        ensures
            r.x == x,
            r.y == y,
    {
        Flatten { x, y }
    }

    /// Row-major reinterpretation; no forward state is kept.
    pub fn forward(&self, input: Array2D) -> (r: Array1D)
        requires
            grid_is(input@, self.x as nat, self.y as nat),
            self.x * self.y <= usize::MAX,
        ensures
            r@ == flatten_spec(input@, self.x as nat, self.y as nat),
    {
        flatten_exec(&input, self.x, self.y)
    }

    /// The inverse reinterpretation: gradients flow back unchanged.
    pub fn backward(&self, forward: Array1D) -> (r: Array2D)
        requires
            forward@.len() == self.x * self.y,
        ensures
            r@ == reshape_spec(forward@, self.x as nat, self.y as nat),
    {
        reshape_exec(&forward, self.x, self.y)
    }
}

} // verus!
