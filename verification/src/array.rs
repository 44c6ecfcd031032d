//! Fixed-shape tensor containers: a one-dimensional `Array1D` and a
//! two-dimensional `Array2D` of fixed-point scalars.
//!
//! An array's shape is chosen at construction and every elementwise operation
//! keeps it.  The view of an `Array1D` is a `Seq<int>`, the view of an
//! `Array2D` a row-major `Seq<Seq<int>>`.

use vstd::prelude::*;
use vstd::pervasive::VecAdditionalExecFns;

use crate::fixed::{fx_add, fx_mul, spec_fx_add, spec_fx_mul};

verus! {

/// The mathematical contents of a buffer of fixed-point scalars.
pub open spec fn to_ints(s: Seq<i64>) -> Seq<int> {
    Seq::new(s.len(), |i: int| s[i] as int)
}

/// The mathematical contents of a buffer of rows.
pub open spec fn rows_to_ints(s: Seq<Vec<i64>>) -> Seq<Seq<int>> {
    Seq::new(s.len(), |i: int| to_ints(s[i]@))
}

/// A fixed-length vector of fixed-point scalars.
pub struct Array1D {
    data: Vec<i64>,
}

impl View for Array1D {
    type V = Seq<int>;

    closed spec fn view(&self) -> Seq<int> {
        to_ints(self.data@)
    }
}

impl Array1D {
    /// A zero-filled vector of the given length.
    pub fn new(len: usize) -> (r: Self)
        ensures
            r@ == Seq::new(len as nat, |i: int| 0int),
    {
        let data: Vec<i64> = vec![0i64; len];
        let r = Array1D { data };
        proof {
            assert(r@ =~= Seq::new(len as nat, |i: int| 0int));
        }
        r
    }

    /// Take ownership of raw fixed-point contents.
    pub fn from_vec(data: Vec<i64>) -> (r: Self)
        ensures
            r@ == to_ints(data@),
    {
        Array1D { data }
    }

    pub fn len(&self) -> (r: usize)
        ensures
            r == self@.len(),
    {
        self.data.len()
    }

    pub fn get(&self, i: usize) -> (r: i64)
        requires
            i < self@.len(),
        ensures
            r == self@[i as int],
    {
        self.data[i]
    }

    pub fn set(&mut self, i: usize, v: i64)
        requires
            i < old(self)@.len(),
        ensures
            final(self)@ == old(self)@.update(i as int, v as int),
    {
        self.data.set(i, v);
        proof {
            assert(self@ =~= old(self)@.update(i as int, v as int));
        }
    }

    /// An element-for-element copy.
    pub fn duplicate(&self) -> (r: Self)
        ensures
            r@ == self@,
    {
        let n = self.data.len();
        let mut data: Vec<i64> = Vec::new();
        let mut i: usize = 0;
        while i < n
            invariant
                i <= n,
                n == self.data@.len(),
                data@.len() == i,
                forall|k: int| 0 <= k < i ==> #[trigger] data@[k] == self.data@[k],
            decreases n - i,
        {
            data.push(self.data[i]);
            i = i + 1;
        }
        let r = Array1D { data };
        proof {
            assert(r@ =~= self@);
        }
        r
    }

    /// Saturating elementwise addition.
    pub fn add_assign(&mut self, rhs: &Array1D)
        requires
            old(self)@.len() == rhs@.len(),
        ensures
            final(self)@ == Seq::new(
                old(self)@.len(),
                |i: int| spec_fx_add(old(self)@[i], rhs@[i]),
            ),
    {
        let n = self.data.len();
        let mut i: usize = 0;
        while i < n
            invariant
                i <= n,
                n == old(self)@.len(),
                self@.len() == n,
                rhs@.len() == n,
                forall|j: int| 0 <= j < i ==> self@[j] == spec_fx_add(old(self)@[j], rhs@[j]),
                forall|j: int| i <= j < n ==> self@[j] == old(self)@[j],
            decreases n - i,
        {
            let v = fx_add(self.get(i), rhs.get(i));
            self.set(i, v);
            i = i + 1;
        }
        proof {
            assert(self@ =~= Seq::new(
                old(self)@.len(),
                |i: int| spec_fx_add(old(self)@[i], rhs@[i]),
            ));
        }
    }

    /// Saturating elementwise multiplication.
    pub fn mul_assign(&mut self, rhs: &Array1D)
        requires
            old(self)@.len() == rhs@.len(),
        ensures
            final(self)@ == Seq::new(
                old(self)@.len(),
                |i: int| spec_fx_mul(old(self)@[i], rhs@[i]),
            ),
    {
        let n = self.data.len();
        let mut i: usize = 0;
        while i < n
            invariant
                i <= n,
                n == old(self)@.len(),
                self@.len() == n,
                rhs@.len() == n,
                forall|j: int| 0 <= j < i ==> self@[j] == spec_fx_mul(old(self)@[j], rhs@[j]),
                forall|j: int| i <= j < n ==> self@[j] == old(self)@[j],
            decreases n - i,
        {
            let v = fx_mul(self.get(i), rhs.get(i));
            self.set(i, v);
            i = i + 1;
        }
        proof {
            assert(self@ =~= Seq::new(
                old(self)@.len(),
                |i: int| spec_fx_mul(old(self)@[i], rhs@[i]),
            ));
        }
    }

    /// Saturating addition of one scalar to every element.
    pub fn add_assign_scalar(&mut self, rhs: i64)
        ensures
            final(self)@ == Seq::new(
                old(self)@.len(),
                |i: int| spec_fx_add(old(self)@[i], rhs as int),
            ),
    {
        let n = self.data.len();
        let mut i: usize = 0;
        while i < n
            invariant
                i <= n,
                n == old(self)@.len(),
                self@.len() == n,
                forall|j: int| 0 <= j < i ==> self@[j] == spec_fx_add(old(self)@[j], rhs as int),
                forall|j: int| i <= j < n ==> self@[j] == old(self)@[j],
            decreases n - i,
        {
            let v = fx_add(self.get(i), rhs);
            self.set(i, v);
            i = i + 1;
        }
        proof {
            assert(self@ =~= Seq::new(
                old(self)@.len(),
                |i: int| spec_fx_add(old(self)@[i], rhs as int),
            ));
        }
    }

    /// Saturating multiplication of every element by one scalar.
    pub fn mul_assign_scalar(&mut self, rhs: i64)
        ensures
            final(self)@ == Seq::new(
                old(self)@.len(),
                |i: int| spec_fx_mul(old(self)@[i], rhs as int),
            ),
    {
        let n = self.data.len();
        let mut i: usize = 0;
        while i < n
            invariant
                i <= n,
                n == old(self)@.len(),
                self@.len() == n,
                forall|j: int| 0 <= j < i ==> self@[j] == spec_fx_mul(old(self)@[j], rhs as int),
                forall|j: int| i <= j < n ==> self@[j] == old(self)@[j],
            decreases n - i,
        {
            let v = fx_mul(self.get(i), rhs);
            self.set(i, v);
            i = i + 1;
        }
        proof {
            assert(self@ =~= Seq::new(
                old(self)@.len(),
                |i: int| spec_fx_mul(old(self)@[i], rhs as int),
            ));
        }
    }
}

/// The width of a grid: the length of its first row (0 for an empty grid).
pub open spec fn grid_width(m: Seq<Seq<int>>) -> nat {
    if m.len() == 0 {
        0
    } else {
        m[0].len()
    }
}

/// True when `m` is a grid of `y` rows, each `x` wide.
pub open spec fn grid_is(m: Seq<Seq<int>>, x: nat, y: nat) -> bool {
    m.len() == y && forall|i: int| 0 <= i < y ==> (#[trigger] m[i]).len() == x
}

/// A zero-filled `x` by `y` grid view.
pub open spec fn grid_zero(x: nat, y: nat) -> Seq<Seq<int>> {
    Seq::new(y, |i: int| Seq::new(x, |j: int| 0int))
}

/// A fixed-shape two-dimensional grid of fixed-point scalars, stored row-major;
/// `m@[y][x]` is the element in column `x` of row `y`.
pub struct Array2D {
    data: Vec<Vec<i64>>,
}

impl View for Array2D {
    type V = Seq<Seq<int>>;

    closed spec fn view(&self) -> Seq<Seq<int>> {
        rows_to_ints(self.data@)
    }
}

impl Array2D {
    /// A zero-filled grid of `x` columns and `y` rows.
    pub fn new(x: usize, y: usize) -> (r: Self)
        ensures
            r@ == grid_zero(x as nat, y as nat),
            grid_is(r@, x as nat, y as nat),
    {
        let mut data: Vec<Vec<i64>> = Vec::new();
        let mut i: usize = 0;
        while i < y
            invariant
                i <= y,
                data@.len() == i,
                forall|k: int| 0 <= k < i ==> (#[trigger] data@[k])@.len() == x,
                forall|k: int, b: int|
                    0 <= k < i && 0 <= b < x ==> #[trigger] data@[k]@[b] == 0i64,
            decreases y - i,
        {
            let row: Vec<i64> = vec![0i64; x];
            data.push(row);
            i = i + 1;
        }
        let r = Array2D { data };
        proof {
            assert forall|a: int| 0 <= a < y as int implies r@[a] =~= grid_zero(
                x as nat,
                y as nat,
            )[a] by {
                assert(r@[a] == to_ints(data@[a]@));
            }
            assert(r@ =~~= grid_zero(x as nat, y as nat));
        }
        r
    }

    /// Take ownership of raw fixed-point rows.
    pub fn from_rows(data: Vec<Vec<i64>>) -> (r: Self)
        ensures
            r@ == rows_to_ints(data@),
    {
        Array2D { data }
    }

    /// Number of rows.
    pub fn rows(&self) -> (r: usize)
        ensures
            r == self@.len(),
    {
        self.data.len()
    }

    /// Width of one row.
    pub fn row_len(&self, y: usize) -> (r: usize)
        requires
            y < self@.len(),
        ensures
            r == self@[y as int].len(),
    {
        self.data[y].len()
    }

    pub fn get(&self, x: usize, y: usize) -> (r: i64)
        requires
            y < self@.len(),
            x < self@[y as int].len(),
        ensures
            r == self@[y as int][x as int],
    {
        self.data[y][x]
    }

    pub fn set(&mut self, x: usize, y: usize, v: i64)
        requires
            y < old(self)@.len(),
            x < old(self)@[y as int].len(),
        ensures
            final(self)@ == old(self)@.update(
                y as int,
                old(self)@[y as int].update(x as int, v as int),
            ),
    {
        let row = vstd::std_specs::vec::vec_index_mut(&mut self.data, y);
        row.set(x, v);
        proof {
            assert(self@ =~~= old(self)@.update(
                y as int,
                old(self)@[y as int].update(x as int, v as int),
            ));
        }
    }

    /// Runtime check that the grid has exactly `y` rows of width `x`.
    pub fn has_dims(&self, x: usize, y: usize) -> (b: bool)
        ensures
            b == grid_is(self@, x as nat, y as nat),
    {
        let rows = self.data.len();
        if rows != y {
            return false;
        }
        let mut i: usize = 0;
        while i < y
            invariant
                i <= y,
                y == self@.len(),
                forall|k: int| 0 <= k < i ==> (#[trigger] self@[k]).len() == x as nat,
            decreases y - i,
        {
            if self.row_len(i) != x {
                return false;
            }
            i = i + 1;
        }
        true
    }

    /// An element-for-element copy.
    pub fn duplicate(&self) -> (r: Self)
        ensures
            r@ == self@,
    {
        let n = self.data.len();
        let mut data: Vec<Vec<i64>> = Vec::new();
        let mut i: usize = 0;
        while i < n
            invariant
                i <= n,
                n == self.data@.len(),
                data@.len() == i,
                forall|k: int| 0 <= k < i ==> (#[trigger] data@[k])@ == self.data@[k]@,
            decreases n - i,
        {
            let m = self.data[i].len();
            let mut row: Vec<i64> = Vec::new();
            let mut j: usize = 0;
            while j < m
                invariant
                    j <= m,
                    i < n,
                    n == self.data@.len(),
                    m == self.data@[i as int]@.len(),
                    row@.len() == j,
                    forall|b: int| 0 <= b < j ==> #[trigger] row@[b] == self.data@[i as int]@[b],
                decreases m - j,
            {
                row.push(self.data[i][j]);
                j = j + 1;
            }
            proof {
                assert(row@ =~= self.data@[i as int]@);
            }
            data.push(row);
            i = i + 1;
        }
        let r = Array2D { data };
        proof {
            assert forall|a: int| 0 <= a < n as int implies r@[a] =~= self@[a] by {
                assert(r@[a] == to_ints(data@[a]@));
                assert(self@[a] == to_ints(self.data@[a]@));
            }
            assert(r@ =~~= self@);
        }
        r
    }

    /// Saturating elementwise addition.
    pub fn add_assign(&mut self, rhs: &Array2D)
        requires
            old(self)@.len() == rhs@.len(),
            forall|i: int| 0 <= i < rhs@.len()
                ==> (#[trigger] old(self)@[i]).len() == rhs@[i].len(),
        ensures
            final(self)@ == Seq::new(
                old(self)@.len(),
                |i: int| Seq::new(
                    old(self)@[i].len(),
                    |j: int| spec_fx_add(old(self)@[i][j], rhs@[i][j]),
                ),
            ),
    {
        let n = self.data.len();
        let mut i: usize = 0;
        while i < n
            invariant
                i <= n,
                n == old(self)@.len(),
                self@.len() == n,
                rhs@.len() == n,
                forall|a: int| 0 <= a < n
                    ==> (#[trigger] old(self)@[a]).len() == rhs@[a].len(),
                forall|a: int, b: int|
                    0 <= a < i && 0 <= b < old(self)@[a].len()
                        ==> #[trigger] self@[a][b] == spec_fx_add(old(self)@[a][b], rhs@[a][b]),
                forall|a: int| 0 <= a < i
                    ==> (#[trigger] self@[a]).len() == old(self)@[a].len(),
                forall|a: int| i <= a < n ==> #[trigger] self@[a] == old(self)@[a],
            decreases n - i,
        {
            proof {
                assert(self@[i as int] == old(self)@[i as int]);
            }
            let m = self.row_len(i);
            let mut j: usize = 0;
            while j < m
                invariant
                    j <= m,
                    i < n,
                    n == old(self)@.len(),
                    self@.len() == n,
                    rhs@.len() == n,
                    m == old(self)@[i as int].len(),
                    self@[i as int].len() == m,
                    forall|a: int| 0 <= a < n
                        ==> (#[trigger] old(self)@[a]).len() == rhs@[a].len(),
                    forall|a: int, b: int|
                        0 <= a < i && 0 <= b < old(self)@[a].len()
                            ==> #[trigger] self@[a][b] == spec_fx_add(old(self)@[a][b], rhs@[a][b]),
                    forall|a: int| 0 <= a < i
                        ==> (#[trigger] self@[a]).len() == old(self)@[a].len(),
                    forall|b: int| 0 <= b < j
                        ==> #[trigger] self@[i as int][b]
                            == spec_fx_add(old(self)@[i as int][b], rhs@[i as int][b]),
                    forall|b: int| j <= b < m
                        ==> #[trigger] self@[i as int][b] == old(self)@[i as int][b],
                    forall|a: int| i < a < n ==> #[trigger] self@[a] == old(self)@[a],
                decreases m - j,
            {
                let v = fx_add(self.get(j, i), rhs.get(j, i));
                self.set(j, i, v);
                j = j + 1;
            }
            i = i + 1;
        }
        proof {
            assert forall|a: int| 0 <= a < old(self)@.len() implies self@[a] =~= Seq::new(
                old(self)@[a].len(),
                |b: int| spec_fx_add(old(self)@[a][b], rhs@[a][b]),
            ) by {}
            assert(self@ =~= Seq::new(
                old(self)@.len(),
                |a: int| Seq::new(
                    old(self)@[a].len(),
                    |b: int| spec_fx_add(old(self)@[a][b], rhs@[a][b]),
                ),
            ));
        }
    }

    /// Saturating multiplication of every element by one scalar.
    pub fn mul_assign_scalar(&mut self, rhs: i64)
        ensures
            final(self)@ == Seq::new(
                old(self)@.len(),
                |i: int| Seq::new(
                    old(self)@[i].len(),
                    |j: int| spec_fx_mul(old(self)@[i][j], rhs as int),
                ),
            ),
    {
        let n = self.data.len();
        let mut i: usize = 0;
        while i < n
            invariant
                i <= n,
                n == old(self)@.len(),
                self@.len() == n,
                forall|a: int, b: int|
                    0 <= a < i && 0 <= b < old(self)@[a].len()
                        ==> #[trigger] self@[a][b] == spec_fx_mul(old(self)@[a][b], rhs as int),
                forall|a: int| 0 <= a < i
                    ==> (#[trigger] self@[a]).len() == old(self)@[a].len(),
                forall|a: int| i <= a < n ==> #[trigger] self@[a] == old(self)@[a],
            decreases n - i,
        {
            proof {
                assert(self@[i as int] == old(self)@[i as int]);
            }
            let m = self.row_len(i);
            let mut j: usize = 0;
            while j < m
                invariant
                    j <= m,
                    i < n,
                    n == old(self)@.len(),
                    self@.len() == n,
                    m == old(self)@[i as int].len(),
                    self@[i as int].len() == m,
                    forall|a: int, b: int|
                        0 <= a < i && 0 <= b < old(self)@[a].len()
                            ==> #[trigger] self@[a][b] == spec_fx_mul(old(self)@[a][b], rhs as int),
                    forall|a: int| 0 <= a < i
                        ==> (#[trigger] self@[a]).len() == old(self)@[a].len(),
                    forall|b: int| 0 <= b < j
                        ==> #[trigger] self@[i as int][b]
                            == spec_fx_mul(old(self)@[i as int][b], rhs as int),
                    forall|b: int| j <= b < m
                        ==> #[trigger] self@[i as int][b] == old(self)@[i as int][b],
                    forall|a: int| i < a < n ==> #[trigger] self@[a] == old(self)@[a],
                decreases m - j,
            {
                let v = fx_mul(self.get(j, i), rhs);
                self.set(j, i, v);
                j = j + 1;
            }
            i = i + 1;
        }
        proof {
            assert forall|a: int| 0 <= a < old(self)@.len() implies self@[a] =~= Seq::new(
                old(self)@[a].len(),
                |b: int| spec_fx_mul(old(self)@[a][b], rhs as int),
            ) by {}
            assert(self@ =~= Seq::new(
                old(self)@.len(),
                |a: int| Seq::new(
                    old(self)@[a].len(),
                    |b: int| spec_fx_mul(old(self)@[a][b], rhs as int),
                ),
            ));
        }
    }
}

} // verus!
