//! The dense, shape-checked matrix type.
//!
//! A matrix is a row-major rectangle of scalars: every row has the same
//! length, an invariant that every constructor establishes and every
//! operation preserves ([`Matrix::wf`]).  Operations that combine two
//! matrices check the shapes first and fail with a [`ShapeError`] before
//! touching any data, so no partially-computed result ever escapes.
//!
//! The mathematical model of a matrix is its view: a sequence of rows, each
//! a sequence of scalars.  Every operation's contract pins each entry of the
//! result down in terms of the operand views and the scalar field's
//! specification functions.

use vstd::prelude::*;

use crate::element::Element;

verus! {

/// A matrix operation was invoked with incompatible dimensions.
#[derive(Debug, Clone, Copy, PartialEq, Eq)]
pub struct ShapeError;

/// A dense 2-D array of scalars, row-major, with immutable shape.
#[derive(Debug, PartialEq, Eq)]
pub struct Matrix<T> {
    pub(crate) data: Vec<Vec<T>>,
}

impl<T> View for Matrix<T> {
    type V = Seq<Seq<T>>;

    closed spec fn view(&self) -> Seq<Seq<T>> {
        self.data@.map_values(|r: Vec<T>| r@)
    }
}

/// The column `x` of a matrix model, as a sequence with one scalar per row.
pub open spec fn column_of<T>(m: Seq<Seq<T>>, x: int) -> Seq<T> {
    Seq::new(m.len(), |y: int| m[y][x])
}

/// The number of rows of a matrix model.
pub open spec fn srows<T>(m: Seq<Seq<T>>) -> nat {
    m.len()
}

/// The number of columns of a matrix model; a model without rows has no
/// columns.
pub open spec fn scols<T>(m: Seq<Seq<T>>) -> nat {
    if m.len() == 0 {
        0
    } else {
        m[0].len()
    }
}

/// A matrix model is rectangular: every row has the same length.
pub open spec fn rect<T>(m: Seq<Seq<T>>) -> bool {
    forall|y: int| 0 <= y < m.len() ==> (#[trigger] m[y]).len() == scols(m)
}

/// The model `m` with the entry at `(y, x)` replaced by `v`.
pub open spec fn perturb<T>(m: Seq<Seq<T>>, y: int, x: int, v: T) -> Seq<Seq<T>> {
    m.update(y, m[y].update(x, v))
}

/// The transpose of a matrix model.
pub open spec fn transpose_of<T>(m: Seq<Seq<T>>) -> Seq<Seq<T>> {
    Seq::new(scols(m), |x: int| Seq::new(srows(m), |y: int| m[y][x]))
}

/// The product of two matrix models: entry `(y, x)` is the inner product
/// of row `y` of `a` with column `x` of `b`.
pub open spec fn matmul<T: Element>(a: Seq<Seq<T>>, b: Seq<Seq<T>>) -> Seq<Seq<T>> {
    Seq::new(srows(a), |y: int| Seq::new(scols(b), |x: int| dot_seq(a[y], column_of(b, x))))
}

/// The single-row model of column sums of `m`.
pub open spec fn colsums<T: Element>(m: Seq<Seq<T>>) -> Seq<Seq<T>> {
    seq![Seq::new(scols(m), |x: int| sum_seq(column_of(m, x)))]
}

/// The sum of the first `n` entries of `a`, folded from the left starting
/// at zero, exactly as the executable sum accumulates it.
pub open spec fn sum_prefix<T: Element>(a: Seq<T>, n: int) -> T
    decreases n,
{
    if n <= 0 {
        T::zero_spec()
    } else {
        sum_prefix(a, n - 1).add_spec(a[n - 1])
    }
}

/// The sum of a sequence of scalars, folded from the left starting at zero.
pub open spec fn sum_seq<T: Element>(a: Seq<T>) -> T {
    sum_prefix(a, a.len() as int)
}

/// The inner product of the first `n` entries of `a` and `b`, folded from
/// the left starting at zero, exactly as the executable sum accumulates it.
pub open spec fn dot_prefix<T: Element>(a: Seq<T>, b: Seq<T>, n: int) -> T
    decreases n,
{
    if n <= 0 {
        T::zero_spec()
    } else {
        dot_prefix(a, b, n - 1).add_spec(a[n - 1].mul_spec(b[n - 1]))
    }
}

/// The full inner product of two equally long sequences.
pub open spec fn dot_seq<T: Element>(a: Seq<T>, b: Seq<T>) -> T {
    dot_prefix(a, b, a.len() as int)
}

impl<T> Matrix<T> {
    /// All rows have the same length: the fundamental shape invariant.
    pub open spec fn wf(self) -> bool {
        forall|y: int| 0 <= y < self@.len() ==> (#[trigger] self@[y]).len() == self.ncols()
    }

    /// The number of rows of the model.
    pub open spec fn nrows(self) -> nat {
        self@.len()
    }

    /// The number of columns of the model; a matrix without rows has no
    /// columns.
    pub open spec fn ncols(self) -> nat {
        if self@.len() == 0 {
            0
        } else {
            self@[0].len()
        }
    }

    /// Two matrices have exactly the same shape.
    pub open spec fn same_shape(self, other: Self) -> bool {
        self.nrows() == other.nrows() && self.ncols() == other.ncols()
    }

    pub fn rows(&self) -> (r: usize)
        ensures
            r == self.nrows(),
    {
        self.data.len()
    }

    pub fn columns(&self) -> (r: usize)
        ensures
            r == self.ncols(),
    {
        if self.data.len() == 0 {
            0
        } else {
            self.data[0].len()
        }
    }

    pub fn shape(&self) -> (r: (usize, usize))
        ensures
            r.0 == self.nrows(),
            r.1 == self.ncols(),
    {
        (self.rows(), self.columns())
    }

    /// The entry at row `y`, column `x`.
    pub(crate) fn at(&self, y: usize, x: usize) -> (r: &T)
        requires
            y < self@.len(),
            x < self@[y as int].len(),
        ensures
            *r == self@[y as int][x as int],
    {
        proof {
            assert(self.data@[y as int]@ == self@[y as int]);
        }
        &self.data[y][x]
    }

    /// A borrowed row.
    pub fn row_slice(&self, i: usize) -> (r: &Vec<T>)
        requires
            i < self.nrows(),
        ensures
            r@ == self@[i as int],
    {
        &self.data[i]
    }

    /// The raw rows of the matrix.
    pub fn into_vec(self) -> (r: Vec<Vec<T>>)
        ensures
            r@.map_values(|v: Vec<T>| v@) == self@,
    {
        self.data
    }

    /// The single row of a `1 × n` matrix.
    pub fn into_vector(self) -> (r: Vec<T>)
        requires
            self.nrows() == 1,
        ensures
            r@ == self@[0],
    {
        let mut data = self.data;
        let r = data.swap_remove(0);
        r
    }

    /// Builds a matrix from explicit rows; rows of unequal length are
    /// rejected with a `ShapeError` and no matrix is constructed.
    pub fn from(rows: Vec<Vec<T>>) -> (r: Result<Self, ShapeError>)
        ensures
            r is Ok <==> (forall|y: int|
                0 <= y < rows@.len() ==> (#[trigger] rows@[y])@.len() == rows@[0]@.len()),
            r matches Ok(m) ==> m@ == rows@.map_values(|v: Vec<T>| v@) && m.wf(),
    {
        let n = rows.len();
        if n == 0 {
            let m = Matrix { data: rows };
            proof {
                assert(m@ =~= rows@.map_values(|v: Vec<T>| v@));
            }
            return Ok(m);
        }
        let columns = rows[0].len();
        let mut y: usize = 1;
        while y < n
            invariant
                1 <= y <= n,
                n == rows@.len(),
                columns == rows@[0]@.len(),
                forall|i: int| 0 <= i < y ==> (#[trigger] rows@[i])@.len() == columns,
            decreases n - y,
        {
            if rows[y].len() != columns {
                return Err(ShapeError);
            }
            y = y + 1;
        }
        let m = Matrix { data: rows };
        proof {
            assert(m@ =~= rows@.map_values(|v: Vec<T>| v@));
        }
        Ok(m)
    }
}

impl<T> Matrix<T> {
    /// Wraps rows that are already known to be rectangular.
    pub(crate) fn from_rect(rows: Vec<Vec<T>>) -> (r: Self)
        requires
            forall|y: int| 0 <= y < rows@.len() ==> (#[trigger] rows@[y])@.len() == rows@[0]@.len(),
        ensures
            r.wf(),
            r@ == rows@.map_values(|v: Vec<T>| v@),
    {
        let m = Matrix { data: rows };
        proof {
            assert(m@ =~= rows@.map_values(|v: Vec<T>| v@));
        }
        m
    }
}

impl<T: Element> Matrix<T> {
    /// A `rows × columns` matrix with every entry zero.
    pub fn new(rows: usize, columns: usize) -> (r: Self)
        ensures
            r.wf(),
            r.nrows() == rows,
            r.ncols() == (if rows == 0 {
                0nat
            } else {
                columns as nat
            }),
            forall|y: int| 0 <= y < rows ==> (#[trigger] r@[y]).len() == columns,
            forall|y: int, x: int|
                0 <= y < rows && 0 <= x < columns ==> #[trigger] r@[y][x] == T::zero_spec(),
    {
        let mut data: Vec<Vec<T>> = Vec::new();
        let mut y: usize = 0;
        while y < rows
            invariant
                y <= rows,
                data@.len() == y,
                forall|i: int| 0 <= i < y ==> (#[trigger] data@[i])@.len() == columns,
                forall|i: int, j: int|
                    0 <= i < y && 0 <= j < columns ==> #[trigger] data@[i]@[j] == T::zero_spec(),
            decreases rows - y,
        {
            let mut row: Vec<T> = Vec::new();
            let mut x: usize = 0;
            while x < columns
                invariant
                    x <= columns,
                    row@.len() == x,
                    forall|j: int| 0 <= j < x ==> #[trigger] row@[j] == T::zero_spec(),
                decreases columns - x,
            {
                row.push(T::zero());
                x = x + 1;
            }
            data.push(row);
            y = y + 1;
        }
        Matrix { data }
    }

    /// A copy of the matrix with the entry at `(y, x)` replaced.
    pub fn with_entry(&self, y: usize, x: usize, v: T) -> (r: Self)
        requires
            self.wf(),
            y < self.nrows(),
            x < self.ncols(),
        ensures
            r.wf(),
            r@ == self@.update(y as int, self@[y as int].update(x as int, v)),
            r.same_shape(*self),
    {
        let mut data: Vec<Vec<T>> = Vec::new();
        let n = self.data.len();
        let mut i: usize = 0;
        while i < n
            invariant
                self.wf(),
                y < self.nrows(),
                x < self.ncols(),
                n == self@.len(),
                i <= n,
                data@.len() == i,
                forall|k: int|
                    0 <= k < i && k != y ==> (#[trigger] data@[k])@ == self@[k],
                i > y ==> data@[y as int]@ == self@[y as int].update(x as int, v),
            decreases n - i,
        {
            let m = self.data[i].len();
            let mut row: Vec<T> = Vec::new();
            let mut j: usize = 0;
            while j < m
                invariant
                    self.wf(),
                    i < self@.len(),
                    m == self@[i as int].len(),
                    j <= m,
                    x < self.ncols(),
                    row@.len() == j,
                    forall|k: int|
                        0 <= k < j && !(i == y && k == x) ==> #[trigger] row@[k] == self@[i as int][k],
                    (i == y && j > x) ==> row@[x as int] == v,
                decreases m - j,
            {
                if i == y && j == x {
                    row.push(v);
                } else {
                    row.push(self.data[i][j]);
                }
                j = j + 1;
            }
            proof {
                if i != y {
                    assert(row@ =~= self@[i as int]);
                } else {
                    assert(row@ =~= self@[i as int].update(x as int, v));
                }
            }
            data.push(row);
            i = i + 1;
        }
        let r = Matrix { data };
        proof {
            assert(r@ =~= self@.update(y as int, self@[y as int].update(x as int, v)));
        }
        r
    }

    /// Elementwise sum; the shapes must agree exactly.
    pub fn add(self, other: &Self) -> (r: Result<Self, ShapeError>)
        requires
            self.wf(),
            other.wf(),
        ensures
            r is Ok <==> self.same_shape(*other),
            r matches Ok(m) ==> {
                &&& m.wf()
                &&& m.same_shape(self)
                &&& m@.len() == self@.len()
                &&& forall|y: int| 0 <= y < self@.len() ==> (#[trigger] m@[y]).len() == self@[y].len()
                &&& forall|y: int, x: int|
                    0 <= y < self@.len() && 0 <= x < self@[y].len()
                        ==> #[trigger] m@[y][x] == self@[y][x].add_spec(other@[y][x])
            },
    {
        if self.rows() != other.rows() || self.columns() != other.columns() {
            return Err(ShapeError);
        }
        let rows = self.rows();
        let cols = self.columns();
        let mut data: Vec<Vec<T>> = Vec::new();
        let mut y: usize = 0;
        while y < rows
            invariant
                self.wf(),
                other.wf(),
                self.same_shape(*other),
                rows == self.nrows(),
                cols == self.ncols(),
                y <= rows,
                data@.len() == y,
                forall|i: int| 0 <= i < y ==> (#[trigger] data@[i])@.len() == self@[i].len(),
                forall|i: int, j: int|
                    0 <= i < y && 0 <= j < self@[i].len()
                        ==> #[trigger] data@[i]@[j] == self@[i][j].add_spec(other@[i][j]),
            decreases rows - y,
        {
            let mut row: Vec<T> = Vec::new();
            let mut x: usize = 0;
            while x < cols
                invariant
                    self.wf(),
                    other.wf(),
                    self.same_shape(*other),
                    rows == self.nrows(),
                    cols == self.ncols(),
                    y < rows,
                    x <= cols,
                    row@.len() == x,
                    forall|j: int|
                        0 <= j < x ==> #[trigger] row@[j] == self@[y as int][j].add_spec(
                            other@[y as int][j],
                        ),
                decreases cols - x,
            {
                proof {
                    assert(self.data@.len() == self@.len());
                    assert(other.data@.len() == other@.len());
                    assert(self.data@[y as int]@ == self@[y as int]);
                    assert(other.data@[y as int]@ == other@[y as int]);
                }
                row.push(self.data[y][x].add(other.data[y][x]));
                x = x + 1;
            }
            data.push(row);
            y = y + 1;
        }
        Ok(Matrix { data })
    }

    /// Elementwise difference; the shapes must agree exactly.
    pub fn sub(self, other: &Self) -> (r: Result<Self, ShapeError>)
        requires
            self.wf(),
            other.wf(),
        ensures
            r is Ok <==> self.same_shape(*other),
            r matches Ok(m) ==> {
                &&& m.wf()
                &&& m.same_shape(self)
                &&& m@.len() == self@.len()
                &&& forall|y: int| 0 <= y < self@.len() ==> (#[trigger] m@[y]).len() == self@[y].len()
                &&& forall|y: int, x: int|
                    0 <= y < self@.len() && 0 <= x < self@[y].len()
                        ==> #[trigger] m@[y][x] == self@[y][x].sub_spec(other@[y][x])
            },
    {
        if self.rows() != other.rows() || self.columns() != other.columns() {
            return Err(ShapeError);
        }
        let rows = self.rows();
        let cols = self.columns();
        let mut data: Vec<Vec<T>> = Vec::new();
        let mut y: usize = 0;
        while y < rows
            invariant
                self.wf(),
                other.wf(),
                self.same_shape(*other),
                rows == self.nrows(),
                cols == self.ncols(),
                y <= rows,
                data@.len() == y,
                forall|i: int| 0 <= i < y ==> (#[trigger] data@[i])@.len() == self@[i].len(),
                forall|i: int, j: int|
                    0 <= i < y && 0 <= j < self@[i].len() ==> #[trigger] data@[i]@[j] == self@[i][j].sub_spec(other@[i][j]),
            decreases rows - y,
        {
            let mut row: Vec<T> = Vec::new();
            let mut x: usize = 0;
            while x < cols
                invariant
                    self.wf(),
                    other.wf(),
                    self.same_shape(*other),
                    rows == self.nrows(),
                    cols == self.ncols(),
                    y < rows,
                    x <= cols,
                    row@.len() == x,
                    forall|j: int|
                        0 <= j < x ==> #[trigger] row@[j] == self@[y as int][j].sub_spec(
                            other@[y as int][j],
                        ),
                decreases cols - x,
            {
                proof {
                    assert(self.data@.len() == self@.len());
                    assert(other.data@.len() == other@.len());
                    assert(self.data@[y as int]@ == self@[y as int]);
                    assert(other.data@[y as int]@ == other@[y as int]);
                }
                row.push(self.data[y][x].sub(other.data[y][x]));
                x = x + 1;
            }
            data.push(row);
            y = y + 1;
        }
        Ok(Matrix { data })
    }
}

impl<T: Element> Clone for Matrix<T> {
    /// An entry-for-entry copy with the same model.
    fn clone(&self) -> (r: Self)
        ensures
            r@ == self@,
    {
        let n = self.data.len();
        let mut data: Vec<Vec<T>> = Vec::new();
        let mut y: usize = 0;
        while y < n
            invariant
                n == self@.len(),
                y <= n,
                data@.len() == y,
                forall|i: int| 0 <= i < y ==> (#[trigger] data@[i])@ == self@[i],
            decreases n - y,
        {
            proof {
                assert(self.data@[y as int]@ == self@[y as int]);
            }
            let m = self.data[y].len();
            let mut row: Vec<T> = Vec::new();
            let mut x: usize = 0;
            while x < m
                invariant
                    y < self@.len(),
                    m == self@[y as int].len(),
                    x <= m,
                    row@.len() == x,
                    forall|j: int| 0 <= j < x ==> #[trigger] row@[j] == self@[y as int][j],
                decreases m - x,
            {
                row.push(*self.at(y, x));
                x = x + 1;
            }
            proof {
                assert(row@ =~= self@[y as int]);
            }
            data.push(row);
            y = y + 1;
        }
        let r = Matrix { data };
        proof {
            assert(r@ =~= self@);
        }
        r
    }
}

impl<T: Element> Matrix<T> {
    /// A cloned row.
    pub fn row(&self, i: usize) -> (r: Vec<T>)
        requires
            i < self.nrows(),
        ensures
            r@ == self@[i as int],
    {
        let mut r: Vec<T> = Vec::new();
        proof {
            assert(self.data@[i as int]@ == self@[i as int]);
        }
        let m = self.data[i].len();
        let mut j: usize = 0;
        while j < m
            invariant
                i < self@.len(),
                m == self@[i as int].len(),
                j <= m,
                r@.len() == j,
                forall|k: int| 0 <= k < j ==> #[trigger] r@[k] == self@[i as int][k],
            decreases m - j,
        {
            r.push(*self.at(i, j));
            j = j + 1;
        }
        proof {
            assert(r@ =~= self@[i as int]);
        }
        r
    }

    /// A cloned column.
    pub fn column(&self, i: usize) -> (r: Vec<T>)
        requires
            self.wf(),
            i < self.ncols(),
        ensures
            r@ == column_of(self@, i as int),
    {
        let n = self.data.len();
        let mut r: Vec<T> = Vec::new();
        let mut y: usize = 0;
        while y < n
            invariant
                self.wf(),
                i < self.ncols(),
                n == self@.len(),
                y <= n,
                r@.len() == y,
                forall|k: int| 0 <= k < y ==> #[trigger] r@[k] == self@[k][i as int],
            decreases n - y,
        {
            r.push(*self.at(y, i));
            y = y + 1;
        }
        proof {
            assert(r@ =~= column_of(self@, i as int));
        }
        r
    }
}

impl<T: Element> Matrix<T> {
    /// The matrix product: entry `(y, x)` is the inner product of row `y`
    /// of `self` with column `x` of `other`.  The inner dimensions must
    /// agree.
    pub fn dot_product(&self, other: &Self) -> (r: Result<Self, ShapeError>)
        requires
            self.wf(),
            other.wf(),
        ensures
            r is Ok <==> self.ncols() == other.nrows(),
            r matches Ok(m) ==> {
                &&& m.wf()
                &&& m@.len() == self@.len()
                &&& forall|y: int| 0 <= y < self@.len() ==> (#[trigger] m@[y]).len() == other.ncols()
                &&& forall|y: int, x: int|
                    0 <= y < self@.len() && 0 <= x < other.ncols() ==> #[trigger] m@[y][x]
                        == dot_seq(self@[y], column_of(other@, x))
            },
    {
        if self.columns() != other.rows() {
            return Err(ShapeError);
        }
        let rows = self.rows();
        let inner = self.columns();
        let cols = other.columns();
        let mut data: Vec<Vec<T>> = Vec::new();
        let mut y: usize = 0;
        while y < rows
            invariant
                self.wf(),
                other.wf(),
                self.ncols() == other.nrows(),
                rows == self.nrows(),
                inner == self.ncols(),
                cols == other.ncols(),
                y <= rows,
                data@.len() == y,
                forall|i: int| 0 <= i < y ==> (#[trigger] data@[i])@.len() == cols,
                forall|i: int, j: int|
                    0 <= i < y && 0 <= j < cols ==> #[trigger] data@[i]@[j] == dot_seq(
                        self@[i],
                        column_of(other@, j),
                    ),
            decreases rows - y,
        {
            let mut row: Vec<T> = Vec::new();
            let mut x: usize = 0;
            while x < cols
                invariant
                    self.wf(),
                    other.wf(),
                    self.ncols() == other.nrows(),
                    rows == self.nrows(),
                    inner == self.ncols(),
                    cols == other.ncols(),
                    y < rows,
                    x <= cols,
                    row@.len() == x,
                    forall|j: int|
                        0 <= j < x ==> #[trigger] row@[j] == dot_seq(
                            self@[y as int],
                            column_of(other@, j),
                        ),
                decreases cols - x,
            {
                let mut acc = T::zero();
                let mut k: usize = 0;
                while k < inner
                    invariant
                        self.wf(),
                        other.wf(),
                        self.ncols() == other.nrows(),
                        rows == self.nrows(),
                        inner == self.ncols(),
                        cols == other.ncols(),
                        y < rows,
                        x < cols,
                        k <= inner,
                        acc == dot_prefix(self@[y as int], column_of(other@, x as int), k as int),
                    decreases inner - k,
                {
                    acc = acc.add(self.at(y, k).mul(*other.at(k, x)));
                    k = k + 1;
                }
                proof {
                    assert(dot_seq(self@[y as int], column_of(other@, x as int)) == dot_prefix(
                        self@[y as int],
                        column_of(other@, x as int),
                        inner as int,
                    ));
                }
                row.push(acc);
                x = x + 1;
            }
            data.push(row);
            y = y + 1;
        }
        Ok(Matrix { data })
    }

    /// Broadcasts the single row of `other` over every row of `self`: the
    /// bias-add.  `other` must be `1 × self.ncols()`.
    pub fn add_vector(self, other: &Self) -> (r: Result<Self, ShapeError>)
        requires
            self.wf(),
            other.wf(),
        ensures
            r is Ok <==> other.nrows() == 1 && other.ncols() == self.ncols(),
            r matches Ok(m) ==> {
                &&& m.wf()
                &&& m.same_shape(self)
                &&& m@.len() == self@.len()
                &&& forall|y: int| 0 <= y < self@.len() ==> (#[trigger] m@[y]).len() == self@[y].len()
                &&& forall|y: int, x: int|
                    0 <= y < self@.len() && 0 <= x < self@[y].len() ==> #[trigger] m@[y][x]
                        == self@[y][x].add_spec(other@[0][x])
            },
    {
        if other.rows() != 1 || other.columns() != self.columns() {
            return Err(ShapeError);
        }
        let rows = self.rows();
        let cols = self.columns();
        let mut data: Vec<Vec<T>> = Vec::new();
        let mut y: usize = 0;
        while y < rows
            invariant
                self.wf(),
                other.wf(),
                other.nrows() == 1 && other.ncols() == self.ncols(),
                rows == self.nrows(),
                cols == self.ncols(),
                y <= rows,
                data@.len() == y,
                forall|i: int| 0 <= i < y ==> (#[trigger] data@[i])@.len() == cols,
                forall|i: int, j: int|
                    0 <= i < y && 0 <= j < cols ==> #[trigger] data@[i]@[j] == self@[i][j].add_spec(
                        other@[0][j],
                    ),
            decreases rows - y,
        {
            let mut row: Vec<T> = Vec::new();
            let mut x: usize = 0;
            while x < cols
                invariant
                    self.wf(),
                    other.wf(),
                    other.nrows() == 1 && other.ncols() == self.ncols(),
                    rows == self.nrows(),
                    cols == self.ncols(),
                    y < rows,
                    x <= cols,
                    row@.len() == x,
                    forall|j: int|
                        0 <= j < x ==> #[trigger] row@[j] == self@[y as int][j].add_spec(other@[0][j]),
                decreases cols - x,
            {
                row.push(self.at(y, x).add(*other.at(0, x)));
                x = x + 1;
            }
            data.push(row);
            y = y + 1;
        }
        Ok(Matrix { data })
    }

    /// The `1 × ncols` matrix of column sums; used to reduce a batch of
    /// per-example bias gradients to one bias gradient.
    pub fn column_sum(&self) -> (r: Self)
        requires
            self.wf(),
        ensures
            r.wf(),
            r.nrows() == 1,
            r.ncols() == self.ncols(),
            forall|x: int|
                0 <= x < self.ncols() ==> #[trigger] r@[0][x] == sum_seq(column_of(self@, x)),
    {
        let rows = self.rows();
        let cols = self.columns();
        let mut row: Vec<T> = Vec::new();
        let mut x: usize = 0;
        while x < cols
            invariant
                self.wf(),
                rows == self.nrows(),
                cols == self.ncols(),
                x <= cols,
                row@.len() == x,
                forall|j: int| 0 <= j < x ==> #[trigger] row@[j] == sum_seq(column_of(self@, j)),
            decreases cols - x,
        {
            let mut acc = T::zero();
            let mut k: usize = 0;
            while k < rows
                invariant
                    self.wf(),
                    rows == self.nrows(),
                    cols == self.ncols(),
                    x < cols,
                    k <= rows,
                    acc == sum_prefix(column_of(self@, x as int), k as int),
                decreases rows - k,
            {
                acc = acc.add(*self.at(k, x));
                k = k + 1;
            }
            proof {
                assert(sum_seq(column_of(self@, x as int)) == sum_prefix(
                    column_of(self@, x as int),
                    rows as int,
                ));
            }
            row.push(acc);
            x = x + 1;
        }
        let mut data: Vec<Vec<T>> = Vec::new();
        data.push(row);
        let r = Matrix { data };
        r
    }

    /// The transpose: a `ncols × nrows` matrix with the entries flipped
    /// about the diagonal.
    pub fn transpose(&self) -> (r: Self)
        requires
            self.wf(),
        ensures
            r.wf(),
            r.nrows() == self.ncols(),
            forall|x: int| 0 <= x < self.ncols() ==> (#[trigger] r@[x]).len() == self.nrows(),
            forall|x: int, y: int|
                0 <= x < self.ncols() && 0 <= y < self.nrows() ==> #[trigger] r@[x][y] == self@[y][x],
    {
        let rows = self.rows();
        let cols = self.columns();
        let mut data: Vec<Vec<T>> = Vec::new();
        let mut x: usize = 0;
        while x < cols
            invariant
                self.wf(),
                rows == self.nrows(),
                cols == self.ncols(),
                x <= cols,
                data@.len() == x,
                forall|i: int| 0 <= i < x ==> (#[trigger] data@[i])@.len() == rows,
                forall|i: int, j: int|
                    0 <= i < x && 0 <= j < rows ==> #[trigger] data@[i]@[j] == self@[j][i],
            decreases cols - x,
        {
            let mut row: Vec<T> = Vec::new();
            let mut y: usize = 0;
            while y < rows
                invariant
                    self.wf(),
                    rows == self.nrows(),
                    cols == self.ncols(),
                    x < cols,
                    y <= rows,
                    row@.len() == y,
                    forall|j: int| 0 <= j < y ==> #[trigger] row@[j] == self@[j][x as int],
                decreases rows - y,
            {
                row.push(*self.at(y, x));
                y = y + 1;
            }
            data.push(row);
            x = x + 1;
        }
        Matrix { data }
    }
}

impl<T: Element> Matrix<T> {
    /// Multiplies every entry by the scalar `k`.
    pub fn scale(&self, k: T) -> (r: Self)
        requires
            self.wf(),
        ensures
            r.wf(),
            r.same_shape(*self),
            r@.len() == self@.len(),
            forall|y: int| 0 <= y < self@.len() ==> (#[trigger] r@[y]).len() == self@[y].len(),
            forall|y: int, x: int|
                0 <= y < self@.len() && 0 <= x < self@[y].len() ==> #[trigger] r@[y][x]
                    == self@[y][x].mul_spec(k),
    {
        let rows = self.rows();
        let cols = self.columns();
        let mut data: Vec<Vec<T>> = Vec::new();
        let mut y: usize = 0;
        while y < rows
            invariant
                self.wf(),
                rows == self.nrows(),
                cols == self.ncols(),
                y <= rows,
                data@.len() == y,
                forall|i: int| 0 <= i < y ==> (#[trigger] data@[i])@.len() == cols,
                forall|i: int, j: int|
                    0 <= i < y && 0 <= j < cols ==> #[trigger] data@[i]@[j] == self@[i][j].mul_spec(k),
            decreases rows - y,
        {
            let mut row: Vec<T> = Vec::new();
            let mut x: usize = 0;
            while x < cols
                invariant
                    self.wf(),
                    rows == self.nrows(),
                    cols == self.ncols(),
                    y < rows,
                    x <= cols,
                    row@.len() == x,
                    forall|j: int| 0 <= j < x ==> #[trigger] row@[j] == self@[y as int][j].mul_spec(k),
                decreases cols - x,
            {
                row.push(self.at(y, x).mul(k));
                x = x + 1;
            }
            data.push(row);
            y = y + 1;
        }
        Matrix { data }
    }

    /// Adds the scalar `k` to every entry.
    pub fn add_scalar(&self, k: T) -> (r: Self)
        requires
            self.wf(),
        ensures
            r.wf(),
            r.same_shape(*self),
            r@.len() == self@.len(),
            forall|y: int| 0 <= y < self@.len() ==> (#[trigger] r@[y]).len() == self@[y].len(),
            forall|y: int, x: int|
                0 <= y < self@.len() && 0 <= x < self@[y].len() ==> #[trigger] r@[y][x]
                    == self@[y][x].add_spec(k),
    {
        let rows = self.rows();
        let cols = self.columns();
        let mut data: Vec<Vec<T>> = Vec::new();
        let mut y: usize = 0;
        while y < rows
            invariant
                self.wf(),
                rows == self.nrows(),
                cols == self.ncols(),
                y <= rows,
                data@.len() == y,
                forall|i: int| 0 <= i < y ==> (#[trigger] data@[i])@.len() == cols,
                forall|i: int, j: int|
                    0 <= i < y && 0 <= j < cols ==> #[trigger] data@[i]@[j] == self@[i][j].add_spec(k),
            decreases rows - y,
        {
            let mut row: Vec<T> = Vec::new();
            let mut x: usize = 0;
            while x < cols
                invariant
                    self.wf(),
                    rows == self.nrows(),
                    cols == self.ncols(),
                    y < rows,
                    x <= cols,
                    row@.len() == x,
                    forall|j: int| 0 <= j < x ==> #[trigger] row@[j] == self@[y as int][j].add_spec(k),
                decreases cols - x,
            {
                row.push(self.at(y, x).add(k));
                x = x + 1;
            }
            data.push(row);
            y = y + 1;
        }
        Matrix { data }
    }

    /// Divides every entry by the scalar `k`.
    pub fn div_scalar(&self, k: T) -> (r: Self)
        requires
            self.wf(),
        ensures
            r.wf(),
            r.same_shape(*self),
            r@.len() == self@.len(),
            forall|y: int| 0 <= y < self@.len() ==> (#[trigger] r@[y]).len() == self@[y].len(),
            forall|y: int, x: int|
                0 <= y < self@.len() && 0 <= x < self@[y].len() ==> #[trigger] r@[y][x]
                    == self@[y][x].div_spec(k),
    {
        let rows = self.rows();
        let cols = self.columns();
        let mut data: Vec<Vec<T>> = Vec::new();
        let mut y: usize = 0;
        while y < rows
            invariant
                self.wf(),
                rows == self.nrows(),
                cols == self.ncols(),
                y <= rows,
                data@.len() == y,
                forall|i: int| 0 <= i < y ==> (#[trigger] data@[i])@.len() == cols,
                forall|i: int, j: int|
                    0 <= i < y && 0 <= j < cols ==> #[trigger] data@[i]@[j] == self@[i][j].div_spec(k),
            decreases rows - y,
        {
            let mut row: Vec<T> = Vec::new();
            let mut x: usize = 0;
            while x < cols
                invariant
                    self.wf(),
                    rows == self.nrows(),
                    cols == self.ncols(),
                    y < rows,
                    x <= cols,
                    row@.len() == x,
                    forall|j: int| 0 <= j < x ==> #[trigger] row@[j] == self@[y as int][j].div_spec(k),
                decreases cols - x,
            {
                row.push(self.at(y, x).div(k));
                x = x + 1;
            }
            data.push(row);
            y = y + 1;
        }
        Matrix { data }
    }

    /// The elementwise square root; what a negative entry yields is the scalar field's affair (`sqrt_spec`).
    pub fn sqrt(&self) -> (r: Self)
        requires
            self.wf(),
        ensures
            r.wf(),
            r.same_shape(*self),
            r@.len() == self@.len(),
            forall|y: int| 0 <= y < self@.len() ==> (#[trigger] r@[y]).len() == self@[y].len(),
            forall|y: int, x: int|
                0 <= y < self@.len() && 0 <= x < self@[y].len() ==> #[trigger] r@[y][x]
                    == self@[y][x].sqrt_spec(),
    {
        let rows = self.rows();
        let cols = self.columns();
        let mut data: Vec<Vec<T>> = Vec::new();
        let mut y: usize = 0;
        while y < rows
            invariant
                self.wf(),
                rows == self.nrows(),
                cols == self.ncols(),
                y <= rows,
                data@.len() == y,
                forall|i: int| 0 <= i < y ==> (#[trigger] data@[i])@.len() == cols,
                forall|i: int, j: int|
                    0 <= i < y && 0 <= j < cols ==> #[trigger] data@[i]@[j] == self@[i][j].sqrt_spec(),
            decreases rows - y,
        {
            let mut row: Vec<T> = Vec::new();
            let mut x: usize = 0;
            while x < cols
                invariant
                    self.wf(),
                    rows == self.nrows(),
                    cols == self.ncols(),
                    y < rows,
                    x <= cols,
                    row@.len() == x,
                    forall|j: int| 0 <= j < x ==> #[trigger] row@[j] == self@[y as int][j].sqrt_spec(),
                decreases cols - x,
            {
                row.push(self.at(y, x).sqrt());
                x = x + 1;
            }
            data.push(row);
            y = y + 1;
        }
        Matrix { data }
    }

    /// The elementwise (Hadamard) product; the shapes must agree exactly.
    pub fn mul(self, other: &Self) -> (r: Result<Self, ShapeError>)
        requires
            self.wf(),
            other.wf(),
        ensures
            r is Ok <==> self.same_shape(*other),
            r matches Ok(m) ==> {
                &&& m.wf()
                &&& m.same_shape(self)
                &&& m@.len() == self@.len()
                &&& forall|y: int| 0 <= y < self@.len() ==> (#[trigger] m@[y]).len() == self@[y].len()
                &&& forall|y: int, x: int|
                    0 <= y < self@.len() && 0 <= x < self@[y].len() ==> #[trigger] m@[y][x]
                        == self@[y][x].mul_spec(other@[y][x])
            },
    {
        if self.rows() != other.rows() || self.columns() != other.columns() {
            return Err(ShapeError);
        }
        let rows = self.rows();
        let cols = self.columns();
        let mut data: Vec<Vec<T>> = Vec::new();
        let mut y: usize = 0;
        while y < rows
            invariant
                self.wf(),
                other.wf(),
                self.same_shape(*other),
                rows == self.nrows(),
                cols == self.ncols(),
                y <= rows,
                data@.len() == y,
                forall|i: int| 0 <= i < y ==> (#[trigger] data@[i])@.len() == cols,
                forall|i: int, j: int|
                    0 <= i < y && 0 <= j < cols ==> #[trigger] data@[i]@[j] == self@[i][j].mul_spec(
                        other@[i][j],
                    ),
            decreases rows - y,
        {
            let mut row: Vec<T> = Vec::new();
            let mut x: usize = 0;
            while x < cols
                invariant
                    self.wf(),
                    other.wf(),
                    self.same_shape(*other),
                    rows == self.nrows(),
                    cols == self.ncols(),
                    y < rows,
                    x <= cols,
                    row@.len() == x,
                    forall|j: int|
                        0 <= j < x ==> #[trigger] row@[j] == self@[y as int][j].mul_spec(
                            other@[y as int][j],
                        ),
                decreases cols - x,
            {
                row.push(self.at(y, x).mul(*other.at(y, x)));
                x = x + 1;
            }
            data.push(row);
            y = y + 1;
        }
        Ok(Matrix { data })
    }

    /// The elementwise quotient; the shapes must agree exactly.
    pub fn div(self, other: &Self) -> (r: Result<Self, ShapeError>)
        requires
            self.wf(),
            other.wf(),
        ensures
            r is Ok <==> self.same_shape(*other),
            r matches Ok(m) ==> {
                &&& m.wf()
                &&& m.same_shape(self)
                &&& m@.len() == self@.len()
                &&& forall|y: int| 0 <= y < self@.len() ==> (#[trigger] m@[y]).len() == self@[y].len()
                &&& forall|y: int, x: int|
                    0 <= y < self@.len() && 0 <= x < self@[y].len() ==> #[trigger] m@[y][x]
                        == self@[y][x].div_spec(other@[y][x])
            },
    {
        if self.rows() != other.rows() || self.columns() != other.columns() {
            return Err(ShapeError);
        }
        let rows = self.rows();
        let cols = self.columns();
        let mut data: Vec<Vec<T>> = Vec::new();
        let mut y: usize = 0;
        while y < rows
            invariant
                self.wf(),
                other.wf(),
                self.same_shape(*other),
                rows == self.nrows(),
                cols == self.ncols(),
                y <= rows,
                data@.len() == y,
                forall|i: int| 0 <= i < y ==> (#[trigger] data@[i])@.len() == cols,
                forall|i: int, j: int|
                    0 <= i < y && 0 <= j < cols ==> #[trigger] data@[i]@[j] == self@[i][j].div_spec(
                        other@[i][j],
                    ),
            decreases rows - y,
        {
            let mut row: Vec<T> = Vec::new();
            let mut x: usize = 0;
            while x < cols
                invariant
                    self.wf(),
                    other.wf(),
                    self.same_shape(*other),
                    rows == self.nrows(),
                    cols == self.ncols(),
                    y < rows,
                    x <= cols,
                    row@.len() == x,
                    forall|j: int|
                        0 <= j < x ==> #[trigger] row@[j] == self@[y as int][j].div_spec(
                            other@[y as int][j],
                        ),
                decreases cols - x,
            {
                row.push(self.at(y, x).div(*other.at(y, x)));
                x = x + 1;
            }
            data.push(row);
            y = y + 1;
        }
        Ok(Matrix { data })
    }

    /// Subtracts `rhs` from `self` in place; the shapes must agree exactly.
    pub fn sub_assign(&mut self, rhs: &Self) -> (r: Result<(), ShapeError>)
        requires
            old(self).wf(),
            rhs.wf(),
        ensures
            r is Ok <==> old(self).same_shape(*rhs),
            r is Ok ==> {
                &&& final(self).wf()
                &&& final(self).same_shape(*old(self))
                &&& final(self)@.len() == old(self)@.len()
                &&& forall|y: int|
                    0 <= y < old(self)@.len() ==> (#[trigger] final(self)@[y]).len() == old(self)@[y].len()
                &&& forall|y: int, x: int|
                    0 <= y < old(self)@.len() && 0 <= x < old(self)@[y].len()
                        ==> #[trigger] final(self)@[y][x] == old(self)@[y][x].sub_spec(rhs@[y][x])
            },
            r is Err ==> *final(self) == *old(self),
    {
        if self.rows() != rhs.rows() || self.columns() != rhs.columns() {
            return Err(ShapeError);
        }
        let rows = self.rows();
        let cols = self.columns();
        let mut data: Vec<Vec<T>> = Vec::new();
        let mut y: usize = 0;
        while y < rows
            invariant
                self.wf(),
                rhs.wf(),
                self.same_shape(*rhs),
                *self == *old(self),
                rows == self.nrows(),
                cols == self.ncols(),
                y <= rows,
                data@.len() == y,
                forall|i: int| 0 <= i < y ==> (#[trigger] data@[i])@.len() == cols,
                forall|i: int, j: int|
                    0 <= i < y && 0 <= j < cols ==> #[trigger] data@[i]@[j] == self@[i][j].sub_spec(
                        rhs@[i][j],
                    ),
            decreases rows - y,
        {
            let mut row: Vec<T> = Vec::new();
            let mut x: usize = 0;
            while x < cols
                invariant
                    self.wf(),
                    rhs.wf(),
                    self.same_shape(*rhs),
                    *self == *old(self),
                    rows == self.nrows(),
                    cols == self.ncols(),
                    y < rows,
                    x <= cols,
                    row@.len() == x,
                    forall|j: int|
                        0 <= j < x ==> #[trigger] row@[j] == self@[y as int][j].sub_spec(
                            rhs@[y as int][j],
                        ),
                decreases cols - x,
            {
                row.push(self.at(y, x).sub(*rhs.at(y, x)));
                x = x + 1;
            }
            data.push(row);
            y = y + 1;
        }
        let m = Matrix { data };
        proof {
            assert(m@.len() == old(self)@.len());
        }
        *self = m;
        Ok(())
    }

    /// Adds `rhs` to `self` in place; the shapes must agree exactly.
    pub fn add_assign(&mut self, rhs: &Self) -> (r: Result<(), ShapeError>)
        requires
            old(self).wf(),
            rhs.wf(),
        ensures
            r is Ok <==> old(self).same_shape(*rhs),
            r is Ok ==> {
                &&& final(self).wf()
                &&& final(self).same_shape(*old(self))
                &&& final(self)@.len() == old(self)@.len()
                &&& forall|y: int|
                    0 <= y < old(self)@.len() ==> (#[trigger] final(self)@[y]).len() == old(self)@[y].len()
                &&& forall|y: int, x: int|
                    0 <= y < old(self)@.len() && 0 <= x < old(self)@[y].len()
                        ==> #[trigger] final(self)@[y][x] == old(self)@[y][x].add_spec(rhs@[y][x])
            },
            r is Err ==> *final(self) == *old(self),
    {
        if self.rows() != rhs.rows() || self.columns() != rhs.columns() {
            return Err(ShapeError);
        }
        let rows = self.rows();
        let cols = self.columns();
        let mut data: Vec<Vec<T>> = Vec::new();
        let mut y: usize = 0;
        while y < rows
            invariant
                self.wf(),
                rhs.wf(),
                self.same_shape(*rhs),
                *self == *old(self),
                rows == self.nrows(),
                cols == self.ncols(),
                y <= rows,
                data@.len() == y,
                forall|i: int| 0 <= i < y ==> (#[trigger] data@[i])@.len() == cols,
                forall|i: int, j: int|
                    0 <= i < y && 0 <= j < cols ==> #[trigger] data@[i]@[j] == self@[i][j].add_spec(
                        rhs@[i][j],
                    ),
            decreases rows - y,
        {
            let mut row: Vec<T> = Vec::new();
            let mut x: usize = 0;
            while x < cols
                invariant
                    self.wf(),
                    rhs.wf(),
                    self.same_shape(*rhs),
                    *self == *old(self),
                    rows == self.nrows(),
                    cols == self.ncols(),
                    y < rows,
                    x <= cols,
                    row@.len() == x,
                    forall|j: int|
                        0 <= j < x ==> #[trigger] row@[j] == self@[y as int][j].add_spec(
                            rhs@[y as int][j],
                        ),
                decreases cols - x,
            {
                row.push(self.at(y, x).add(*rhs.at(y, x)));
                x = x + 1;
            }
            data.push(row);
            y = y + 1;
        }
        let m = Matrix { data };
        proof {
            assert(m@.len() == old(self)@.len());
        }
        *self = m;
        Ok(())
    }
}

/// The sequence `rout_v` is an output of `f` on a row whose model is
/// `rin_v`.
pub open spec fn row_image<T, F: Fn(&Vec<T>) -> Vec<T>>(f: F, rin_v: Seq<T>, rout_v: Seq<T>) -> bool {
    exists|rin: Vec<T>, rout: Vec<T>|
        {
            &&& rin@ == rin_v
            &&& rout@ == rout_v
            &&& #[trigger] call_ensures(f, (&rin,), rout)
        }
}

/// Entry `v` is the central difference quotient of `f` at entry `(y, x)`
/// of the model `m` with step `h`: `f` applied to `m` with that entry
/// perturbed by `+h` and by `-h`, the difference divided by `2·h`.
pub open spec fn fd_entry<T: Element, F: Fn(&Matrix<T>) -> T>(
    f: F,
    m: Seq<Seq<T>>,
    y: int,
    x: int,
    h: T,
    v: T,
) -> bool {
    exists|mp: Matrix<T>, mm: Matrix<T>, fp: T, fm: T|
        {
            &&& mp@ == m.update(y, m[y].update(x, m[y][x].add_spec(h)))
            &&& mm@ == m.update(y, m[y].update(x, m[y][x].sub_spec(h)))
            &&& #[trigger] call_ensures(f, (&mp,), fp)
            &&& #[trigger] call_ensures(f, (&mm,), fm)
            &&& v == fp.sub_spec(fm).div_spec(T::from_usize_spec(2).mul_spec(h))
        }
}

impl<T: Element> Matrix<T> {
    /// Applies `f` to every entry, producing a new matrix of the same
    /// shape whose entries are outputs of `f` on the corresponding inputs.
    pub fn map<F: Fn(T) -> T>(self, f: F) -> (r: Self)
        requires
            self.wf(),
            forall|v: T| #[trigger] call_requires(f, (v,)),
        ensures
            r.wf(),
            r.same_shape(self),
            r@.len() == self@.len(),
            forall|y: int| 0 <= y < self@.len() ==> (#[trigger] r@[y]).len() == self@[y].len(),
            forall|y: int, x: int|
                0 <= y < self@.len() && 0 <= x < self@[y].len() ==> call_ensures(
                    f,
                    (self@[y][x],),
                    #[trigger] r@[y][x],
                ),
    {
        let rows = self.rows();
        let cols = self.columns();
        let mut data: Vec<Vec<T>> = Vec::new();
        let mut y: usize = 0;
        while y < rows
            invariant
                self.wf(),
                forall|v: T| #[trigger] call_requires(f, (v,)),
                rows == self.nrows(),
                cols == self.ncols(),
                y <= rows,
                data@.len() == y,
                forall|i: int| 0 <= i < y ==> (#[trigger] data@[i])@.len() == cols,
                forall|i: int, j: int|
                    0 <= i < y && 0 <= j < cols ==> call_ensures(
                        f,
                        (self@[i][j],),
                        #[trigger] data@[i]@[j],
                    ),
            decreases rows - y,
        {
            let mut row: Vec<T> = Vec::new();
            let mut x: usize = 0;
            while x < cols
                invariant
                    self.wf(),
                    forall|v: T| #[trigger] call_requires(f, (v,)),
                    rows == self.nrows(),
                    cols == self.ncols(),
                    y < rows,
                    x <= cols,
                    row@.len() == x,
                    forall|j: int|
                        0 <= j < x ==> call_ensures(f, (self@[y as int][j],), #[trigger] row@[j]),
                decreases cols - x,
            {
                row.push(f(*self.at(y, x)));
                x = x + 1;
            }
            data.push(row);
            y = y + 1;
        }
        Matrix { data }
    }

    /// Applies `f` to each row independently.  If the outputs of `f` do not
    /// all have one length, no rectangle exists and the result is a
    /// `ShapeError`; a length-preserving `f` always succeeds.
    pub fn map_row<F: Fn(&Vec<T>) -> Vec<T>>(self, f: F) -> (r: Result<Self, ShapeError>)
        requires
            self.wf(),
            forall|v: &Vec<T>| #[trigger] call_requires(f, (v,)),
        ensures
            r matches Ok(m) ==> {
                &&& m.wf()
                &&& m@.len() == self@.len()
                &&& forall|y: int| 0 <= y < self@.len() ==> row_image(f, self@[y], #[trigger] m@[y])
            },
            (forall|rin: &Vec<T>, rout: Vec<T>|
                call_ensures(f, (rin,), rout) ==> rout@.len() == rin@.len()) ==> r is Ok,
    {
        let rows = self.rows();
        let mut out_rows: Vec<Vec<T>> = Vec::new();
        let mut y: usize = 0;
        while y < rows
            invariant
                self.wf(),
                forall|v: &Vec<T>| #[trigger] call_requires(f, (v,)),
                rows == self.nrows(),
                y <= rows,
                out_rows@.len() == y,
                forall|i: int|
                    0 <= i < y ==> row_image(f, self@[i], (#[trigger] out_rows@[i])@),
            decreases rows - y,
        {
            let rin_ref = self.row_slice(y);
            let out_row = f(rin_ref);
            proof {
                assert(row_image(f, self@[y as int], out_row@)) by {
                    assert({
                        &&& rin_ref@ == self@[y as int]
                        &&& call_ensures(f, (rin_ref,), out_row)
                    });
                }
            }
            out_rows.push(out_row);
            y = y + 1;
        }
        let built = Matrix::from(out_rows);
        match built {
            Ok(m) => Ok(m),
            Err(e) => {
                proof {
                    if forall|rin: &Vec<T>, rout: Vec<T>|
                        call_ensures(f, (rin,), rout) ==> rout@.len() == rin@.len() {
                        assert forall|i: int|
                            0 <= i < out_rows@.len() implies (#[trigger] out_rows@[i])@.len()
                            == self@[i].len() by {
                            let (rin, rout) = choose|rin: Vec<T>, rout: Vec<T>|
                                {
                                    &&& rin@ == self@[i]
                                    &&& rout@ == out_rows@[i]@
                                    &&& #[trigger] call_ensures(f, (&rin,), rout)
                                };
                            assert(rout@.len() == rin@.len());
                        }
                        assert(forall|i: int|
                            0 <= i < out_rows@.len() ==> (#[trigger] out_rows@[i])@.len()
                                == out_rows@[0]@.len());
                        assert(false);
                    }
                }
                Err(e)
            },
        }
    }

    /// The central finite-difference gradient of `f` at `self` with step
    /// `h`: each entry of the result is a difference quotient of `f` probed
    /// on two copies of `self` with exactly that entry perturbed by `±h`
    /// ([`fd_entry`]).  `self` itself is left untouched.
    pub fn numerical_gradient<F: Fn(&Matrix<T>) -> T>(&self, h: T, f: F) -> (r: Self)
        requires
            self.wf(),
            forall|m: &Matrix<T>|
                m.wf() && m.same_shape(*self) ==> #[trigger] call_requires(f, (m,)),
        ensures
            r.wf(),
            r.same_shape(*self),
            r@.len() == self@.len(),
            forall|y: int| 0 <= y < self@.len() ==> (#[trigger] r@[y]).len() == self@[y].len(),
            forall|y: int, x: int|
                0 <= y < self@.len() && 0 <= x < self@[y].len() ==> fd_entry(
                    f,
                    self@,
                    y,
                    x,
                    h,
                    #[trigger] r@[y][x],
                ),
    {
        let rows = self.rows();
        let cols = self.columns();
        let two_h = T::from_usize(2).mul(h);
        let mut data: Vec<Vec<T>> = Vec::new();
        let mut y: usize = 0;
        while y < rows
            invariant
                self.wf(),
                forall|m: &Matrix<T>|
                    m.wf() && m.same_shape(*self) ==> #[trigger] call_requires(f, (m,)),
                rows == self.nrows(),
                cols == self.ncols(),
                two_h == T::from_usize_spec(2).mul_spec(h),
                y <= rows,
                data@.len() == y,
                forall|i: int| 0 <= i < y ==> (#[trigger] data@[i])@.len() == cols,
                forall|i: int, j: int|
                    0 <= i < y && 0 <= j < cols ==> fd_entry(
                        f,
                        self@,
                        i,
                        j,
                        h,
                        #[trigger] data@[i]@[j],
                    ),
            decreases rows - y,
        {
            let mut row: Vec<T> = Vec::new();
            let mut x: usize = 0;
            while x < cols
                invariant
                    self.wf(),
                    forall|m: &Matrix<T>|
                        m.wf() && m.same_shape(*self) ==> #[trigger] call_requires(f, (m,)),
                    rows == self.nrows(),
                    cols == self.ncols(),
                    two_h == T::from_usize_spec(2).mul_spec(h),
                    y < rows,
                    x <= cols,
                    row@.len() == x,
                    forall|j: int|
                        0 <= j < x ==> fd_entry(f, self@, y as int, j, h, #[trigger] row@[j]),
                decreases cols - x,
            {
                let base = *self.at(y, x);
                let mp = self.with_entry(y, x, base.add(h));
                let fp = f(&mp);
                let mm = self.with_entry(y, x, base.sub(h));
                let fm = f(&mm);
                let v = fp.sub(fm).div(two_h);
                proof {
                    assert(fd_entry(f, self@, y as int, x as int, h, v)) by {
                        assert({
                            &&& mp@ == self@.update(
                                y as int,
                                self@[y as int].update(
                                    x as int,
                                    self@[y as int][x as int].add_spec(h),
                                ),
                            )
                            &&& mm@ == self@.update(
                                y as int,
                                self@[y as int].update(
                                    x as int,
                                    self@[y as int][x as int].sub_spec(h),
                                ),
                            )
                            &&& call_ensures(f, (&mp,), fp)
                            &&& call_ensures(f, (&mm,), fm)
                            &&& v == fp.sub_spec(fm).div_spec(T::from_usize_spec(2).mul_spec(h))
                        });
                    }
                }
                row.push(v);
                x = x + 1;
            }
            data.push(row);
            y = y + 1;
        }
        Matrix { data }
    }
}

impl<T: Element> Matrix<T> {
    /// Elementwise sum of two matrices already known to share a shape.
    pub(crate) fn add_same(&self, other: &Self) -> (r: Self)
        requires
            self.wf(),
            other.wf(),
            self.same_shape(*other),
        ensures
            r.wf(),
            r.same_shape(*self),
            r@.len() == self@.len(),
            forall|y: int| 0 <= y < self@.len() ==> (#[trigger] r@[y]).len() == self@[y].len(),
            forall|y: int, x: int|
                0 <= y < self@.len() && 0 <= x < self@[y].len() ==> #[trigger] r@[y][x]
                    == self@[y][x].add_spec(other@[y][x]),
    {
        match self.clone().add(other) {
            Ok(m) => m,
            Err(_) => {
                proof {
                    assert(false);
                }
                Matrix::new(0, 0)
            },
        }
    }

    /// Elementwise difference of two matrices already known to share a
    /// shape.
    pub(crate) fn sub_same(&self, other: &Self) -> (r: Self)
        requires
            self.wf(),
            other.wf(),
            self.same_shape(*other),
        ensures
            r.wf(),
            r.same_shape(*self),
            r@.len() == self@.len(),
            forall|y: int| 0 <= y < self@.len() ==> (#[trigger] r@[y]).len() == self@[y].len(),
            forall|y: int, x: int|
                0 <= y < self@.len() && 0 <= x < self@[y].len() ==> #[trigger] r@[y][x]
                    == self@[y][x].sub_spec(other@[y][x]),
    {
        match self.clone().sub(other) {
            Ok(m) => m,
            Err(_) => {
                proof {
                    assert(false);
                }
                Matrix::new(0, 0)
            },
        }
    }

    /// Elementwise product of two matrices already known to share a shape.
    pub(crate) fn mul_same(&self, other: &Self) -> (r: Self)
        requires
            self.wf(),
            other.wf(),
            self.same_shape(*other),
        ensures
            r.wf(),
            r.same_shape(*self),
            r@.len() == self@.len(),
            forall|y: int| 0 <= y < self@.len() ==> (#[trigger] r@[y]).len() == self@[y].len(),
            forall|y: int, x: int|
                0 <= y < self@.len() && 0 <= x < self@[y].len() ==> #[trigger] r@[y][x]
                    == self@[y][x].mul_spec(other@[y][x]),
    {
        match self.clone().mul(other) {
            Ok(m) => m,
            Err(_) => {
                proof {
                    assert(false);
                }
                Matrix::new(0, 0)
            },
        }
    }

    /// Elementwise quotient of two matrices already known to share a
    /// shape.
    pub(crate) fn div_same(&self, other: &Self) -> (r: Self)
        requires
            self.wf(),
            other.wf(),
            self.same_shape(*other),
        ensures
            r.wf(),
            r.same_shape(*self),
            r@.len() == self@.len(),
            forall|y: int| 0 <= y < self@.len() ==> (#[trigger] r@[y]).len() == self@[y].len(),
            forall|y: int, x: int|
                0 <= y < self@.len() && 0 <= x < self@[y].len() ==> #[trigger] r@[y][x]
                    == self@[y][x].div_spec(other@[y][x]),
    {
        match self.clone().div(other) {
            Ok(m) => m,
            Err(_) => {
                proof {
                    assert(false);
                }
                Matrix::new(0, 0)
            },
        }
    }
}

/// For all compatible shapes the product has the left operand's row count
/// and the right operand's column count, and is itself a rectangle.  The
/// one exception is a product with no rows: a matrix without rows has no
/// columns either, so its column count collapses to zero.
pub proof fn lemma_matmul_shape<T: Element>(a: Seq<Seq<T>>, b: Seq<Seq<T>>)
    requires
        rect(a),
        rect(b),
        scols(a) == srows(b),
        srows(a) > 0 || scols(b) == 0,
    ensures
        rect(matmul(a, b)),
        srows(matmul(a, b)) == srows(a),
        scols(matmul(a, b)) == scols(b),
{
    let m = matmul(a, b);
    assert(forall|y: int| 0 <= y < m.len() ==> (#[trigger] m[y]).len() == scols(b));
}


} // verus!
