//! Dense row-major matrices.
//!
//! Every operation builds a new matrix and leaves its operands untouched. The
//! view of a matrix is its grid of rows; all contracts are stated over the
//! functions of [`crate::grid`].
use crate::error::NetworkError;
use crate::grid::{
    arranged, column_at, column_of, difference_of, dot, flattened, hadamard_of, height, is_grid,
    lemma_row_major, product_of, same_shape, scaled, sum_of, transposed, width,
};
use crate::scalar::Scalar;
use vstd::prelude::*;

verus! {

/// A matrix with at least one row and one column, stored row by row.
#[derive(Debug)]
pub struct Matrix<T> {
    rows: usize,
    cols: usize,
    data: Vec<T>,
}

impl<T> View for Matrix<T> {
    type V = Seq<Seq<T>>;

    closed spec fn view(&self) -> Seq<Seq<T>> {
        arranged(self.data@, self.rows as nat, self.cols as nat)
    }
}

/// A vector filled cell by cell in row-major order arranges to the grid it
/// was filled from.
proof fn lemma_arranged_from_cells<T>(cells: Seq<T>, rows: nat, cols: nat, g: Seq<Seq<T>>)
    requires
        rows > 0,
        cols > 0,
        cells.len() == rows * cols,
        g.len() == rows,
        forall|i: int| 0 <= i < rows ==> (#[trigger] g[i]).len() == cols,
        forall|k: int|
            0 <= k < cells.len() ==> #[trigger] cells[k] == g[k / (cols as int)][k % (cols as int)],
    ensures
        arranged(cells, rows, cols) == g,
{
    let a = arranged(cells, rows, cols);
    assert forall|i: int| 0 <= i < rows implies #[trigger] a[i] == g[i] by {
        assert forall|j: int| 0 <= j < cols implies a[i][j] == g[i][j] by {
            lemma_row_major(i, j, rows as int, cols as int);
        }
        assert(a[i] =~= g[i]);
    }
    assert(a =~= g);
}

/// The three elementwise ways to combine two matrices of one shape.
enum Pairing {
    Sum,
    Difference,
    Product,
}

spec fn paired<T: Scalar>(op: Pairing, x: T, y: T) -> T {
    match op {
        Pairing::Sum => x.sum(y),
        Pairing::Difference => x.difference(y),
        Pairing::Product => x.product(y),
    }
}

spec fn paired_grid<T: Scalar>(op: Pairing, a: Seq<Seq<T>>, b: Seq<Seq<T>>) -> Seq<Seq<T>> {
    Seq::new(height(a), |i: int| Seq::new(width(a), |j: int| paired(op, a[i][j], b[i][j])))
}

impl<T> Matrix<T> {
    #[verifier::type_invariant]
    spec fn well_formed(&self) -> bool {
        &&& self.rows > 0
        &&& self.cols > 0
        &&& self.data@.len() == self.rows * self.cols
    }

    /// The number of rows.
    pub fn rows(&self) -> (r: usize)
        ensures
            r == height(self@),
            is_grid(self@),
    {
        proof {
            use_type_invariant(self);
        }
        self.rows
    }

    /// The number of columns.
    pub fn cols(&self) -> (c: usize)
        ensures
            c == width(self@),
            is_grid(self@),
    {
        proof {
            use_type_invariant(self);
        }
        self.cols
    }

    /// The elements in row-major order.
    pub fn data(&self) -> (cells: &Vec<T>)
        ensures
            is_grid(self@),
            cells@.len() == height(self@) * width(self@),
            self@ == arranged(cells@, height(self@), width(self@)),
    {
        proof {
            use_type_invariant(self);
        }
        &self.data
    }

    /// Arranges `data` row by row into a matrix of `rows` by `cols`. Fails
    /// when a dimension is zero or the number of elements is not
    /// `rows * cols`.
    pub fn from_vec(rows: usize, cols: usize, data: Vec<T>) -> (r: Result<Matrix<T>, NetworkError>)
        ensures
            match r {
                Ok(m) => {
                    &&& rows > 0
                    &&& cols > 0
                    &&& data@.len() == rows * cols
                    &&& m@ == arranged(data@, rows as nat, cols as nat)
                },
                Err(e) => {
                    &&& e == NetworkError::DimensionMismatch
                    &&& rows == 0 || cols == 0 || data@.len() != rows * cols
                },
            },
    {
        if rows == 0 || cols == 0 {
            return Err(NetworkError::DimensionMismatch);
        }
        let len = data.len();
        match rows.checked_mul(cols) {
            Some(n) => {
                if n == len {
                    Ok(Matrix { rows, cols, data })
                } else {
                    Err(NetworkError::DimensionMismatch)
                }
            },
            None => Err(NetworkError::DimensionMismatch),
        }
    }

    /// A matrix of `rows` by `cols` whose elements are drawn one by one, row
    /// by row, from `sample`. Fails when a dimension is zero.
    pub fn random<S: Fn() -> T>(rows: usize, cols: usize, sample: &S) -> (r: Result<
        Matrix<T>,
        NetworkError,
    >)
        requires
            sample.requires(()),
        ensures
            match r {
                Ok(m) => {
                    &&& rows > 0
                    &&& cols > 0
                    &&& is_grid(m@)
                    &&& height(m@) == rows
                    &&& width(m@) == cols
                    &&& forall|i: int, j: int|
                        0 <= i < rows && 0 <= j < cols ==> sample.ensures((), #[trigger] m@[i][j])
                },
                Err(e) => e == NetworkError::DimensionMismatch && (rows == 0 || cols == 0),
            },
    {
        if rows == 0 || cols == 0 {
            return Err(NetworkError::DimensionMismatch);
        }
        let mut data: Vec<T> = Vec::new();
        let mut i: usize = 0;
        while i < rows
            invariant
                i <= rows,
                cols > 0,
                sample.requires(()),
                data@.len() == i * cols,
                forall|k: int| 0 <= k < data@.len() ==> sample.ensures((), #[trigger] data@[k]),
            decreases rows - i,
        {
            let mut j: usize = 0;
            while j < cols
                invariant
                    i < rows,
                    j <= cols,
                    sample.requires(()),
                    data@.len() == i * cols + j,
                    forall|k: int| 0 <= k < data@.len() ==> sample.ensures((), #[trigger] data@[k]),
                decreases cols - j,
            {
                let x = sample();
                data.push(x);
                j = j + 1;
            }
            assert(i * cols + cols == (i + 1) * cols) by (nonlinear_arith);
            i = i + 1;
        }
        let m = Matrix { rows, cols, data };
        proof {
            assert forall|i: int, j: int| 0 <= i < rows && 0 <= j < cols implies sample.ensures(
                (),
                #[trigger] m@[i][j],
            ) by {
                lemma_row_major(i, j, rows as int, cols as int);
            }
        }
        Ok(m)
    }
}

impl<T: Copy> Matrix<T> {
    /// The element in row `i`, column `j`.
    fn cell(&self, i: usize, j: usize) -> (x: T)
        requires
            i < height(self@),
            j < width(self@),
        ensures
            x == self@[i as int][j as int],
    {
        proof {
            use_type_invariant(self);
            assert(self.data.len() == self.data@.len());
            lemma_row_major(i as int, j as int, self.rows as int, self.cols as int);
        }
        self.data[i * self.cols + j]
    }

    /// The element in row `i`, column `j`, if there is one.
    pub fn get(&self, i: usize, j: usize) -> (x: Option<T>)
        ensures
            x == if i < height(self@) && j < width(self@) {
                Some(self@[i as int][j as int])
            } else {
                None
            },
    {
        if i < self.rows() && j < self.cols() {
            Some(self.cell(i, j))
        } else {
            None
        }
    }

    /// The matrix of one column that holds the elements of `v`, top to
    /// bottom. Fails on an empty vector, which has no shape.
    pub fn from_column_vector(v: &Vec<T>) -> (r: Result<Matrix<T>, NetworkError>)
        ensures
            match r {
                Ok(m) => v@.len() > 0 && m@ == column_of(v@),
                Err(e) => e == NetworkError::DimensionMismatch && v@.len() == 0,
            },
    {
        let n = v.len();
        if n == 0 {
            return Err(NetworkError::DimensionMismatch);
        }
        let mut data: Vec<T> = Vec::new();
        let mut i: usize = 0;
        while i < n
            invariant
                i <= n,
                n == v@.len(),
                data@.len() == i,
                forall|k: int| 0 <= k < i ==> #[trigger] data@[k] == v@[k],
            decreases n - i,
        {
            data.push(v[i]);
            i = i + 1;
        }
        let m = Matrix { rows: n, cols: 1, data };
        proof {
            assert forall|i: int| 0 <= i < v@.len() implies #[trigger] m@[i] == column_of(v@)[i] by {
                assert(m@[i] =~= seq![v@[i]]);
            }
            assert(m@ =~= column_of(v@));
        }
        Ok(m)
    }

    /// The elements of a matrix of one column, top to bottom. Fails when the
    /// matrix has more than one column.
    pub fn to_flat_vector(&self) -> (r: Result<Vec<T>, NetworkError>)
        ensures
            match r {
                Ok(v) => width(self@) == 1 && v@ == flattened(self@),
                Err(e) => e == NetworkError::DimensionMismatch && width(self@) != 1,
            },
    {
        if self.cols() != 1 {
            return Err(NetworkError::DimensionMismatch);
        }
        let n = self.rows();
        let mut v: Vec<T> = Vec::new();
        let mut i: usize = 0;
        while i < n
            invariant
                i <= n,
                n == height(self@),
                width(self@) == 1,
                v@.len() == i,
                forall|k: int| 0 <= k < i ==> #[trigger] v@[k] == self@[k][0],
            decreases n - i,
        {
            v.push(self.cell(i, 0));
            i = i + 1;
        }
        assert(v@ =~= flattened(self@));
        Ok(v)
    }

    /// Rows and columns exchanged.
    pub fn transpose(&self) -> (m: Matrix<T>)
        ensures
            m@ == transposed(self@),
            height(m@) == width(self@),
            width(m@) == height(self@),
    {
        let rows = self.cols();
        let cols = self.rows();
        let ghost g = transposed(self@);
        let mut data: Vec<T> = Vec::new();
        let mut i: usize = 0;
        while i < rows
            invariant
                i <= rows,
                rows == width(self@),
                cols == height(self@),
                is_grid(self@),
                g == transposed(self@),
                data@.len() == i * cols,
                forall|k: int|
                    0 <= k < data@.len() ==> #[trigger] data@[k] == g[k / (cols as int)][k % (
                    cols as int)],
            decreases rows - i,
        {
            let mut j: usize = 0;
            while j < cols
                invariant
                    i < rows,
                    j <= cols,
                    rows == width(self@),
                    cols == height(self@),
                    is_grid(self@),
                    g == transposed(self@),
                    data@.len() == i * cols + j,
                    forall|k: int|
                        0 <= k < data@.len() ==> #[trigger] data@[k] == g[k / (cols as int)][k % (
                        cols as int)],
                decreases cols - j,
            {
                proof {
                    lemma_row_major(i as int, j as int, rows as int, cols as int);
                }
                data.push(self.cell(j, i));
                j = j + 1;
            }
            assert(i * cols + cols == (i + 1) * cols) by (nonlinear_arith);
            i = i + 1;
        }
        proof {
            lemma_arranged_from_cells(data@, rows as nat, cols as nat, g);
        }
        Matrix { rows, cols, data }
    }

    /// `f` applied to every element; the shape stays.
    pub fn map<F: Fn(T) -> T>(&self, f: &F) -> (m: Matrix<T>)
        requires
            forall|i: int, j: int|
                0 <= i < height(self@) && 0 <= j < width(self@) ==> f.requires(
                    (#[trigger] self@[i][j],),
                ),
        ensures
            is_grid(m@),
            same_shape(m@, self@),
            forall|i: int, j: int|
                0 <= i < height(self@) && 0 <= j < width(self@) ==> f.ensures(
                    (self@[i][j],),
                    #[trigger] m@[i][j],
                ),
    {
        proof {
            use_type_invariant(self);
        }
        let n = self.data.len();
        let cols = self.cols;
        let mut data: Vec<T> = Vec::new();
        let mut k: usize = 0;
        while k < n
            invariant
                k <= n,
                n == self.data@.len(),
                n == self.rows * self.cols,
                self.rows > 0,
                self.cols > 0,
                data@.len() == k,
                forall|i: int, j: int|
                    0 <= i < height(self@) && 0 <= j < width(self@) ==> f.requires(
                        (#[trigger] self@[i][j],),
                    ),
                forall|q: int| 0 <= q < k ==> f.ensures((self.data@[q],), #[trigger] data@[q]),
            decreases n - k,
        {
            proof {
                let i = k as int / self.cols as int;
                let j = k as int % self.cols as int;
                lemma_flat_position(k as int, self.rows as int, self.cols as int);
                lemma_row_major(i, j, self.rows as int, self.cols as int);
                assert(self@[i][j] == self.data@[k as int]);
            }
            let y = f(self.data[k]);
            data.push(y);
            k = k + 1;
        }
        let m = Matrix { rows: self.rows, cols: self.cols, data };
        proof {
            assert forall|i: int, j: int|
                0 <= i < height(self@) && 0 <= j < width(self@) implies f.ensures(
                (self@[i][j],),
                #[trigger] m@[i][j],
            ) by {
                lemma_row_major(i, j, self.rows as int, self.cols as int);
            }
        }
        m
    }
}

/// Every position of a row-major vector is the position of one cell.
proof fn lemma_flat_position(k: int, rows: int, cols: int)
    requires
        0 <= k < rows * cols,
        cols > 0,
    ensures
        0 <= k / cols < rows,
        0 <= k % cols < cols,
        (k / cols) * cols + k % cols == k,
{
    vstd::arithmetic::div_mod::lemma_fundamental_div_mod(k, cols);
    vstd::arithmetic::div_mod::lemma_mod_pos_bound(k, cols);
    let q = k / cols;
    assert(cols * q == q * cols) by (nonlinear_arith);
    assert(q < rows) by (nonlinear_arith)
        requires
            q * cols + k % cols == k,
            0 <= k % cols,
            k < rows * cols,
            cols > 0,
    ;
    assert(0 <= q) by (nonlinear_arith)
        requires
            q * cols + k % cols == k,
            k % cols < cols,
            0 <= k,
            cols > 0,
    ;
}

impl<T: Scalar> Matrix<T> {
    /// Combines two matrices of one shape element by element.
    fn zip_with(&self, other: &Matrix<T>, op: Pairing) -> (r: Result<Matrix<T>, NetworkError>)
        ensures
            match r {
                Ok(m) => same_shape(self@, other@) && m@ == paired_grid(op, self@, other@),
                Err(e) => e == NetworkError::DimensionMismatch && !same_shape(self@, other@),
            },
    {
        proof {
            use_type_invariant(self);
            use_type_invariant(other);
        }
        if self.rows != other.rows || self.cols != other.cols {
            return Err(NetworkError::DimensionMismatch);
        }
        let n = self.data.len();
        let mut data: Vec<T> = Vec::new();
        let mut k: usize = 0;
        while k < n
            invariant
                k <= n,
                n == self.data@.len(),
                n == other.data@.len(),
                data@.len() == k,
                forall|q: int|
                    0 <= q < k ==> #[trigger] data@[q] == paired(
                        op,
                        self.data@[q],
                        other.data@[q],
                    ),
            decreases n - k,
        {
            let x = self.data[k];
            let y = other.data[k];
            let z = match op {
                Pairing::Sum => x.plus(y),
                Pairing::Difference => x.minus(y),
                Pairing::Product => x.times(y),
            };
            data.push(z);
            k = k + 1;
        }
        let m = Matrix { rows: self.rows, cols: self.cols, data };
        proof {
            let g = paired_grid(op, self@, other@);
            assert forall|i: int| 0 <= i < self.rows implies #[trigger] m@[i] == g[i] by {
                assert forall|j: int| 0 <= j < self.cols implies m@[i][j] == g[i][j] by {
                    lemma_row_major(i, j, self.rows as int, self.cols as int);
                }
                assert(m@[i] =~= g[i]);
            }
            assert(m@ =~= g);
        }
        Ok(m)
    }

    /// The elementwise sum. Fails unless both matrices have the same shape.
    pub fn add(&self, other: &Matrix<T>) -> (r: Result<Matrix<T>, NetworkError>)
        ensures
            match r {
                Ok(m) => same_shape(self@, other@) && m@ == sum_of(self@, other@),
                Err(e) => e == NetworkError::DimensionMismatch && !same_shape(self@, other@),
            },
    {
        let r = self.zip_with(other, Pairing::Sum);
        proof {
            assert(paired_grid(Pairing::Sum, self@, other@) =~~= sum_of(self@, other@));
        }
        r
    }

    /// The elementwise difference `self - other`. Fails unless both matrices
    /// have the same shape.
    pub fn subtract(&self, other: &Matrix<T>) -> (r: Result<Matrix<T>, NetworkError>)
        ensures
            match r {
                Ok(m) => same_shape(self@, other@) && m@ == difference_of(self@, other@),
                Err(e) => e == NetworkError::DimensionMismatch && !same_shape(self@, other@),
            },
    {
        let r = self.zip_with(other, Pairing::Difference);
        proof {
            assert(paired_grid(Pairing::Difference, self@, other@) =~~= difference_of(
                self@,
                other@,
            ));
        }
        r
    }

    /// The elementwise product. Fails unless both matrices have the same
    /// shape.
    pub fn hadamard(&self, other: &Matrix<T>) -> (r: Result<Matrix<T>, NetworkError>)
        ensures
            match r {
                Ok(m) => same_shape(self@, other@) && m@ == hadamard_of(self@, other@),
                Err(e) => e == NetworkError::DimensionMismatch && !same_shape(self@, other@),
            },
    {
        let r = self.zip_with(other, Pairing::Product);
        proof {
            assert(paired_grid(Pairing::Product, self@, other@) =~~= hadamard_of(self@, other@));
        }
        r
    }

    /// Every element multiplied from the left by `k`.
    pub fn scale(&self, k: T) -> (m: Matrix<T>)
        ensures
            m@ == scaled(k, self@),
    {
        proof {
            use_type_invariant(self);
        }
        let n = self.data.len();
        let mut data: Vec<T> = Vec::new();
        let mut q: usize = 0;
        while q < n
            invariant
                q <= n,
                n == self.data@.len(),
                data@.len() == q,
                forall|p: int| 0 <= p < q ==> #[trigger] data@[p] == k.product(self.data@[p]),
            decreases n - q,
        {
            data.push(k.times(self.data[q]));
            q = q + 1;
        }
        let m = Matrix { rows: self.rows, cols: self.cols, data };
        proof {
            let g = scaled(k, self@);
            assert forall|i: int| 0 <= i < self.rows implies #[trigger] m@[i] == g[i] by {
                assert forall|j: int| 0 <= j < self.cols implies m@[i][j] == g[i][j] by {
                    lemma_row_major(i, j, self.rows as int, self.cols as int);
                }
                assert(m@[i] =~= g[i]);
            }
            assert(m@ =~= g);
        }
        m
    }

    /// The dot product of row `i` of `self` with column `j` of `other`.
    fn dot_at(&self, other: &Matrix<T>, i: usize, j: usize) -> (acc: T)
        requires
            width(self@) == height(other@),
            i < height(self@),
            j < width(other@),
        ensures
            acc == dot(self@[i as int], column_at(other@, j as int), width(self@)),
    {
        let n = self.cols();
        let other_rows = other.rows();
        let mut acc = T::zero();
        let mut k: usize = 0;
        while k < n
            invariant
                k <= n,
                n == width(self@),
                n == height(other@),
                is_grid(self@),
                is_grid(other@),
                i < height(self@),
                j < width(other@),
                acc == dot(self@[i as int], column_at(other@, j as int), k as nat),
            decreases n - k,
        {
            let x = self.cell(i, k);
            let y = other.cell(k, j);
            acc = acc.plus(x.times(y));
            k = k + 1;
        }
        acc
    }

    /// The matrix product `self * other`. Fails unless `self` has as many
    /// columns as `other` has rows.
    pub fn multiply(&self, other: &Matrix<T>) -> (r: Result<Matrix<T>, NetworkError>)
        ensures
            match r {
                Ok(m) => {
                    &&& width(self@) == height(other@)
                    &&& m@ == product_of(self@, other@)
                    &&& height(m@) == height(self@)
                    &&& width(m@) == width(other@)
                },
                Err(e) => e == NetworkError::DimensionMismatch && width(self@) != height(other@),
            },
    {
        if self.cols() != other.rows() {
            return Err(NetworkError::DimensionMismatch);
        }
        let rows = self.rows();
        let cols = other.cols();
        let ghost g = product_of(self@, other@);
        let mut data: Vec<T> = Vec::new();
        let mut i: usize = 0;
        while i < rows
            invariant
                i <= rows,
                rows == height(self@),
                cols == width(other@),
                cols > 0,
                width(self@) == height(other@),
                g == product_of(self@, other@),
                data@.len() == i * cols,
                forall|k: int|
                    0 <= k < data@.len() ==> #[trigger] data@[k] == g[k / (cols as int)][k % (
                    cols as int)],
            decreases rows - i,
        {
            let mut j: usize = 0;
            while j < cols
                invariant
                    i < rows,
                    j <= cols,
                    rows == height(self@),
                    cols == width(other@),
                    width(self@) == height(other@),
                    g == product_of(self@, other@),
                    data@.len() == i * cols + j,
                    forall|k: int|
                        0 <= k < data@.len() ==> #[trigger] data@[k] == g[k / (cols as int)][k % (
                        cols as int)],
                decreases cols - j,
            {
                proof {
                    lemma_row_major(i as int, j as int, rows as int, cols as int);
                }
                data.push(self.dot_at(other, i, j));
                j = j + 1;
            }
            assert(i * cols + cols == (i + 1) * cols) by (nonlinear_arith);
            i = i + 1;
        }
        proof {
            lemma_arranged_from_cells(data@, rows as nat, cols as nat, g);
        }
        Ok(Matrix { rows, cols, data })
    }
}

} // verus!
