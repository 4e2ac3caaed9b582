//! The mathematical model of a matrix: a non-empty sequence of rows of one
//! common, non-zero length.
use crate::scalar::Scalar;
use vstd::prelude::*;

verus! {

/// `g` is rectangular and has at least one row and one column.
pub open spec fn is_grid<T>(g: Seq<Seq<T>>) -> bool {
    &&& g.len() > 0
    &&& g[0].len() > 0
    &&& forall|i: int| 0 <= i < g.len() ==> (#[trigger] g[i]).len() == g[0].len()
}

/// The number of rows.
pub open spec fn height<T>(g: Seq<Seq<T>>) -> nat {
    g.len()
}

/// The number of columns.
pub open spec fn width<T>(g: Seq<Seq<T>>) -> nat {
    g[0].len()
}

/// `a` and `b` have the same number of rows and of columns.
pub open spec fn same_shape<T>(a: Seq<Seq<T>>, b: Seq<Seq<T>>) -> bool {
    height(a) == height(b) && width(a) == width(b)
}

/// The row-major arrangement of `cells` in `rows` rows of `cols` columns.
pub open spec fn arranged<T>(cells: Seq<T>, rows: nat, cols: nat) -> Seq<Seq<T>> {
    Seq::new(rows, |i: int| Seq::new(cols, |j: int| cells[i * cols + j]))
}

/// Column `j` of `g`, top to bottom.
pub open spec fn column_at<T>(g: Seq<Seq<T>>, j: int) -> Seq<T> {
    Seq::new(g.len(), |i: int| g[i][j])
}

/// Rows and columns exchanged.
pub open spec fn transposed<T>(g: Seq<Seq<T>>) -> Seq<Seq<T>> {
    Seq::new(width(g), |j: int| column_at(g, j))
}

/// The elementwise sum.
pub open spec fn sum_of<T: Scalar>(a: Seq<Seq<T>>, b: Seq<Seq<T>>) -> Seq<Seq<T>> {
    Seq::new(height(a), |i: int| Seq::new(width(a), |j: int| a[i][j].sum(b[i][j])))
}

/// The elementwise difference `a - b`.
pub open spec fn difference_of<T: Scalar>(a: Seq<Seq<T>>, b: Seq<Seq<T>>) -> Seq<Seq<T>> {
    Seq::new(height(a), |i: int| Seq::new(width(a), |j: int| a[i][j].difference(b[i][j])))
}

/// The elementwise (Hadamard) product.
pub open spec fn hadamard_of<T: Scalar>(a: Seq<Seq<T>>, b: Seq<Seq<T>>) -> Seq<Seq<T>> {
    Seq::new(height(a), |i: int| Seq::new(width(a), |j: int| a[i][j].product(b[i][j])))
}

/// Every element multiplied from the left by `k`.
pub open spec fn scaled<T: Scalar>(k: T, a: Seq<Seq<T>>) -> Seq<Seq<T>> {
    Seq::new(height(a), |i: int| Seq::new(width(a), |j: int| k.product(a[i][j])))
}

/// `f` applied to every element.
pub open spec fn mapped<T>(a: Seq<Seq<T>>, f: spec_fn(T) -> T) -> Seq<Seq<T>> {
    Seq::new(height(a), |i: int| Seq::new(width(a), |j: int| f(a[i][j])))
}

/// The sum of the first `n` products `x[k] * y[k]`, accumulated from zero in
/// index order.
pub open spec fn dot<T: Scalar>(x: Seq<T>, y: Seq<T>, n: nat) -> T
    decreases n,
{
    if n == 0 {
        T::zero_value()
    } else {
        dot(x, y, (n - 1) as nat).sum(x[n - 1].product(y[n - 1]))
    }
}

/// The matrix product: element `(i, j)` is the dot product of row `i` of `a`
/// with column `j` of `b`.
pub open spec fn product_of<T: Scalar>(a: Seq<Seq<T>>, b: Seq<Seq<T>>) -> Seq<Seq<T>> {
    Seq::new(
        height(a),
        |i: int| Seq::new(width(b), |j: int| dot(a[i], column_at(b, j), width(a))),
    )
}

/// The `n` by `n` matrix with ones on the diagonal and zeros elsewhere.
pub open spec fn identity<T: Scalar>(n: nat) -> Seq<Seq<T>> {
    Seq::new(
        n,
        |i: int|
            Seq::new(
                n,
                |j: int|
                    if i == j {
                        T::unit_value()
                    } else {
                        T::zero_value()
                    },
            ),
    )
}

/// `v` as a matrix of one column.
pub open spec fn column_of<T>(v: Seq<T>) -> Seq<Seq<T>> {
    Seq::new(v.len(), |i: int| seq![v[i]])
}

/// The first column of `g` as a flat sequence.
pub open spec fn flattened<T>(g: Seq<Seq<T>>) -> Seq<T> {
    column_at(g, 0)
}

/// Where cell `(i, j)` of a grid of `rows` by `cols` lies in row-major
/// order, and how to get `i` and `j` back from there.
pub proof fn lemma_row_major(i: int, j: int, rows: int, cols: int)
    requires
        0 <= i < rows,
        0 <= j < cols,
    ensures
        0 <= i * cols + j < rows * cols,
        (i * cols + j) / cols == i,
        (i * cols + j) % cols == j,
{
    assert(i * cols + j < rows * cols) by (nonlinear_arith)
        requires
            0 <= i < rows,
            0 <= j < cols,
    ;
    assert(0 <= i * cols) by (nonlinear_arith)
        requires
            0 <= i,
            0 < cols,
    ;
    vstd::arithmetic::div_mod::lemma_fundamental_div_mod_converse(i * cols + j, cols, i, j);
}

/// Transposing twice gives the matrix back, shape and values.
pub proof fn lemma_transpose_involutive<T>(g: Seq<Seq<T>>)
    requires
        is_grid(g),
    ensures
        is_grid(transposed(g)),
        height(transposed(g)) == width(g),
        width(transposed(g)) == height(g),
        transposed(transposed(g)) == g,
{
    let t = transposed(g);
    assert(t[0] == column_at(g, 0));
    assert forall|i: int| 0 <= i < t.len() implies (#[trigger] t[i]).len() == t[0].len() by {
        assert(t[i] == column_at(g, i));
    }
    let tt = transposed(t);
    assert(tt.len() == g.len());
    assert forall|i: int| 0 <= i < g.len() implies #[trigger] tt[i] == g[i] by {
        assert(tt[i] == column_at(t, i));
        assert(tt[i].len() == g[i].len());
        assert forall|j: int| 0 <= j < g[i].len() implies tt[i][j] == g[i][j] by {
            assert(t[j] == column_at(g, j));
        }
        assert(tt[i] =~= g[i]);
    }
    assert(tt =~= g);
}

/// Against a column that is one at `j` and zero elsewhere, the dot product
/// of `x` picks `x[j]` once `j` is among the first `n` positions.
proof fn lemma_dot_picks<T: Scalar>(x: Seq<T>, e: Seq<T>, j: int, n: nat)
    requires
        crate::scalar::has_identities::<T>(),
        0 <= j,
        n <= x.len(),
        n <= e.len(),
        forall|k: int|
            0 <= k < n ==> #[trigger] e[k] == if k == j {
                T::unit_value()
            } else {
                T::zero_value()
            },
    ensures
        dot(x, e, n) == if j < n {
            x[j]
        } else {
            T::zero_value()
        },
    decreases n,
{
    if n > 0 {
        lemma_dot_picks(x, e, j, (n - 1) as nat);
    }
}

/// Against a row that is one at `i` and zero elsewhere, the dot product with
/// `y` picks `y[i]` once `i` is among the first `n` positions.
proof fn lemma_dot_picked<T: Scalar>(e: Seq<T>, y: Seq<T>, i: int, n: nat)
    requires
        crate::scalar::has_identities::<T>(),
        0 <= i,
        n <= y.len(),
        n <= e.len(),
        forall|k: int|
            0 <= k < n ==> #[trigger] e[k] == if k == i {
                T::unit_value()
            } else {
                T::zero_value()
            },
    ensures
        dot(e, y, n) == if i < n {
            y[i]
        } else {
            T::zero_value()
        },
    decreases n,
{
    if n > 0 {
        lemma_dot_picked(e, y, i, (n - 1) as nat);
    }
}

/// Where zero and one are identities of the scalar arithmetic, multiplying a
/// matrix by the identity matrix that fits it, from the right or from the
/// left, gives the matrix back.
pub proof fn lemma_multiply_identity<T: Scalar>(a: Seq<Seq<T>>)
    requires
        is_grid(a),
        crate::scalar::has_identities::<T>(),
    ensures
        product_of(a, identity::<T>(width(a))) == a,
        product_of(identity::<T>(height(a)), a) == a,
{
    let w = width(a);
    let h = height(a);
    let right = product_of(a, identity::<T>(w));
    assert forall|i: int| 0 <= i < h implies #[trigger] right[i] == a[i] by {
        assert forall|j: int| 0 <= j < w implies right[i][j] == a[i][j] by {
            lemma_dot_picks(a[i], column_at(identity::<T>(w), j), j, w);
        }
        assert(right[i] =~= a[i]);
    }
    assert(right =~= a);
    let left = product_of(identity::<T>(h), a);
    assert forall|i: int| 0 <= i < h implies #[trigger] left[i] == a[i] by {
        assert forall|j: int| 0 <= j < w implies left[i][j] == a[i][j] by {
            lemma_dot_picked(identity::<T>(h)[i], column_at(a, j), i, h);
        }
        assert(left[i] =~= a[i]);
    }
    assert(left =~= a);
}

} // verus!
