use vstd::prelude::*;

verus! {

/// The dimensions of a matrix stored in row-major order: element `(r, c)`
/// sits at position `r * col + c` of the data.
#[derive(Clone, Copy, Debug, PartialEq, Eq, Structural)]
pub struct Shape {
    pub row: usize,
    pub col: usize,
}

impl Shape {
    /// Number of elements a matrix of this shape holds.
    pub open spec fn spec_count(self) -> int {
        self.row * self.col
    }

    /// The element count fits in a `usize`, so the data can be allocated
    /// and every position can be computed without overflow.
    pub open spec fn fits(self) -> bool {
        self.spec_count() <= usize::MAX
    }

    /// Position of element `(r, c)` in the row-major data.
    pub open spec fn spec_index(self, r: int, c: int) -> int {
        r * self.col + c
    }

    /// `(r, c)` names an element of a matrix of this shape.
    pub open spec fn in_bounds(self, r: int, c: int) -> bool {
        0 <= r < self.row && 0 <= c < self.col
    }

    /// Shape of the product `self * rhs`, defined when the inner
    /// dimensions agree.
    pub open spec fn spec_product(self, rhs: Shape) -> Option<Shape> {
        if self.col == rhs.row {
            Some(Shape { row: self.row, col: rhs.col })
        } else {
            None
        }
    }

    /// Length of the vector `self * v` for a vector `v` of length `v_len`,
    /// defined when the vector has one entry per column.
    pub open spec fn spec_apply_len(self, v_len: int) -> Option<usize> {
        if self.col == v_len {
            Some(self.row)
        } else {
            None
        }
    }

    /// Number of elements, or `None` when it does not fit in a `usize`
    /// (a matrix of that shape cannot be allocated).
    pub fn element_count(&self) -> (n: Option<usize>)
        ensures
            n == (if self.fits() { Some(self.spec_count() as usize) } else { None::<usize> }),
            self.row * self.col <= usize::MAX ==> n == Some((self.row * self.col) as usize),
            self.row * self.col > usize::MAX ==> n is None,
    {
        self.row.checked_mul(self.col)
    }

    /// Position of element `(r, c)` in the row-major data of a matrix of
    /// this shape; it lies inside the data.
    pub fn index(&self, r: usize, c: usize) -> (i: usize)
        requires
            self.fits(),
            self.in_bounds(r as int, c as int),
        ensures
            i == self.spec_index(r as int, c as int),
            i == r * self.col + c,
            0 <= i < self.spec_count(),
    {
        proof {
            lemma_index_in_range(*self, r as int, c as int);
        }
        r * self.col + c
    }

    /// Shape of the matrix product `self * rhs`: `None` when the number of
    /// columns of `self` differs from the number of rows of `rhs`.
    pub fn product(&self, rhs: &Shape) -> (s: Option<Shape>)
        ensures
            s == self.spec_product(*rhs),
            self.col == rhs.row ==> s == Some(Shape { row: self.row, col: rhs.col }),
            self.col != rhs.row ==> s is None,
    {
        if self.col != rhs.row {
            None
        } else {
            Some(Shape { row: self.row, col: rhs.col })
        }
    }

    /// Length of the matrix-vector product `self * v` where `v` has
    /// `v_len` entries: `None` when `v_len` differs from the number of
    /// columns.
    pub fn apply_len(&self, v_len: usize) -> (n: Option<usize>)
        ensures
            n == self.spec_apply_len(v_len as int),
            self.col == v_len ==> n == Some(self.row),
            self.col != v_len ==> n is None,
    {
        if self.col != v_len {
            None
        } else {
            Some(self.row)
        }
    }
}

/// Every in-bounds element has a position inside the data:
/// `0 <= r * col + c < row * col`.
pub proof fn lemma_index_in_range(s: Shape, r: int, c: int)
    requires
        s.in_bounds(r, c),
    ensures
        0 <= s.spec_index(r, c) < s.spec_count(),
{
    let row = s.row as int;
    let col = s.col as int;
    assert(0 <= r * col) by (nonlinear_arith)
        requires
            0 <= r,
            0 <= col,
    ;
    assert(r * col + c < row * col) by (nonlinear_arith)
        requires
            0 <= r < row,
            0 <= c < col,
    ;
}

/// Distinct elements have distinct positions: the row-major layout never
/// stores two elements in the same place.
pub proof fn lemma_index_injective(s: Shape, r1: int, c1: int, r2: int, c2: int)
    requires
        s.in_bounds(r1, c1),
        s.in_bounds(r2, c2),
        s.spec_index(r1, c1) == s.spec_index(r2, c2),
    ensures
        r1 == r2,
        c1 == c2,
{
    let col = s.col as int;
    if r1 < r2 {
        assert(r1 * col + c1 < r2 * col) by (nonlinear_arith)
            requires
                r1 < r2,
                0 <= c1 < col,
        ;
        assert(false);
    } else if r2 < r1 {
        assert(r2 * col + c2 < r1 * col) by (nonlinear_arith)
            requires
                r2 < r1,
                0 <= c2 < col,
        ;
        assert(false);
    }
}

/// Every position of the data holds an element: position `k` is element
/// `(k / col, k % col)`.
pub proof fn lemma_index_covers(s: Shape, k: int)
    requires
        0 <= k < s.spec_count(),
    ensures
        s.col > 0,
        s.in_bounds(k / s.col as int, k % s.col as int),
        s.spec_index(k / s.col as int, k % s.col as int) == k,
{
    let row = s.row as int;
    let col = s.col as int;
    if col == 0 {
        assert(row * col == 0) by (nonlinear_arith)
            requires
                col == 0,
        ;
    }
    assert(col > 0);
    let q = k / col;
    let m = k % col;
    assert(k == q * col + m && 0 <= m < col) by (nonlinear_arith)
        requires
            col > 0,
            q == k / col,
            m == k % col,
    ;
    assert(0 <= q < row) by (nonlinear_arith)
        requires
            col > 0,
            0 <= k < row * col,
            k == q * col + m,
            0 <= m < col,
    ;
}

/// Shapes of a chained product agree however it is bracketed: `(a b) c`
/// is defined exactly when `a (b c)` is, and both have the same shape.
pub proof fn lemma_product_associative(a: Shape, b: Shape, c: Shape)
    ensures
        (match a.spec_product(b) {
            Some(ab) => ab.spec_product(c),
            None => None::<Shape>,
        }) == (match b.spec_product(c) {
            Some(bc) => a.spec_product(bc),
            None => None::<Shape>,
        }),
{
}

/// Multiplying by a vector agrees with multiplying by a one-column
/// matrix: the result has as many entries as the product has rows.
pub proof fn lemma_apply_is_product_with_column(a: Shape, v_len: usize)
    ensures
        a.spec_apply_len(v_len as int) == (match a.spec_product(Shape { row: v_len, col: 1 }) {
            Some(p) => Some(p.row),
            None => None::<usize>,
        }),
{
}

/// The product of an `a.row x a.col` matrix and a `b.row x b.col` matrix
/// is defined exactly when `a.col == b.row`, and then it has `a.row` rows
/// and `b.col` columns.
pub proof fn lemma_product_shape(a: Shape, b: Shape)
    ensures
        a.col == b.row ==> a.spec_product(b) == Some(Shape { row: a.row, col: b.col }),
        a.col != b.row ==> a.spec_product(b) is None,
        a.spec_product(b) matches Some(p) ==> p.row == a.row && p.col == b.col && a.col == b.row,
{
}

/// A matrix with `a.col` columns applies exactly to vectors of `a.col`
/// entries, and the result has one entry per row.
pub proof fn lemma_apply_len_shape(a: Shape, v_len: int)
    ensures
        a.col == v_len ==> a.spec_apply_len(v_len) == Some(a.row),
        a.col != v_len ==> a.spec_apply_len(v_len) is None,
{
}

/// Positions of the row-major layout: element `(0, 0)` is first, the
/// next column is one further, the next row is `col` further.
pub proof fn lemma_index_steps(s: Shape, r: int, c: int)
    ensures
        s.spec_index(0, 0) == 0,
        s.spec_index(r, c + 1) == s.spec_index(r, c) + 1,
        s.spec_index(r + 1, c) == s.spec_index(r, c) + s.col,
{
    assert((r + 1) * s.col == r * s.col + s.col) by (nonlinear_arith);
}

} // verus!
