use vstd::prelude::*;

verus! {

/// Axis of a rotation.
#[derive(Copy, Clone, Debug, PartialEq, Eq, Structural)]
pub enum Axis {
    X,
    Y,
    Z,
}

/// A dense row-major matrix. The entry at `(row, col)` is stored at
/// `col + row * cols`.
#[derive(Clone, Debug, PartialEq)]
pub struct Matrix<T> {
    rows: usize,
    cols: usize,
    data: Vec<T>,
}

proof fn lemma_index_in_bounds(r: int, c: int, rows: int, cols: int)
    requires
        0 <= r < rows,
        0 <= c < cols,
    ensures
        0 <= r * cols + c < rows * cols,
        r * cols + c + 1 <= rows * cols,
{
    assert((r + 1) * cols <= rows * cols) by (nonlinear_arith)
        requires
            0 <= r < rows,
            0 <= c < cols,
    ;
    assert(r * cols >= 0) by (nonlinear_arith)
        requires
            0 <= r,
            0 <= c < cols,
    ;
    assert((r + 1) * cols == r * cols + cols) by (nonlinear_arith);
}

proof fn lemma_product_bounds(rows: int, cols: int)
    requires
        rows >= 0,
        cols >= 0,
    ensures
        rows * cols >= 0,
        rows >= 1 ==> (rows - 1) * cols <= rows * cols,
        cols >= 1 ==> rows * (cols - 1) <= rows * cols,
        rows >= 1 && cols >= 1 ==> (rows - 1) * (cols - 1) <= rows * cols,
        cols * rows == rows * cols,
{
    assert(rows * cols >= 0) by (nonlinear_arith)
        requires
            rows >= 0,
            cols >= 0,
    ;
    assert(rows >= 1 ==> (rows - 1) * cols <= rows * cols) by (nonlinear_arith)
        requires
            cols >= 0,
    ;
    assert(cols >= 1 ==> rows * (cols - 1) <= rows * cols) by (nonlinear_arith)
        requires
            rows >= 0,
    ;
    assert(rows >= 1 && cols >= 1 ==> (rows - 1) * (cols - 1) <= rows * cols) by (nonlinear_arith);
    assert(cols * rows == rows * cols) by (nonlinear_arith);
}

impl<T: Copy> Matrix<T> {
    /// Number of rows.
    pub closed spec fn num_rows(&self) -> nat {
        self.rows as nat
    }

    /// Number of columns.
    pub closed spec fn num_cols(&self) -> nat {
        self.cols as nat
    }

    /// The entry at `(r, c)`.
    pub closed spec fn entry(&self, r: int, c: int) -> T {
        self.data@[r * self.cols + c]
    }

    /// Storage holds exactly one entry per cell.
    pub closed spec fn wf(&self) -> bool {
        self.data.len() == self.rows * self.cols
    }

    /// A `rows` by `cols` matrix with every entry `fill`.
    pub fn new(rows: usize, cols: usize, fill: T) -> (m: Matrix<T>)
        requires
            rows * cols <= usize::MAX,
        ensures
            m.wf(),
            m.num_rows() == rows,
            m.num_cols() == cols,
            forall|r: int, c: int| 0 <= r < rows && 0 <= c < cols ==> #[trigger] m.entry(r, c) == fill,
    {
        proof {
            lemma_product_bounds(rows as int, cols as int);
        }
        let n = rows * cols;
        let mut data: Vec<T> = Vec::new();
        let mut i: usize = 0;
        while i < n
            invariant
                i <= n,
                data.len() == i,
                forall|j: int| 0 <= j < i ==> #[trigger] data@[j] == fill,
            decreases n - i,
        {
            data.push(fill);
            i = i + 1;
        }
        let m = Matrix { rows, cols, data };
        proof {
            assert forall|r: int, c: int| 0 <= r < rows && 0 <= c < cols implies #[trigger] m.entry(r, c) == fill by {
                lemma_index_in_bounds(r, c, rows as int, cols as int);
            }
        }
        m
    }

    /// The `size` by `size` identity matrix over the given zero and one.
    pub fn identity(size: usize, zero: T, one: T) -> (m: Matrix<T>)
        requires
            size * size <= usize::MAX,
        ensures
            m.wf(),
            m.num_rows() == size,
            m.num_cols() == size,
            forall|r: int, c: int| 0 <= r < size && 0 <= c < size ==> #[trigger] m.entry(r, c) == if r == c { one } else { zero },
    {
        let mut m = Matrix::new(size, size, zero);
        let mut k: usize = 0;
        while k < size
            invariant
                k <= size,
                size * size <= usize::MAX,
                m.wf(),
                m.num_rows() == size,
                m.num_cols() == size,
                forall|r: int, c: int| 0 <= r < size && 0 <= c < size ==> #[trigger] m.entry(r, c) == if r == c && r < k { one } else { zero },
            decreases size - k,
        {
            m.set(k, k, one);
            k = k + 1;
        }
        m
    }

    /// A `rows` by `cols` matrix filled row by row from the first
    /// `rows * cols` items of `data`.
    pub fn from_iter(rows: usize, cols: usize, data: Vec<T>) -> (m: Matrix<T>)
        requires
            rows * cols <= usize::MAX,
            data.len() >= rows * cols,
        ensures
            m.wf(),
            m.num_rows() == rows,
            m.num_cols() == cols,
            forall|r: int, c: int| 0 <= r < rows && 0 <= c < cols ==> #[trigger] m.entry(r, c) == data@[r * cols + c],
    {
        proof {
            lemma_product_bounds(rows as int, cols as int);
        }
        let mut kept = data;
        kept.truncate(rows * cols);
        let m = Matrix { rows, cols, data: kept };
        proof {
            assert forall|r: int, c: int| 0 <= r < rows && 0 <= c < cols implies #[trigger] m.entry(r, c) == data@[r * cols + c] by {
                lemma_index_in_bounds(r, c, rows as int, cols as int);
            }
        }
        m
    }

    /// Number of rows.
    pub fn rows(&self) -> (r: usize)
        ensures
            r == self.num_rows(),
    {
        self.rows
    }

    /// Number of columns.
    pub fn cols(&self) -> (r: usize)
        ensures
            r == self.num_cols(),
    {
        self.cols
    }

    /// The entry at `(row, col)`, or `None` outside the matrix.
    pub fn get(&self, row: usize, col: usize) -> (r: Option<T>)
        requires
            self.wf(),
        ensures
            row < self.num_rows() && col < self.num_cols() ==> r == Some(self.entry(row as int, col as int)),
            !(row < self.num_rows() && col < self.num_cols()) ==> r is None,
    {
        if col < self.cols && row < self.rows {
            proof {
                lemma_index_in_bounds(row as int, col as int, self.rows as int, self.cols as int);
            }
            Some(self.data[col + row * self.cols])
        } else {
            None
        }
    }

    /// Replaces the entry at `(row, col)`; returns whether it lies inside the
    /// matrix. Outside it nothing changes.
    pub fn set(&mut self, row: usize, col: usize, item: T) -> (ok: bool)
        requires
            old(self).wf(),
        ensures
            ok == (row < old(self).num_rows() && col < old(self).num_cols()),
            final(self).wf(),
            final(self).num_rows() == old(self).num_rows(),
            final(self).num_cols() == old(self).num_cols(),
            forall|r: int, c: int| 0 <= r < old(self).num_rows() && 0 <= c < old(self).num_cols() ==> #[trigger] final(self).entry(r, c) == if ok && r == row && c == col { item } else { old(self).entry(r, c) },
    {
        if col < self.cols && row < self.rows {
            proof {
                lemma_index_in_bounds(row as int, col as int, self.rows as int, self.cols as int);
            }
            let i = col + row * self.cols;
            self.data.set(i, item);
            proof {
                assert forall|r: int, c: int| 0 <= r < self.rows && 0 <= c < self.cols implies #[trigger] self.entry(r, c) == if r == row && c == col { item } else { old(self).entry(r, c) } by {
                    lemma_index_in_bounds(r, c, self.rows as int, self.cols as int);
                    if r * self.cols + c == i as int && !(r == row && c == col) {
                        lemma_distinct_cells(r, c, row as int, col as int, self.cols as int);
                    }
                }
            }
            true
        } else {
            false
        }
    }
    /// The entries of row `row`, left to right, or `None` past the last row.
    pub fn get_row(&self, row: usize) -> (r: Option<Vec<T>>)
        requires
            self.wf(),
        ensures
            row >= self.num_rows() ==> r is None,
            row < self.num_rows() ==> (r matches Some(v) && v.len() == self.num_cols()
                && forall|c: int| 0 <= c < self.num_cols() ==> #[trigger] v@[c] == self.entry(row as int, c)),
    {
        if row >= self.rows {
            return None;
        }
        let mut v: Vec<T> = Vec::new();
        let mut c: usize = 0;
        while c < self.cols
            invariant
                self.wf(),
                row < self.rows,
                c <= self.cols,
                v.len() == c,
                forall|k: int| 0 <= k < c ==> #[trigger] v@[k] == self.entry(row as int, k),
            decreases self.cols - c,
        {
            proof {
                lemma_index_in_bounds(row as int, c as int, self.rows as int, self.cols as int);
            }
            v.push(self.data[c + row * self.cols]);
            c = c + 1;
        }
        Some(v)
    }

    /// The entries of column `col`, top to bottom, or `None` past the last
    /// column.
    pub fn get_col(&self, col: usize) -> (r: Option<Vec<T>>)
        requires
            self.wf(),
        ensures
            col >= self.num_cols() ==> r is None,
            col < self.num_cols() ==> (r matches Some(v) && v.len() == self.num_rows()
                && forall|k: int| 0 <= k < self.num_rows() ==> #[trigger] v@[k] == self.entry(k, col as int)),
    {
        if col >= self.cols {
            return None;
        }
        let mut v: Vec<T> = Vec::new();
        let mut k: usize = 0;
        while k < self.rows
            invariant
                self.wf(),
                col < self.cols,
                k <= self.rows,
                v.len() == k,
                forall|j: int| 0 <= j < k ==> #[trigger] v@[j] == self.entry(j, col as int),
            decreases self.rows - k,
        {
            proof {
                lemma_index_in_bounds(k as int, col as int, self.rows as int, self.cols as int);
            }
            v.push(self.data[col + k * self.cols]);
            k = k + 1;
        }
        Some(v)
    }

    /// The transpose: entry `(r, c)` of the result is entry `(c, r)` of `self`.
    pub fn transpose(&self) -> (m: Matrix<T>)
        requires
            self.wf(),
        ensures
            m.wf(),
            m.num_rows() == self.num_cols(),
            m.num_cols() == self.num_rows(),
            forall|r: int, c: int| 0 <= r < m.num_rows() && 0 <= c < m.num_cols() ==> #[trigger] m.entry(r, c) == self.entry(c, r),
    {
        proof {
            lemma_product_bounds(self.rows as int, self.cols as int);
        }
        let mut data: Vec<T> = Vec::new();
        let mut r: usize = 0;
        while r < self.cols
            invariant
                self.wf(),
                r <= self.cols,
                data.len() == r * self.rows,
                forall|i: int, j: int| 0 <= i < r && 0 <= j < self.rows ==> #[trigger] data@[i * self.rows + j] == self.entry(j, i),
            decreases self.cols - r,
        {
            let mut c: usize = 0;
            while c < self.rows
                invariant
                    self.wf(),
                    r < self.cols,
                    c <= self.rows,
                    data.len() == r * self.rows + c,
                    forall|i: int, j: int| 0 <= i < r && 0 <= j < self.rows ==> #[trigger] data@[i * self.rows + j] == self.entry(j, i),
                    forall|j: int| 0 <= j < c ==> #[trigger] data@[r * self.rows + j] == self.entry(j, r as int),
                decreases self.rows - c,
            {
                proof {
                    lemma_index_in_bounds(c as int, r as int, self.rows as int, self.cols as int);
                    lemma_index_in_bounds(r as int, c as int, self.cols as int, self.rows as int);
                    lemma_product_bounds(self.rows as int, self.cols as int);
                }
                let x = self.data[r + c * self.cols];
                data.push(x);
                proof {
                    assert forall|i: int, j: int| 0 <= i < r && 0 <= j < self.rows implies #[trigger] data@[i * self.rows + j] == self.entry(j, i) by {
                        lemma_index_in_bounds(i, j, r as int, self.rows as int);
                    }
                }
                c = c + 1;
            }
            proof {
                assert((r + 1) * self.rows == r * self.rows + self.rows) by (nonlinear_arith);
                assert forall|i: int, j: int| 0 <= i < r + 1 && 0 <= j < self.rows implies #[trigger] data@[i * self.rows + j] == self.entry(j, i) by {
                }
            }
            r = r + 1;
        }
        let m = Matrix { rows: self.cols, cols: self.rows, data };
        proof {
            lemma_product_bounds(self.rows as int, self.cols as int);
        }
        m
    }

    /// The matrix with row `row` and column `col` taken out.
    pub fn submatrix(&self, row: usize, col: usize) -> (m: Matrix<T>)
        requires
            self.wf(),
            row < self.num_rows(),
            col < self.num_cols(),
        ensures
            m.wf(),
            m.num_rows() == self.num_rows() - 1,
            m.num_cols() == self.num_cols() - 1,
            forall|r: int, c: int| 0 <= r < m.num_rows() && 0 <= c < m.num_cols() ==> #[trigger] m.entry(r, c) == self.entry(
                if r < row { r } else { r + 1 },
                if c < col { c } else { c + 1 },
            ),
    {
        let ghost nr = (self.rows - 1) as int;
        let ghost nc = (self.cols - 1) as int;
        proof {
            lemma_product_bounds(self.rows as int, self.cols as int);
        }
        let mut data: Vec<T> = Vec::new();
        let mut r: usize = 0;
        while r < self.rows
            invariant
                self.wf(),
                row < self.rows,
                col < self.cols,
                nr == self.rows - 1,
                nc == self.cols - 1,
                r <= self.rows,
                data.len() == (if r <= row { r as int } else { r - 1 }) * nc,
                forall|i: int, j: int| 0 <= i < (if r <= row { r as int } else { r - 1 }) && 0 <= j < nc ==> #[trigger] data@[i * nc + j] == self.entry(
                    if i < row { i } else { i + 1 },
                    if j < col { j } else { j + 1 },
                ),
            decreases self.rows - r,
        {
            if r != row {
                let ghost done = if r < row { r as int } else { r - 1 };
                let mut c: usize = 0;
                while c < self.cols
                    invariant
                        self.wf(),
                        row < self.rows,
                        col < self.cols,
                        r < self.rows,
                        r != row,
                        nr == self.rows - 1,
                        nc == self.cols - 1,
                        done == if r < row { r as int } else { r - 1 },
                        c <= self.cols,
                        data.len() == done * nc + (if c <= col { c as int } else { c - 1 }),
                        forall|i: int, j: int| 0 <= i < done && 0 <= j < nc ==> #[trigger] data@[i * nc + j] == self.entry(
                            if i < row { i } else { i + 1 },
                            if j < col { j } else { j + 1 },
                        ),
                        forall|j: int| 0 <= j < (if c <= col { c as int } else { c - 1 }) ==> #[trigger] data@[done * nc + j] == self.entry(
                            r as int,
                            if j < col { j } else { j + 1 },
                        ),
                    decreases self.cols - c,
                {
                    if c != col {
                        proof {
                            lemma_index_in_bounds(r as int, c as int, self.rows as int, self.cols as int);
                        }
                        let x = self.data[c + r * self.cols];
                        data.push(x);
                        proof {
                            assert forall|i: int, j: int| 0 <= i < done && 0 <= j < nc implies #[trigger] data@[i * nc + j] == self.entry(
                                if i < row { i } else { i + 1 },
                                if j < col { j } else { j + 1 },
                            ) by {
                                lemma_index_in_bounds(i, j, done, nc);
                            }
                        }
                    }
                    c = c + 1;
                }
                proof {
                    assert((done + 1) * nc == done * nc + nc) by (nonlinear_arith);
                    assert forall|i: int, j: int| 0 <= i < done + 1 && 0 <= j < nc implies #[trigger] data@[i * nc + j] == self.entry(
                        if i < row { i } else { i + 1 },
                        if j < col { j } else { j + 1 },
                    ) by {
                    }
                }
            }
            r = r + 1;
        }
        let m = Matrix { rows: self.rows - 1, cols: self.cols - 1, data };
        m
    }

}

proof fn lemma_distinct_cells(r1: int, c1: int, r2: int, c2: int, cols: int)
    requires
        0 <= c1 < cols,
        0 <= c2 < cols,
        0 <= r1,
        0 <= r2,
        r1 * cols + c1 == r2 * cols + c2,
    ensures
        r1 == r2,
        c1 == c2,
{
    if r1 < r2 {
        assert(r1 * cols + cols <= r2 * cols) by (nonlinear_arith)
            requires
                r1 < r2,
                cols >= 0,
        ;
    } else if r2 < r1 {
        assert(r2 * cols + cols <= r1 * cols) by (nonlinear_arith)
            requires
                r2 < r1,
                cols >= 0,
        ;
    }
}

} // verus!
