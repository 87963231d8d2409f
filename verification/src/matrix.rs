//! The dense matrix and the Gaussian elimination solver.

use vstd::prelude::*;

use crate::error::{CalculationError, ErrorReason};
use crate::rational::{
    frac_abs, frac_add, frac_div, frac_eq, frac_int, frac_is_zero, frac_mul, frac_sub, frac_wf,
    lemma_frac_add_wf, lemma_frac_div_wf, lemma_frac_mul_wf, lemma_frac_sub_wf, Frac, Scalar,
};

verus! {

broadcast use lemma_frac_add_wf, lemma_frac_sub_wf, lemma_frac_mul_wf, lemma_frac_div_wf;

/// The last column of each of the first `rows` rows: the right-hand side
/// `b` of an augmented matrix `[A | b]` with `cols` columns.
pub open spec fn rhs_of(m: Seq<Seq<Frac>>, rows: int, cols: int) -> Seq<Frac> {
    Seq::new(rows as nat, |i: int| m[i][cols - 1])
}

/// The first column of the first `rows` rows of `m`, as a sequence.
pub open spec fn column_of(m: Seq<Seq<Frac>>, rows: int) -> Seq<Frac> {
    Seq::new(rows as nat, |k: int| m[k][0])
}

/// The dot product of the first `k` entries of `x` with the first `k`
/// entries of `row`, accumulated left to right from zero.
pub open spec fn dot_prefix(row: Seq<Frac>, x: Seq<Frac>, k: int) -> Frac
    decreases k,
{
    if k <= 0 {
        frac_int(0)
    } else {
        frac_add(dot_prefix(row, x, k - 1), frac_mul(x[k - 1], row[k - 1]))
    }
}

/// One row operation: from column `from` on, subtract `factor` times the
/// pivot row from the target row; earlier columns stay.
pub open spec fn row_sub_scaled(target: Seq<Frac>, pivot: Seq<Frac>, factor: Frac, from: int) -> Seq<Frac> {
    Seq::new(
        target.len(),
        |c: int| if c >= from { frac_sub(target[c], frac_mul(factor, pivot[c])) } else { target[c] },
    )
}

/// One forward-elimination step: clear column `row` of row `tgt + 1` using
/// pivot row `row`, touching only columns `row` and beyond. Meaningful only
/// when the pivot `m[row][row]` is not zero.
pub open spec fn echelon_step(m: Seq<Seq<Frac>>, row: int, tgt: int) -> Seq<Seq<Frac>> {
    m.update(
        tgt + 1,
        row_sub_scaled(m[tgt + 1], m[row], frac_div(m[tgt + 1][row], m[row][row]), row),
    )
}

/// The forward phase, resumed at pivot row `i`, target counter `j`: for
/// each pivot row `i` from `0` to `rows - 2` and each `j` from `i` to
/// `rows - 2`, one [`echelon_step`] on `(i, j)`; `None` as soon as a pivot
/// `m[i][i]` is zero.
pub open spec fn forward_phase(m: Seq<Seq<Frac>>, i: int, j: int, rows: int) -> Option<Seq<Seq<Frac>>>
    decreases rows - i, rows - j,
{
    if i >= rows - 1 {
        Some(m)
    } else if j >= rows - 1 {
        forward_phase(m, i + 1, i + 1, rows)
    } else if frac_is_zero(m[i][i]) {
        None
    } else {
        forward_phase(echelon_step(m, i, j), i, j + 1, rows)
    }
}

/// The rows `j - 1` down to `0` cleared against pivot row `i`, each by one
/// whole-row [`row_sub_scaled`] with the factor `m[j - 1][i] / m[i][i]`.
pub open spec fn backward_rows(m: Seq<Seq<Frac>>, i: int, j: int) -> Seq<Seq<Frac>>
    decreases j,
{
    if j <= 0 {
        m
    } else {
        backward_rows(
            m.update(j - 1, row_sub_scaled(m[j - 1], m[i], frac_div(m[j - 1][i], m[i][i]), 0)),
            i,
            j - 1,
        )
    }
}

/// The backward phase, resumed at pivot row `i`: for `i` down to `1`,
/// clear the rows above `i` with [`backward_rows`]; `None` as soon as a
/// pivot `m[i][i]` is zero.
pub open spec fn backward_phase(m: Seq<Seq<Frac>>, i: int) -> Option<Seq<Seq<Frac>>>
    decreases i,
{
    if i <= 0 {
        Some(m)
    } else if frac_is_zero(m[i][i]) {
        None
    } else {
        backward_phase(backward_rows(m, i, i), i - 1)
    }
}

/// Every diagonal element of the first `rows` rows is nonzero.
pub open spec fn diag_ok(m: Seq<Seq<Frac>>, rows: int) -> bool {
    forall|i: int| 0 <= i < rows ==> !frac_is_zero(#[trigger] m[i][i])
}

/// The solution read off a diagonal-form augmented matrix: row `i` of the
/// solution is `m[i][rows] / m[i][i]`.
pub open spec fn extract_solution(m: Seq<Seq<Frac>>, rows: int) -> Seq<Frac> {
    Seq::new(rows as nat, |i: int| frac_div(m[i][rows], m[i][i]))
}

/// The whole pipeline on an augmented `rows x (rows + 1)` matrix: forward
/// elimination, backward elimination, then extraction, each failing on a
/// zero pivot. `Some` holds the solution column.
pub open spec fn gauss_spec(m: Seq<Seq<Frac>>, rows: int) -> Option<Seq<Frac>> {
    match forward_phase(m, 0, 0, rows) {
        None => None,
        Some(m1) => match backward_phase(m1, rows - 1) {
            None => None,
            Some(m2) => if diag_ok(m2, rows) {
                Some(extract_solution(m2, rows))
            } else {
                None
            },
        },
    }
}

/// The solution the pipeline yields, where it yields one.
pub open spec fn gauss_result(m: Seq<Seq<Frac>>, rows: int) -> Seq<Frac> {
    match gauss_spec(m, rows) {
        Some(x) => x,
        None => Seq::empty(),
    }
}

/// A dense matrix of exact rational scalars, `rows` by `cols`, row-major.
pub struct Matrix {
    matrix: Vec<Vec<Scalar>>,
    rows: usize,
    cols: usize,
}

impl Matrix {
    /// The ghost contents: one fraction per element, row by row.
    pub closed spec fn vals(self) -> Seq<Seq<Frac>> {
        Seq::new(self.matrix@.len(), |i: int| Seq::new(self.matrix@[i]@.len(), |j: int| self.matrix@[i]@[j].frac@))
    }

    /// Well-formedness: the stated shape matches the storage, and every
    /// element is a well-formed fraction.
    pub open spec fn wf(self) -> bool {
        &&& self.vals().len() == self.spec_rows()
        &&& forall|i: int| 0 <= i < self.vals().len() ==> (#[trigger] self.vals()[i]).len() == self.spec_cols()
        &&& forall|i: int, j: int|
            0 <= i < self.vals().len() && 0 <= j < self.vals()[i].len() ==> frac_wf(
                #[trigger] self.vals()[i][j],
            )
    }

    /// A zero-filled matrix of the given shape.
    pub fn new(rows: usize, cols: usize) -> (r: Matrix)
        ensures
            r.wf(),
            r.spec_rows() == rows,
            r.spec_cols() == cols,
            forall|i: int, j: int| 0 <= i < rows && 0 <= j < cols ==> r.vals()[i][j] == frac_int(0),
    {
        let mut matrix: Vec<Vec<Scalar>> = Vec::new();
        let mut i: usize = 0;
        while i < rows
            invariant
                matrix@.len() == i,
                i <= rows,
                forall|p: int| 0 <= p < i ==> (#[trigger] matrix@[p])@.len() == cols,
                forall|p: int, q: int|
                    0 <= p < i && 0 <= q < cols ==> (#[trigger] matrix@[p]@[q]).frac@ == frac_int(0),
            decreases rows - i,
        {
            let mut row: Vec<Scalar> = Vec::new();
            let mut j: usize = 0;
            while j < cols
                invariant
                    row@.len() == j,
                    j <= cols,
                    forall|q: int| 0 <= q < j ==> (#[trigger] row@[q]).frac@ == frac_int(0),
                decreases cols - j,
            {
                row.push(Scalar::zero());
                j += 1;
            }
            matrix.push(row);
            i += 1;
        }
        Matrix { matrix, rows, cols }
    }

    /// A zero-filled column: `size` rows, one column.
    pub fn new_column_matrix(size: usize) -> (r: Matrix)
        ensures
            r.wf(),
            r.spec_rows() == size,
            r.spec_cols() == 1,
            forall|i: int| 0 <= i < size ==> r.vals()[i][0] == frac_int(0),
    {
        Self::new(size, 1)
    }

    /// The number of rows, as the contracts see it.
    pub closed spec fn spec_rows(self) -> usize {
        self.rows
    }

    /// The number of columns, as the contracts see it.
    pub closed spec fn spec_cols(self) -> usize {
        self.cols
    }

    pub fn rows(&self) -> (r: usize)
        ensures
            r == self.spec_rows(),
    {
        self.rows
    }

    pub fn cols(&self) -> (r: usize)
        ensures
            r == self.spec_cols(),
    {
        self.cols
    }

    /// Reads the element at row `r`, column `c`.
    pub fn get(&self, r: usize, c: usize) -> (x: &Scalar)
        requires
            self.wf(),
            r < self.spec_rows(),
            c < self.spec_cols(),
        ensures
            x.frac@ == self.vals()[r as int][c as int],
            x.wf(),
    {
        proof {
            assert(self.vals()[r as int].len() == self.matrix@[r as int]@.len());
            assert(self.vals()[r as int][c as int] == self.matrix@[r as int]@[c as int].frac@);
        }
        &self.matrix[r][c]
    }

    /// Overwrites the element at row `r`, column `c`.
    pub fn set(&mut self, r: usize, c: usize, v: Scalar)
        requires
            old(self).wf(),
            r < old(self).spec_rows(),
            c < old(self).spec_cols(),
            v.wf(),
        ensures
            final(self).wf(),
            final(self).spec_rows() == old(self).spec_rows(),
            final(self).spec_cols() == old(self).spec_cols(),
            final(self).vals() == old(self).vals().update(
                r as int,
                old(self).vals()[r as int].update(c as int, v.frac@),
            ),
    {
        proof {
            assert(self.vals()[r as int].len() == self.matrix@[r as int]@.len());
        }
        self.matrix[r][c] = v;
        proof {
            assert(self.vals() =~~= old(self).vals().update(
                r as int,
                old(self).vals()[r as int].update(c as int, v.frac@),
            ));
        }
    }

    /// What matrix equality means: the same shape, and element by element
    /// the same number (fractions compared as numbers, not representations).
    pub open spec fn eq_spec(self, other: Matrix) -> bool {
        &&& self.spec_rows() == other.spec_rows()
        &&& self.spec_cols() == other.spec_cols()
        &&& forall|i: int, j: int|
            0 <= i < self.spec_rows() && 0 <= j < self.spec_cols() ==> frac_eq(
                #[trigger] self.vals()[i][j],
                #[trigger] other.vals()[i][j],
            )
    }

    /// Equality test: same shape and all elements equal, exactly.
    pub fn eq_matrix(&self, other: &Matrix) -> (r: bool)
        requires
            self.wf(),
            other.wf(),
        ensures
            r == self.eq_spec(*other),
    {
        if self.rows != other.rows || self.cols != other.cols {
            return false;
        }
        let mut i: usize = 0;
        while i < self.rows
            invariant
                self.wf(),
                other.wf(),
                i <= self.spec_rows(),
                self.spec_rows() == other.spec_rows(),
                self.spec_cols() == other.spec_cols(),
                forall|p: int, q: int|
                    0 <= p < i && 0 <= q < self.spec_cols() ==> frac_eq(
                        #[trigger] self.vals()[p][q],
                        #[trigger] other.vals()[p][q],
                    ),
            decreases self.spec_rows() - i,
        {
            let mut j: usize = 0;
            while j < self.cols
                invariant
                    self.wf(),
                    other.wf(),
                    i < self.spec_rows(),
                    j <= self.spec_cols(),
                    self.spec_rows() == other.spec_rows(),
                    self.spec_cols() == other.spec_cols(),
                    forall|q: int|
                        0 <= q < j ==> frac_eq(
                            #[trigger] self.vals()[i as int][q],
                            other.vals()[i as int][q],
                        ),
                decreases self.spec_cols() - j,
            {
                if !self.get(i, j).eq_value(other.get(i, j)) {
                    return false;
                }
                j += 1;
            }
            i += 1;
        }
        true
    }

    /// Extracts the last column as a `rows x 1` column matrix: the
    /// right-hand side `b` of an augmented matrix `[A | b]`.
    pub fn get_rhs(&self) -> (r: Matrix)
        requires
            self.wf(),
            self.spec_cols() >= 1,
        ensures
            r.wf(),
            r.spec_rows() == self.spec_rows(),
            r.spec_cols() == 1,
            forall|i: int|
                0 <= i < self.spec_rows() ==> r.vals()[i][0] == rhs_of(
                    self.vals(),
                    self.spec_rows() as int,
                    self.spec_cols() as int,
                )[i],
    {
        let mut rhs = Matrix::new_column_matrix(self.rows);
        let mut i: usize = 0;
        while i < self.rows
            invariant
                self.wf(),
                self.spec_cols() >= 1,
                rhs.wf(),
                i <= self.spec_rows(),
                rhs.spec_rows() == self.spec_rows(),
                rhs.spec_cols() == 1,
                forall|p: int|
                    0 <= p < i ==> rhs.vals()[p][0] == self.vals()[p][self.spec_cols() - 1],
            decreases self.spec_rows() - i,
        {
            let v = self.get(i, self.cols - 1).clone();
            rhs.set(i, 0, v);
            i += 1;
        }
        rhs
    }

    /// The matrix-vector product `A * x` restricted to the leading columns:
    /// for each row `i`, the sum over `k` of `x[k][0] * self[i][k]`, with
    /// `k` running over the rows of the column matrix `x`. Trailing columns
    /// of `self` beyond the length of `x` are ignored.
    pub fn calculate_right(&self, calculated_result: &Matrix) -> (r: Matrix)
        requires
            self.wf(),
            calculated_result.wf(),
            calculated_result.spec_rows() <= self.spec_cols(),
            calculated_result.spec_cols() >= 1,
        ensures
            r.wf(),
            r.spec_rows() == self.spec_rows(),
            r.spec_cols() == 1,
            forall|i: int|
                0 <= i < self.spec_rows() ==> r.vals()[i][0] == dot_prefix(
                    self.vals()[i],
                    column_of(calculated_result.vals(), calculated_result.spec_rows() as int),
                    calculated_result.spec_rows() as int,
                ),
    {
        let ghost col = column_of(calculated_result.vals(), calculated_result.spec_rows() as int);
        let mut result = Matrix::new(self.rows, 1);
        let mut row_idx: usize = 0;
        while row_idx < self.rows
            invariant
                self.wf(),
                calculated_result.wf(),
                calculated_result.spec_rows() <= self.spec_cols(),
                calculated_result.spec_cols() >= 1,
                col == column_of(calculated_result.vals(), calculated_result.spec_rows() as int),
                result.wf(),
                row_idx <= self.spec_rows(),
                result.spec_rows() == self.spec_rows(),
                result.spec_cols() == 1,
                forall|p: int|
                    0 <= p < row_idx ==> result.vals()[p][0] == dot_prefix(
                        self.vals()[p],
                        col,
                        calculated_result.spec_rows() as int,
                    ),
            decreases self.spec_rows() - row_idx,
        {
            let mut accumulator = Scalar::zero();
            let size_of_calculated_result = calculated_result.rows;
            let mut current_root_idx: usize = 0;
            while current_root_idx < size_of_calculated_result
                invariant
                    self.wf(),
                    calculated_result.wf(),
                    calculated_result.spec_rows() <= self.spec_cols(),
                    calculated_result.spec_cols() >= 1,
                    col == column_of(calculated_result.vals(), calculated_result.spec_rows() as int),
                    row_idx < self.spec_rows(),
                    size_of_calculated_result == calculated_result.spec_rows(),
                    current_root_idx <= size_of_calculated_result,
                    accumulator.wf(),
                    accumulator.frac@ == dot_prefix(
                        self.vals()[row_idx as int],
                        col,
                        current_root_idx as int,
                    ),
                decreases size_of_calculated_result - current_root_idx,
            {
                let term = calculated_result.get(current_root_idx, 0).mul(self.get(row_idx, current_root_idx));
                accumulator = accumulator.add(&term);
                current_root_idx += 1;
            }
            result.set(row_idx, 0, accumulator);
            row_idx += 1;
        }
        result
    }

    /// Element-wise subtraction: `self[i][j] -= rhs[i][j]`, over identical
    /// shapes.
    pub fn sub_assign(&mut self, rhs: &Matrix)
        requires
            old(self).wf(),
            rhs.wf(),
            old(self).spec_rows() == rhs.spec_rows(),
            old(self).spec_cols() == rhs.spec_cols(),
        ensures
            final(self).wf(),
            final(self).spec_rows() == old(self).spec_rows(),
            final(self).spec_cols() == old(self).spec_cols(),
            forall|i: int, j: int|
                0 <= i < old(self).spec_rows() && 0 <= j < old(self).spec_cols() ==> final(self).vals()[i][j] == frac_sub(#[trigger] old(self).vals()[i][j], rhs.vals()[i][j]),
    {
        let rows = self.rows;
        let cols = self.cols;
        let mut row_idx: usize = 0;
        while row_idx < rows
            invariant
                self.wf(),
                rhs.wf(),
                rows == self.spec_rows(),
                cols == self.spec_cols(),
                self.spec_rows() == rhs.spec_rows(),
                self.spec_cols() == rhs.spec_cols(),
                self.spec_rows() == old(self).spec_rows(),
                self.spec_cols() == old(self).spec_cols(),
                row_idx <= rows,
                forall|p: int, q: int|
                    0 <= p < row_idx && 0 <= q < cols ==> self.vals()[p][q] == frac_sub(
                        #[trigger] old(self).vals()[p][q],
                        rhs.vals()[p][q],
                    ),
                forall|p: int, q: int|
                    row_idx <= p < rows && 0 <= q < cols ==> #[trigger] self.vals()[p][q] == old(self).vals()[p][q],
            decreases rows - row_idx,
        {
            let mut col_idx: usize = 0;
            while col_idx < cols
                invariant
                    self.wf(),
                    rhs.wf(),
                    rows == self.spec_rows(),
                    cols == self.spec_cols(),
                    self.spec_rows() == rhs.spec_rows(),
                    self.spec_cols() == rhs.spec_cols(),
                    self.spec_rows() == old(self).spec_rows(),
                    self.spec_cols() == old(self).spec_cols(),
                    row_idx < rows,
                    col_idx <= cols,
                    forall|p: int, q: int|
                        0 <= p < row_idx && 0 <= q < cols ==> self.vals()[p][q] == frac_sub(
                            #[trigger] old(self).vals()[p][q],
                            rhs.vals()[p][q],
                        ),
                    forall|q: int|
                        0 <= q < col_idx ==> self.vals()[row_idx as int][q] == frac_sub(
                            #[trigger] old(self).vals()[row_idx as int][q],
                            rhs.vals()[row_idx as int][q],
                        ),
                    forall|q: int|
                        col_idx <= q < cols ==> #[trigger] self.vals()[row_idx as int][q] == old(self).vals()[row_idx as int][q],
                    forall|p: int, q: int|
                        row_idx < p < rows && 0 <= q < cols ==> #[trigger] self.vals()[p][q] == old(self).vals()[p][q],
                decreases cols - col_idx,
            {
                let v = self.get(row_idx, col_idx).sub(rhs.get(row_idx, col_idx));
                self.set(row_idx, col_idx, v);
                col_idx += 1;
            }
            row_idx += 1;
        }
    }

    /// Subtracts `factor` times pivot row `p` from row `tgt`, from column
    /// `from` to the last column, where `factor = self[tgt][p] / self[p][p]`.
    fn row_reduce(&mut self, tgt: usize, p: usize, from: usize)
        requires
            old(self).wf(),
            tgt < old(self).spec_rows(),
            p < old(self).spec_rows(),
            tgt != p,
            p < old(self).spec_cols(),
            from <= old(self).spec_cols(),
            !frac_is_zero(old(self).vals()[p as int][p as int]),
        ensures
            final(self).wf(),
            final(self).spec_rows() == old(self).spec_rows(),
            final(self).spec_cols() == old(self).spec_cols(),
            final(self).vals() == old(self).vals().update(
                tgt as int,
                row_sub_scaled(
                    old(self).vals()[tgt as int],
                    old(self).vals()[p as int],
                    frac_div(
                        old(self).vals()[tgt as int][p as int],
                        old(self).vals()[p as int][p as int],
                    ),
                    from as int,
                ),
            ),
    {
        let cols = self.cols;
        let factor = self.get(tgt, p).div(self.get(p, p));
        let mut c = from;
        while c < cols
            invariant
                self.wf(),
                self.spec_rows() == old(self).spec_rows(),
                self.spec_cols() == old(self).spec_cols(),
                cols == self.spec_cols(),
                tgt < self.spec_rows(),
                p < self.spec_rows(),
                tgt != p,
                p < cols,
                from <= c <= cols,
                factor.wf(),
                factor.frac@ == frac_div(
                    old(self).vals()[tgt as int][p as int],
                    old(self).vals()[p as int][p as int],
                ),
                forall|k: int|
                    0 <= k < self.spec_rows() && k != tgt ==> #[trigger] self.vals()[k] == old(self).vals()[k],
                forall|q: int|
                    from <= q < c ==> self.vals()[tgt as int][q] == frac_sub(
                        #[trigger] old(self).vals()[tgt as int][q],
                        frac_mul(factor.frac@, old(self).vals()[p as int][q]),
                    ),
                forall|q: int|
                    (0 <= q < from || c <= q < cols) ==> #[trigger] self.vals()[tgt as int][q]
                        == old(self).vals()[tgt as int][q],
            decreases cols - c,
        {
            let term = factor.mul(self.get(p, c));
            let v = self.get(tgt, c).sub(&term);
            self.set(tgt, c, v);
            c += 1;
        }
        proof {
            assert(self.vals() =~~= old(self).vals().update(
                tgt as int,
                row_sub_scaled(
                    old(self).vals()[tgt as int],
                    old(self).vals()[p as int],
                    frac_div(
                        old(self).vals()[tgt as int][p as int],
                        old(self).vals()[p as int][p as int],
                    ),
                    from as int,
                ),
            ));
        }
    }

    /// One forward-elimination step: clear column `row` of the row below
    /// `row_against` against pivot row `row`, or fail on a zero pivot.
    fn echelon(&mut self, row: usize, row_against: usize) -> (res: Result<(), CalculationError>)
        requires
            old(self).wf(),
            old(self).spec_cols() == old(self).spec_rows() + 1,
            row < old(self).spec_rows(),
            row <= row_against,
            row_against + 1 < old(self).spec_rows(),
        ensures
            final(self).wf(),
            final(self).spec_rows() == old(self).spec_rows(),
            final(self).spec_cols() == old(self).spec_cols(),
            match res {
                Ok(_) => !frac_is_zero(old(self).vals()[row as int][row as int]) && final(self).vals() == echelon_step(old(self).vals(), row as int, row_against as int),
                Err(e) => frac_is_zero(old(self).vals()[row as int][row as int])
                    && e.spec_reason() == ErrorReason::UnableToCalculate && final(self).vals()
                    == old(self).vals(),
            },
    {
        if self.get(row, row).is_zero() {
            return Err(CalculationError::new(ErrorReason::UnableToCalculate));
        }
        self.row_reduce(row_against + 1, row, row);
        Ok(())
    }

    /// One backward-elimination step: clear column `i` of every row above
    /// pivot row `i`, or fail on a zero pivot.
    fn eliminate(&mut self, i: usize) -> (res: Result<(), CalculationError>)
        requires
            old(self).wf(),
            old(self).spec_cols() == old(self).spec_rows() + 1,
            1 <= i < old(self).spec_rows(),
        ensures
            final(self).wf(),
            final(self).spec_rows() == old(self).spec_rows(),
            final(self).spec_cols() == old(self).spec_cols(),
            match res {
                Ok(_) => !frac_is_zero(old(self).vals()[i as int][i as int]) && final(self).vals()
                    == backward_rows(old(self).vals(), i as int, i as int),
                Err(e) => frac_is_zero(old(self).vals()[i as int][i as int])
                    && e.spec_reason() == ErrorReason::UnableToCalculate && final(self).vals()
                    == old(self).vals(),
            },
    {
        if self.get(i, i).is_zero() {
            return Err(CalculationError::new(ErrorReason::UnableToCalculate));
        }
        let mut j: usize = i;
        while j >= 1
            invariant
                self.wf(),
                self.spec_rows() == old(self).spec_rows(),
                self.spec_cols() == old(self).spec_cols(),
                self.spec_cols() == self.spec_rows() + 1,
                i < self.spec_rows(),
                j <= i,
                self.vals()[i as int] == old(self).vals()[i as int],
                !frac_is_zero(self.vals()[i as int][i as int]),
                backward_rows(old(self).vals(), i as int, i as int) == backward_rows(
                    self.vals(),
                    i as int,
                    j as int,
                ),
            decreases j,
        {
            let ghost prev = self.vals();
            self.row_reduce(j - 1, i, 0);
            proof {
                assert(backward_rows(prev, i as int, j as int) == backward_rows(
                    self.vals(),
                    i as int,
                    j as int - 1,
                ));
            }
            j -= 1;
        }
        Ok(())
    }
}

impl Clone for Matrix {
    /// A deep copy: same shape, same numbers.
    fn clone(&self) -> (r: Self)
        ensures
            r.spec_rows() == self.spec_rows(),
            r.spec_cols() == self.spec_cols(),
            r.vals() == self.vals(),
    {
        let mut matrix: Vec<Vec<Scalar>> = Vec::new();
        let mut i: usize = 0;
        while i < self.matrix.len()
            invariant
                matrix@.len() == i,
                i <= self.matrix@.len(),
                forall|p: int| 0 <= p < i ==> (#[trigger] matrix@[p])@.len() == self.matrix@[p]@.len(),
                forall|p: int, q: int|
                    0 <= p < i && 0 <= q < matrix@[p]@.len() ==> (#[trigger] matrix@[p]@[q]).frac@
                        == self.matrix@[p]@[q].frac@,
            decreases self.matrix@.len() - i,
        {
            let src_row: &Vec<Scalar> = &self.matrix[i];
            let mut row: Vec<Scalar> = Vec::new();
            let mut j: usize = 0;
            while j < src_row.len()
                invariant
                    row@.len() == j,
                    j <= src_row@.len(),
                    forall|q: int| 0 <= q < j ==> (#[trigger] row@[q]).frac@ == src_row@[q].frac@,
                decreases src_row@.len() - j,
            {
                row.push(src_row[j].clone());
                j += 1;
            }
            matrix.push(row);
            i += 1;
        }
        let r = Matrix { matrix, rows: self.rows, cols: self.cols };
        proof {
            assert(r.vals() =~~= self.vals());
        }
        r
    }
}


/// The output of a successful solve: the solution column and the exact
/// element-wise absolute residual `|b - A * x|`.
pub struct EliminationResult {
    pub result: Matrix,
    pub epsilon: Matrix,
}

impl Matrix {
    /// Solves the augmented system `[A | b]` held in `self` by Gaussian
    /// elimination without pivoting, on a deep working copy; `self` is
    /// never changed.
    ///
    /// Fails with `IncorrectSize` exactly when the shape is not
    /// `n x (n + 1)`, and with `UnableToCalculate` exactly when the
    /// pipeline [`gauss_spec`] meets a zero pivot. On success the solution
    /// column is exactly the pipeline's result, and the residual is
    /// exactly `|b - A * x|`, element by element.
    pub fn gaussian_elimination(&self) -> (res: Result<EliminationResult, CalculationError>)
        requires
            self.wf(),
        ensures
            match res {
                Err(e) => (if self.spec_cols() != self.spec_rows() + 1 {
                    e.spec_reason() == ErrorReason::IncorrectSize
                } else {
                    e.spec_reason() == ErrorReason::UnableToCalculate && gauss_spec(
                        self.vals(),
                        self.spec_rows() as int,
                    ) is None
                }),
                Ok(out) => ({
                    &&& self.spec_cols() == self.spec_rows() + 1
                    &&& gauss_spec(self.vals(), self.spec_rows() as int) is Some
                    &&& out.result.wf()
                    &&& out.result.spec_rows() == self.spec_rows()
                    &&& out.result.spec_cols() == 1
                    &&& column_of(out.result.vals(), self.spec_rows() as int) == gauss_result(
                        self.vals(),
                        self.spec_rows() as int,
                    )
                    &&& out.epsilon.wf()
                    &&& out.epsilon.spec_rows() == self.spec_rows()
                    &&& out.epsilon.spec_cols() == 1
                    &&& forall|i: int|
                        0 <= i < self.spec_rows() ==> out.epsilon.vals()[i][0] == frac_abs(
                            frac_sub(
                                #[trigger] self.vals()[i][self.spec_rows() as int],
                                dot_prefix(
                                    self.vals()[i],
                                    gauss_result(self.vals(), self.spec_rows() as int),
                                    self.spec_rows() as int,
                                ),
                            ),
                        )
                }),
            },
    {
        if self.cols < 1 || self.cols - 1 != self.rows {
            return Err(CalculationError::new(ErrorReason::IncorrectSize));
        }
        let rows = self.rows;
        let mut cloned_matrix = self.clone();

        // Forward elimination: bring the working copy to row-echelon form.
        let mut i: usize = 0;
        while i + 1 < rows
            invariant
                self.wf(),
                rows == self.spec_rows(),
                self.spec_cols() == rows + 1,
                cloned_matrix.wf(),
                cloned_matrix.spec_rows() == rows,
                cloned_matrix.spec_cols() == rows + 1,
                i <= rows,
                forward_phase(self.vals(), 0, 0, rows as int) == forward_phase(
                    cloned_matrix.vals(),
                    i as int,
                    i as int,
                    rows as int,
                ),
            decreases rows - i,
        {
            let mut j: usize = i;
            while j + 1 < rows
                invariant
                    self.wf(),
                    rows == self.spec_rows(),
                    self.spec_cols() == rows + 1,
                    cloned_matrix.wf(),
                    cloned_matrix.spec_rows() == rows,
                    cloned_matrix.spec_cols() == rows + 1,
                    i + 1 < rows,
                    i <= j,
                    j < rows,
                    forward_phase(self.vals(), 0, 0, rows as int) == forward_phase(
                        cloned_matrix.vals(),
                        i as int,
                        j as int,
                        rows as int,
                    ),
                decreases rows - j,
            {
                let ghost prev = cloned_matrix.vals();
                match cloned_matrix.echelon(i, j) {
                    Ok(_) => {
                        proof {
                            assert(forward_phase(prev, i as int, j as int, rows as int)
                                == forward_phase(
                                cloned_matrix.vals(),
                                i as int,
                                j as int + 1,
                                rows as int,
                            ));
                        }
                    },
                    Err(e) => {
                        proof {
                            assert(forward_phase(prev, i as int, j as int, rows as int) is None);
                        }
                        return Err(e);
                    },
                }
                j += 1;
            }
            proof {
                assert(forward_phase(cloned_matrix.vals(), i as int, j as int, rows as int)
                    == forward_phase(
                    cloned_matrix.vals(),
                    i as int + 1,
                    i as int + 1,
                    rows as int,
                ));
            }
            i += 1;
        }
        proof {
            assert(forward_phase(cloned_matrix.vals(), i as int, i as int, rows as int) == Some(
                cloned_matrix.vals(),
            ));
        }
        let ghost after_forward = cloned_matrix.vals();

        // Backward elimination: clear the entries above each pivot.
        let mut k: usize = rows;
        while k > 1
            invariant
                self.wf(),
                rows == self.spec_rows(),
                self.spec_cols() == rows + 1,
                cloned_matrix.wf(),
                cloned_matrix.spec_rows() == rows,
                cloned_matrix.spec_cols() == rows + 1,
                k <= rows || (rows == 0 && k == 0),
                forward_phase(self.vals(), 0, 0, rows as int) == Some(after_forward),
                backward_phase(after_forward, rows as int - 1) == backward_phase(
                    cloned_matrix.vals(),
                    k as int - 1,
                ),
            decreases k,
        {
            let cur = k - 1;
            let ghost prev = cloned_matrix.vals();
            match cloned_matrix.eliminate(cur) {
                Ok(_) => {
                    proof {
                        assert(backward_phase(prev, cur as int) == backward_phase(
                            cloned_matrix.vals(),
                            cur as int - 1,
                        ));
                    }
                },
                Err(e) => {
                    proof {
                        assert(backward_phase(prev, cur as int) is None);
                    }
                    return Err(e);
                },
            }
            k = cur;
        }
        proof {
            assert(backward_phase(cloned_matrix.vals(), k as int - 1) == Some(
                cloned_matrix.vals(),
            ));
        }
        let ghost after_backward = cloned_matrix.vals();

        // Extraction: read each solution entry off the diagonal form.
        let mut result = Matrix::new(rows, 1);
        let mut idx: usize = 0;
        while idx < rows
            invariant
                self.wf(),
                rows == self.spec_rows(),
                self.spec_cols() == rows + 1,
                cloned_matrix.wf(),
                cloned_matrix.spec_rows() == rows,
                cloned_matrix.spec_cols() == rows + 1,
                after_backward == cloned_matrix.vals(),
                forward_phase(self.vals(), 0, 0, rows as int) == Some(after_forward),
                backward_phase(after_forward, rows as int - 1) == Some(after_backward),
                idx <= rows,
                result.wf(),
                result.spec_rows() == rows,
                result.spec_cols() == 1,
                forall|p: int| 0 <= p < idx ==> !frac_is_zero(#[trigger] after_backward[p][p]),
                forall|p: int|
                    0 <= p < idx ==> result.vals()[p][0] == frac_div(
                        #[trigger] after_backward[p][rows as int],
                        after_backward[p][p],
                    ),
            decreases rows - idx,
        {
            if cloned_matrix.get(idx, idx).is_zero() {
                proof {
                    assert(!diag_ok(after_backward, rows as int));
                }
                return Err(CalculationError::new(ErrorReason::UnableToCalculate));
            }
            let v = cloned_matrix.get(idx, rows).div(cloned_matrix.get(idx, idx));
            result.set(idx, 0, v);
            idx += 1;
        }
        proof {
            assert(diag_ok(after_backward, rows as int));
            assert(column_of(result.vals(), rows as int) =~= extract_solution(
                after_backward,
                rows as int,
            ));
            assert(gauss_spec(self.vals(), rows as int) == Some(
                extract_solution(after_backward, rows as int),
            ));
        }

        // Residual: epsilon = |b - A * x| against the untouched input.
        let mut epsilon = self.get_rhs();
        let right = self.calculate_right(&result);
        let ghost rhs_vals = epsilon.vals();
        epsilon.sub_assign(&right);
        let ghost diff_vals = epsilon.vals();
        proof {
            assert(column_of(result.vals(), rows as int) == gauss_result(
                self.vals(),
                rows as int,
            ));
            assert forall|p: int| 0 <= p < rows implies #[trigger] diff_vals[p][0] == frac_sub(
                self.vals()[p][rows as int],
                dot_prefix(self.vals()[p], gauss_result(self.vals(), rows as int), rows as int),
            ) by {
                assert(rhs_vals[p][0] == rhs_of(self.vals(), rows as int, rows as int + 1)[p]);
            }
        }
        let mut t: usize = 0;
        while t < rows
            invariant
                self.wf(),
                rows == self.spec_rows(),
                self.spec_cols() == rows + 1,
                gauss_spec(self.vals(), rows as int) is Some,
                result.wf(),
                result.spec_rows() == rows,
                result.spec_cols() == 1,
                column_of(result.vals(), rows as int) == gauss_result(self.vals(), rows as int),
                forall|p: int|
                    0 <= p < rows ==> #[trigger] diff_vals[p][0] == frac_sub(
                        self.vals()[p][rows as int],
                        dot_prefix(
                            self.vals()[p],
                            gauss_result(self.vals(), rows as int),
                            rows as int,
                        ),
                    ),
                epsilon.wf(),
                epsilon.spec_rows() == rows,
                epsilon.spec_cols() == 1,
                t <= rows,
                forall|p: int| 0 <= p < t ==> epsilon.vals()[p][0] == frac_abs(#[trigger] diff_vals[p][0]),
                forall|p: int| t <= p < rows ==> #[trigger] epsilon.vals()[p][0] == diff_vals[p][0],
            decreases rows - t,
        {
            let v = epsilon.get(t, 0).abs();
            epsilon.set(t, 0, v);
            t += 1;
        }
        proof {
            assert forall|p: int| 0 <= p < rows implies epsilon.vals()[p][0] == frac_abs(
                frac_sub(
                    self.vals()[p][rows as int],
                    dot_prefix(
                        self.vals()[p],
                        gauss_result(self.vals(), rows as int),
                        rows as int,
                    ),
                ),
            ) by {
                assert(epsilon.vals()[p][0] == frac_abs(diff_vals[p][0]));
                assert(diff_vals[p][0] == frac_sub(
                    self.vals()[p][rows as int],
                    dot_prefix(
                        self.vals()[p],
                        gauss_result(self.vals(), rows as int),
                        rows as int,
                    ),
                ));
            }
        }
        Ok(EliminationResult { result, epsilon })
    }
}


/// A zero in the top-left pivot position dooms the whole pipeline: with no
/// row reordering, an augmented matrix whose first pivot is exactly zero is
/// never solved, whatever the rest of it holds.
pub proof fn lemma_zero_first_pivot(m: Matrix)
    requires
        m.wf(),
        m.spec_rows() >= 1,
        m.spec_cols() == m.spec_rows() + 1,
        frac_is_zero(m.vals()[0][0]),
    ensures
        gauss_spec(m.vals(), m.spec_rows() as int) is None,
{
    let rows = m.spec_rows() as int;
    if rows == 1 {
        assert(forward_phase(m.vals(), 0, 0, rows) == Some(m.vals()));
        assert(backward_phase(m.vals(), 0) == Some(m.vals()));
        assert(!diag_ok(m.vals(), rows)) by {
            assert(0 <= 0 < rows && frac_is_zero(m.vals()[0][0]));
        }
    } else {
        assert(forward_phase(m.vals(), 0, 0, rows) is None);
    }
}

/// Extracting the right-hand side is deterministic: any two columns that
/// meet the contract of `get_rhs` against the same unmodified matrix are
/// equal, element by element. So calling `get_rhs` twice yields equal
/// column matrices.
pub proof fn lemma_get_rhs_idempotent(m: Matrix, a: Matrix, b: Matrix)
    requires
        m.wf(),
        m.spec_cols() >= 1,
        a.wf(),
        a.spec_rows() == m.spec_rows(),
        a.spec_cols() == 1,
        forall|i: int|
            0 <= i < m.spec_rows() ==> a.vals()[i][0] == rhs_of(
                m.vals(),
                m.spec_rows() as int,
                m.spec_cols() as int,
            )[i],
        b.wf(),
        b.spec_rows() == m.spec_rows(),
        b.spec_cols() == 1,
        forall|i: int|
            0 <= i < m.spec_rows() ==> b.vals()[i][0] == rhs_of(
                m.vals(),
                m.spec_rows() as int,
                m.spec_cols() as int,
            )[i],
    ensures
        a.eq_spec(b),
{
    assert forall|i: int, j: int|
        0 <= i < a.spec_rows() && 0 <= j < a.spec_cols() implies frac_eq(
        a.vals()[i][j],
        b.vals()[i][j],
    ) by {
        assert(j == 0);
        assert(a.vals()[i][0] == rhs_of(m.vals(), m.spec_rows() as int, m.spec_cols() as int)[i]);
        assert(b.vals()[i][0] == rhs_of(m.vals(), m.spec_rows() as int, m.spec_cols() as int)[i]);
    }
}



/// The one-equation case of solver correctness: for an augmented
/// `1 x 2` system `[a | b]` with `a` nonzero, the pipeline succeeds and
/// substituting its solution back reproduces the right-hand side exactly:
/// `a * (b / a) = b`.
pub proof fn lemma_single_equation_solved(m: Matrix)
    requires
        m.wf(),
        m.spec_rows() == 1,
        m.spec_cols() == 2,
        !frac_is_zero(m.vals()[0][0]),
    ensures
        gauss_spec(m.vals(), 1) is Some,
        frac_eq(dot_prefix(m.vals()[0], gauss_result(m.vals(), 1), 1), m.vals()[0][1]),
{
    let a = m.vals()[0][0];
    let b = m.vals()[0][1];
    assert(forward_phase(m.vals(), 0, 0, 1) == Some(m.vals()));
    assert(backward_phase(m.vals(), 0) == Some(m.vals()));
    assert(diag_ok(m.vals(), 1));
    let x0 = frac_div(b, a);
    assert(gauss_result(m.vals(), 1)[0] == x0);
    let t = frac_add(frac_int(0), frac_mul(x0, a));
    assert(dot_prefix(m.vals()[0], gauss_result(m.vals(), 1), 0) == frac_int(0));
    assert(dot_prefix(m.vals()[0], gauss_result(m.vals(), 1), 1) == t);
    assert(frac_eq(t, b)) by (nonlinear_arith)
        requires
            t == frac_add(frac_int(0), frac_mul(frac_div(b, a), a)),
            a.den > 0,
            b.den > 0,
            a.num != 0,
    ;
}

} // verus!
