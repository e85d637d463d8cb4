//! A minimal dense-matrix library: row-major storage over a flat vector,
//! indexed access, coordinate traversal, equality, addition, trace, a
//! diagnostic text form, and conversions from nested or flat vectors.

pub mod conversions;
pub mod element;

use vstd::prelude::*;

verus! {

use crate::element::MatrixElement;

/// How a matrix operation can fail.
#[derive(Clone, Copy, Debug, PartialEq, Eq, Structural)]
pub enum MatrixError {
    /// A conversion source sequence, or its first row, has no elements.
    EmptyInput,
    /// Inner vectors of a nested conversion source differ in length.
    RaggedInput,
    /// A flat conversion source's length is not a multiple of the stride.
    StrideMismatch,
    /// The operands of an addition differ in row or column count.
    DimensionMismatch,
    /// A trace was requested of a matrix with differing row and column counts.
    NonSquare,
    /// A coordinate lies outside the matrix's shape.
    IndexOutOfBounds,
}

pub type MatrixOpResult<T> = Result<T, MatrixError>;

/// A fixed-size 2-D grid of elements, stored row-major in a flat vector:
/// the cell at `(r, c)` sits at flat position `r * column_count + c`.
#[derive(Debug)]
pub struct DSMatrix<T> {
    num_rows: u32,
    num_columns: u32,
    values: Vec<T>,
}

/// A cursor over the valid `(row, column)` pairs of a matrix shape, in
/// row-major order. It snapshots the shape at creation and is independent
/// of the matrix afterwards.
#[derive(Debug)]
pub struct DSMatrixCoordIter {
    num_rows: u32,
    num_columns: u32,
    current_row: u32,
    current_column: u32,
}

impl MatrixError {
    /// A human-readable description of the failure.
    pub fn message(&self) -> (s: &'static str)
        ensures
            s@ == self.message_spec(),
    {
        match self {
            MatrixError::EmptyInput => "Cannot convert empty vec to matrix.",
            MatrixError::RaggedInput => "Inner vectors are of different sizes.",
            MatrixError::StrideMismatch => "Vector size is not whole multiple of stride.",
            MatrixError::DimensionMismatch => "Incorrect dimensions for addition.",
            MatrixError::NonSquare => "Trace is only defined for square matrices.",
            MatrixError::IndexOutOfBounds => "Co-ordinate is outside the matrix.",
        }
    }

    pub open spec fn message_spec(&self) -> Seq<char> {
        match self {
            MatrixError::EmptyInput => "Cannot convert empty vec to matrix."@,
            MatrixError::RaggedInput => "Inner vectors are of different sizes."@,
            MatrixError::StrideMismatch => "Vector size is not whole multiple of stride."@,
            MatrixError::DimensionMismatch => "Incorrect dimensions for addition."@,
            MatrixError::NonSquare => "Trace is only defined for square matrices."@,
            MatrixError::IndexOutOfBounds => "Co-ordinate is outside the matrix."@,
        }
    }
}

impl<T> DSMatrix<T> {
    /// The number of rows, as a mathematical integer.
    pub closed spec fn spec_rows(&self) -> int {
        self.num_rows as int
    }

    /// The number of columns, as a mathematical integer.
    pub closed spec fn spec_cols(&self) -> int {
        self.num_columns as int
    }

    /// The flat element storage, in row-major order.
    pub closed spec fn spec_values(&self) -> Seq<T> {
        self.values@
    }

    /// The flat position of the cell at `(r, c)`.
    pub open spec fn spec_index(&self, r: int, c: int) -> int {
        r * self.spec_cols() + c
    }

    /// The element at the cell `(r, c)`.
    pub open spec fn spec_at(&self, r: int, c: int) -> T {
        self.spec_values()[self.spec_index(r, c)]
    }

    /// Whether `(r, c)` names a cell of this matrix.
    pub open spec fn in_bounds(&self, r: int, c: int) -> bool {
        0 <= r < self.spec_rows() && 0 <= c < self.spec_cols()
    }

    /// Well-formedness: the storage holds exactly one element per cell, and
    /// the cell count fits the index arithmetic's integer type.
    pub open spec fn inv(&self) -> bool {
        &&& self.spec_values().len() == self.spec_rows() * self.spec_cols()
        &&& self.spec_rows() * self.spec_cols() <= u32::MAX
    }

    /// Whether two matrices have the same row and column counts.
    pub open spec fn same_shape(&self, other: &DSMatrix<T>) -> bool {
        self.spec_rows() == other.spec_rows() && self.spec_cols() == other.spec_cols()
    }
}

/// Every flat position of an in-bounds coordinate lies inside the storage.
pub proof fn lemma_flat_index_in_range(r: int, c: int, num_rows: int, num_cols: int)
    requires
        0 <= r < num_rows,
        0 <= c < num_cols,
    ensures
        0 <= r * num_cols + c < num_rows * num_cols,
{
    assert(0 <= r * num_cols + c < num_rows * num_cols) by (nonlinear_arith)
        requires
            0 <= r < num_rows,
            0 <= c < num_cols,
    ;
}

/// The row-major flat position determines the coordinate: two in-bounds
/// coordinates with the same flat position are the same cell.
pub proof fn lemma_flat_index_injective(r1: int, c1: int, r2: int, c2: int, num_cols: int)
    requires
        0 <= r1,
        0 <= r2,
        0 <= c1 < num_cols,
        0 <= c2 < num_cols,
        r1 * num_cols + c1 == r2 * num_cols + c2,
    ensures
        r1 == r2 && c1 == c2,
{
    assert(r1 == r2 && c1 == c2) by (nonlinear_arith)
        requires
            0 <= r1,
            0 <= r2,
            0 <= c1 < num_cols,
            0 <= c2 < num_cols,
            r1 * num_cols + c1 == r2 * num_cols + c2,
    ;
}

impl DSMatrixCoordIter {
    /// The row count of the shape being traversed.
    pub closed spec fn spec_rows(&self) -> int {
        self.num_rows as int
    }

    /// The column count of the shape being traversed.
    pub closed spec fn spec_cols(&self) -> int {
        self.num_columns as int
    }

    /// The row of the coordinate about to be yielded.
    pub closed spec fn spec_cur_row(&self) -> int {
        self.current_row as int
    }

    /// The column of the coordinate about to be yielded.
    pub closed spec fn spec_cur_col(&self) -> int {
        self.current_column as int
    }

    /// How many coordinates have been yielded so far; also the flat row-major
    /// position of the coordinate about to be yielded.
    pub open spec fn pos(&self) -> int {
        self.spec_cur_row() * self.spec_cols() + self.spec_cur_col()
    }

    /// How many coordinates the traversal yields in all.
    pub open spec fn total(&self) -> int {
        self.spec_rows() * self.spec_cols()
    }

    /// Well-formedness: the cursor either sits on an in-bounds coordinate or
    /// rests just past the last row with its column reset; a shape without
    /// columns pins the cursor to the origin.
    pub open spec fn inv(&self) -> bool {
        &&& self.total() <= u32::MAX
        &&& if self.spec_cols() == 0 {
            self.spec_cur_row() == 0 && self.spec_cur_col() == 0
        } else {
            &&& self.spec_cur_row() <= self.spec_rows()
            &&& self.spec_cur_col() < self.spec_cols()
            &&& self.spec_cur_row() == self.spec_rows() ==> self.spec_cur_col() == 0
        }
    }

    /// The next coordinate in row-major order, or `None` once all
    /// `row_count * column_count` coordinates have been yielded. Each call
    /// before exhaustion yields the cursor's coordinate and advances the
    /// traversal position by exactly one.
    pub fn next(&mut self) -> (item: Option<(u32, u32)>)
        requires
            old(self).inv(),
        ensures
            final(self).inv(),
            final(self).spec_rows() == old(self).spec_rows(),
            final(self).spec_cols() == old(self).spec_cols(),
            old(self).pos() < old(self).total() ==> {
                &&& item == Some(
                    (old(self).spec_cur_row() as u32, old(self).spec_cur_col() as u32),
                )
                &&& old(self).in_bounds_cur()
                &&& final(self).pos() == old(self).pos() + 1
            },
            old(self).pos() >= old(self).total() ==> item is None && *final(self) == *old(self),
    {
        proof {
            if self.spec_cur_row() < self.spec_rows() && self.spec_cols() > 0 {
                lemma_flat_index_in_range(
                    self.spec_cur_row(),
                    self.spec_cur_col(),
                    self.spec_rows(),
                    self.spec_cols(),
                );
            }
            if self.spec_cur_row() == self.spec_rows() {
                assert(self.pos() >= self.total());
            }
        }
        if self.num_columns == 0 || self.current_row >= self.num_rows {
            return None;
        }

        let row = self.current_row;
        let col = self.current_column;
        self.current_column += 1;

        if self.current_column >= self.num_columns {
            self.current_column = 0;
            self.current_row += 1;
            proof {
                assert((row + 1) * self.spec_cols() == row * self.spec_cols() + self.spec_cols())
                    by (nonlinear_arith);
            }
        }

        Some((row, col))
    }

    /// Whether the cursor sits on an in-bounds coordinate.
    pub open spec fn in_bounds_cur(&self) -> bool {
        0 <= self.spec_cur_row() < self.spec_rows() && 0 <= self.spec_cur_col() < self.spec_cols()
    }
}

/// Coordinate traversal is row-major with no duplicates and no omissions:
/// the coordinate a well-formed cursor yields at traversal position `k` is
/// exactly the `k`-th pair in row-major order, `(k / column_count,
/// k % column_count)`.
pub proof fn lemma_coord_iter_row_major(it: &DSMatrixCoordIter)
    requires
        it.inv(),
        it.pos() < it.total(),
    ensures
        it.spec_cur_row() == it.pos() / it.spec_cols(),
        it.spec_cur_col() == it.pos() % it.spec_cols(),
{
    assert(it.spec_cols() > 0) by {
        if it.spec_cols() == 0 {
            assert(it.total() == 0) by (nonlinear_arith)
                requires
                    it.spec_cols() == 0,
                    it.total() == it.spec_rows() * it.spec_cols(),
            ;
        }
    }
    assert(it.spec_cur_row() == it.pos() / it.spec_cols() && it.spec_cur_col() == it.pos()
        % it.spec_cols()) by (nonlinear_arith)
        requires
            it.spec_cols() > 0,
            0 <= it.spec_cur_row(),
            0 <= it.spec_cur_col() < it.spec_cols(),
            it.pos() == it.spec_cur_row() * it.spec_cols() + it.spec_cur_col(),
    ;
}

impl<T: MatrixElement> DSMatrix<T> {
    /// A fresh `row_count x column_count` matrix with every cell holding the
    /// element type's zero value. Either count may be zero.
    pub fn new(in_num_rows: u32, in_num_columns: u32) -> (result: DSMatrix<T>)
        requires
            in_num_rows * in_num_columns <= u32::MAX,
        ensures
            result.inv(),
            result.spec_rows() == in_num_rows,
            result.spec_cols() == in_num_columns,
            forall|r: int, c: int|
                result.in_bounds(r, c) ==> result.spec_at(r, c) == T::zero_spec(),
    {
        let num_elements = (in_num_rows * in_num_columns) as usize;
        let mut new_values: Vec<T> = Vec::new();
        while new_values.len() < num_elements
            invariant
                new_values.len() <= num_elements,
                forall|i: int|
                    0 <= i < new_values.len() ==> new_values[i] == T::zero_spec(),
            decreases num_elements - new_values.len(),
        {
            new_values.push(T::zero());
        }

        let result = DSMatrix::<T> {
            num_rows: in_num_rows,
            num_columns: in_num_columns,
            values: new_values,
        };
        proof {
            assert forall|r: int, c: int|
                result.in_bounds(r, c) implies result.spec_at(r, c) == T::zero_spec() by {
                lemma_flat_index_in_range(r, c, in_num_rows as int, in_num_columns as int);
            }
        }
        result
    }

    /// A fresh traversal over this matrix's valid coordinates in row-major
    /// order: row 0 left to right, then row 1, and so on. It yields
    /// `row_count * column_count` pairs in all, none when either dimension
    /// is zero.
    pub fn get_coord_iter(&self) -> (it: DSMatrixCoordIter)
        requires
            self.inv(),
        ensures
            it.inv(),
            it.spec_rows() == self.spec_rows(),
            it.spec_cols() == self.spec_cols(),
            it.pos() == 0,
    {
        DSMatrixCoordIter {
            num_rows: self.num_rows,
            num_columns: self.num_columns,
            current_row: 0,
            current_column: 0,
        }
    }

    /// Pure accessor for the row count.
    pub fn get_num_rows(&self) -> (n: u32)
        ensures
            n == self.spec_rows(),
    {
        self.num_rows
    }

    /// Pure accessor for the column count.
    pub fn get_num_columns(&self) -> (n: u32)
        ensures
            n == self.spec_cols(),
    {
        self.num_columns
    }

    /// The flat storage position of the cell at the given coordinate.
    fn get_index(&self, row_number: u32, column_number: u32) -> (index: usize)
        requires
            self.inv(),
            self.in_bounds(row_number as int, column_number as int),
        ensures
            index == self.spec_index(row_number as int, column_number as int),
            index < self.spec_values().len(),
    {
        proof {
            lemma_flat_index_in_range(
                row_number as int,
                column_number as int,
                self.spec_rows(),
                self.spec_cols(),
            );
        }
        (row_number * self.num_columns + column_number) as usize
    }

    /// A read-only reference to the element at the given coordinate.
    pub fn get_value<'a>(&'a self, row_number: u32, column_number: u32) -> (value: &'a T)
        requires
            self.inv(),
            self.in_bounds(row_number as int, column_number as int),
        ensures
            *value == self.spec_at(row_number as int, column_number as int),
    {
        let value_index = self.get_index(row_number, column_number);
        &self.values[value_index]
    }

    /// Overwrites the element at the given coordinate; no other cell and
    /// neither dimension changes.
    pub fn set_value(&mut self, row_number: u32, column_number: u32, value: T)
        requires
            old(self).inv(),
            old(self).in_bounds(row_number as int, column_number as int),
        ensures
            final(self).inv(),
            final(self).spec_rows() == old(self).spec_rows(),
            final(self).spec_cols() == old(self).spec_cols(),
            final(self).spec_at(row_number as int, column_number as int) == value,
            forall|r: int, c: int|
                old(self).in_bounds(r, c) && !(r == row_number && c == column_number)
                    ==> final(self).spec_at(r, c) == old(self).spec_at(r, c),
    {
        let value_index = self.get_index(row_number, column_number);
        self.values[value_index] = value;
        proof {
            assert forall|r: int, c: int|
                old(self).in_bounds(r, c) && !(r == row_number && c == column_number)
                    implies self.spec_at(r, c) == old(self).spec_at(r, c) by {
                lemma_flat_index_in_range(r, c, self.spec_rows(), self.spec_cols());
                if r * self.spec_cols() + c == row_number as int * self.spec_cols()
                    + column_number as int {
                    lemma_flat_index_injective(
                        r,
                        c,
                        row_number as int,
                        column_number as int,
                        self.spec_cols(),
                    );
                }
            }
        }
    }

    /// The sum of the first `n` diagonal elements, accumulated in ascending
    /// index order starting from the element type's zero value.
    pub open spec fn diagonal_sum(&self, n: int) -> T
        decreases n,
    {
        if n <= 0 {
            T::zero_spec()
        } else {
            T::add_spec(self.diagonal_sum(n - 1), self.spec_at(n - 1, n - 1))
        }
    }

    /// The sum of the diagonal elements of a square matrix, or `NonSquare`
    /// when the row and column counts differ. A `0 x 0` matrix has trace
    /// equal to the element type's zero value.
    pub fn calculate_trace(&self) -> (result: MatrixOpResult<T>)
        requires
            self.inv(),
            self.spec_rows() == self.spec_cols() ==> forall|k: int|
                0 <= k < self.spec_rows() ==> T::add_ok(
                    self.diagonal_sum(k),
                    #[trigger] self.spec_at(k, k),
                ),
        ensures
            self.spec_rows() == self.spec_cols() ==> result == Ok::<T, MatrixError>(
                self.diagonal_sum(self.spec_rows()),
            ),
            self.spec_rows() != self.spec_cols() ==> result == Err::<T, MatrixError>(
                MatrixError::NonSquare,
            ),
    {
        if self.num_rows != self.num_columns {
            return Err(MatrixError::NonSquare);
        }

        let mut total = T::zero();
        let mut i: u32 = 0;
        while i < self.num_rows
            invariant
                self.inv(),
                self.spec_rows() == self.spec_cols(),
                i <= self.spec_rows(),
                total == self.diagonal_sum(i as int),
                forall|k: int|
                    0 <= k < self.spec_rows() ==> T::add_ok(
                        self.diagonal_sum(k),
                        #[trigger] self.spec_at(k, k),
                    ),
            decreases self.spec_rows() - i,
        {
            let diagonal_value = self.get_value(i, i);
            let next_total = total.add_el(diagonal_value);
            total = next_total;
            i += 1;
        }
        Ok(total)
    }

    /// The element-wise sum of two matrices of the same shape as a brand-new
    /// matrix, or `DimensionMismatch` when the operands' row or column
    /// counts differ. Neither operand is changed.
    pub fn add(&self, other: &DSMatrix<T>) -> (result: MatrixOpResult<DSMatrix<T>>)
        requires
            self.inv(),
            other.inv(),
            self.same_shape(other) ==> forall|r: int, c: int|
                self.in_bounds(r, c) ==> T::add_ok(
                    #[trigger] self.spec_at(r, c),
                    other.spec_at(r, c),
                ),
        ensures
            self.same_shape(other) ==> (result matches Ok(m) && {
                &&& m.inv()
                &&& m.spec_rows() == self.spec_rows()
                &&& m.spec_cols() == self.spec_cols()
                &&& forall|r: int, c: int|
                    m.in_bounds(r, c) ==> m.spec_at(r, c) == T::add_spec(
                        self.spec_at(r, c),
                        other.spec_at(r, c),
                    )
            }),
            !self.same_shape(other) ==> result == Err::<DSMatrix<T>, MatrixError>(
                MatrixError::DimensionMismatch,
            ),
    {
        if self.num_rows != other.num_rows || self.num_columns != other.num_columns {
            return Err(MatrixError::DimensionMismatch);
        }

        let mut output = DSMatrix::<T>::new(self.num_rows, self.num_columns);
        let mut coord_iter = self.get_coord_iter();
        loop
            invariant
                self.inv(),
                other.inv(),
                output.inv(),
                self.same_shape(other),
                forall|r: int, c: int|
                    self.in_bounds(r, c) ==> T::add_ok(
                        #[trigger] self.spec_at(r, c),
                        other.spec_at(r, c),
                    ),
                output.spec_rows() == self.spec_rows(),
                output.spec_cols() == self.spec_cols(),
                coord_iter.inv(),
                coord_iter.spec_rows() == self.spec_rows(),
                coord_iter.spec_cols() == self.spec_cols(),
                0 <= coord_iter.pos() <= coord_iter.total(),
                forall|r: int, c: int|
                    self.in_bounds(r, c) && r * self.spec_cols() + c < coord_iter.pos()
                        ==> output.spec_at(r, c) == T::add_spec(
                        self.spec_at(r, c),
                        other.spec_at(r, c),
                    ),
            ensures
                output.inv(),
                output.spec_rows() == self.spec_rows(),
                output.spec_cols() == self.spec_cols(),
                forall|r: int, c: int|
                    self.in_bounds(r, c) ==> output.spec_at(r, c) == T::add_spec(
                        self.spec_at(r, c),
                        other.spec_at(r, c),
                    ),
            decreases coord_iter.total() - coord_iter.pos(),
        {
            let ghost prev_pos = coord_iter.pos();
            match coord_iter.next() {
                None => {
                    proof {
                        assert forall|r: int, c: int| self.in_bounds(r, c) implies output.spec_at(
                            r,
                            c,
                        ) == T::add_spec(self.spec_at(r, c), other.spec_at(r, c)) by {
                            lemma_flat_index_in_range(r, c, self.spec_rows(), self.spec_cols());
                        }
                    }
                    break;
                },
                Some((i, j)) => {
                    let left_ref = self.get_value(i, j);
                    let right_ref = other.get_value(i, j);
                    let add_value = left_ref.add_el(right_ref);
                    output.set_value(i, j, add_value);
                    proof {
                        assert forall|r: int, c: int|
                            self.in_bounds(r, c) && r * self.spec_cols() + c < coord_iter.pos()
                                implies output.spec_at(r, c) == T::add_spec(
                                self.spec_at(r, c),
                                other.spec_at(r, c),
                            ) by {
                            if !(r == i as int && c == j as int) {
                                if r * self.spec_cols() + c == prev_pos {
                                    lemma_flat_index_injective(
                                        r,
                                        c,
                                        i as int,
                                        j as int,
                                        self.spec_cols(),
                                    );
                                }
                            }
                        }
                    }
                },
            }
        }
        Ok(output)
    }

    /// The element at the given coordinate, or `IndexOutOfBounds` when the
    /// coordinate lies outside the matrix's shape.
    pub fn try_get_value(&self, row_number: u32, column_number: u32) -> (result: MatrixOpResult<T>)
        requires
            self.inv(),
        ensures
            self.in_bounds(row_number as int, column_number as int)
                ==> result == Ok::<T, MatrixError>(
                    self.spec_at(row_number as int, column_number as int),
                ),
            !self.in_bounds(row_number as int, column_number as int)
                ==> result == Err::<T, MatrixError>(MatrixError::IndexOutOfBounds),
    {
        if row_number < self.num_rows && column_number < self.num_columns {
            Ok(*self.get_value(row_number, column_number))
        } else {
            Err(MatrixError::IndexOutOfBounds)
        }
    }

    /// Overwrites the element at the given coordinate, or fails with
    /// `IndexOutOfBounds`, leaving the matrix unchanged, when the coordinate
    /// lies outside the matrix's shape.
    pub fn try_set_value(&mut self, row_number: u32, column_number: u32, value: T) -> (result:
        MatrixOpResult<()>)
        requires
            old(self).inv(),
        ensures
            final(self).inv(),
            final(self).spec_rows() == old(self).spec_rows(),
            final(self).spec_cols() == old(self).spec_cols(),
            old(self).in_bounds(row_number as int, column_number as int) ==> {
                &&& result == Ok::<(), MatrixError>(())
                &&& final(self).spec_at(row_number as int, column_number as int) == value
                &&& forall|r: int, c: int|
                    old(self).in_bounds(r, c) && !(r == row_number && c == column_number)
                        ==> final(self).spec_at(r, c) == old(self).spec_at(r, c)
            },
            !old(self).in_bounds(row_number as int, column_number as int) ==> {
                &&& result == Err::<(), MatrixError>(MatrixError::IndexOutOfBounds)
                &&& *final(self) == *old(self)
            },
    {
        if row_number < self.num_rows && column_number < self.num_columns {
            self.set_value(row_number, column_number, value);
            Ok(())
        } else {
            Err(MatrixError::IndexOutOfBounds)
        }
    }
}

/// A run of `k` spaces.
pub open spec fn spaces(k: int) -> Seq<char>
    decreases k,
{
    if k <= 0 {
        Seq::empty()
    } else {
        spaces(k - 1).push(' ')
    }
}

/// `s` padded on the left with spaces to at least `width` characters.
pub open spec fn pad_to_width(s: Seq<char>, width: int) -> Seq<char> {
    if s.len() >= width {
        s
    } else {
        spaces(width - s.len()) + s
    }
}

/// The text that opens a row: nothing for the first row, whose opening
/// bracket belongs to the header, an opening bracket for every later row.
pub open spec fn row_prefix(r: int) -> Seq<char> {
    if r == 0 {
        Seq::empty()
    } else {
        "[ "@
    }
}

impl<T: MatrixElement> DSMatrix<T> {
    /// The text of one cell: its element padded to width four, followed by a
    /// separator within the row or the row's closing bracket at its end.
    pub open spec fn cell_text(&self, r: int, c: int) -> Seq<char> {
        pad_to_width(T::text_spec(self.spec_at(r, c)), 4) + if c < self.spec_cols() - 1 {
            ", "@
        } else {
            " ]\n"@
        }
    }

    /// The text of the first `n` cells of row `r`.
    pub open spec fn row_text(&self, r: int, n: int) -> Seq<char>
        decreases n,
    {
        if n <= 0 {
            Seq::empty()
        } else {
            self.row_text(r, n - 1) + self.cell_text(r, n - 1)
        }
    }

    /// The text of the first `n` rows, each opened by its prefix.
    pub open spec fn rows_text(&self, n: int) -> Seq<char>
        decreases n,
    {
        if n <= 0 {
            Seq::empty()
        } else {
            self.rows_text(n - 1) + row_prefix(n - 1) + self.row_text(n - 1, self.spec_cols())
        }
    }

    /// The whole diagnostic text: a header, then the rows laid out one per
    /// line, elements comma-separated with fixed-width padding and each row
    /// bracketed. A matrix without cells renders as the bare header.
    pub open spec fn render_spec(&self) -> Seq<char> {
        "Matrix: \n[ "@ + if self.spec_cols() == 0 {
            Seq::empty()
        } else {
            self.rows_text(self.spec_rows())
        }
    }

    /// Renders the matrix in its diagnostic text form. This is an aid for
    /// humans, not a serialization format: no parser consumes it.
    pub fn render(&self) -> (s: String)
        requires
            self.inv(),
        ensures
            s@ == self.render_spec(),
    {
        let mut s = String::from_str("Matrix: \n[ ");
        if self.num_columns == 0 {
            return s;
        }

        let mut r: u32 = 0;
        while r < self.num_rows
            invariant
                self.inv(),
                self.spec_cols() > 0,
                r <= self.spec_rows(),
                s@ == "Matrix: \n[ "@ + self.rows_text(r as int),
            decreases self.spec_rows() - r,
        {
            if r > 0 {
                s.append("[ ");
            }
            proof {
                assert(s@ =~= "Matrix: \n[ "@ + self.rows_text(r as int) + row_prefix(r as int));
            }

            let mut c: u32 = 0;
            while c < self.num_columns
                invariant
                    self.inv(),
                    self.spec_cols() > 0,
                    r < self.spec_rows(),
                    c <= self.spec_cols(),
                    s@ == "Matrix: \n[ "@ + self.rows_text(r as int) + row_prefix(r as int)
                        + self.row_text(r as int, c as int),
                decreases self.spec_cols() - c,
            {
                let value = self.get_value(r, c);
                let text = value.to_text();
                append_padded(&mut s, &text);
                if c < self.num_columns - 1 {
                    s.append(", ");
                } else {
                    s.append(" ]\n");
                }
                proof {
                    assert(s@ =~= "Matrix: \n[ "@ + self.rows_text(r as int) + row_prefix(r as int)
                        + self.row_text(r as int, c as int + 1));
                }
                c += 1;
            }

            proof {
                assert(s@ =~= "Matrix: \n[ "@ + self.rows_text(r as int + 1));
            }
            r += 1;
        }
        s
    }
}

/// Appends `text` to `s`, padded on the left with spaces to at least four
/// characters.
fn append_padded(s: &mut String, text: &String)
    ensures
        final(s)@ == old(s)@ + pad_to_width(text@, 4),
{
    let len = text.as_str().unicode_len();
    if len < 4 {
        let pad = 4 - len;
        if pad == 1 {
            s.append(" ");
        } else if pad == 2 {
            s.append("  ");
        } else if pad == 3 {
            s.append("   ");
        } else {
            s.append("    ");
        }
        proof {
            reveal_strlit(" ");
            reveal_strlit("  ");
            reveal_strlit("   ");
            reveal_strlit("    ");
            reveal_with_fuel(spaces, 5);
            assert(" "@ =~= spaces(1));
            assert("  "@ =~= spaces(2));
            assert("   "@ =~= spaces(3));
            assert("    "@ =~= spaces(4));
        }
    }
    s.append(text.as_str());
    proof {
        assert(final(s)@ =~= old(s)@ + pad_to_width(text@, 4));
    }
}

/// What matrix equality means: the shapes match exactly and the row-major
/// element storage holds the same sequence, which for well-formed matrices
/// is element-wise equality of every cell.
pub open spec fn spec_matrix_eq<T>(a: &DSMatrix<T>, b: &DSMatrix<T>) -> bool {
    a.same_shape(b) && a.spec_values() == b.spec_values()
}

impl<T: MatrixElement> PartialEq for DSMatrix<T> {
    fn eq(&self, other: &DSMatrix<T>) -> (r: bool) {
        if self.get_num_rows() != other.get_num_rows() || self.get_num_columns()
            != other.get_num_columns() {
            return false;
        }
        if self.values.len() != other.values.len() {
            return false;
        }

        let mut i: usize = 0;
        while i < self.values.len()
            invariant
                self.spec_values().len() == other.spec_values().len(),
                i <= self.spec_values().len(),
                forall|j: int| 0 <= j < i ==> self.spec_values()[j] == other.spec_values()[j],
            decreases self.spec_values().len() - i,
        {
            let left = &self.values[i];
            let right = &other.values[i];
            if !left.eq_el(right) {
                proof {
                    assert(self.spec_values()[i as int] != other.spec_values()[i as int]);
                }
                return false;
            }
            i += 1;
        }
        proof {
            assert(self.spec_values() =~= other.spec_values());
        }
        true
    }
}

impl<T: MatrixElement> vstd::std_specs::cmp::PartialEqSpecImpl for DSMatrix<T> {
    open spec fn obeys_eq_spec() -> bool {
        true
    }

    open spec fn eq_spec(&self, other: &DSMatrix<T>) -> bool {
        spec_matrix_eq(self, other)
    }
}

impl<T: MatrixElement> Eq for DSMatrix<T> {

}

/// Matrix equality is reflexive: every matrix equals itself.
pub proof fn lemma_matrix_eq_reflexive<T>(a: &DSMatrix<T>)
    ensures
        spec_matrix_eq(a, a),
{
}

/// Matrix equality is symmetric: if `a` equals `b` then `b` equals `a`.
pub proof fn lemma_matrix_eq_symmetric<T>(a: &DSMatrix<T>, b: &DSMatrix<T>)
    requires
        spec_matrix_eq(a, b),
    ensures
        spec_matrix_eq(b, a),
{
}

/// Matrices of differing shapes are never equal, regardless of their
/// contents.
pub proof fn lemma_matrix_eq_needs_same_shape<T>(a: &DSMatrix<T>, b: &DSMatrix<T>)
    requires
        !a.same_shape(b),
    ensures
        !spec_matrix_eq(a, b),
{
}

/// Well-formed matrices of the same shape whose cells all agree are equal:
/// cell-wise agreement is enough, the flat storage then matches too.
pub proof fn lemma_matrix_eq_by_cells<T>(a: &DSMatrix<T>, b: &DSMatrix<T>)
    requires
        a.inv(),
        b.inv(),
        a.same_shape(b),
        forall|r: int, c: int| a.in_bounds(r, c) ==> a.spec_at(r, c) == b.spec_at(r, c),
    ensures
        spec_matrix_eq(a, b),
{
    let cols = a.spec_cols();
    assert forall|j: int| 0 <= j < a.spec_values().len() implies a.spec_values()[j]
        == b.spec_values()[j] by {
        assert(cols > 0) by {
            if cols <= 0 {
                assert(a.spec_rows() * cols <= 0) by (nonlinear_arith)
                    requires
                        cols <= 0,
                        a.spec_rows() >= 0,
                ;
            }
        }
        let r = j / cols;
        let c = j % cols;
        assert(0 <= r < a.spec_rows() && 0 <= c < cols && r * cols + c == j) by (nonlinear_arith)
            requires
                cols > 0,
                0 <= j < a.spec_rows() * cols,
                r == j / cols,
                c == j % cols,
        ;
        assert(a.spec_at(r, c) == b.spec_at(r, c));
    }
    assert(a.spec_values() =~= b.spec_values());
}

/// Matrix addition is commutative whenever the element type's addition is:
/// the pointwise sums of the same two matrices, taken in either order, are
/// equal matrices.
pub proof fn lemma_add_commutes<T: MatrixElement>(
    a: &DSMatrix<T>,
    b: &DSMatrix<T>,
    a_plus_b: &DSMatrix<T>,
    b_plus_a: &DSMatrix<T>,
)
    requires
        a.inv(),
        b.inv(),
        a_plus_b.inv(),
        b_plus_a.inv(),
        a.same_shape(b),
        a_plus_b.same_shape(a),
        b_plus_a.same_shape(a),
        forall|r: int, c: int|
            a_plus_b.in_bounds(r, c) ==> a_plus_b.spec_at(r, c) == T::add_spec(
                #[trigger] a.spec_at(r, c),
                b.spec_at(r, c),
            ),
        forall|r: int, c: int|
            b_plus_a.in_bounds(r, c) ==> b_plus_a.spec_at(r, c) == T::add_spec(
                #[trigger] b.spec_at(r, c),
                a.spec_at(r, c),
            ),
        forall|x: T, y: T| #[trigger] T::add_spec(x, y) == T::add_spec(y, x),
    ensures
        spec_matrix_eq(a_plus_b, b_plus_a),
{
    assert forall|r: int, c: int| a_plus_b.in_bounds(r, c) implies a_plus_b.spec_at(r, c)
        == b_plus_a.spec_at(r, c) by {
        assert(a_plus_b.spec_at(r, c) == T::add_spec(a.spec_at(r, c), b.spec_at(r, c)));
        assert(T::add_spec(a.spec_at(r, c), b.spec_at(r, c)) == T::add_spec(
            b.spec_at(r, c),
            a.spec_at(r, c),
        ));
    }
    lemma_matrix_eq_by_cells(a_plus_b, b_plus_a);
}

} // verus!
