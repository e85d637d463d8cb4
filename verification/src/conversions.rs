//! Conversions from nested or flat vectors into a matrix.

use vstd::prelude::*;

verus! {

use crate::DSMatrix;
use crate::MatrixOpResult;
use crate::element::MatrixElement;

/// Conversion of a value into a matrix. `conversion_req` gathers the machine
/// limits the conversion needs, and `conversion_post` is the implementing
/// type's exact statement of the outcome.
pub trait ToMatrix<M>: Sized {
    spec fn conversion_req(&self) -> bool;

    spec fn conversion_post(&self, result: MatrixOpResult<M>) -> bool;

    fn to_matrix(self) -> (result: MatrixOpResult<M>)
        requires
            self.conversion_req(),
        ensures
            self.conversion_post(result),
    ;
}

/// Conversion of a value and a row width into a matrix, with the analogous
/// spec functions.
pub trait ToMatrixWithStride<M>: Sized {
    spec fn stride_conversion_req(&self, stride: u32) -> bool;

    spec fn stride_conversion_post(&self, stride: u32, result: MatrixOpResult<M>) -> bool;

    fn to_matrix_with_stride(self, stride: u32) -> (result: MatrixOpResult<M>)
        requires
            self.stride_conversion_req(stride),
        ensures
            self.stride_conversion_post(stride, result),
    ;
}

/// Conversion between a 2-D vector and a matrix. The outer vector is
/// interpreted as a vec of rows as opposed to a vec of columns.
impl<T: MatrixElement> ToMatrix<DSMatrix<T>> for Vec<Vec<T>> {
    /// The counts must fit the matrix's index arithmetic.
    open spec fn conversion_req(&self) -> bool {
        &&& self@.len() <= u32::MAX
        &&& self@.len() > 0 ==> self@[0]@.len() <= u32::MAX && self@.len() * self@[0]@.len()
            <= u32::MAX
    }

    /// Fails with `EmptyInput` when the outer vector or its first row is
    /// empty, with `RaggedInput` when some row's length differs from the
    /// first row's; otherwise the result's shape is outer length by first
    /// row length, and the cell at `(r, c)` holds the source's `[r][c]`.
    open spec fn conversion_post(&self, result: MatrixOpResult<DSMatrix<T>>) -> bool {
        if self@.len() == 0 || self@[0]@.len() == 0 {
            result == Err::<DSMatrix<T>, _>(crate::MatrixError::EmptyInput)
        } else if exists|i: int|
            0 <= i < self@.len() && #[trigger] self@[i]@.len() != self@[0]@.len() {
            result == Err::<DSMatrix<T>, _>(crate::MatrixError::RaggedInput)
        } else {
            &&& result is Ok
            &&& result matches Ok(m) && {
                &&& m.inv()
                &&& m.spec_rows() == self@.len()
                &&& m.spec_cols() == self@[0]@.len()
                &&& forall|r: int, c: int| m.in_bounds(r, c) ==> m.spec_at(r, c) == self@[r]@[c]
            }
        }
    }

    fn to_matrix(self) -> (result: MatrixOpResult<DSMatrix<T>>) {
        if self.len() == 0 || self[0].len() == 0 {
            // Original vec is empty, so there is no matrix to build.
            return Err(crate::MatrixError::EmptyInput);
        }

        let num_rows = self.len();
        let num_columns = self[0].len();
        let mut out_matrix = DSMatrix::<T>::new(num_rows as u32, num_columns as u32);

        let mut row_index: usize = 0;
        while row_index < num_rows
            invariant
                num_rows == self@.len(),
                num_columns == self@[0]@.len(),
                0 < num_rows <= u32::MAX,
                0 < num_columns <= u32::MAX,
                num_rows * num_columns <= u32::MAX,
                row_index <= num_rows,
                out_matrix.inv(),
                out_matrix.spec_rows() == num_rows,
                out_matrix.spec_cols() == num_columns,
                forall|i: int| 0 <= i < row_index ==> self@[i]@.len() == num_columns,
                forall|r: int, c: int|
                    0 <= r < row_index && 0 <= c < num_columns
                        ==> out_matrix.spec_at(r, c) == self@[r]@[c],
            decreases num_rows - row_index,
        {
            let row = &self[row_index];
            if row.len() != num_columns {
                return Err(crate::MatrixError::RaggedInput);
            }

            let mut col_index: usize = 0;
            while col_index < num_columns
                invariant
                    num_rows == self@.len(),
                    num_columns == self@[0]@.len(),
                    0 < num_rows <= u32::MAX,
                    0 < num_columns <= u32::MAX,
                    num_rows * num_columns <= u32::MAX,
                    row_index < num_rows,
                    col_index <= num_columns,
                    row == self@[row_index as int],
                    row@.len() == num_columns,
                    out_matrix.inv(),
                    out_matrix.spec_rows() == num_rows,
                    out_matrix.spec_cols() == num_columns,
                    forall|r: int, c: int|
                        0 <= r < row_index && 0 <= c < num_columns
                            ==> out_matrix.spec_at(r, c) == self@[r]@[c],
                    forall|c: int|
                        0 <= c < col_index
                            ==> out_matrix.spec_at(row_index as int, c)
                                == self@[row_index as int]@[c],
                decreases num_columns - col_index,
            {
                out_matrix.set_value(row_index as u32, col_index as u32, row[col_index]);
                col_index += 1;
            }

            row_index += 1;
        }

        Ok(out_matrix)
    }
}

/// Conversion between a 1-D vector with a specific stride and a matrix. The
/// stride is the number of columns of the output matrix.
impl<T: MatrixElement> ToMatrixWithStride<DSMatrix<T>> for Vec<T> {
    /// The length must fit the matrix's index arithmetic.
    open spec fn stride_conversion_req(&self, stride: u32) -> bool {
        self@.len() <= u32::MAX
    }

    /// Fails with `EmptyInput` when the vector is empty, with
    /// `StrideMismatch` when its length is not a whole multiple of the
    /// stride — no positive length is a multiple of a zero stride;
    /// otherwise the result has `len / stride` rows of `stride` columns,
    /// and the cell at `(r, c)` holds the source's `[r * stride + c]`.
    open spec fn stride_conversion_post(&self, stride: u32, result: MatrixOpResult<DSMatrix<T>>) -> bool {
        if self@.len() == 0 {
            result == Err::<DSMatrix<T>, _>(crate::MatrixError::EmptyInput)
        } else if stride == 0 || (self@.len() as int) % (stride as int) != 0 {
            result == Err::<DSMatrix<T>, _>(crate::MatrixError::StrideMismatch)
        } else {
            &&& result is Ok
            &&& result matches Ok(m) && {
                &&& m.inv()
                &&& m.spec_rows() == (self@.len() as int) / (stride as int)
                &&& m.spec_cols() == stride
                &&& forall|r: int, c: int|
                    m.in_bounds(r, c) ==> m.spec_at(r, c) == self@[r * (stride as int) + c]
            }
        }
    }

    fn to_matrix_with_stride(self, stride: u32) -> (result: MatrixOpResult<DSMatrix<T>>) {
        if self.len() == 0 {
            // Original vec is empty, so there is no matrix to build.
            return Err(crate::MatrixError::EmptyInput);
        }

        let num_elements = self.len() as u32;
        if stride == 0 || num_elements % stride != 0 {
            return Err(crate::MatrixError::StrideMismatch);
        }

        let num_rows = num_elements / stride;
        proof {
            assert(num_rows * stride == num_elements) by (nonlinear_arith)
                requires
                    stride > 0,
                    num_rows == num_elements / stride,
                    num_elements % stride == 0,
            ;
        }
        let mut out_matrix = DSMatrix::<T>::new(num_rows, stride);

        let mut i: u32 = 0;
        while i < num_elements
            invariant
                num_elements == self@.len(),
                0 < num_elements <= u32::MAX,
                stride > 0,
                num_rows * stride == num_elements,
                i <= num_elements,
                out_matrix.inv(),
                out_matrix.spec_rows() == num_rows,
                out_matrix.spec_cols() == stride,
                forall|r: int, c: int|
                    0 <= r < num_rows && 0 <= c < stride && r * (stride as int) + c < i
                        ==> out_matrix.spec_at(r, c) == self@[r * (stride as int) + c],
            decreases num_elements - i,
        {
            let row_index = i / stride;
            let column_index = i % stride;
            proof {
                lemma_div_mod_in_shape(i as int, stride as int, num_rows as int);
            }
            out_matrix.set_value(row_index, column_index, self[i as usize]);
            proof {
                assert(row_index as int * (stride as int) + column_index as int == i);
                assert forall|r: int, c: int|
                    0 <= r < num_rows && 0 <= c < stride && r * (stride as int) + c < i + 1
                        implies out_matrix.spec_at(r, c) == self@[r * (stride as int) + c] by {
                    if r == row_index as int && c == column_index as int {
                        assert(out_matrix.spec_at(r, c) == self@[i as int]);
                    } else {
                        assert(r * (stride as int) + c != i) by {
                            lemma_flat_index_decomposes(r, c, stride as int);
                        }
                    }
                }
            }
            i += 1;
        }

        proof {
            assert forall|r: int, c: int| out_matrix.in_bounds(r, c) implies out_matrix.spec_at(r, c)
                == self@[r * (stride as int) + c] by {
                crate::lemma_flat_index_in_range(r, c, num_rows as int, stride as int);
            }
        }
        Ok(out_matrix)
    }
}

/// A flat position within the source maps to an in-bounds cell of the
/// `len / stride` by `stride` target shape.
proof fn lemma_div_mod_in_shape(j: int, stride: int, num_rows: int)
    requires
        stride > 0,
        0 <= j < num_rows * stride,
    ensures
        0 <= j / stride < num_rows,
        0 <= j % stride < stride,
        (j / stride) * stride + j % stride == j,
{
    assert(0 <= j / stride < num_rows && 0 <= j % stride < stride && (j / stride) * stride + j
        % stride == j) by (nonlinear_arith)
        requires
            stride > 0,
            0 <= j < num_rows * stride,
    ;
}

/// Decomposing a coordinate's flat position recovers the coordinate.
proof fn lemma_flat_index_decomposes(r: int, c: int, stride: int)
    requires
        stride > 0,
        0 <= r,
        0 <= c < stride,
    ensures
        (r * stride + c) / stride == r,
        (r * stride + c) % stride == c,
{
    assert((r * stride + c) / stride == r && (r * stride + c) % stride == c) by (nonlinear_arith)
        requires
            stride > 0,
            0 <= r,
            0 <= c < stride,
    ;
}

} // verus!
