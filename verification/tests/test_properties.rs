use ds_linalg::conversions::{ToMatrix, ToMatrixWithStride};
use ds_linalg::{DSMatrix, MatrixError};

#[test]
fn new_matrix_is_zero_filled() {
    let matrix = DSMatrix::<u32>::new(3, 2);
    assert_eq!(matrix.get_num_rows(), 3);
    assert_eq!(matrix.get_num_columns(), 2);
    for r in 0..3 {
        for c in 0..2 {
            assert_eq!(*matrix.get_value(r, c), 0);
        }
    }
}

#[test]
fn new_matrix_may_be_empty() {
    let no_rows = DSMatrix::<u32>::new(0, 4);
    assert_eq!(no_rows.get_num_rows(), 0);
    assert_eq!(no_rows.get_num_columns(), 4);

    let no_columns = DSMatrix::<u32>::new(4, 0);
    assert_eq!(no_columns.get_num_rows(), 4);
    assert_eq!(no_columns.get_num_columns(), 0);
}

#[test]
fn set_then_get_returns_value_and_leaves_other_cells() {
    let mut matrix = DSMatrix::<u32>::new(2, 2);
    matrix.set_value(0, 1, 9);
    matrix.set_value(1, 0, 4);
    assert_eq!(*matrix.get_value(0, 1), 9);
    assert_eq!(*matrix.get_value(1, 0), 4);
    assert_eq!(*matrix.get_value(0, 0), 0);
    assert_eq!(*matrix.get_value(1, 1), 0);

    matrix.set_value(0, 1, 5);
    assert_eq!(*matrix.get_value(0, 1), 5);
    assert_eq!(*matrix.get_value(1, 0), 4);
}

#[test]
fn coord_iter_yields_nothing_for_degenerate_shapes() {
    let no_columns = DSMatrix::<u32>::new(3, 0);
    let mut iter = no_columns.get_coord_iter();
    assert_eq!(iter.next(), None);

    let no_rows = DSMatrix::<u32>::new(0, 3);
    let mut iter = no_rows.get_coord_iter();
    assert_eq!(iter.next(), None);
}

#[test]
fn coord_iter_yields_row_count_times_column_count_pairs() {
    let matrix = DSMatrix::<u32>::new(5, 7);
    let mut iter = matrix.get_coord_iter();
    let mut count = 0;
    while let Some(_) = iter.next() {
        count += 1;
    }
    assert_eq!(count, 35);
    assert_eq!(iter.next(), None);
}

#[test]
fn equality_is_reflexive_and_symmetric() {
    let a = vec![vec![1u32, 2], vec![3, 4]].to_matrix().unwrap();
    let b = vec![vec![1u32, 2], vec![3, 4]].to_matrix().unwrap();
    assert!(a == a);
    assert!(a == b);
    assert!(b == a);
}

#[test]
fn addition_is_commutative_for_u32() {
    let a = vec![vec![1u32, 2], vec![3, 4]].to_matrix().unwrap();
    let b = vec![vec![10u32, 20], vec![30, 40]].to_matrix().unwrap();
    let a_plus_b = a.add(&b).unwrap();
    let b_plus_a = b.add(&a).unwrap();
    assert_eq!(a_plus_b, b_plus_a);
}

#[test]
fn addition_reports_dimension_mismatch() {
    let a = DSMatrix::<u32>::new(2, 3);
    let b = DSMatrix::<u32>::new(3, 2);
    assert_eq!(a.add(&b).err(), Some(MatrixError::DimensionMismatch));
}

#[test]
fn trace_of_empty_matrix_is_zero() {
    let matrix = DSMatrix::<u32>::new(0, 0);
    assert_eq!(matrix.calculate_trace(), Ok(0));
}

#[test]
fn trace_reports_non_square() {
    let matrix = DSMatrix::<u32>::new(2, 3);
    assert_eq!(matrix.calculate_trace().err(), Some(MatrixError::NonSquare));
}

#[test]
fn conversion_reports_empty_input() {
    let no_rows: Vec<Vec<u32>> = vec![];
    assert_eq!(no_rows.to_matrix().err(), Some(MatrixError::EmptyInput));

    let empty_first_row: Vec<Vec<u32>> = vec![vec![], vec![1, 2]];
    assert_eq!(
        empty_first_row.to_matrix().err(),
        Some(MatrixError::EmptyInput)
    );

    let no_elements: Vec<u32> = vec![];
    assert_eq!(
        no_elements.to_matrix_with_stride(2).err(),
        Some(MatrixError::EmptyInput)
    );
}

#[test]
fn conversion_reports_ragged_input() {
    let ragged = vec![vec![1u32, 2], vec![3, 4, 5]];
    assert_eq!(ragged.to_matrix().err(), Some(MatrixError::RaggedInput));
}

#[test]
fn conversion_reports_stride_mismatch() {
    let values = vec![1u32, 2, 3, 4, 5];
    assert_eq!(
        values.to_matrix_with_stride(2).err(),
        Some(MatrixError::StrideMismatch)
    );
}

#[test]
fn conversion_reports_stride_mismatch_for_zero_stride() {
    let values = vec![1u32, 2, 3, 4];
    assert_eq!(
        values.to_matrix_with_stride(0).err(),
        Some(MatrixError::StrideMismatch)
    );
}

#[test]
fn stride_conversion_matches_nested_conversion() {
    let from_nested = vec![vec![1u32, 2], vec![3, 4]].to_matrix().unwrap();
    let from_stride = vec![1u32, 2, 3, 4].to_matrix_with_stride(2).unwrap();
    assert_eq!(from_stride, from_nested);
}

#[test]
fn stride_conversion_places_elements_row_major() {
    let matrix = vec![10u32, 20, 30, 40, 50, 60].to_matrix_with_stride(3).unwrap();
    assert_eq!(matrix.get_num_rows(), 2);
    assert_eq!(matrix.get_num_columns(), 3);
    assert_eq!(*matrix.get_value(0, 0), 10);
    assert_eq!(*matrix.get_value(0, 2), 30);
    assert_eq!(*matrix.get_value(1, 0), 40);
    assert_eq!(*matrix.get_value(1, 2), 60);
}

#[test]
fn try_accessors_report_index_out_of_bounds() {
    let mut matrix = DSMatrix::<u32>::new(2, 2);
    assert_eq!(matrix.try_get_value(2, 0), Err(MatrixError::IndexOutOfBounds));
    assert_eq!(matrix.try_get_value(0, 2), Err(MatrixError::IndexOutOfBounds));
    assert_eq!(
        matrix.try_set_value(2, 2, 1),
        Err(MatrixError::IndexOutOfBounds)
    );
    assert_eq!(matrix.try_set_value(1, 1, 8), Ok(()));
    assert_eq!(matrix.try_get_value(1, 1), Ok(8));
}

#[test]
fn render_lays_out_rows_with_padding() {
    let matrix = vec![vec![1u32, 2], vec![3, 4]].to_matrix().unwrap();
    assert_eq!(matrix.render(), "Matrix: \n[    1,    2 ]\n[    3,    4 ]\n");

    let wide = vec![vec![12345u32]].to_matrix().unwrap();
    assert_eq!(wide.render(), "Matrix: \n[ 12345 ]\n");

    let negative = vec![vec![-5i32]].to_matrix().unwrap();
    assert_eq!(negative.render(), "Matrix: \n[   -5 ]\n");

    let empty = DSMatrix::<u32>::new(0, 0);
    assert_eq!(empty.render(), "Matrix: \n[ ");
}

#[test]
fn error_messages_name_the_failure() {
    assert_eq!(
        MatrixError::EmptyInput.message(),
        "Cannot convert empty vec to matrix."
    );
    assert_eq!(
        MatrixError::RaggedInput.message(),
        "Inner vectors are of different sizes."
    );
    assert_eq!(
        MatrixError::StrideMismatch.message(),
        "Vector size is not whole multiple of stride."
    );
    assert_eq!(
        MatrixError::DimensionMismatch.message(),
        "Incorrect dimensions for addition."
    );
    assert_eq!(
        MatrixError::NonSquare.message(),
        "Trace is only defined for square matrices."
    );
    assert_eq!(
        MatrixError::IndexOutOfBounds.message(),
        "Co-ordinate is outside the matrix."
    );
}

#[test]
fn addition_of_signed_matrices_handles_negative_sums() {
    let a = vec![vec![-3i64, 2], vec![7, -8]].to_matrix().unwrap();
    let b = vec![vec![1i64, -2], vec![-9, 8]].to_matrix().unwrap();
    let sum = a.add(&b).unwrap();
    assert_eq!(*sum.get_value(0, 0), -2);
    assert_eq!(*sum.get_value(0, 1), 0);
    assert_eq!(*sum.get_value(1, 0), -2);
    assert_eq!(*sum.get_value(1, 1), 0);

    let trace = a.calculate_trace().unwrap();
    assert_eq!(trace, -11);
}
