use ds_linalg::conversions::{ToMatrix, ToMatrixWithStride};
use ds_linalg::DSMatrix;

#[test]
fn does_u32_matrix_comparison_give_expected_results() {
    let first_matrix = vec![vec![1, 2], vec![3, 4]].to_matrix();
    let second_matrix = vec![vec![1, 2], vec![3, 4]].to_matrix();
    let third_matrix = vec![vec![1, 2], vec![4, 3]].to_matrix();

    assert_eq!(
        first_matrix, second_matrix,
        "Matrix comparison operator says identical matrices are different."
    );
    assert_ne!(
        first_matrix, third_matrix,
        "Matrix comparison operator says differing matrices are equal."
    )
}

#[test]
fn does_u32_matrix_comparison_handle_different_sizes() {
    let first_matrix = vec![vec![1, 2], vec![3, 4]];
    let second_matrix = vec![vec![1, 2, 3], vec![3, 4, 5]];
    let third_matrix = vec![vec![1], vec![3]];

    assert_ne!(
        first_matrix, second_matrix,
        "Matrix comparison operator says matrices of different sizes are equal."
    );
    assert_ne!(
        first_matrix, third_matrix,
        "Matrix comparison operator says matrices of different sizes are equal."
    )
}

#[test]
fn does_u32_vec_to_matrix_conversion_give_expected_results() {
    let matrix_values = vec![vec![1, 2], vec![3, 4]];
    let matrix_result = matrix_values.to_matrix();

    assert!(
        matrix_result.is_ok(),
        "Failed to convert vector to matrix: '{}'.",
        matrix_result.err().unwrap().message()
    );

    let mut expected_output = DSMatrix::<u32>::new(2, 2);
    expected_output.set_value(0, 0, 1);
    expected_output.set_value(0, 1, 2);
    expected_output.set_value(1, 0, 3);
    expected_output.set_value(1, 1, 4);

    assert_eq!(
        matrix_result.unwrap(),
        expected_output,
        "Vector to matrix conversion did not produce expected results."
    );
}

#[test]
fn does_u32_vec_to_matrix_conversion_handle_different_size_vectors() {
    let matrix_values = vec![vec![1, 2], vec![3, 4, 5]];
    let matrix_result = matrix_values.to_matrix();

    assert!(
        matrix_result.is_err(),
        "Vector to matrix conversion produced ok when input vector was invalid."
    );
}

#[test]
fn does_u32_vec_with_stride_to_matrix_conversion_give_expected_results() {
    let matrix_values = vec![1, 2, 3, 4];
    let matrix_result = matrix_values.to_matrix_with_stride(2);

    assert!(
        matrix_result.is_ok(),
        "Unable to convert vector with stride to matrix: '{}'.",
        matrix_result.err().unwrap().message()
    );

    let mut expected_matrix = DSMatrix::<u32>::new(2, 2);
    expected_matrix.set_value(0, 0, 1);
    expected_matrix.set_value(0, 1, 2);
    expected_matrix.set_value(1, 0, 3);
    expected_matrix.set_value(1, 1, 4);

    assert_eq!(
        matrix_result.unwrap(),
        expected_matrix,
        "Vector with stride to matrix conversion did not produce expected results."
    );
}

#[test]
fn does_u32_vec_with_stride_to_matrix_conversion_handle_incorrect_stride() {
    let matrix_values = vec![1, 2, 3, 4, 5];
    let matrix_result = matrix_values.to_matrix_with_stride(2);

    assert!(
        matrix_result.is_err(),
        "Vector with stride to matrix conversion produced ok when vector length wasn't multiple of stride."
    );
}

#[test]
fn does_u32_matrix_addition_give_expected_values() {
    let mut first_matrix = DSMatrix::<u32>::new(2, 2);
    first_matrix.set_value(0, 0, 1);
    first_matrix.set_value(0, 1, 2);
    first_matrix.set_value(1, 0, 3);
    first_matrix.set_value(1, 1, 4);

    let mut second_matrix = DSMatrix::<u32>::new(2, 2);
    second_matrix.set_value(0, 0, 5);
    second_matrix.set_value(0, 1, 6);
    second_matrix.set_value(1, 0, 7);
    second_matrix.set_value(1, 1, 8);

    let sum_matrix = first_matrix.add(&second_matrix);

    let mut expected_matrix = DSMatrix::<u32>::new(2, 2);
    expected_matrix.set_value(0, 0, 6);
    expected_matrix.set_value(0, 1, 8);
    expected_matrix.set_value(1, 0, 10);
    expected_matrix.set_value(1, 1, 12);

    println!("Output matrix: {:?}", sum_matrix);
    println!("Expected matrix: {:?}", expected_matrix);

    assert!(sum_matrix.is_ok(), "Matrix addition failed.");
    assert_eq!(
        sum_matrix.unwrap(),
        expected_matrix,
        "Matrix addition did not produce expected result."
    );
}

#[test]
fn does_u32_matrix_addition_handle_different_dimensions() {
    let mut first_matrix = DSMatrix::<u32>::new(2, 2);
    first_matrix.set_value(0, 0, 1);
    first_matrix.set_value(0, 1, 2);
    first_matrix.set_value(1, 0, 3);
    first_matrix.set_value(1, 1, 4);

    let mut second_matrix = DSMatrix::<u32>::new(3, 3);
    second_matrix.set_value(0, 0, 5);
    second_matrix.set_value(0, 1, 6);
    second_matrix.set_value(0, 2, 6);
    second_matrix.set_value(1, 0, 7);
    second_matrix.set_value(1, 1, 8);
    second_matrix.set_value(1, 2, 9);
    second_matrix.set_value(2, 0, 10);
    second_matrix.set_value(2, 1, 11);
    second_matrix.set_value(2, 2, 12);

    let sum_matrix = first_matrix.add(&second_matrix);

    assert!(
        sum_matrix.is_err(),
        "Matrix addition succeeded when it should have failed due to different dimensions."
    );
}
