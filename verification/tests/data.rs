use lm::errors::LeastSquaresError;
use lm::{
    check_that_2d_matrix_x_is_numeric, check_that_x_and_y_have_the_same_number_of_rows,
    check_that_x_is_a_2d_matrix, extract_dimensions_of_a_2d_matrix, initialize_coefficients_vector,
    initialize_effects_vector, initialize_pivots_vector, initialize_qr_auxiliary_matrix,
    initialize_qr_decomposition, initialize_residuals_vector, Data, RealMatrix,
};

fn matrix(values: &[f64], n_rows: usize, n_cols: usize) -> RealMatrix {
    RealMatrix::from_vec(values.iter().map(|v| v.to_bits()).collect(), n_rows, Some(n_cols)).unwrap()
}

#[test]
fn data_takes_matrices_with_equal_rows() {
    let x = matrix(&[1.0, 1.0, 1.0, 2.0, 1.0, 3.0], 3, 2);
    let y = matrix(&[1.0, 2.0, 3.0], 3, 1);
    let data = Data::new(x.clone(), y.clone()).unwrap();
    assert_eq!(data.x(), &x);
    assert_eq!(data.y(), &y);
    assert_eq!(data.clone(), data);
}

#[test]
fn data_rejects_a_response_with_other_rows() {
    let x = matrix(&[1.0, 1.0, 1.0, 2.0, 1.0, 3.0], 3, 2);
    let y = matrix(&[1.0, 2.0], 2, 1);
    assert_eq!(
        Data::new(x, y),
        Err(LeastSquaresError::DimensionMismatch { expected_rows: 3, expected_cols: 1, found_rows: 2, found_cols: 1 })
    );
}

#[test]
fn a_matrix_has_two_axes() {
    assert!(check_that_x_is_a_2d_matrix(&RealMatrix::with_shape(3, 2)));
    assert!(check_that_x_is_a_2d_matrix(&RealMatrix::with_shape(0, 0)));
}

#[test]
fn dimensions_are_rows_then_columns() {
    assert_eq!(extract_dimensions_of_a_2d_matrix(&RealMatrix::with_shape(3, 2)), (3, 2));
    assert_eq!(extract_dimensions_of_a_2d_matrix(&RealMatrix::with_shape(3, 2).transpose()), (2, 3));
}

#[test]
fn rows_of_x_and_y_are_compared() {
    let x = RealMatrix::with_shape(3, 2);
    assert_eq!(check_that_x_and_y_have_the_same_number_of_rows(&x, &RealMatrix::with_shape(3, 4)), Ok(()));
    assert_eq!(
        check_that_x_and_y_have_the_same_number_of_rows(&x, &RealMatrix::with_shape(2, 4)),
        Err(LeastSquaresError::DimensionMismatch { expected_rows: 3, expected_cols: 4, found_rows: 2, found_cols: 4 })
    );
}

#[test]
fn a_numeric_matrix_has_only_finite_cells() {
    assert_eq!(check_that_2d_matrix_x_is_numeric(&matrix(&[1.0, -2.0, 0.0, 1e300], 2, 2)), Ok(()));
    assert_eq!(check_that_2d_matrix_x_is_numeric(&RealMatrix::with_shape(0, 3)), Ok(()));
    for bad in [f64::NAN, f64::INFINITY, f64::NEG_INFINITY] {
        for at in 0..4 {
            let mut values = [1.0, 2.0, 3.0, 4.0];
            values[at] = bad;
            assert_eq!(
                check_that_2d_matrix_x_is_numeric(&matrix(&values, 2, 2)),
                Err(LeastSquaresError::NonFiniteInput)
            );
            assert_eq!(
                check_that_2d_matrix_x_is_numeric(&matrix(&values, 2, 2).transpose()),
                Err(LeastSquaresError::NonFiniteInput)
            );
        }
    }
}

#[test]
fn initial_vectors_are_zero_columns() {
    for v in [
        initialize_coefficients_vector(4),
        initialize_residuals_vector(4),
        initialize_effects_vector(4),
        initialize_pivots_vector(4),
    ] {
        assert_eq!(v.shape(), [4, 1]);
        assert_eq!(v.as_slice().unwrap(), &[0u64; 4][..]);
    }
}

#[test]
fn a_decomposition_starts_with_the_identity_pivot_and_rank_zero() {
    let qr = initialize_qr_auxiliary_matrix(3);
    assert_eq!(qr.pivot, vec![0, 1, 2]);
    assert_eq!(qr.rank, 0);
    assert_eq!(qr.q, RealMatrix::with_shape(3, 3));
    assert_eq!(qr.r, RealMatrix::with_shape(3, 3));
    assert!(qr.is_valid());

    let qr = initialize_qr_auxiliary_matrix(0);
    assert_eq!(qr.pivot, Vec::<usize>::new());
    assert!(qr.is_valid());
}

#[test]
fn a_decomposition_needs_stores_with_equal_rows() {
    let r = matrix(&[1.0, 2.0, 3.0, 4.0, 5.0, 6.0], 3, 2);
    let qr = initialize_qr_decomposition(RealMatrix::with_shape(3, 2), r.clone()).unwrap();
    assert_eq!(qr.pivot, vec![0, 1]);
    assert_eq!(qr.rank, 0);
    assert_eq!(qr.r, r);
    assert_eq!(qr.q, RealMatrix::with_shape(3, 2));
    assert_eq!(
        initialize_qr_decomposition(RealMatrix::with_shape(2, 5), r),
        Err(LeastSquaresError::DimensionMismatch { expected_rows: 3, expected_cols: 5, found_rows: 2, found_cols: 5 })
    );
}
