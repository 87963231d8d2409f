use gauss_solver::error::ErrorReason;
use gauss_solver::matrix::{EliminationResult, Matrix};
use gauss_solver::rational::Scalar;

use num::ToPrimitive;

/// Builds a matrix from row-major integer entries.
fn matrix_from_ints(rows: &[&[i64]]) -> Matrix {
    let n_rows = rows.len();
    let n_cols = if n_rows == 0 { 0 } else { rows[0].len() };
    let mut m = Matrix::new(n_rows, n_cols);
    for (i, row) in rows.iter().enumerate() {
        assert_eq!(row.len(), n_cols);
        for (j, &v) in row.iter().enumerate() {
            m.set(i, j, Scalar::from_int(v));
        }
    }
    m
}

/// Builds a matrix from row-major `(numerator, denominator)` entries.
fn matrix_from_fractions(rows: &[&[(i64, i64)]]) -> Matrix {
    let n_rows = rows.len();
    let n_cols = if n_rows == 0 { 0 } else { rows[0].len() };
    let mut m = Matrix::new(n_rows, n_cols);
    for (i, row) in rows.iter().enumerate() {
        assert_eq!(row.len(), n_cols);
        for (j, &(n, d)) in row.iter().enumerate() {
            m.set(i, j, Scalar::from_fraction(n, d));
        }
    }
    m
}

fn solve(m: &Matrix) -> EliminationResult {
    match m.gaussian_elimination() {
        Ok(out) => out,
        Err(e) => panic!("expected a solution, got: {}", e.reason().to_string()),
    }
}

fn assert_all_zero_column(m: &Matrix) {
    assert_eq!(m.cols(), 1);
    for i in 0..m.rows() {
        assert!(m.get(i, 0).is_zero());
    }
}

#[test]
fn test_gauss() {
    let matrix = matrix_from_fractions(&[
        &[(3, 2), (2, 1), (1, 1), (-1, 1), (-2, 1), (1, 1), (1, 1)],
        &[(3, 1), (3, 1), (-1, 1), (16, 1), (18, 1), (1, 1), (1, 1)],
        &[(1, 1), (1, 1), (3, 1), (-2, 1), (-6, 1), (1, 1), (1, 1)],
        &[(1, 1), (1, 1), (99, 1), (19, 1), (2, 1), (1, 1), (1, 1)],
        &[(1, 1), (-2, 1), (16, 1), (1, 1), (9, 1), (10, 1), (1, 1)],
        &[(1, 1), (3, 1), (1, 1), (-5, 1), (1, 1), (1, 1), (95, 1)],
    ]);
    let expected: [f64; 6] = [-264.05893, 159.63196, -6.156921, 35.310387, -18.806696, 81.67839];
    let out = solve(&matrix);
    assert_eq!(out.result.rows(), 6);
    assert_eq!(out.result.cols(), 1);
    for (i, &want) in expected.iter().enumerate() {
        let got = out.result.get(i, 0).inner.to_f64().unwrap();
        assert!(
            (got - want).abs() <= 1e-3 * want.abs(),
            "row {}: got {}, want about {}",
            i,
            got,
            want
        );
    }
    // Exact arithmetic: the residual is exactly zero in every row.
    assert_all_zero_column(&out.epsilon);
    // Substituting the solution back reproduces the right-hand side exactly.
    let reproduced = matrix.calculate_right(&out.result);
    assert!(reproduced.eq_matrix(&matrix.get_rhs()));
}

#[test]
fn shape_violation_fails_with_incorrect_size() {
    let square = matrix_from_ints(&[&[1, 2], &[3, 4]]);
    match square.gaussian_elimination() {
        Ok(_) => panic!("a 2x2 matrix must be rejected"),
        Err(e) => assert_eq!(e.reason(), ErrorReason::IncorrectSize),
    }
    let wide = matrix_from_ints(&[&[1, 2, 3, 4], &[5, 6, 7, 8]]);
    match wide.gaussian_elimination() {
        Ok(_) => panic!("a 2x4 matrix must be rejected"),
        Err(e) => assert_eq!(e.reason(), ErrorReason::IncorrectSize),
    }
}

#[test]
fn zero_first_pivot_fails_with_unable_to_calculate() {
    let m = matrix_from_ints(&[&[0, 2, 3], &[4, 5, 6]]);
    match m.gaussian_elimination() {
        Ok(_) => panic!("a zero first pivot must fail"),
        Err(e) => assert_eq!(e.reason(), ErrorReason::UnableToCalculate),
    }
}

#[test]
fn zero_pivot_in_one_by_two_fails() {
    let m = matrix_from_ints(&[&[0, 5]]);
    match m.gaussian_elimination() {
        Ok(_) => panic!("0 * x = 5 has no solution"),
        Err(e) => assert_eq!(e.reason(), ErrorReason::UnableToCalculate),
    }
}

#[test]
fn get_rhs_is_idempotent() {
    let m = matrix_from_ints(&[&[1, 2, 3], &[4, 5, 6], &[7, 8, 9]]);
    let first = m.get_rhs();
    let second = m.get_rhs();
    assert!(first.eq_matrix(&second));
    assert_eq!(first.rows(), 3);
    assert_eq!(first.cols(), 1);
    assert!(first.get(0, 0).eq_value(&Scalar::from_int(3)));
    assert!(first.get(1, 0).eq_value(&Scalar::from_int(6)));
    assert!(first.get(2, 0).eq_value(&Scalar::from_int(9)));
}

#[test]
fn calculate_right_reproduces_known_product() {
    // A = [[1, 2], [3, 4]] (augmented column ignored), x = [5, 6]:
    // A * x = [17, 39].
    let m = matrix_from_ints(&[&[1, 2, 100], &[3, 4, 100]]);
    let mut x = Matrix::new_column_matrix(2);
    x.set(0, 0, Scalar::from_int(5));
    x.set(1, 0, Scalar::from_int(6));
    let product = m.calculate_right(&x);
    assert_eq!(product.rows(), 2);
    assert_eq!(product.cols(), 1);
    assert!(product.get(0, 0).eq_value(&Scalar::from_int(17)));
    assert!(product.get(1, 0).eq_value(&Scalar::from_int(39)));
}

#[test]
fn small_system_solves_exactly() {
    // 2x + 0y = 4, 0x + 3y = 9  =>  x = 2, y = 3.
    let m = matrix_from_ints(&[&[2, 0, 4], &[0, 3, 9]]);
    let out = solve(&m);
    assert!(out.result.get(0, 0).eq_value(&Scalar::from_int(2)));
    assert!(out.result.get(1, 0).eq_value(&Scalar::from_int(3)));
    assert_all_zero_column(&out.epsilon);
}

#[test]
fn three_by_four_system_solves_exactly() {
    let m = matrix_from_fractions(&[
        &[(43, 100), (124, 100), (-58, 100), (271, 100)],
        &[(74, 100), (83, 100), (117, 100), (126, 100)],
        &[(143, 100), (-158, 100), (83, 100), (103, 100)],
    ]);
    let out = solve(&m);
    assert_all_zero_column(&out.epsilon);
    let reproduced = m.calculate_right(&out.result);
    assert!(reproduced.eq_matrix(&m.get_rhs()));
}

#[test]
fn solver_leaves_the_input_unchanged() {
    let m = matrix_from_ints(&[&[2, 1, 5], &[1, 3, 10]]);
    let before = m.clone();
    let _ = solve(&m);
    assert!(m.eq_matrix(&before));
}

#[test]
fn clone_is_independent_of_the_original() {
    let original = matrix_from_ints(&[&[1, 2], &[3, 4]]);
    let mut copy = original.clone();
    assert!(copy.eq_matrix(&original));
    copy.set(0, 0, Scalar::from_int(42));
    assert!(!copy.eq_matrix(&original));
    assert!(original.get(0, 0).eq_value(&Scalar::from_int(1)));
}

#[test]
fn equality_of_identical_literals_and_a_changed_element() {
    let a = matrix_from_ints(&[&[1, 2, 3], &[4, 5, 6]]);
    let b = matrix_from_ints(&[&[1, 2, 3], &[4, 5, 6]]);
    assert!(a.eq_matrix(&b));
    assert!(b.eq_matrix(&a));
    let mut c = matrix_from_ints(&[&[1, 2, 3], &[4, 5, 6]]);
    c.set(1, 2, Scalar::from_int(7));
    assert!(!a.eq_matrix(&c));
    let d = matrix_from_ints(&[&[1, 2], &[4, 5]]);
    assert!(!a.eq_matrix(&d));
}

#[test]
fn scalars_compare_by_value_not_representation() {
    assert!(Scalar::from_fraction(1, 2).eq_value(&Scalar::from_fraction(2, 4)));
    assert!(Scalar::from_fraction(1, -2).eq_value(&Scalar::from_fraction(-1, 2)));
    assert!(!Scalar::from_fraction(1, 2).eq_value(&Scalar::from_fraction(1, 3)));
    assert!(Scalar::zero().is_zero());
    assert!(Scalar::from_fraction(0, 7).is_zero());
    assert!(!Scalar::from_int(-3).is_zero());
}

#[test]
fn absolute_value_is_exact() {
    assert!(Scalar::from_int(-3).abs().eq_value(&Scalar::from_int(3)));
    assert!(Scalar::from_fraction(-7, 2).abs().eq_value(&Scalar::from_fraction(7, 2)));
    assert!(Scalar::from_fraction(7, 2).abs().eq_value(&Scalar::from_fraction(7, 2)));
    assert!(Scalar::zero().abs().is_zero());
}

#[test]
fn new_matrices_are_zero_filled() {
    let m = Matrix::new(2, 3);
    assert_eq!(m.rows(), 2);
    assert_eq!(m.cols(), 3);
    for i in 0..2 {
        for j in 0..3 {
            assert!(m.get(i, j).is_zero());
        }
    }
    let c = Matrix::new_column_matrix(4);
    assert_eq!(c.rows(), 4);
    assert_eq!(c.cols(), 1);
    assert_all_zero_column(&c);
}

#[test]
fn error_messages_name_each_failure() {
    assert_eq!(
        ErrorReason::IncorrectSize.to_string(),
        "Incorrect matrix size: it must have n rows and n + 1 columns!"
    );
    assert_eq!(
        ErrorReason::UnableToCalculate.to_string(),
        "This matrix has no solutions!"
    );
}
