use gmt_fem_frequency_response::matrix::{CMatrix, Matrix};

fn bits(v: &[f64]) -> Vec<u64> {
    v.iter().map(|x| x.to_bits()).collect()
}

#[test]
fn row_major_entries_are_read_back() {
    let m = Matrix::from_row_major(2, 3, bits(&[1.0, 2.0, 3.0, 4.0, 5.0, 6.0]));
    assert_eq!(m.nrows(), 2);
    assert_eq!(m.ncols(), 3);
    assert_eq!(m.entry(0, 0), 1.0f64.to_bits());
    assert_eq!(m.entry(0, 2), 3.0f64.to_bits());
    assert_eq!(m.entry(1, 1), 5.0f64.to_bits());
}

#[test]
fn column_major_data_is_transposed_in() {
    let d = bits(&[1.0, 2.0, 3.0, 4.0, 5.0, 6.0]);
    let m = Matrix::from_column_major(2, 3, &d);
    // columns are consecutive in the flat data
    assert_eq!(m.entry(0, 0), 1.0f64.to_bits());
    assert_eq!(m.entry(1, 0), 2.0f64.to_bits());
    assert_eq!(m.entry(0, 1), 3.0f64.to_bits());
    assert_eq!(m.entry(1, 2), 6.0f64.to_bits());
}

#[test]
fn selection_keeps_the_requested_order() {
    let m = Matrix::from_row_major(3, 2, bits(&[1.0, 2.0, 3.0, 4.0, 5.0, 6.0]));
    let swapped = m.select_rows(&vec![2, 0]);
    assert_eq!(swapped.nrows(), 2);
    assert_eq!(swapped.entry(0, 0), 5.0f64.to_bits());
    assert_eq!(swapped.entry(1, 1), 2.0f64.to_bits());
    let col = m.select_cols(&vec![1]);
    assert_eq!(col.ncols(), 1);
    assert_eq!(col.entry(2, 0), 6.0f64.to_bits());
}

#[test]
fn stacking_appends_rows() {
    let top = Matrix::from_row_major(1, 2, bits(&[1.0, 2.0]));
    let bottom = Matrix::from_row_major(2, 2, bits(&[3.0, 4.0, 5.0, 6.0]));
    let s = top.vstack(&bottom);
    assert_eq!(s.nrows(), 3);
    assert_eq!(s.entry(0, 1), 2.0f64.to_bits());
    assert_eq!(s.entry(2, 0), 5.0f64.to_bits());
}

#[test]
fn blocks_are_contiguous_views() {
    let m = Matrix::from_row_major(3, 3, bits(&[1.0, 2.0, 3.0, 4.0, 5.0, 6.0, 7.0, 8.0, 9.0]));
    let b = m.block(1, 1, 2, 2);
    assert_eq!(b.nrows(), 2);
    assert_eq!(b.ncols(), 2);
    assert_eq!(b.entry(0, 0), 5.0f64.to_bits());
    assert_eq!(b.entry(1, 1), 9.0f64.to_bits());
}

#[test]
fn zero_matrices_hold_positive_zero() {
    let z = Matrix::zeros(2, 2);
    assert_eq!(z.entry(1, 1), 0.0f64.to_bits());
    assert_eq!(f64::from_bits(z.entry(0, 0)), 0.0);
    let c = CMatrix::zeros(1, 1);
    assert_eq!(c.re.entry(0, 0), 0);
    assert_eq!(c.im.entry(0, 0), 0);
}

#[test]
fn bit_patterns_of_nonnegative_doubles_order_like_the_numbers() {
    // the library compares frequencies by their bit patterns; for
    // nonnegative finite doubles that order is the numeric order
    let samples: Vec<f64> = vec![
        0.0,
        f64::MIN_POSITIVE / 2.0,
        f64::MIN_POSITIVE,
        1e-300,
        0.02,
        1.0,
        1.0 + f64::EPSILON,
        4000.0,
        8000.0,
        1e300,
        f64::MAX,
    ];
    for a in &samples {
        for b in &samples {
            assert_eq!(a < b, a.to_bits() < b.to_bits());
            assert_eq!(a == b, a.to_bits() == b.to_bits());
        }
    }
}
