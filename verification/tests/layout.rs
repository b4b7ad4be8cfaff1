use onnx_ml::layout::{gather_rows, transpose, MatmulTiled};

#[test]
fn transpose_two_by_three() {
    // rows of [1, 2, 3] and [4, 5, 6]
    let m = vec![1, 2, 3, 4, 5, 6];
    let t = transpose(&m, 2, 3);
    assert_eq!(t, vec![1, 4, 2, 5, 3, 6]);
}

#[test]
fn transpose_twice_is_identity() {
    let m: Vec<f32> = (0..12).map(|i| i as f32 * 0.5).collect();
    let t = transpose(&m, 3, 4);
    let back = transpose(&t, 4, 3);
    assert_eq!(back, m);
}

#[test]
fn transpose_empty_and_single_row() {
    let empty: Vec<u8> = vec![];
    assert_eq!(transpose(&empty, 0, 5), empty);
    assert_eq!(transpose(&vec![7, 8, 9], 1, 3), vec![7, 8, 9]);
}

#[test]
fn pack_pads_each_row_to_the_tile() {
    // 2 features, 3 weight vectors, tile of 4
    let coef_t = vec![1, 2, 3, 4, 5, 6];
    let m = MatmulTiled::new_from_transposed(&coef_t, 2, 3, 4, 0);
    assert_eq!(m.c, 2);
    assert_eq!(m.e, 3);
    assert_eq!(m.e_padded, 4);
    assert_eq!(m.tile_e, 4);
    assert_eq!(m.packed, vec![1, 2, 3, 0, 4, 5, 6, 0]);
}

#[test]
fn pack_exact_multiple_has_no_padding() {
    let coef_t: Vec<f32> = (0..32).map(|i| i as f32).collect();
    let m = MatmulTiled::new_from_transposed(&coef_t, 1, 32, 16, 0.0);
    assert_eq!(m.e_padded, 32);
    assert_eq!(m.packed, coef_t);
}

#[test]
fn pack_rounds_up_to_sixteen() {
    let coef_t: Vec<f32> = (0..17).map(|i| i as f32).collect();
    let m = MatmulTiled::new_from_transposed(&coef_t, 1, 17, 16, 0.0);
    assert_eq!(m.e_padded, 32);
    assert_eq!(&m.packed[..17], &coef_t[..]);
    assert!(m.packed[17..].iter().all(|&v| v == 0.0));
}

#[test]
fn gather_strided_rows() {
    // a 3 x 2 row-major buffer read as its 2 x 3 transpose
    let m = vec![1, 2, 3, 4, 5, 6];
    assert_eq!(gather_rows(&m, 0, 2, 3, 1, 2), vec![1, 3, 5, 2, 4, 6]);
    // rows in reverse order, from the last row
    assert_eq!(gather_rows(&m, 4, 3, 2, -2isize, 1), vec![5, 6, 3, 4, 1, 2]);
    // a sub-block
    assert_eq!(gather_rows(&m, 3, 1, 2, 2, 1), vec![4, 5]);
}
