use raytrace::Matrix;

#[test]
fn new_default_fills_every_cell() {
    let m = Matrix::new_default(3, 2, 7u32);
    assert_eq!(m.width(), 3);
    assert_eq!(m.height(), 2);
    assert_eq!(m.vec.len(), 6);
    assert!(m.vec.iter().all(|v| *v == 7));
}

#[test]
fn new_uses_default_value() {
    let m: Matrix<i64> = Matrix::new(4, 5);
    assert_eq!(m.width(), 4);
    assert_eq!(m.height(), 5);
    assert_eq!(m.vec, vec![0i64; 20]);
}

#[test]
fn empty_grid() {
    let m: Matrix<u8> = Matrix::new(0, 0);
    assert!(m.vec.is_empty());
    assert!(!m.test_coords(0, 0));
    assert_eq!(m.get(0, 0), None);
}

#[test]
fn to_index_is_row_major() {
    let m = Matrix::new_default(4, 3, 0u8);
    assert_eq!(m.to_index((0, 0)), 0);
    assert_eq!(m.to_index((3, 0)), 3);
    assert_eq!(m.to_index((0, 1)), 4);
    assert_eq!(m.to_index((2, 2)), 10);
}

#[test]
fn to_coords_inverts_to_index() {
    let m = Matrix::new_default(4, 3, 0u8);
    assert_eq!(m.to_coords(0), (0, 0));
    assert_eq!(m.to_coords(5), (1, 1));
    assert_eq!(m.to_coords(11), (3, 2));
    for i in 0..12 {
        assert_eq!(m.to_index(m.to_coords(i)), i);
    }
}

#[test]
fn test_coords_checks_both_axes() {
    let m = Matrix::new_default(4, 3, 0u8);
    assert!(m.test_coords(3, 2));
    assert!(!m.test_coords(4, 0));
    assert!(!m.test_coords(0, 3));
    assert!(!m.test_coords(4, 3));
}

#[test]
fn from_vecs_keeps_rows() {
    let m = Matrix::from_vecs(vec![vec![1, 2, 3], vec![4, 5, 6]]);
    assert_eq!(m.width(), 3);
    assert_eq!(m.height(), 2);
    assert_eq!(m.vec, vec![1, 2, 3, 4, 5, 6]);
    assert_eq!(m.get(0, 1), Some(4));
    assert_eq!(m.get(2, 0), Some(3));
}

#[test]
fn from_vecs_cuts_long_rows() {
    let m = Matrix::from_vecs(vec![vec![1, 2], vec![3, 4, 5]]);
    assert_eq!(m.width(), 2);
    assert_eq!(m.vec, vec![1, 2, 3, 4]);
}

#[test]
fn get_outside_is_none() {
    let m = Matrix::from_vecs(vec![vec![1, 2], vec![3, 4]]);
    assert_eq!(m.get(1, 1), Some(4));
    assert_eq!(m.get(2, 0), None);
    assert_eq!(m.get(0, 2), None);
}

#[test]
fn get_or_falls_back() {
    let m = Matrix::from_vecs(vec![vec![1, 2], vec![3, 4]]);
    assert_eq!(m.get_or(1, 0, 9), 2);
    assert_eq!(m.get_or(5, 0, 9), 9);
}

#[test]
fn index_mut_changes_one_cell() {
    let mut m = Matrix::new_default(3, 2, 0i32);
    *m.index_mut((2, 1)) = 8;
    assert_eq!(*m.index((2, 1)), 8);
    assert_eq!(m.vec, vec![0, 0, 0, 0, 0, 8]);
}

#[test]
fn from_fn_fills_row_major() {
    let m = Matrix::from_fn(3, 2, |(x, y)| 10 * y + x);
    assert_eq!(m.vec, vec![0, 1, 2, 10, 11, 12]);
    assert_eq!(m.get(1, 1), Some(11));
}

#[test]
fn layout_breaks_rows() {
    let m = Matrix::from_vecs(vec![vec![1, 2], vec![3, 4]]);
    let reprs: Vec<String> = m.vec.iter().map(|v| v.to_string()).collect();
    assert_eq!(m.layout(&reprs), "\n12\n34");
}

#[test]
fn layout_of_single_column() {
    let m = Matrix::from_vecs(vec![vec!['a'], vec!['b'], vec!['c']]);
    let reprs: Vec<String> = m.vec.iter().map(|c| format!("[{}]", c)).collect();
    assert_eq!(m.layout(&reprs), "\n[a]\n[b]\n[c]");
}
