use rusty_fem::analysis::{CooMatrix, CsrMatrix};
use rusty_fem::FemError;

#[test]
fn rejects_invalid_matrix_indices() {
    let mut matrix = CooMatrix::new(2, 2);

    let error = matrix.push(2, 0, 1.0);

    assert!(matches!(error, Err(FemError::InvalidDofIndex { index: 2 })));
    assert_eq!(matrix.push(0, 5, 1.0), Err(FemError::InvalidDofIndex { index: 5 }));
    assert_eq!(matrix.nnz(), 0);
}

#[test]
fn supports_empty_rows_in_csr() {
    let mut matrix = CooMatrix::new(3, 3);
    matrix.push(1, 2, 5.0).unwrap();

    let csr: CsrMatrix<f64> = matrix.into_csr();

    assert_eq!(csr.row_offsets(), &vec![0, 0, 1, 1]);
}

#[test]
fn keeps_coo_entries_in_insertion_order() {
    let mut matrix = CooMatrix::new(3, 3);
    matrix.push(1, 2, 2.0).unwrap();
    matrix.push(1, 2, 3.0).unwrap();
    matrix.push(0, 0, 4.0).unwrap();

    assert_eq!(matrix.nnz(), 3);
    assert_eq!(matrix.rows(), &vec![1, 1, 0]);
    assert_eq!(matrix.cols(), &vec![2, 2, 0]);
    assert_eq!(matrix.values(), &vec![2.0, 3.0, 4.0]);
    assert!(!matrix.is_canonical());
}

#[test]
fn recognises_canonical_entry_order() {
    let mut matrix = CooMatrix::new(3, 3);
    matrix.push(0, 0, 2.0).unwrap();
    matrix.push(0, 2, 1.0).unwrap();
    matrix.push(1, 1, 3.0).unwrap();
    matrix.push(2, 0, 4.0).unwrap();

    assert!(matrix.is_canonical());

    let csr = matrix.into_csr();

    assert_eq!(csr.nrows(), 3);
    assert_eq!(csr.ncols(), 3);
    assert_eq!(csr.nnz(), 4);
    assert_eq!(csr.row_offsets(), &vec![0, 2, 3, 4]);
    assert_eq!(csr.column_indices(), &vec![0, 2, 1, 0]);
    assert_eq!(csr.value_at(0, 2), Ok(Some(1.0)));
    assert_eq!(csr.value_at(1, 0), Ok(None));
    assert_eq!(csr.value_at(3, 0), Err(FemError::InvalidDofIndex { index: 3 }));
    assert_eq!(csr.value_at(0, 3), Err(FemError::InvalidDofIndex { index: 3 }));
}

#[test]
fn builds_csr_from_sorted_entries() {
    let csr = CsrMatrix::from_sorted_entries(2, 4, vec![0, 1, 1], vec![3, 0, 2], vec![1.5, 2.5, 3.5]);

    assert_eq!(csr.row_offsets(), &vec![0, 1, 3]);
    assert_eq!(csr.values(), &vec![1.5, 2.5, 3.5]);
    assert_eq!(csr.value_at(1, 2), Ok(Some(3.5)));
}

#[test]
fn sets_and_removes_entries_in_column_order() {
    let mut csr = CsrMatrix::from_sorted_entries(3, 3, vec![1], vec![2], vec![5.0]);

    csr.set_entry(1, 0, 7.0).unwrap();
    csr.set_entry(1, 2, 6.0).unwrap();
    csr.set_entry(2, 1, 1.0).unwrap();

    assert_eq!(csr.row_offsets(), &vec![0, 0, 2, 3]);
    assert_eq!(csr.column_indices(), &vec![0, 2, 1]);
    assert_eq!(csr.values(), &vec![7.0, 6.0, 1.0]);
    assert_eq!(csr.value_at(1, 2), Ok(Some(6.0)));

    csr.remove_entry(1, 0).unwrap();
    csr.remove_entry(0, 0).unwrap();

    assert_eq!(csr.row_offsets(), &vec![0, 0, 1, 2]);
    assert_eq!(csr.column_indices(), &vec![2, 1]);
    assert_eq!(csr.value_at(1, 0), Ok(None));
    assert_eq!(csr.set_entry(0, 3, 1.0), Err(FemError::InvalidDofIndex { index: 3 }));
    assert_eq!(csr.remove_entry(3, 0), Err(FemError::InvalidDofIndex { index: 3 }));
}

#[test]
fn orders_entries_by_position_keeping_duplicates() {
    let mut matrix = CooMatrix::new(3, 3);
    matrix.push(1, 2, 2.0).unwrap();
    matrix.push(2, 0, 1.0).unwrap();
    matrix.push(1, 2, 3.0).unwrap();
    matrix.push(0, 0, 4.0).unwrap();
    matrix.push(1, 0, 5.0).unwrap();

    let sorted = matrix.sorted_by_position();

    assert_eq!(sorted.nrows(), 3);
    assert_eq!(sorted.ncols(), 3);
    assert_eq!(sorted.rows(), &vec![0, 1, 1, 1, 2]);
    assert_eq!(sorted.cols(), &vec![0, 0, 2, 2, 0]);
    assert_eq!(sorted.values()[0], 4.0);
    assert_eq!(sorted.values()[1], 5.0);
    let mut duplicates = vec![sorted.values()[2], sorted.values()[3]];
    duplicates.sort_by(|a, b| a.partial_cmp(b).unwrap());
    assert_eq!(duplicates, vec![2.0, 3.0]);
    assert_eq!(sorted.values()[4], 1.0);
    assert!(!sorted.is_canonical());
}

#[test]
fn sorting_an_empty_matrix_gives_an_empty_matrix() {
    let matrix: CooMatrix<f64> = CooMatrix::new(2, 2);

    assert_eq!(matrix.sorted_by_position().nnz(), 0);
}
