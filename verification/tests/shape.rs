use mnist_net::shape::Shape;

#[test]
fn element_count_of_small_matrix() {
    let s = Shape { row: 2, col: 3 };
    assert_eq!(s.element_count(), Some(6));
    assert_eq!(Shape { row: 0, col: 7 }.element_count(), Some(0));
}

#[test]
fn element_count_overflow_is_none() {
    let s = Shape { row: usize::MAX, col: 2 };
    assert_eq!(s.element_count(), None);
    let t = Shape { row: usize::MAX, col: 1 };
    assert_eq!(t.element_count(), Some(usize::MAX));
}

#[test]
fn row_major_index_values() {
    let s = Shape { row: 2, col: 3 };
    assert_eq!(s.index(0, 0), 0);
    assert_eq!(s.index(0, 2), 2);
    assert_eq!(s.index(1, 0), 3);
    assert_eq!(s.index(1, 2), 5);
}

#[test]
fn row_major_index_is_a_bijection_on_small_shape() {
    let s = Shape { row: 3, col: 4 };
    let mut seen = vec![false; 12];
    for r in 0..3 {
        for c in 0..4 {
            let i = s.index(r, c);
            assert!(i < 12);
            assert!(!seen[i]);
            seen[i] = true;
            assert_eq!(i / 4, r);
            assert_eq!(i % 4, c);
        }
    }
    assert!(seen.iter().all(|&b| b));
}

#[test]
fn product_shape_of_compatible_matrices() {
    // 2x3 times 3x2 gives 2x2
    let a = Shape { row: 2, col: 3 };
    let b = Shape { row: 3, col: 2 };
    assert_eq!(a.product(&b), Some(Shape { row: 2, col: 2 }));
    // 3x2 times 2x3 gives 3x3
    assert_eq!(b.product(&a), Some(Shape { row: 3, col: 3 }));
}

#[test]
fn product_shape_of_incompatible_matrices_is_none() {
    let a = Shape { row: 2, col: 3 };
    assert_eq!(a.product(&a), None);
    assert_eq!(a.product(&Shape { row: 2, col: 5 }), None);
}

#[test]
fn product_shape_bracketing_agrees() {
    let a = Shape { row: 4, col: 3 };
    let b = Shape { row: 3, col: 5 };
    let c = Shape { row: 5, col: 2 };
    let left = a.product(&b).and_then(|ab| ab.product(&c));
    let right = b.product(&c).and_then(|bc| a.product(&bc));
    assert_eq!(left, right);
    assert_eq!(left, Some(Shape { row: 4, col: 2 }));
    let d = Shape { row: 7, col: 2 };
    let left = a.product(&b).and_then(|ab| ab.product(&d));
    let right = b.product(&d).and_then(|bd| a.product(&bd));
    assert_eq!(left, None);
    assert_eq!(right, None);
}

#[test]
fn apply_len_of_matrix_vector_product() {
    // a 2x3 matrix times a vector of 3 gives a vector of 2
    let a = Shape { row: 2, col: 3 };
    assert_eq!(a.apply_len(3), Some(2));
    assert_eq!(a.apply_len(2), None);
    assert_eq!(a.apply_len(4), None);
}

#[test]
fn apply_len_agrees_with_one_column_product() {
    let a = Shape { row: 5, col: 3 };
    for v_len in 0..6 {
        let via_product = a.product(&Shape { row: v_len, col: 1 }).map(|p| p.row);
        assert_eq!(a.apply_len(v_len), via_product);
    }
}
