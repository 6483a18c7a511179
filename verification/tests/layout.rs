use cubecl_wgpu_server::layout::{
    checked_byte_size, contiguous_strides, has_contiguous_strides, strides_representable,
    tensor_size,
};

#[test]
fn strides_of_three_dimensions() {
    assert_eq!(contiguous_strides(&[2, 3, 4]), vec![12, 4, 1]);
}

#[test]
fn strides_of_one_dimension() {
    assert_eq!(contiguous_strides(&[7]), vec![1]);
}

#[test]
fn strides_do_not_depend_on_the_first_extent() {
    assert_eq!(contiguous_strides(&[0, 3]), vec![3, 1]);
    assert_eq!(contiguous_strides(&[usize::MAX, 3]), vec![3, 1]);
}

#[test]
fn strides_before_an_empty_extent_are_zero() {
    assert_eq!(contiguous_strides(&[5, 2, 0, 3]), vec![0, 0, 3, 1]);
}

#[test]
fn strides_that_cannot_be_computed() {
    assert!(!strides_representable(&[]));
    assert!(!strides_representable(&[1, usize::MAX, 2]));
    assert!(!strides_representable(&[1, 0, usize::MAX, 2]));
    assert!(strides_representable(&[usize::MAX, usize::MAX]));
    assert!(strides_representable(&[1, usize::MAX, 0]));
}

#[test]
fn only_row_major_strides_are_contiguous() {
    assert!(has_contiguous_strides(&[2, 3, 4], &[12, 4, 1]));
    assert!(!has_contiguous_strides(&[2, 3, 4], &[1, 2, 6]));
    assert!(!has_contiguous_strides(&[2, 3, 4], &[4, 1]));
    assert!(!has_contiguous_strides(&[2, 3], &[3, 1, 1]));
    assert!(!has_contiguous_strides(&[2, 3], &[4, 1]));
}

#[test]
fn sizes_in_bytes() {
    assert_eq!(tensor_size(&[2, 3, 4], 4), 96);
    assert_eq!(tensor_size(&[], 8), 8);
    assert_eq!(tensor_size(&[3, 0], 4), 0);
    assert_eq!(checked_byte_size(&[2, 3, 4], 4), Some(96));
    assert_eq!(checked_byte_size(&[usize::MAX], 1), Some(usize::MAX));
}

#[test]
fn sizes_that_cannot_be_computed() {
    assert_eq!(checked_byte_size(&[usize::MAX], 2), None);
    assert_eq!(checked_byte_size(&[usize::MAX, 2, 0], 1), None);
    assert_eq!(checked_byte_size(&[0, usize::MAX, 2], 1), Some(0));
}

#[test]
fn elements_are_numbered_without_gaps() {
    let shape = [2usize, 3, 4];
    let strides = contiguous_strides(&shape);
    let mut seen = vec![false; 24];
    for i in 0..shape[0] {
        for j in 0..shape[1] {
            for k in 0..shape[2] {
                let offset = i * strides[0] + j * strides[1] + k * strides[2];
                assert!(!seen[offset]);
                seen[offset] = true;
            }
        }
    }
    assert!(seen.iter().all(|&s| s));
}
