use narrow::binary::{FixedSizeBinary, VariableSizeBinary};

#[test]
fn fixed_size_binary_wrapper() {
    let bytes = [1u8, 2, 3];
    let wrapped = FixedSizeBinary::from_ref(&bytes);
    assert_eq!(wrapped.into_bytes(), bytes);
    assert_eq!(FixedSizeBinary::new([9u8; 2]).0, [9, 9]);
}

#[test]
fn variable_size_binary_wrapper() {
    let wrapped = VariableSizeBinary::new(vec![4, 5]);
    assert_eq!(wrapped.len(), 2);
    assert!(!wrapped.is_empty());
    assert_eq!(wrapped.into_vec(), vec![4, 5]);
    assert!(VariableSizeBinary::default().is_empty());
}
