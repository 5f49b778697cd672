use narrow::bitmap::Bitmap;
use narrow::variable_size_binary::{BinaryArray, LargeBinaryArray, VariableSizeBinaryArray};
use narrow::validity::{NonNullable, Nullable};
use std::mem;

fn vecs(input: &[&[u8]]) -> Vec<Vec<u8>> {
    input.iter().map(|s| s.to_vec()).collect()
}

fn opt_vecs(input: &[Option<&[u8]>]) -> Vec<Option<Vec<u8>>> {
    input.iter().map(|o| o.map(|s| s.to_vec())).collect()
}

#[test]
fn variable_size_binary_from_iter() {
    let input: [&[u8]; 4] = [&[1], &[2, 3], &[4, 5, 6], &[7, 8, 9, 0]];
    let array = VariableSizeBinaryArray::<NonNullable, i32>::from_vecs(&vecs(&input));
    assert_eq!(array.len(), 4);
    assert_eq!(array.buffer_ref(), &[1, 2, 3, 4, 5, 6, 7, 8, 9, 0]);
    assert_eq!(array.offset_buffer(), &[0, 1, 3, 6, 10]);

    let input_vec = vec![vec![1], vec![], vec![2, 3], vec![4]];
    let array_vec = VariableSizeBinaryArray::<NonNullable, i32>::from_vecs(&input_vec);
    assert_eq!(array_vec.len(), 4);
    assert_eq!(array_vec.buffer_ref(), &[1, 2, 3, 4]);
    assert_eq!(array_vec.offset_buffer(), &[0, 1, 1, 3, 4]);

    let input: [Option<&[u8]>; 4] = [Some(&[1u8]), None, Some(&[4, 5, 6]), Some(&[7, 8, 9, 0])];
    let array = VariableSizeBinaryArray::<Nullable, i32>::from_options(&opt_vecs(&input));
    assert_eq!(array.len(), 4);
    assert_eq!(array.buffer_ref(), &[1, 4, 5, 6, 7, 8, 9, 0]);
    assert_eq!(array.offset_buffer(), &[0, 1, 1, 4, 8]);
    assert_eq!(array.bitmap_ref().as_bytes(), &[0b00001101]);
}

#[test]
fn variable_size_binary_into_iter() {
    let input: [&[u8]; 4] = [&[1], &[2, 3], &[4, 5, 6], &[7, 8, 9, 0]];
    let array = VariableSizeBinaryArray::<NonNullable, i32>::from_vecs(&vecs(&input));
    let output = array.into_vec();
    assert_eq!(output, input);

    let input_vec = vec![vec![1], vec![], vec![2, 3], vec![4]];
    let array_vec = VariableSizeBinaryArray::<NonNullable, i32>::from_vecs(&input_vec.clone());
    let output_vec = array_vec.into_vec();
    assert_eq!(output_vec, input_vec);
}

#[test]
fn variable_size_binary_from_iter_nullable() {
    let input: [Option<&[u8]>; 4] = [Some(&[1]), None, Some(&[4, 5, 6]), Some(&[7, 8, 9, 0])];
    let array = VariableSizeBinaryArray::<Nullable, i32>::from_options(&opt_vecs(&input));
    assert_eq!(array.len(), 4);
    assert_eq!(array.buffer_ref(), &[1, 4, 5, 6, 7, 8, 9, 0]);
    assert_eq!(array.offset_buffer(), &[0, 1, 1, 4, 8]);
    assert_eq!(array.bitmap_ref().as_bytes(), &[0b000_01101]);

    let input_vec = vec![Some(vec![1]), None, Some(vec![2, 3]), Some(vec![4])];
    let array_vec = VariableSizeBinaryArray::<Nullable, i32>::from_options(&input_vec);
    assert_eq!(array_vec.len(), 4);
    assert_eq!(array_vec.buffer_ref(), &[1, 2, 3, 4]);
    assert_eq!(array_vec.offset_buffer(), &[0, 1, 1, 3, 4]);
    assert_eq!(array_vec.bitmap_ref().to_vec(), &[true, false, true, true]);
}

#[test]
fn variable_size_binary_into_iter_nullable() {
    let input: [Option<&[u8]>; 4] = [Some(&[1]), None, Some(&[4, 5, 6]), Some(&[7, 8, 9, 0])];
    let array = VariableSizeBinaryArray::<Nullable, i32>::from_options(&opt_vecs(&input));
    let output = array.into_vec();
    assert_eq!(output, input.map(|opt| opt.map(<[u8]>::to_vec)));

    let input_vec = vec![Some(vec![1]), None, Some(vec![2, 3]), Some(vec![4])];
    let array_vec = VariableSizeBinaryArray::<Nullable, i32>::from_options(&input_vec.clone());
    let output_vec = array_vec.into_vec();
    assert_eq!(output_vec, input_vec);
}

#[test]
fn variable_size_binary_index() {
    let input: [&[u8]; 4] = [&[1], &[2, 3], &[4, 5, 6], &[7, 8, 9, 0]];
    let array = VariableSizeBinaryArray::<NonNullable, i32>::from_vecs(&vecs(&input));
    assert_eq!(array.index_checked(0), &[1]);
    assert_eq!(array.index_checked(1), &[2, 3]);
    assert_eq!(array.index_checked(2), &[4, 5, 6]);
    assert_eq!(array.index_checked(3), &[7, 8, 9, 0]);
    assert!(array.index(4).is_none());
}

#[test]
fn variable_size_binary_size_of() {
    assert_eq!(
        mem::size_of::<BinaryArray>(),
        mem::size_of::<Vec<u8>>() + mem::size_of::<Vec<i32>>()
    );
    assert_eq!(
        mem::size_of::<LargeBinaryArray>(),
        mem::size_of::<Vec<u8>>() + mem::size_of::<Vec<i64>>()
    );
    assert_eq!(
        mem::size_of::<BinaryArray<Nullable>>(),
        mem::size_of::<Vec<u8>>() + mem::size_of::<Vec<i32>>() + mem::size_of::<Bitmap>()
    );
    assert_eq!(
        mem::size_of::<LargeBinaryArray<Nullable>>(),
        mem::size_of::<Vec<u8>>() + mem::size_of::<Vec<i64>>() + mem::size_of::<Bitmap>()
    );
}

#[test]
fn variable_size_binary_large_offsets_and_push() {
    let mut array = LargeBinaryArray::<NonNullable>::new();
    array.push(&[1, 2]);
    array.push(&[]);
    array.push(&[3]);
    assert_eq!(array.offset_buffer(), &[0i64, 2, 2, 3]);
    assert_eq!(array.index(1), Some(&[][..]));
    let mut nullable = BinaryArray::<Nullable>::new();
    nullable.push(None);
    nullable.push(Some(&[9]));
    assert_eq!(nullable.index(0), Some(None));
    assert_eq!(nullable.index(1), Some(Some(&[9u8][..])));
    assert_eq!(nullable.index(2), None);
    assert_eq!(nullable.null_count(), 1);
    assert_eq!(nullable.is_null(0), Some(true));
}
