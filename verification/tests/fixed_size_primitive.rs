use narrow::bitmap::Bitmap;
use narrow::fixed_size_primitive::{FixedSizePrimitiveArray, Int8Array};
use narrow::validity::{NonNullable, Nullable};
use std::mem;

#[test]
fn fixed_size_primitive_from_iter() {
    let input = [1_u8, 2, 3, 4];
    let array = FixedSizePrimitiveArray::<u8, NonNullable>::from_values(&input);
    assert_eq!(array.as_slice(), &[1, 2, 3, 4]);
    assert_eq!(array.as_slice(), array.as_bytes());

    let input_array = [[1_u8, 2], [3, 4]];
    let array_array = FixedSizePrimitiveArray::<[u8; 2], NonNullable>::from_values(&input_array);
    assert_eq!(array_array.as_slice(), &[[1, 2], [3, 4]]);
    assert_eq!(array_array.as_bytes(), &[1, 2, 3, 4]);
}

#[test]
fn fixed_size_primitive_from_iter_nullable() {
    let input = [Some(1_u64), None, Some(3), Some(4)];
    let array = FixedSizePrimitiveArray::<u64, Nullable>::from_options(&input);
    assert_eq!(array.as_slice(), &[1, u64::default(), 3, 4]);
    assert_eq!(array.is_valid(0), Some(true));
    assert_eq!(array.is_null(1), Some(true));
    assert_eq!(array.is_valid(2), Some(true));
    assert_eq!(array.is_valid(3), Some(true));
    assert_eq!(array.is_valid(4), None);
}

#[test]
fn fixed_size_primitive_into_iter() {
    let input = [1_u8, 2, 3, 4];
    let array = FixedSizePrimitiveArray::<u8, NonNullable>::from_values(&input);
    assert_eq!(array.into_vec(), input);

    let input_array = [[1_u8, 2], [3, 4]];
    let array_array = FixedSizePrimitiveArray::<[u8; 2], NonNullable>::from_values(&input_array);
    assert_eq!(array_array.into_vec(), input_array);
}

#[test]
fn fixed_size_primitive_into_iter_nullable() {
    let input = [Some(1_u64), None, Some(3), Some(4)];
    let array = FixedSizePrimitiveArray::<u64, Nullable>::from_options(&input);
    assert_eq!(array.into_vec(), input);
}

#[test]
fn fixed_size_primitive_length() {
    let input = [1_u8, 2, 3, 4];
    let array = FixedSizePrimitiveArray::<u8, NonNullable>::from_values(&input);
    assert_eq!(array.len(), input.as_slice().len());

    let input_array = [[1_u8, 2], [3, 4]];
    let array_array = FixedSizePrimitiveArray::<[u8; 2], NonNullable>::from_values(&input_array);
    assert_eq!(array_array.len(), input_array.as_slice().len());

    let input_nullable = [Some(1_u64), None, Some(3), Some(4)];
    let array_nullable = FixedSizePrimitiveArray::<u64, Nullable>::from_options(&input_nullable);
    assert_eq!(array_nullable.len(), input_nullable.len());
}

#[test]
fn fixed_size_primitive_index() {
    let array = FixedSizePrimitiveArray::<i32, NonNullable>::from_values(&[1, 2, 3, 4]);
    assert_eq!(array.as_slice()[..3], [1, 2, 3]);
    assert_eq!(array.index_checked(3), 4);
    assert_eq!(array.index_checked(3), 4);

    let nullable = FixedSizePrimitiveArray::<i32, Nullable>::from_options(&[Some(1), None, Some(3), Some(4)]);
    assert_eq!(nullable.index_checked(1), None);
    assert_eq!(nullable.index_checked(3), Some(4));
}

#[test]
fn fixed_size_primitive_size_of() {
    assert_eq!(mem::size_of::<Int8Array>(), mem::size_of::<Vec<i8>>());
    assert_eq!(
        std::mem::size_of::<Int8Array<Nullable>>(),
        mem::size_of::<Int8Array>() + mem::size_of::<Bitmap>()
    );
}

#[test]
fn fixed_size_primitive_convert_to_nullable() {
    let array = FixedSizePrimitiveArray::<i32, NonNullable>::from_values(&[1, 2, 3, 4]);
    let nullable = array.into_nullable();
    assert_eq!(nullable.null_count(), 0);
    assert_eq!(nullable.into_vec(), [Some(1), Some(2), Some(3), Some(4)]);
}

#[test]
fn fixed_size_primitive_out_of_bounds_and_counts() {
    let array = FixedSizePrimitiveArray::<i16, NonNullable>::from_values(&[7, 8]);
    assert_eq!(array.index(1), Some(8));
    assert_eq!(array.index(2), None);
    assert!(!array.is_empty());
    let nullable = FixedSizePrimitiveArray::<i16, Nullable>::from_options(&[None, Some(5), None]);
    assert_eq!(nullable.null_count(), 2);
    assert_eq!(nullable.index(0), Some(None));
    assert_eq!(nullable.index(3), None);
    assert_eq!(nullable.bitmap_ref().as_bytes(), &[0b0000_0010]);
    assert_eq!(nullable.as_slice(), &[0, 5, 0]);
}

#[test]
fn fixed_size_binary_from_iter() {
    let input = [[1_u8, 2], [3, 4]];
    let array = narrow::fixed_size_primitive::FixedSizeBinaryArray::<2>::from_values(&input);
    assert_eq!(array.len(), 2);
    assert_eq!(array.as_bytes().len(), 4);

    let input_nullable = [Some([1_u8, 2]), None];
    let array_nullable =
        narrow::fixed_size_primitive::FixedSizeBinaryArray::<2, Nullable>::from_options(&input_nullable);
    assert_eq!(array_nullable.len(), 2);
    assert_eq!(array_nullable.as_bytes().len(), 4);
    assert_eq!(array_nullable.bitmap_ref().len(), 2);
}

#[test]
fn fixed_size_binary_index() {
    let input = [[1_u8, 2], [3, 4]];
    let array = narrow::fixed_size_primitive::FixedSizeBinaryArray::<2>::from_values(&input);
    assert_eq!(array.index(0), Some([1, 2]));
    assert_eq!(array.index(1), Some([3, 4]));

    let input_nullable = [Some([1_u8, 2]), None];
    let array_nullable =
        narrow::fixed_size_primitive::FixedSizeBinaryArray::<2, Nullable>::from_options(&input_nullable);
    assert_eq!(array_nullable.index(0), Some(Some([1, 2])));
    assert_eq!(array_nullable.index(1), Some(None));
    assert_eq!(array_nullable.index(2), None);
}

#[test]
fn fixed_size_binary_into_iter() {
    let input = [[1_u8, 2], [3, 4]];
    let array = narrow::fixed_size_primitive::FixedSizeBinaryArray::<2>::from_values(&input);
    assert_eq!(array.into_vec(), [[1, 2], [3, 4]]);

    let input_nullable = [Some([1_u8, 2]), None];
    let array_nullable =
        narrow::fixed_size_primitive::FixedSizeBinaryArray::<2, Nullable>::from_options(&input_nullable);
    assert_eq!(array_nullable.into_vec(), [Some([1, 2]), None]);
}

#[test]
fn fixed_size_primitive_convert_nullable() {
    let input = [1, 2, 3, 4];
    let array = FixedSizePrimitiveArray::<i32, NonNullable>::from_values(&input);
    let mut nullable: FixedSizePrimitiveArray<i32, Nullable> = array.into_nullable();
    nullable.set_validity_byte(0, 0b0000_1101);
    assert_eq!(nullable.into_vec(), [Some(1), None, Some(3), Some(4)]);
}

#[test]
fn fixed_size_primitive_parts() {
    let array = FixedSizePrimitiveArray::<u32, NonNullable>::from_vec(vec![3, 4]);
    assert_eq!(array.as_slice(), &[3, 4]);
    let nullable = FixedSizePrimitiveArray::<u32, Nullable>::from_parts(
        vec![3, 4],
        Bitmap::from_bools(&[true, false]),
    )
    .expect("matching lengths");
    assert_eq!(nullable.iter(), vec![Some(3), None]);
    let (values, validity) = nullable.into_parts();
    assert_eq!(values, vec![3, 4]);
    assert_eq!(validity.to_vec(), vec![true, false]);
    assert!(FixedSizePrimitiveArray::<u32, Nullable>::from_parts(
        vec![3],
        Bitmap::from_bools(&[true, false])
    )
    .is_none());
}

#[test]
fn fixed_size_primitive_push() {
    let mut array = FixedSizePrimitiveArray::<i16, NonNullable>::new();
    array.push(-3);
    array.push(8);
    assert_eq!(array.as_slice(), &[-3, 8]);
    let mut nullable = FixedSizePrimitiveArray::<i16, Nullable>::new();
    nullable.push(Some(1));
    nullable.push(None);
    assert_eq!(nullable.iter(), vec![Some(1), None]);
    // The value slot of a null item holds the default value.
    assert_eq!(nullable.as_slice(), &[1, 0]);
}
