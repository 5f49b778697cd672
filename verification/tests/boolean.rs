use narrow::bitmap::Bitmap;
use narrow::boolean::BooleanArray;
use narrow::validity::{NonNullable, Nullable};
use std::mem;

#[test]
fn boolean_from_iter() {
    let mut array = BooleanArray::<NonNullable>::from_values(&[true, false, true, true]);
    assert_eq!(array.len(), 4);
    assert_eq!(array.buffer_ref(), [0b0000_1101]);
    array.set_byte(0, 0xff);
    assert_eq!(array.buffer_ref(), [0b1111_1111]);
}

#[test]
fn boolean_into_iter() {
    let input = [true, false, true, true];
    let array = BooleanArray::<NonNullable>::from_values(&input);
    assert_eq!(input, array.iter().as_slice());

    let output = array.into_vec();
    assert_eq!(input, output.as_slice());
}

#[test]
fn boolean_into_iter_nullable() {
    let input = [Some(true), None, Some(true), Some(false)];
    let array = BooleanArray::<Nullable>::from_options(&input);
    assert_eq!(input, array.iter().as_slice());

    let output = array.into_vec();
    assert_eq!(input, output.as_slice());
}

#[test]
fn boolean_index() {
    let array = BooleanArray::<NonNullable>::from_values(&[true, false, true, true]);
    assert_eq!(array.index(0), Some(true));

    let nullable = BooleanArray::<Nullable>::from_options(&[Some(true), None, Some(true), Some(false)]);
    assert_eq!(nullable.index(0), Some(Some(true)));
    assert_eq!(nullable.index(1), Some(None));
    assert_eq!(nullable.index(2), Some(Some(true)));
    assert_eq!(nullable.index(3), Some(Some(false)));
    assert_eq!(nullable.index(4), None);
}

#[test]
fn buffer_ref_mut() {
    let input = [false, false, false, false];
    let mut array = BooleanArray::<NonNullable>::from_values(&input);
    array.set_byte(0, 0b0000_1111);
    assert_eq!(array.into_vec(), [true, true, true, true]);
}

#[test]
fn boolean_size_of() {
    assert_eq!(mem::size_of::<BooleanArray>(), mem::size_of::<Bitmap>());
    assert_eq!(
        mem::size_of::<BooleanArray<Nullable>>(),
        mem::size_of::<BooleanArray>() + mem::size_of::<Bitmap>()
    );
}

#[test]
fn boolean_from_iter_nullable_validity() {
    let array = BooleanArray::<Nullable>::from_options(&[Some(true), None, Some(true), Some(false)]);
    assert_eq!(array.len(), 4);
    assert_eq!(array.is_valid(0), Some(true));
    assert_eq!(array.is_null(1), Some(true));
    assert_eq!(array.is_valid(2), Some(true));
    assert_eq!(array.is_valid(3), Some(true));
    assert_eq!(array.bitmap_ref().get(0), Some(true));
    assert_eq!(array.bitmap_ref().get(1), Some(false));
    assert_eq!(array.bitmap_ref().get(2), Some(true));
    assert_eq!(array.bitmap_ref().get(3), Some(true));
    assert!(array.is_valid(4).is_none());
    assert_eq!(array.bitmap_ref().len(), array.len());
    assert_eq!(array.null_count(), 1);
    assert!(!array.all_valid());
}

#[test]
fn boolean_convert_to_nullable() {
    let array = BooleanArray::<NonNullable>::from_values(&[true, false]);
    let nullable = array.into_nullable();
    assert!(nullable.all_valid());
    assert_eq!(nullable.into_vec(), [Some(true), Some(false)]);
}

#[test]
fn boolean_from_iter_nullable() {
    let array = BooleanArray::<Nullable>::from_options(&[Some(true), None, Some(true), Some(false)]);
    assert_eq!(array.len(), 4);
    assert_eq!(array.value_bits().is_valid(0), Some(true));
    assert_eq!(array.value_bits().is_null(1), Some(true));
    assert_eq!(array.value_bits().is_valid(2), Some(true));
    assert_eq!(array.value_bits().is_valid(3), Some(false));
    assert_eq!(array.is_valid(0), Some(true));
    assert_eq!(array.is_null(1), Some(true));
    assert_eq!(array.is_valid(2), Some(true));
    assert_eq!(array.is_valid(3), Some(true));
    assert_eq!(array.bitmap_ref().get(0), Some(true));
    assert_eq!(array.bitmap_ref().get(1), Some(false));
    assert_eq!(array.bitmap_ref().get(2), Some(true));
    assert_eq!(array.bitmap_ref().get(3), Some(true));
    assert!(array.value_bits().is_valid(4).is_none());
    assert_eq!(array.value_bits().len(), array.len());
}

#[test]
fn boolean_convert_nullable() {
    let input = [true, false];
    let array = BooleanArray::<NonNullable>::from_values(&input);
    let nullable: BooleanArray<Nullable> = array.into_nullable();
    assert!(nullable.all_valid());
    assert_eq!(nullable.into_vec(), [Some(true), Some(false)]);
}

#[test]
fn boolean_parts() {
    let values = Bitmap::from_bools(&[true, false, true]);
    let array = BooleanArray::<NonNullable>::from_bitmap(values);
    assert_eq!(array.iter(), vec![true, false, true]);
    assert_eq!(array.into_bitmap().to_vec(), vec![true, false, true]);

    let nullable = BooleanArray::<Nullable>::from_parts(
        Bitmap::from_bools(&[true, true]),
        Bitmap::from_bools(&[false, true]),
    )
    .expect("matching lengths");
    assert_eq!(nullable.iter(), vec![None, Some(true)]);
    let (values, validity) = nullable.into_parts();
    assert_eq!(values.to_vec(), vec![true, true]);
    assert_eq!(validity.to_vec(), vec![false, true]);
    assert!(BooleanArray::<Nullable>::from_parts(
        Bitmap::from_bools(&[true]),
        Bitmap::from_bools(&[false, true])
    )
    .is_none());
}

#[test]
fn boolean_push() {
    let mut array = BooleanArray::<NonNullable>::new();
    array.push(true);
    array.push(false);
    assert_eq!(array.iter(), vec![true, false]);
    let mut nullable = BooleanArray::<Nullable>::new();
    nullable.push(None);
    nullable.push(Some(true));
    assert_eq!(nullable.iter(), vec![None, Some(true)]);
    assert_eq!(nullable.null_count(), 1);
}
