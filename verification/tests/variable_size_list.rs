use narrow::bitmap::Bitmap;
use narrow::fixed_size_list::FixedSizeListArray;
use narrow::fixed_size_primitive::FixedSizePrimitiveArray;
use narrow::validity::{NonNullable, Nullable};
use narrow::string::StringArray;
use narrow::variable_size_list::VariableSizeListArray;

#[test]
fn variable_size_list_from_iter() {
    let input = vec![vec![1u8], vec![2, 3], vec![4]];
    let array = VariableSizeListArray::<FixedSizePrimitiveArray<u8>, NonNullable>::from_vecs(&input);
    assert_eq!(array.buffer_ref(), &[1, 2, 3, 4]);
    assert_eq!(array.offset_buffer(), &[0, 1, 3, 4]);
}

#[test]
fn variable_size_list_from_iter_nullable() {
    let input = vec![Some(vec![1u8]), None, Some(vec![2, 3]), Some(vec![4])];
    let array = VariableSizeListArray::<FixedSizePrimitiveArray<u8>, Nullable>::from_options(&input);
    assert_eq!(array.len(), 4);
    assert_eq!(array.buffer_ref(), &[1, 2, 3, 4]);
    assert_eq!(array.bitmap_ref().is_valid(0), Some(true));
    assert_eq!(array.bitmap_ref().is_null(1), Some(true));
    assert_eq!(array.bitmap_ref().is_valid(2), Some(true));
    assert_eq!(array.bitmap_ref().is_valid(3), Some(true));
    assert_eq!(array.offset_buffer(), &[0, 1, 1, 3, 4]);
}

#[test]
fn variable_size_list_of_wider_values() {
    let input = vec![vec![1000i32, -1], vec![], vec![7]];
    let array = VariableSizeListArray::<FixedSizePrimitiveArray<i32>, NonNullable, i64>::from_vecs(&input);
    assert_eq!(array.len(), 3);
    assert_eq!(array.offset_buffer(), &[0i64, 2, 2, 3]);
    assert_eq!(array.index(0), Some(&[1000, -1][..]));
    assert_eq!(array.index(3), None);
    assert_eq!(array.iter(), input);
}

#[test]
fn variable_size_list_push_and_nulls() {
    let mut array = VariableSizeListArray::<FixedSizePrimitiveArray<u16>, Nullable>::new();
    array.push(Some(&[1, 2][..]));
    array.push(None);
    assert_eq!(array.null_count(), 1);
    assert_eq!(array.into_vec(), vec![Some(vec![1, 2]), None]);
}

#[test]
fn variable_size_list_parts() {
    let array =
        VariableSizeListArray::<FixedSizePrimitiveArray<u16>, NonNullable>::from_parts(vec![0, 2, 2, 3], FixedSizePrimitiveArray::from_vec(vec![5, 6, 7]))
            .expect("valid offsets");
    assert_eq!(array.iter(), vec![vec![5, 6], vec![], vec![7]]);
    let (offsets, child) = array.into_parts();
    assert_eq!((offsets, child.into_vec()), (vec![0, 2, 2, 3], vec![5, 6, 7]));
    // Offsets must start at zero, never decrease and end at the data length.
    assert!(VariableSizeListArray::<FixedSizePrimitiveArray<u16>, NonNullable>::from_parts(vec![1, 2], FixedSizePrimitiveArray::from_vec(vec![5, 6])).is_none());
    assert!(VariableSizeListArray::<FixedSizePrimitiveArray<u16>, NonNullable>::from_parts(vec![0, 2, 1, 3], FixedSizePrimitiveArray::from_vec(vec![5, 6, 7])).is_none());
    assert!(VariableSizeListArray::<FixedSizePrimitiveArray<u16>, NonNullable>::from_parts(vec![0, 2], FixedSizePrimitiveArray::from_vec(vec![5, 6, 7])).is_none());
    assert!(VariableSizeListArray::<FixedSizePrimitiveArray<u16>, NonNullable>::from_parts(vec![], FixedSizePrimitiveArray::from_vec(vec![])).is_none());
    assert!(VariableSizeListArray::<FixedSizePrimitiveArray<u16>, NonNullable>::from_parts(vec![0], FixedSizePrimitiveArray::from_vec(vec![])).is_some());

    let validity = Bitmap::from_bools(&[true, false]);
    let nullable = VariableSizeListArray::<FixedSizePrimitiveArray<u16>, Nullable>::from_parts(vec![0, 1, 1], FixedSizePrimitiveArray::from_vec(vec![9]), validity)
        .expect("valid parts");
    assert_eq!(nullable.iter(), vec![Some(vec![9]), None]);
    let (offsets, child, validity) = nullable.into_parts();
    assert_eq!(offsets, vec![0, 1, 1]);
    assert_eq!(child.into_vec(), vec![9]);
    assert_eq!(validity.to_vec(), vec![true, false]);
    // The validity bitmap must cover exactly the items.
    assert!(VariableSizeListArray::<FixedSizePrimitiveArray<u16>, Nullable>::from_parts(
        vec![0, 1],
        FixedSizePrimitiveArray::from_vec(vec![9]),
        Bitmap::from_bools(&[true, true])
    )
    .is_none());
    // Stray padding bits are refused.
    let padded = Bitmap::from_bytes(&[0b0000_0011], 1).expect("one byte for one bit");
    assert!(VariableSizeListArray::<FixedSizePrimitiveArray<u16>, Nullable>::from_parts(vec![0, 1], FixedSizePrimitiveArray::from_vec(vec![9]), padded).is_none());
}

#[test]
fn from_iter_nested() {
    let input = vec![vec![vec![1, 2, 3], vec![1, 2, 3]], vec![vec![4, 5, 6]]];
    let array = VariableSizeListArray::<
        VariableSizeListArray<FixedSizePrimitiveArray<u8>>,
    >::from_lists(input);
    assert_eq!(
        array.child_array().child_array().as_slice(),
        &[1, 2, 3, 1, 2, 3, 4, 5, 6]
    );
    assert_eq!(array.offset_buffer(), &[0, 2, 3]);
    assert_eq!(array.child_array().offset_buffer(), &[0, 3, 6, 9]);

    let input_3 = vec![vec![
        vec![vec![1, 2, 3], vec![1, 2, 3]],
        vec![vec![4, 5, 6]],
    ]];
    let array_3 = VariableSizeListArray::<
        VariableSizeListArray<VariableSizeListArray<FixedSizePrimitiveArray<u8>>>,
    >::from_lists(input_3);
    assert_eq!(
        array_3
            .child_array()
            .child_array()
            .child_array()
            .as_slice(),
        &[1, 2, 3, 1, 2, 3, 4, 5, 6]
    );
    assert_eq!(array_3.offset_buffer(), &[0, 2]);
    assert_eq!(array_3.child_array().offset_buffer(), &[0, 2, 3]);
    assert_eq!(
        array_3.child_array().child_array().offset_buffer(),
        &[0, 3, 6, 9]
    );
}

#[test]
fn from_iter_nested_nullable() {
    let input = vec![
        None,
        Some(vec![
            None,
            Some(vec![None, Some(vec![1, 2, 3]), Some(vec![1, 2, 3])]),
            Some(vec![None, Some(vec![4, 5, 6])]),
        ]),
    ];
    let array = VariableSizeListArray::<
        VariableSizeListArray<
            VariableSizeListArray<FixedSizePrimitiveArray<u8>, Nullable>,
            Nullable,
        >,
        Nullable,
    >::from_lists(input);
    let middle = array.child_array();
    let inner = middle.child_array();
    assert_eq!(
        inner.child_array().as_slice(),
        &[1, 2, 3, 1, 2, 3, 4, 5, 6]
    );
    assert_eq!(array.offset_buffer(), &[0, 0, 3]);
    assert_eq!(middle.offset_buffer(), &[0, 0, 3, 5]);
    assert_eq!(inner.offset_buffer(), &[0, 0, 3, 6, 6, 9]);
    assert_eq!(array.is_null(0), Some(true));
    assert_eq!(array.is_valid(1), Some(true));
    assert_eq!(middle.is_null(0), Some(true));
    assert_eq!(middle.is_valid(1), Some(true));
    assert_eq!(inner.is_null(0), Some(true));
    assert_eq!(inner.is_valid(1), Some(true));

    let input_3 = vec![
        None,
        Some(vec![
            None,
            Some(vec![
                None,
                Some(vec![None, Some(2), Some(3)]),
                Some(vec![None, Some(2), Some(3)]),
            ]),
            Some(vec![None, Some(vec![None, Some(5), Some(6)])]),
        ]),
    ];
    let array_3 = VariableSizeListArray::<
        VariableSizeListArray<
            VariableSizeListArray<FixedSizePrimitiveArray<u8, Nullable>, Nullable>,
            Nullable,
        >,
        Nullable,
    >::from_lists(input_3);
    let middle_3 = array_3.child_array();
    let inner_3 = middle_3.child_array();
    let values_3 = inner_3.child_array();
    assert_eq!(
        values_3.as_slice(),
        &[
            u8::default(),
            2,
            3,
            u8::default(),
            2,
            3,
            u8::default(),
            5,
            6
        ]
    );
    assert_eq!(array_3.offset_buffer(), &[0, 0, 3]);
    assert_eq!(middle_3.offset_buffer(), &[0, 0, 3, 5]);
    assert_eq!(inner_3.offset_buffer(), &[0, 0, 3, 6, 6, 9]);
    assert_eq!(array_3.is_null(0), Some(true));
    assert_eq!(array_3.is_valid(1), Some(true));
    assert_eq!(middle_3.is_null(0), Some(true));
    assert_eq!(middle_3.is_valid(1), Some(true));
    assert_eq!(inner_3.is_null(0), Some(true));
    assert_eq!(inner_3.is_valid(1), Some(true));
    assert_eq!(values_3.is_null(0), Some(true));
    assert_eq!(values_3.is_valid(1), Some(true));
}

#[test]
fn variable_size_list_index() {
    let input = vec![vec![vec![1, 2, 3], vec![1, 2, 3]], vec![vec![4, 5, 6]]];
    let array = VariableSizeListArray::<
        VariableSizeListArray<FixedSizePrimitiveArray<u8>>,
    >::from_lists(input);
    assert_eq!(
        array
            .list_checked(0)
            .into_iter()
            .flatten()
            .collect::<Vec<_>>(),
        [1, 2, 3, 1, 2, 3]
    );
    assert_eq!(
        array
            .list_checked(1)
            .into_iter()
            .next()
            .expect("a value"),
        [4, 5, 6]
    );
    assert!(array.list(2).is_none());
}

#[test]
fn into_iter_nested() {
    let input = vec![
        vec![vec![1, 2, 3], vec![1, 2, 3]],
        vec![],
        vec![vec![], vec![]],
        vec![vec![4, 5, 6]],
    ];
    let array = VariableSizeListArray::<
        VariableSizeListArray<FixedSizePrimitiveArray<u8>>,
    >::from_lists(input.clone());
    assert_eq!(array.lists(), input);
}

#[test]
fn into_iter_nested_nullable() {
    let input = vec![
        None,
        Some(vec![]),
        Some(vec![None, Some(vec![])]),
        Some(vec![
            None,
            Some(vec![None, Some(vec![1, 2, 3]), Some(vec![1, 2, 3])]),
            Some(vec![None, Some(vec![4, 5, 6])]),
        ]),
    ];
    let array = VariableSizeListArray::<
        VariableSizeListArray<
            VariableSizeListArray<FixedSizePrimitiveArray<u8>, Nullable>,
            Nullable,
        >,
        Nullable,
    >::from_lists(input.clone());
    assert_eq!(array.lists(), input);
}

#[test]
fn variable_size_list_of_fixed_size_lists() {
    let input = vec![vec![[1_u8, 2], [3, 4]], vec![], vec![[5, 6]]];
    let array = VariableSizeListArray::<
        FixedSizeListArray<2, FixedSizePrimitiveArray<u8>>,
    >::from_lists(input.clone());
    assert_eq!(array.len(), 3);
    assert_eq!(array.offset_buffer(), &[0, 2, 2, 3]);
    assert_eq!(array.child_array().child_array().as_slice(), &[1, 2, 3, 4, 5, 6]);
    assert_eq!(array.lists(), input);
}

#[test]
fn variable_size_list_of_strings() {
    let input = vec![
        vec!["a".to_owned(), "bc".to_owned()],
        vec![],
        vec!["héllo".to_owned()],
    ];
    let array = VariableSizeListArray::<StringArray>::from_lists(input.clone());
    assert_eq!(array.len(), 3);
    assert_eq!(array.list(2), Some(vec!["héllo".to_owned()]));
    assert_eq!(array.list(3), None);
    assert_eq!(array.lists(), input);
    let nullable = VariableSizeListArray::<StringArray<Nullable>, Nullable>::from_lists(vec![
        Some(vec![Some("x".to_owned()), None]),
        None,
    ]);
    assert_eq!(nullable.list(0), Some(Some(vec![Some("x".to_owned()), None])));
    assert_eq!(nullable.list(1), Some(None));
    let (offsets, child, _validity) = nullable.into_parts();
    assert_eq!(offsets, vec![0, 2, 2]);
    assert_eq!(child.into_vec(), vec![Some("x".to_owned()), None]);
}
