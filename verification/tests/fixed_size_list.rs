use narrow::fixed_size_list::{FixedSizeArrayChunks, FixedSizeListArray};
use narrow::fixed_size_primitive::FixedSizePrimitiveArray;
use narrow::string::StringArray;
use narrow::validity::{NonNullable, Nullable};

#[test]
fn fixed_size_array_chunks() {
    {
        let input = vec![0, 1, 2, 3, 4, 5, 6, 7, 8];
        let mut array_chunks = FixedSizeArrayChunks::<3, _>::new(input);
        assert_eq!(array_chunks.to_vec(), vec![[0, 1, 2], [3, 4, 5], [6, 7, 8]]);
    };

    {
        // only returns complete chunks.
        let input = vec![0, 1, 2, 3, 4, 5, 6, 7, 8, 9, 10];
        let mut array_chunks = FixedSizeArrayChunks::<3, _>::new(input);
        assert_eq!(array_chunks.to_vec(), vec![[0, 1, 2], [3, 4, 5], [6, 7, 8]]);
    }
}

#[test]
fn fixed_size_array_chunks_next() {
    let mut chunks = FixedSizeArrayChunks::<2, _>::new(vec![1u8, 2, 3]);
    assert_eq!(chunks.next(), Some(vec![1, 2]));
    assert_eq!(chunks.next(), None);
    assert_eq!(chunks.next(), None);
}

#[test]
fn fixed_size_list_from_iter() {
    {
        let input_non_nullable = [[1_u8, 2], [3, 4]];
        let array_non_nullable =
            FixedSizeListArray::<2, FixedSizePrimitiveArray<u8>>::from_arrays(input_non_nullable.to_vec());
        assert_eq!(array_non_nullable.len(), 2);
    };

    {
        let input_inner_nullable = [[Some(1_u8), None], [Some(3), None]];
        let array_inner_nullable = FixedSizeListArray::<
            2,
            FixedSizePrimitiveArray<u8, Nullable>,
            NonNullable,
        >::from_arrays(input_inner_nullable.to_vec());
        assert_eq!(array_inner_nullable.len(), 2);
        assert_eq!(array_inner_nullable.into_vec(), input_inner_nullable);
    };

    {
        let input_outer_nullable = [Some([1_u8, 1_u8]), Some([1_u8, 1_u8]), None];
        let array_outer_nullable = FixedSizeListArray::<
            2,
            FixedSizePrimitiveArray<u8, NonNullable>,
            Nullable,
        >::from_options(input_outer_nullable.to_vec());
        assert_eq!(array_outer_nullable.len(), 3);
        assert_eq!(array_outer_nullable.into_vec(), input_outer_nullable);
    };

    {
        let input_both_nullable = [Some([Some(1_u8), None]), None];
        let array_both_nullable = FixedSizeListArray::<
            2,
            FixedSizePrimitiveArray<u8, Nullable>,
            Nullable,
        >::from_options(input_both_nullable.to_vec());
        assert_eq!(array_both_nullable.len(), 2);
        assert_eq!(array_both_nullable.into_vec(), input_both_nullable);
    };

    {
        let input_nested_innermost_nullable = [
            [
                [Some(1_u8), None, Some(1_u8)],
                [Some(3_u8), None, Some(1_u8)],
            ],
            [
                [Some(2_u8), None, Some(1_u8)],
                [Some(5_u8), None, Some(1_u8)],
            ],
        ];
        let array_nested_innermost_nullable = FixedSizeListArray::<
            2,
            FixedSizeListArray<3, FixedSizePrimitiveArray<u8, Nullable>, NonNullable>,
            NonNullable,
        >::from_arrays(input_nested_innermost_nullable.to_vec());
        assert_eq!(array_nested_innermost_nullable.len(), 2);
        assert_eq!(
            array_nested_innermost_nullable.into_vec(),
            input_nested_innermost_nullable
        );
    };

    {
        let input_nested_all_nullable = [
            None,
            Some([
                None,
                Some([Some(1_u8), None, Some(2)]),
                Some([Some(3), None, Some(1)]),
                None,
            ]),
            Some([
                Some([Some(2), None, Some(1)]),
                None,
                None,
                Some([Some(5), None, Some(6)]),
            ]),
        ];
        let array_nested_all_nullable = FixedSizeListArray::<
            4,
            FixedSizeListArray<3, FixedSizePrimitiveArray<u8, Nullable>, Nullable>,
            Nullable,
        >::from_options(input_nested_all_nullable.to_vec());
        assert_eq!(array_nested_all_nullable.len(), 3);
        assert_eq!(
            array_nested_all_nullable.into_vec(),
            input_nested_all_nullable
        );
    };
}

fn strings<const N: usize>(items: [&str; N]) -> [String; N] {
    items.map(|s| s.to_owned())
}

fn optional_strings<const N: usize>(items: [Option<&str>; N]) -> [Option<String>; N] {
    items.map(|s| s.map(|s| s.to_owned()))
}

#[test]
fn fixed_size_list_index() {
    let input = [[1_u8, 2], [3, 4]];
    let array = FixedSizeListArray::<2, FixedSizePrimitiveArray<u8>>::from_arrays(input.to_vec());
    assert_eq!(array.index(0), Some([1, 2]));
    assert_eq!(array.index(1), Some([3, 4]));
    assert_eq!(array.index(2), None);
    assert_eq!(array.index_checked(1), [3, 4]);
    assert_eq!(array.child_array().as_slice(), &[1, 2, 3, 4]);

    let input_string = [strings(["hello", "world"]), strings(["!", "!"])];
    let array_string = FixedSizeListArray::<2, StringArray>::from_arrays(input_string.to_vec());
    assert_eq!(array_string.index(0), Some(strings(["hello", "world"])));
    assert_eq!(array_string.index(1), Some(strings(["!", "!"])));

    let input_nullable_string = [Some(strings(["hello", "world"])), None];
    let array_nullable_string =
        FixedSizeListArray::<2, StringArray, Nullable>::from_options(input_nullable_string.to_vec());
    assert_eq!(array_nullable_string.index(0), Some(Some(strings(["hello", "world"]))));
    assert_eq!(array_nullable_string.index(1), Some(None));
    assert_eq!(array_nullable_string.index(2), None);

    let input_nullable_string_nullable = [
        Some(optional_strings([Some("hello"), None])),
        None,
        Some(optional_strings([None, Some("world")])),
    ];
    let array_nullable_string_nullable =
        FixedSizeListArray::<2, StringArray<Nullable>, Nullable>::from_options(
            input_nullable_string_nullable.to_vec(),
        );
    assert_eq!(
        array_nullable_string_nullable.index(0),
        Some(Some(optional_strings([Some("hello"), None])))
    );
    assert_eq!(array_nullable_string_nullable.index(1), Some(None));
    assert_eq!(
        array_nullable_string_nullable.index(2),
        Some(Some(optional_strings([None, Some("world")])))
    );
    assert_eq!(array_nullable_string_nullable.index(3), None);
}

#[test]
fn fixed_size_list_into_iter() {
    let input = [[1_u8, 2], [3, 4]];
    let array = FixedSizeListArray::<2, FixedSizePrimitiveArray<u8>>::from_arrays(input.to_vec());
    assert_eq!(array.into_vec(), [[1, 2], [3, 4]]);

    let input_string = [strings(["hello", "world"]), strings(["!", "!"])];
    let array_string = FixedSizeListArray::<2, StringArray>::from_arrays(input_string.to_vec());
    assert_eq!(array_string.into_vec(), input_string);

    let input_nullable_string = [
        Some(strings(["hello", "world"])),
        None,
        Some(strings(["hello", "again"])),
    ];
    let array_nullable_string =
        FixedSizeListArray::<2, StringArray, Nullable>::from_options(input_nullable_string.to_vec());
    assert_eq!(array_nullable_string.into_vec(), input_nullable_string);

    let input_nullable_string_nullable = [
        Some(optional_strings([Some("hello"), None])),
        None,
        Some(optional_strings([None, Some("world")])),
        None,
        Some(optional_strings([Some("hello"), Some("again")])),
    ];
    let array_nullable_string_nullable =
        FixedSizeListArray::<2, StringArray<Nullable>, Nullable>::from_options(
            input_nullable_string_nullable.to_vec(),
        );
    assert_eq!(array_nullable_string_nullable.into_vec(), input_nullable_string_nullable);

    let input_nested = [[[1, 2], [3, 4], [5, 6]], [[7, 8], [9, 0], [0, 0]]];
    let array_nested =
        FixedSizeListArray::<3, FixedSizeListArray<2, FixedSizePrimitiveArray<u8>>>::from_arrays(
            input_nested.to_vec(),
        );
    assert_eq!(
        array_nested.child_array().child_array().as_slice(),
        &[1, 2, 3, 4, 5, 6, 7, 8, 9, 0, 0, 0]
    );
    assert_eq!(array_nested.into_vec(), [[[1, 2], [3, 4], [5, 6]], [[7, 8], [9, 0], [0, 0]]]);
}

#[test]
fn fixed_size_list_nullable_index() {
    let input = [Some([7_u16, 8, 9]), None, Some([1, 2, 3])];
    let array =
        FixedSizeListArray::<3, FixedSizePrimitiveArray<u16>, Nullable>::from_options(input.to_vec());
    assert_eq!(array.index(0), Some(Some([7, 8, 9])));
    assert_eq!(array.index(1), Some(None));
    assert_eq!(array.index(3), None);
    assert_eq!(array.is_null(1), Some(true));
    assert_eq!(array.is_valid(2), Some(true));
    assert_eq!(array.is_valid(3), None);
    assert_eq!(array.null_count(), 1);
    // The child slots of the null list hold the default value.
    assert_eq!(array.child_array().as_slice(), &[7, 8, 9, 0, 0, 0, 1, 2, 3]);
}

#[test]
fn fixed_size_list_push_and_convert() {
    let mut array = FixedSizeListArray::<2, FixedSizePrimitiveArray<i32>>::new();
    assert!(array.is_empty());
    array.push([-1, 1]);
    array.push([5, 6]);
    assert_eq!(array.len(), 2);
    let nullable = array.into_nullable();
    assert_eq!(nullable.null_count(), 0);
    assert_eq!(nullable.into_vec(), vec![Some([-1, 1]), Some([5, 6])]);
}

#[test]
fn fixed_size_list_empty_lists() {
    let input: [[u8; 0]; 3] = [[], [], []];
    let array = FixedSizeListArray::<0, FixedSizePrimitiveArray<u8>>::from_arrays(input.to_vec());
    assert_eq!(array.len(), 3);
    assert!(array.child_array().is_empty());
    assert_eq!(array.index(2), Some([]));
}

#[test]
fn fixed_size_list_iter_next() {
    let input = [[1_u8, 2], [3, 4]];
    let array = FixedSizeListArray::<2, FixedSizePrimitiveArray<u8>>::from_arrays(input.to_vec());
    let mut iter = array.lists_iter();
    assert_eq!(iter.next(), Some([1, 2]));
    assert_eq!(iter.next(), Some([3, 4]));
    assert_eq!(iter.next(), None);

    let nullable_input = [None, Some([5_u8, 6])];
    let nullable =
        FixedSizeListArray::<2, FixedSizePrimitiveArray<u8>, Nullable>::from_options(nullable_input.to_vec());
    let mut iter = nullable.lists_iter();
    assert_eq!(iter.next(), Some(None));
    assert_eq!(iter.next(), Some(Some([5, 6])));
    assert_eq!(iter.next(), None);
}

#[test]
fn fixed_size_list_parts() {
    let child = FixedSizePrimitiveArray::<u8, NonNullable>::from_values(&[1, 2, 3, 4, 5, 6]);
    let array = FixedSizeListArray::<3, FixedSizePrimitiveArray<u8>>::from_child(child, 2)
        .expect("two lists of three");
    assert_eq!(array.into_vec(), [[1, 2, 3], [4, 5, 6]]);
    let child = FixedSizePrimitiveArray::<u8, NonNullable>::from_values(&[1, 2, 3, 4]);
    assert!(FixedSizeListArray::<3, FixedSizePrimitiveArray<u8>>::from_child(child, 1).is_none());

    let child = FixedSizePrimitiveArray::<u8, NonNullable>::from_values(&[1, 2, 0, 0]);
    let validity = narrow::bitmap::Bitmap::from_bools(&[true, false]);
    let nullable =
        FixedSizeListArray::<2, FixedSizePrimitiveArray<u8>, Nullable>::from_parts(child, validity)
            .expect("two lists of two");
    assert_eq!(nullable.iter(), vec![Some([1, 2]), None]);
    let (child, validity) = nullable.into_parts();
    assert_eq!(child.as_slice(), &[1, 2, 0, 0]);
    assert_eq!(validity.to_vec(), vec![true, false]);
    let child = FixedSizePrimitiveArray::<u8, NonNullable>::from_values(&[1, 2, 0]);
    assert!(FixedSizeListArray::<2, FixedSizePrimitiveArray<u8>, Nullable>::from_parts(
        child,
        narrow::bitmap::Bitmap::from_bools(&[true, false])
    )
    .is_none());
}

#[test]
fn from_iter_variable_size() {
    {
        let input_string_non_nullable = [
            ["hello".to_owned(), "world".to_owned()],
            ["!".to_owned(), "!".to_owned()],
        ];
        let array_string_non_nullable =
            FixedSizeListArray::<2, StringArray>::from_arrays(input_string_non_nullable.to_vec());
        assert_eq!(array_string_non_nullable.len(), 2);
        assert_eq!(array_string_non_nullable.into_vec(), input_string_non_nullable);
    };

    {
        let input_string_nested_all_nullable = [
            None,
            Some([
                Some([Some("hello".to_owned()), None, Some("from".to_owned())]),
                Some([Some("the".to_owned()), None, Some("other".to_owned())]),
                None,
                None,
            ]),
            Some([
                None,
                Some([Some("side".to_owned()), None, Some("hello".to_owned())]),
                None,
                Some([Some("its".to_owned()), None, Some("me".to_owned())]),
            ]),
        ];
        let array_string_nested_all_nullable = FixedSizeListArray::<
            4,
            FixedSizeListArray<3, StringArray<Nullable>, Nullable>,
            Nullable,
        >::from_options(input_string_nested_all_nullable.to_vec());
        assert_eq!(array_string_nested_all_nullable.len(), 3);
        assert_eq!(array_string_nested_all_nullable.into_vec(), input_string_nested_all_nullable);
    };

    {
        let input_string_even_more_nested = [
            Some([
                Some([Some(["hello".to_owned()]), None, Some(["from".to_owned()])]),
                Some([Some(["the".to_owned()]), None, Some(["other".to_owned()])]),
                None,
                None,
            ]),
            None,
            Some([
                None,
                Some([Some(["side".to_owned()]), None, Some(["hello".to_owned()])]),
                None,
                Some([Some(["its".to_owned()]), None, Some(["me".to_owned()])]),
            ]),
        ];
        let array_string_even_more_nested = FixedSizeListArray::<
            4,
            FixedSizeListArray<3, FixedSizeListArray<1, StringArray<NonNullable>, Nullable>, Nullable>,
            Nullable,
        >::from_options(input_string_even_more_nested.to_vec());
        assert_eq!(array_string_even_more_nested.len(), 3);
        assert_eq!(array_string_even_more_nested.into_vec(), input_string_even_more_nested);
    };
}

#[test]
fn fixed_size_list_of_strings_index() {
    let array = FixedSizeListArray::<2, StringArray>::from_arrays(vec![
        ["a".to_owned(), "bc".to_owned()],
        ["".to_owned(), "def".to_owned()],
    ]);
    assert_eq!(array.index(1), Some(["".to_owned(), "def".to_owned()]));
    assert_eq!(array.index(2), None);
    let nullable = FixedSizeListArray::<2, StringArray, Nullable>::from_options(vec![
        None,
        Some(["x".to_owned(), "y".to_owned()]),
    ]);
    assert_eq!(nullable.index(0), Some(None));
    assert_eq!(nullable.index(1), Some(Some(["x".to_owned(), "y".to_owned()])));
    // A null list holds empty filler strings in the child.
    let (child, _validity) = nullable.into_parts();
    assert_eq!(child.into_vec(), vec!["".to_owned(), "".to_owned(), "x".to_owned(), "y".to_owned()]);
}
