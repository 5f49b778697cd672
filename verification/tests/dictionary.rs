use narrow::dictionary::DictionaryArray;
use narrow::validity::{NonNullable, Nullable};

#[test]
fn dictionary_from_iter() {
    let vec = vec![1u8, 2, 3, 4, 1, 2, 3, 4, 4, 4, 4];
    let array = DictionaryArray::<u8, u8, NonNullable>::from_values(&vec);
    assert_eq!(array.len(), vec.len());
    assert_eq!(array.child().len(), 4);

    let vec = vec![
        Some(1u8),
        None,
        Some(2),
        None,
        Some(3),
        None,
        None,
        Some(1),
        Some(2),
    ];
    let array = DictionaryArray::<u8, u32, Nullable>::from_options(&vec);
    assert_eq!(array.len(), vec.len());
    assert_eq!(array.child().len(), 3);
    assert_eq!(array.is_null(1), Some(true));

    let vec = vec![
        Some(Some(1u8)),
        None,
        Some(None),
        None,
        Some(None),
        None,
        None,
        Some(Some(1)),
        Some(None),
    ];
    let array = DictionaryArray::<Option<u8>, u32, Nullable>::from_options(&vec);
    assert_eq!(array.len(), vec.len());
    assert_eq!(array.child().len(), 2);
    assert_eq!(array.is_null(1), Some(true));
}

#[test]
fn dictionary_into_iter() {
    let vec = vec![1u8, 2, 3, 4, 1, 2, 3, 4, 4, 4, 4];
    let array = DictionaryArray::<u8, u8, NonNullable>::from_values(&vec);
    assert_eq!(array.to_vec(), vec);

    let vec = vec![
        Some(1u8),
        None,
        Some(2),
        None,
        Some(3),
        None,
        None,
        Some(1),
        Some(2),
    ];
    let array = DictionaryArray::<u8, u32, Nullable>::from_options(&vec);
    assert_eq!(array.to_vec(), vec);
}

#[test]
fn dictionary_first_occurrence_order() {
    let array = DictionaryArray::<i32, u8, NonNullable>::from_values(&[5, -1, 5, 7, -1]);
    assert_eq!(array.child(), &[5, -1, 7]);
    assert_eq!(array.index_array().as_slice(), &[0u8, 1, 0, 2, 1]);
    assert_eq!(array.index(3), Some(7));
    assert_eq!(array.index(5), None);
}

#[test]
fn dictionary_iterator() {
    let array = DictionaryArray::<u16, u8, Nullable>::from_options(&[Some(3), None, Some(3)]);
    let mut iter = array.iter();
    assert_eq!(iter.next(), Some(Some(3)));
    assert_eq!(iter.next(), Some(None));
    assert_eq!(iter.next(), Some(Some(3)));
    assert_eq!(iter.next(), None);
    assert_eq!(array.null_count(), 1);
    assert_eq!(array.is_valid(2), Some(true));
    assert_eq!(array.index(1), Some(None));
}

#[test]
fn dictionary_empty() {
    let array = DictionaryArray::<u8, i8, NonNullable>::from_values(&[]);
    assert!(array.is_empty());
    assert_eq!(array.child().len(), 0);
    assert_eq!(array.to_vec(), Vec::<u8>::new());
}

#[test]
fn dictionary_of_strings() {
    let input = ["north", "south", "north", "north", "east"];
    let array = DictionaryArray::<&str, u8, NonNullable>::from_values(&input);
    assert_eq!(array.child(), &["north", "south", "east"]);
    assert_eq!(array.index_array().as_slice(), &[0u8, 1, 0, 0, 2]);
    assert_eq!(array.to_vec(), input.to_vec());

    let owned = vec![Some(String::from("x")), None, Some(String::from("x"))];
    let array = DictionaryArray::<String, u16, Nullable>::from_options(&owned);
    assert_eq!(array.child().len(), 1);
    assert_eq!(array.null_count(), 1);
    assert_eq!(array.to_vec(), owned);
}
