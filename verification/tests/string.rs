use narrow::bitmap::Bitmap;
use narrow::string::{LargeUtf8Array, StringArray};
use narrow::validity::{NonNullable, Nullable};

#[test]
fn string_from_iter_nullable() {
    let input = vec![Some("a"), None, Some("sd"), Some("f"), None];
    let array = StringArray::<Nullable, i32>::from_options(&input);
    assert_eq!(array.len(), 5);
    assert_eq!(array.is_valid(0), Some(true));
    assert_eq!(array.is_valid(1), Some(false));
    assert_eq!(array.is_valid(2), Some(true));
    assert_eq!(array.is_valid(3), Some(true));
    assert_eq!(array.is_valid(4), Some(false));
    assert_eq!(array.is_valid(5), None);
    assert_eq!(array.buffer_ref(), "asdf".as_bytes());
    assert_eq!(array.offset_buffer(), &[0, 1, 1, 3, 4, 4]);
    assert_eq!(array.bitmap_ref().to_vec(), &[true, false, true, true, false]);
}

#[test]
fn string_into_iter() {
    let input = ["1", "23", "456", "7890"];
    let array = StringArray::<NonNullable, i32>::from_strs(&input);
    assert_eq!(array.into_vec(), input);

    let input_nullable = vec![Some("a"), None, Some("sd"), Some("f"), None];
    let array_nullable = StringArray::<Nullable, i32>::from_options(&input_nullable.clone());
    let output = array_nullable.into_vec();
    assert_eq!(
        output.iter().map(|o| o.as_deref()).collect::<Vec<_>>(),
        input_nullable
    );
}

#[test]
fn string_from_iter() {
    let input = ["1", "23", "456", "7890"];
    let array = LargeUtf8Array::<NonNullable>::from_strs(&input);
    assert_eq!(array.len(), 4);
    assert_eq!(array.buffer_ref(), b"1234567890");

    let input_string = vec!["a".to_owned(), "sd".to_owned(), "f".to_owned()];
    let refs: Vec<&str> = input_string.iter().map(|s| s.as_str()).collect();
    let array_string = StringArray::<NonNullable, i32>::from_strs(&refs);
    assert_eq!(array_string.len(), 3);
    assert_eq!(array_string.buffer_ref(), &[97, 115, 100, 102]);
    assert_eq!(array_string.offset_buffer(), &[0, 1, 3, 4]);
}

#[test]
fn string_iterators_and_utf8() {
    let input = ["héllo", "", "wörld"];
    let array = StringArray::<NonNullable, i32>::from_strs(&input);
    let mut iter = array.strings();
    assert_eq!(iter.next(), Some("héllo"));
    assert_eq!(iter.next(), Some(""));
    assert_eq!(iter.next(), Some("wörld"));
    assert_eq!(iter.next(), None);
    assert_eq!(array.index(3), None);

    let nullable = StringArray::<Nullable, i64>::from_options(&[None, Some("x")]);
    let mut iter = nullable.strings();
    assert_eq!(iter.next(), Some(None));
    assert_eq!(iter.next(), Some(Some("x")));
    assert_eq!(iter.next(), None);
    assert_eq!(nullable.null_count(), 1);
}

#[test]
fn string_convert_nullable() {
    let input = ["hello", " ", "world"];
    let array = StringArray::<NonNullable>::from_strs(&input);
    let nullable: StringArray<Nullable> = array.into_nullable();
    assert_eq!(nullable.bitmap_ref().as_bytes(), &[0b0000_0111]);
}

#[test]
fn string_parts() {
    let array = StringArray::<NonNullable, i32>::from_parts(vec![0, 2, 5], b"hiyou".to_vec())
        .expect("valid parts");
    assert_eq!(array.iter(), vec!["hi".to_owned(), "you".to_owned()]);
    assert_eq!(array.into_parts(), (vec![0, 2, 5], b"hiyou".to_vec()));
    // A slot that is not valid UTF-8 is refused, even when the whole buffer is.
    let bytes = "é".as_bytes().to_vec();
    assert!(StringArray::<NonNullable, i32>::from_parts(vec![0, 1, 2], bytes.clone()).is_none());
    assert!(StringArray::<NonNullable, i32>::from_parts(vec![0, 2], bytes).is_some());
    assert!(StringArray::<NonNullable, i32>::from_parts(vec![0, 3], b"ab".to_vec()).is_none());

    let nullable = StringArray::<Nullable, i32>::from_parts(
        vec![0, 0, 1],
        b"x".to_vec(),
        Bitmap::from_bools(&[false, true]),
    )
    .expect("valid parts");
    assert_eq!(nullable.iter(), vec![None, Some("x".to_owned())]);
    let (offsets, data, validity) = nullable.into_parts();
    assert_eq!((offsets, data), (vec![0, 0, 1], b"x".to_vec()));
    assert_eq!(validity.to_vec(), vec![false, true]);
}
