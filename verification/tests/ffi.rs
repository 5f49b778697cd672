use narrow::ffi::{ArrowType, PrimitiveType, ARROW_FLAG_NULLABLE};

#[test]
fn type_format_string_matches_arrow() {
    assert_eq!(<bool as ArrowType>::format(), b"b");
}

#[test]
fn type_format_strings_match_arrow() {
    assert_eq!(<i8 as ArrowType>::format(), b"c");
    assert_eq!(<u8 as ArrowType>::format(), b"C");
    assert_eq!(<i16 as ArrowType>::format(), b"s");
    assert_eq!(<u16 as ArrowType>::format(), b"S");
    assert_eq!(<i32 as ArrowType>::format(), b"i");
    assert_eq!(<u32 as ArrowType>::format(), b"I");
    assert_eq!(<i64 as ArrowType>::format(), b"l");
    assert_eq!(<u64 as ArrowType>::format(), b"L");
    assert_eq!(PrimitiveType::Float32.format(), b"f");
    assert_eq!(PrimitiveType::Float64.format(), b"g");
    assert_eq!(<Option<i32> as ArrowType>::format(), b"i");
    assert_eq!(<Option<i32> as ArrowType>::flags(), ARROW_FLAG_NULLABLE);
}

#[test]
fn list_format_strings_match_arrow() {
    assert_eq!(narrow::ffi::import::list_format_bytes(false), b"+l");
    assert_eq!(narrow::ffi::import::list_format_bytes(true), b"+L");
    assert!(!<i32 as narrow::arrow::Offset>::large());
    assert!(<i64 as narrow::arrow::Offset>::large());
}
