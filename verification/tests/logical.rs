use narrow::logical::{LogicalArray, LogicalArrayType, LogicalFrom};

#[derive(Clone, Copy, Default, Debug, PartialEq)]
struct Foo(u8);

impl LogicalArrayType for Foo {
    type Item = u8;

    fn spec_convert_into(self) -> u8 {
        self.0
    }

    fn spec_convert_from(value: u8) -> Self {
        Foo(value)
    }

    fn convert_into(self) -> u8 {
        self.0
    }

    fn convert_from(value: u8) -> Self {
        Foo(value)
    }
}

impl LogicalFrom<u8> for Foo {
    fn spec_logical_from(value: u8) -> Self {
        Foo(value)
    }

    fn from(value: u8) -> Self {
        Foo(value)
    }
}

#[test]
fn iters() {
    let input = [Foo(1), Foo(2), Foo(3), Foo(4)];
    let array = LogicalArray::<Foo>::from_values(&input);
    let back = array.iter();
    assert_eq!(back, input);
}

#[test]
fn logical_physical_items() {
    let input = [Foo(7), Foo(0), Foo(255)];
    let array = LogicalArray::<Foo>::from_values(&input);
    assert_eq!(array.len(), 3);
    assert!(!array.is_empty());
    assert_eq!(array.physical().as_slice(), &[7u8, 0, 255]);
    assert_eq!(array.to_vec(), input);
}

#[test]
fn logical_empty() {
    let array = LogicalArray::<Foo>::from_values(&[]);
    assert!(array.is_empty());
    assert_eq!(array.iter(), Vec::<Foo>::new());
}
