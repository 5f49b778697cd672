use std::collections::VecDeque;

use narrow::boolean::BooleanArray;
use narrow::fixed_size_list::FixedSizeListArray;
use narrow::fixed_size_primitive::FixedSizePrimitiveArray;
use narrow::null::NullArray;
use narrow::string::StringArray;
use narrow::struct_array::{StructArray, StructArrayType, StructColumns};
use narrow::validity::{NonNullable, Nullable};
use narrow::variable_size_binary::VariableSizeBinaryArray;
use narrow::variable_size_list::VariableSizeListArray;

// Definition
#[derive(Clone, Debug, Default, PartialEq)]
struct Foo {
    a: u32,
    b: Option<()>,
    c: (),
    d: Option<[u64; 2]>,
    e: bool,
    f: &'static [u8],
    g: String,
}

// The field arrays of `Foo`.
struct FooArray {
    a: FixedSizePrimitiveArray<u32>,
    b: NullArray<(), Nullable>,
    c: NullArray<(), NonNullable>,
    d: FixedSizePrimitiveArray<[u64; 2], Nullable>,
    e: BooleanArray,
    f: VariableSizeBinaryArray,
    g: StringArray,
}

impl StructColumns<Foo> for FooArray {
    fn stored(&self) -> usize {
        self.a.len()
    }

    fn stored_at(&self, index: usize) -> Foo {
        self.value_at(index)
    }

    fn empty() -> Self {
        FooArray {
            a: FixedSizePrimitiveArray::<u32>::new(),
            b: NullArray::<(), Nullable>::new(),
            c: NullArray::<(), NonNullable>::with_len(0),
            d: FixedSizePrimitiveArray::<[u64; 2], Nullable>::new(),
            e: BooleanArray::<NonNullable>::new(),
            f: VariableSizeBinaryArray::<NonNullable>::new(),
            g: StringArray::<NonNullable>::new(),
        }
    }

    fn len(&self) -> usize {
        self.a.len()
    }

    fn push_value(&mut self, value: Foo) {
        self.a.push(value.a);
        self.b.push(value.b);
        self.c.push(value.c);
        self.d.push(value.d);
        self.e.push(value.e);
        self.f.push(value.f);
        self.g.push(&value.g);
    }

    fn value_at(&self, index: usize) -> Foo {
        // The field `f` borrows for the whole program, so its bytes are
        // leaked here.
        let f: &'static [u8] = Box::leak(self.f.index_checked(index).to_vec().into_boxed_slice());
        Foo {
            a: self.a.index_checked(index),
            b: self.b.index_checked(index),
            c: self.c.index_checked(index),
            d: self.d.index_checked(index),
            e: self.e.index_checked(index),
            f,
            g: self.g.index_checked(index).to_owned(),
        }
    }
}

impl StructArrayType for Foo {
    type Array = FooArray;

    fn filler() -> Self {
        Foo::default()
    }
}

#[test]
fn struct_from_iter() {
    let input = vec![
        Foo {
            a: 1,
            b: None,
            c: (),
            d: Some([1, 2]),
            e: false,
            f: &[1],
            g: "a".to_owned(),
        },
        Foo {
            a: 2,
            b: Some(()),
            c: (),
            d: Some([3, 4]),
            e: true,
            f: &[2, 3],
            g: "s".to_owned(),
        },
        Foo {
            a: 3,
            b: None,
            c: (),
            d: None,
            e: true,
            f: &[4],
            g: "d".to_owned(),
        },
        Foo {
            a: 4,
            b: None,
            c: (),
            d: None,
            e: true,
            f: &[],
            g: "f".to_owned(),
        },
    ];
    let array = StructArray::<Foo>::from_values(input);
    assert_eq!(array.len(), 4);
    let columns = array.into_columns();
    assert_eq!(columns.a.into_vec(), &[1, 2, 3, 4]);
    assert_eq!(columns.b.into_vec(), &[None, Some(()), None, None]);
    assert_eq!(columns.c.into_vec(), &[(), (), (), ()]);
    assert_eq!(
        columns.d.into_vec(),
        &[Some([1, 2]), Some([3, 4]), None, None]
    );
    assert_eq!(columns.e.into_vec(), &[false, true, true, true]);
    assert_eq!(columns.f.buffer_ref(), &[1, 2, 3, 4]);
    assert_eq!(columns.f.offset_buffer(), &[0, 1, 3, 4, 4]);
    assert_eq!(
        columns.g.buffer_ref(),
        &[97, 115, 100, 102] // a s d f
    );
    assert_eq!(columns.g.offset_buffer(), &[0, 1, 2, 3, 4]);

    let input_nullable = vec![
        None,
        Some(Foo {
            a: 1,
            b: None,
            c: (),
            d: Some([1, 2]),
            e: false,
            f: &[1],
            g: "a".to_owned(),
        }),
    ];
    let array_nullable = StructArray::<Foo, Nullable>::from_options(input_nullable);
    assert_eq!(array_nullable.len(), 2);
    assert_eq!(array_nullable.is_null(0), Some(true));
    assert_eq!(array_nullable.is_valid(1), Some(true));
    assert_eq!(array_nullable.is_valid(2), None);
}

#[test]
fn struct_round_trip() {
    let input = vec![
        Foo {
            a: 7,
            b: Some(()),
            c: (),
            d: None,
            e: true,
            f: &[9, 9],
            g: "hello".to_owned(),
        },
        Foo::default(),
    ];
    let array = StructArray::<Foo>::from_values(input.clone());
    assert_eq!(array.index(1), Some(Foo::default()));
    assert_eq!(array.index(2), None);
    assert_eq!(array.index_checked(0), input[0]);
    assert_eq!(array.into_vec(), input);
}

#[test]
fn struct_nullable_items() {
    let mut array = StructArray::<Foo, Nullable>::new();
    assert!(array.is_empty());
    array.push(None);
    array.push(Some(Foo {
        a: 5,
        ..Foo::default()
    }));
    assert_eq!(array.null_count(), 1);
    assert_eq!(array.index(0), Some(None));
    assert_eq!(array.index(1).flatten().map(|foo| foo.a), Some(5));
    // A null item stores the filler value in the field arrays.
    assert_eq!(array.columns_ref().a.as_slice(), &[0, 5]);
    let items = array.into_vec();
    assert_eq!(items.len(), 2);
    assert!(items[0].is_none());

    let nonnull = StructArray::<Foo>::from_values(vec![Foo::default()]);
    let nullable = nonnull.into_nullable();
    assert_eq!(nullable.is_valid(0), Some(true));
}

// A unit struct, stored as a number of unit values.
#[derive(Clone, Copy, Debug, Default, PartialEq)]
struct Unit;

impl narrow::null::Unit for Unit {
    fn spec_unit() -> Self {
        Unit
    }

    fn unit() -> Self {
        Unit
    }
}

struct UnitArray(NullArray<Unit, NonNullable>);

impl StructColumns<Unit> for UnitArray {
    fn stored(&self) -> usize {
        self.0.len()
    }

    fn stored_at(&self, index: usize) -> Unit {
        self.value_at(index)
    }

    fn empty() -> Self {
        UnitArray(NullArray::<Unit, NonNullable>::with_len(0))
    }

    fn len(&self) -> usize {
        self.0.len()
    }

    fn push_value(&mut self, value: Unit) {
        self.0.push(value);
    }

    fn value_at(&self, index: usize) -> Unit {
        self.0.index_checked(index)
    }
}

impl StructArrayType for Unit {
    type Array = UnitArray;

    fn filler() -> Self {
        Unit
    }
}

#[derive(Clone, Copy, Debug, Default, PartialEq)]
struct Unnamed(u8, Option<u16>, u32, u64);

struct UnnamedArray(
    FixedSizePrimitiveArray<u8>,
    FixedSizePrimitiveArray<u16, Nullable>,
    FixedSizePrimitiveArray<u32>,
    FixedSizePrimitiveArray<u64>,
);

impl StructColumns<Unnamed> for UnnamedArray {
    fn stored(&self) -> usize {
        self.0.len()
    }

    fn stored_at(&self, index: usize) -> Unnamed {
        self.value_at(index)
    }

    fn empty() -> Self {
        UnnamedArray(
            FixedSizePrimitiveArray::<u8>::new(),
            FixedSizePrimitiveArray::<u16, Nullable>::new(),
            FixedSizePrimitiveArray::<u32>::new(),
            FixedSizePrimitiveArray::<u64>::new(),
        )
    }

    fn len(&self) -> usize {
        self.0.len()
    }

    fn push_value(&mut self, value: Unnamed) {
        self.0.push(value.0);
        self.1.push(value.1);
        self.2.push(value.2);
        self.3.push(value.3);
    }

    fn value_at(&self, index: usize) -> Unnamed {
        Unnamed(
            self.0.index_checked(index),
            self.1.index_checked(index),
            self.2.index_checked(index),
            self.3.index_checked(index),
        )
    }
}

impl StructArrayType for Unnamed {
    type Array = UnnamedArray;

    fn filler() -> Self {
        Unnamed::default()
    }
}

#[derive(Clone, Debug, Default, PartialEq)]
struct Named {
    a: u8,
    b: bool,
    c: Option<u16>,
    d: Option<bool>,
    e: String,
    f: Option<String>,
}

struct NamedArray {
    a: FixedSizePrimitiveArray<u8>,
    b: BooleanArray,
    c: FixedSizePrimitiveArray<u16, Nullable>,
    d: BooleanArray<Nullable>,
    e: StringArray,
    f: StringArray<Nullable>,
}

impl StructColumns<Named> for NamedArray {
    fn stored(&self) -> usize {
        self.a.len()
    }

    fn stored_at(&self, index: usize) -> Named {
        self.value_at(index)
    }

    fn empty() -> Self {
        NamedArray {
            a: FixedSizePrimitiveArray::<u8>::new(),
            b: BooleanArray::<NonNullable>::new(),
            c: FixedSizePrimitiveArray::<u16, Nullable>::new(),
            d: BooleanArray::<Nullable>::new(),
            e: StringArray::<NonNullable>::new(),
            f: StringArray::<Nullable>::new(),
        }
    }

    fn len(&self) -> usize {
        self.a.len()
    }

    fn push_value(&mut self, value: Named) {
        self.a.push(value.a);
        self.b.push(value.b);
        self.c.push(value.c);
        self.d.push(value.d);
        self.e.push(&value.e);
        self.f.push(value.f.as_deref());
    }

    fn value_at(&self, index: usize) -> Named {
        Named {
            a: self.a.index_checked(index),
            b: self.b.index_checked(index),
            c: self.c.index_checked(index),
            d: self.d.index_checked(index),
            e: self.e.index_checked(index).to_owned(),
            f: self.f.index_checked(index).map(|s| s.to_owned()),
        }
    }
}

impl StructArrayType for Named {
    type Array = NamedArray;

    fn filler() -> Self {
        Named::default()
    }
}

#[test]
fn struct_into_iter() {
    let unit_input = [Unit; 3];
    let unit_array = StructArray::<Unit>::from_values(unit_input.to_vec());
    assert_eq!(unit_array.len(), unit_input.len());
    let unit_output = unit_array.into_vec();
    assert_eq!(unit_output, unit_input);
    let unit_input_nullable = unit_input.map(Option::Some);
    let unit_array_nullable = StructArray::<Unit, Nullable>::from_options(unit_input_nullable.to_vec());
    assert_eq!(unit_array_nullable.len(), unit_input_nullable.len());
    let unit_output_nullable = unit_array_nullable.into_vec();
    assert_eq!(unit_output_nullable, unit_input_nullable);

    let unnamed_input = [Unnamed(1, Some(2), 3, 4); 3];
    let unnamed_array = StructArray::<Unnamed>::from_values(unnamed_input.to_vec());
    assert_eq!(unnamed_array.len(), unnamed_input.len());
    let unnamed_output = unnamed_array.into_vec();
    assert_eq!(unnamed_output, unnamed_input);
    let unnamed_input_nullable = unnamed_input.map(Option::Some);
    let unnamed_array_nullable =
        StructArray::<Unnamed, Nullable>::from_options(unnamed_input_nullable.to_vec());
    assert_eq!(unnamed_array_nullable.len(), unnamed_input_nullable.len());
    let unnamed_output_nullable = unnamed_array_nullable.into_vec();
    assert_eq!(unnamed_output_nullable, unnamed_input_nullable);

    let named_input = [Named {
        a: 1,
        b: false,
        c: Some(3),
        d: Some(true),
        e: "hello".to_owned(),
        f: None,
    }];
    let named_array = StructArray::<Named>::from_values(named_input.to_vec());
    assert_eq!(named_array.len(), named_input.len());
    let named_output = named_array.into_vec();
    assert_eq!(named_output, named_input);
    let named_input_nullable = named_input
        .into_iter()
        .map(Option::Some)
        .collect::<Vec<_>>();
    let named_array_nullable = StructArray::<Named, Nullable>::from_options(named_input_nullable.clone());
    assert_eq!(named_array_nullable.len(), named_input_nullable.len());
    let named_output_nullable = named_array_nullable.into_vec();
    assert_eq!(named_output_nullable, named_input_nullable);
}

// A struct whose field is a list of optional strings.
#[derive(Clone, Debug, PartialEq)]
struct ListOfStrings(Vec<Option<String>>);

struct ListOfStringsArray(VariableSizeListArray<StringArray<Nullable>>);

impl StructColumns<ListOfStrings> for ListOfStringsArray {
    fn stored(&self) -> usize {
        self.0.len()
    }

    fn stored_at(&self, index: usize) -> ListOfStrings {
        self.value_at(index)
    }

    fn empty() -> Self {
        ListOfStringsArray(VariableSizeListArray::<StringArray<Nullable>>::new())
    }

    fn len(&self) -> usize {
        self.0.len()
    }

    fn push_value(&mut self, value: ListOfStrings) {
        self.0.push_list(value.0);
    }

    fn value_at(&self, index: usize) -> ListOfStrings {
        ListOfStrings(self.0.list_checked(index))
    }
}

impl StructArrayType for ListOfStrings {
    type Array = ListOfStringsArray;

    fn filler() -> Self {
        ListOfStrings(Vec::new())
    }
}

// A struct whose field is an array of one optional string.
#[derive(Clone, Debug, PartialEq)]
struct OneString([Option<String>; 1]);

struct OneStringArray(FixedSizeListArray<1, StringArray<Nullable>>);

impl StructColumns<OneString> for OneStringArray {
    fn stored(&self) -> usize {
        self.0.len()
    }

    fn stored_at(&self, index: usize) -> OneString {
        self.value_at(index)
    }

    fn empty() -> Self {
        OneStringArray(FixedSizeListArray::<1, StringArray<Nullable>>::new())
    }

    fn len(&self) -> usize {
        self.0.len()
    }

    fn push_value(&mut self, value: OneString) {
        self.0.push(value.0);
    }

    fn value_at(&self, index: usize) -> OneString {
        OneString(self.0.index_checked(index))
    }
}

impl StructArrayType for OneString {
    type Array = OneStringArray;

    fn filler() -> Self {
        OneString([None])
    }
}

// A struct whose field is a double-ended queue of optional strings, stored
// as a list.
#[derive(Clone, Debug, PartialEq)]
struct QueueOfStrings(VecDeque<Option<String>>);

struct QueueOfStringsArray(VariableSizeListArray<StringArray<Nullable>>);

impl StructColumns<QueueOfStrings> for QueueOfStringsArray {
    fn stored(&self) -> usize {
        self.0.len()
    }

    fn stored_at(&self, index: usize) -> QueueOfStrings {
        self.value_at(index)
    }

    fn empty() -> Self {
        QueueOfStringsArray(VariableSizeListArray::<StringArray<Nullable>>::new())
    }

    fn len(&self) -> usize {
        self.0.len()
    }

    fn push_value(&mut self, value: QueueOfStrings) {
        self.0.push_list(Vec::from(value.0));
    }

    fn value_at(&self, index: usize) -> QueueOfStrings {
        QueueOfStrings(VecDeque::from(self.0.list_checked(index)))
    }
}

impl StructArrayType for QueueOfStrings {
    type Array = QueueOfStringsArray;

    fn filler() -> Self {
        QueueOfStrings(VecDeque::new())
    }
}

#[test]
fn nested_option_derived() {
    {
        let input = [
            ListOfStrings(vec![None]),
            ListOfStrings(vec![Some("hello".to_owned())]),
        ];
        let array = StructArray::<ListOfStrings>::from_values(input.to_vec());
        assert_eq!(array.len(), 2);
        let output = array.into_vec();
        assert_eq!(input.as_slice(), output);
    };

    {
        let input = [OneString([None]), OneString([Some("hello".to_owned())])];
        let array = StructArray::<OneString>::from_values(input.to_vec());
        assert_eq!(array.len(), 2);
        let output = array.into_vec();
        assert_eq!(input.as_slice(), output);
    };

    {
        let input = [
            QueueOfStrings(VecDeque::from_iter([None])),
            QueueOfStrings(VecDeque::from_iter([Some("hello".to_owned())])),
        ];
        let array = StructArray::<QueueOfStrings>::from_values(input.to_vec());
        assert_eq!(array.len(), 2);
        let output = array.into_vec();
        assert_eq!(input.as_slice(), output);
    };
}

// A generic struct with one field.
#[derive(Clone, Copy, Debug, Default, PartialEq)]
struct Bar(u32);

struct BarArray(FixedSizePrimitiveArray<u32>);

impl StructColumns<Bar> for BarArray {
    fn stored(&self) -> usize {
        self.0.len()
    }

    fn stored_at(&self, index: usize) -> Bar {
        self.value_at(index)
    }

    fn empty() -> Self {
        BarArray(FixedSizePrimitiveArray::<u32>::new())
    }

    fn len(&self) -> usize {
        self.0.len()
    }

    fn push_value(&mut self, value: Bar) {
        self.0.push(value.0);
    }

    fn value_at(&self, index: usize) -> Bar {
        Bar(self.0.index_checked(index))
    }
}

impl StructArrayType for Bar {
    type Array = BarArray;

    fn filler() -> Self {
        Bar::default()
    }
}

// A struct whose field is an optional struct.
#[derive(Clone, Copy, Debug, Default, PartialEq)]
struct OptionalBar(Option<Bar>);

struct OptionalBarArray(StructArray<Bar, Nullable>);

impl StructColumns<OptionalBar> for OptionalBarArray {
    fn stored(&self) -> usize {
        self.0.len()
    }

    fn stored_at(&self, index: usize) -> OptionalBar {
        self.value_at(index)
    }

    fn empty() -> Self {
        OptionalBarArray(StructArray::<Bar, Nullable>::new())
    }

    fn len(&self) -> usize {
        self.0.len()
    }

    fn push_value(&mut self, value: OptionalBar) {
        self.0.push(value.0);
    }

    fn value_at(&self, index: usize) -> OptionalBar {
        OptionalBar(self.0.index_checked(index))
    }
}

impl StructArrayType for OptionalBar {
    type Array = OptionalBarArray;

    fn filler() -> Self {
        OptionalBar::default()
    }
}

// A struct whose field is an optional list of optional integers.
#[derive(Clone, Debug, Default, PartialEq)]
struct FooBar(Option<Vec<Option<u32>>>);

struct FooBarArray(VariableSizeListArray<FixedSizePrimitiveArray<u32, Nullable>, Nullable>);

impl StructColumns<FooBar> for FooBarArray {
    fn stored(&self) -> usize {
        self.0.len()
    }

    fn stored_at(&self, index: usize) -> FooBar {
        self.value_at(index)
    }

    fn empty() -> Self {
        FooBarArray(VariableSizeListArray::<FixedSizePrimitiveArray<u32, Nullable>, Nullable>::new())
    }

    fn len(&self) -> usize {
        self.0.len()
    }

    fn push_value(&mut self, value: FooBar) {
        self.0.push_list(value.0);
    }

    fn value_at(&self, index: usize) -> FooBar {
        FooBar(self.0.list_checked(index))
    }
}

impl StructArrayType for FooBar {
    type Array = FooBarArray;

    fn filler() -> Self {
        FooBar::default()
    }
}

#[test]
fn struct_derive() {
    let mut foo_bar = StructArray::<FooBar, NonNullable>::new();
    foo_bar.push(FooBar(None));
    foo_bar.push(FooBar(Some(vec![None])));
    assert_eq!(foo_bar.into_vec(), vec![FooBar(None), FooBar(Some(vec![None]))]);
    let mut foo_bar_nullable = StructArray::<FooBar, Nullable>::new();
    foo_bar_nullable.push(Some(FooBar(None)));
    foo_bar_nullable.push(None);
    assert_eq!(foo_bar_nullable.into_vec(), vec![Some(FooBar(None)), None]);

    let optional_bars = StructArray::<OptionalBar>::from_values(vec![
        OptionalBar(Some(Bar(1))),
        OptionalBar(None),
    ]);
    assert_eq!(optional_bars.index(0), Some(OptionalBar(Some(Bar(1)))));
    assert_eq!(optional_bars.index(1), Some(OptionalBar(None)));
}
