use narrow::union::{DenseTypeIds, DenseUnionArray, SparseUnionArray, SparseUnionItem, UnionItem};

#[derive(Clone, Debug, PartialEq, Eq)]
enum Foo {
    Bar(i32),
    Baz(u32),
}

impl UnionItem for Foo {
    fn spec_variants() -> usize {
        2
    }

    fn variants() -> usize {
        2
    }

    fn spec_type_id(&self) -> i8 {
        self.type_id()
    }

    fn type_id(&self) -> i8 {
        match self {
            Foo::Bar(_) => 0,
            Foo::Baz(_) => 1,
        }
    }

    fn duplicate(&self) -> Self {
        self.clone()
    }
}

impl SparseUnionItem for Foo {
    fn spec_filler(type_id: i8) -> Self {
        Self::filler(type_id)
    }

    fn filler(type_id: i8) -> Self {
        if type_id == 0 {
            Foo::Bar(i32::default())
        } else {
            Foo::Baz(u32::default())
        }
    }
}

#[test]
fn simple() {
    {
        let input = vec![Foo::Bar(0), Foo::Baz(1), Foo::Baz(2), Foo::Bar(3)];
        let mut dense_array = DenseUnionArray::from_items(&input);

        assert_eq!(dense_array.types(), [0, 1, 1, 0]);
        assert_eq!(dense_array.offsets(), [0, 0, 1, 1]);
        assert_eq!(dense_array.child(0), [Foo::Bar(0), Foo::Bar(3)]);
        assert_eq!(dense_array.child(1), [Foo::Baz(1), Foo::Baz(2)]);

        assert_eq!(dense_array.to_vec(), input);

        dense_array.push(Foo::Bar(42));
        assert_eq!(dense_array.types(), [0, 1, 1, 0, 0]);
        assert_eq!(dense_array.offsets(), [0, 0, 1, 1, 2]);
        assert_eq!(
            dense_array.child(0),
            [Foo::Bar(0), Foo::Bar(3), Foo::Bar(42)]
        );
        assert_eq!(dense_array.child(1), [Foo::Baz(1), Foo::Baz(2)]);
    };

    {
        let input = vec![Foo::Bar(-78), Foo::Baz(1), Foo::Baz(99)];
        let mut sparse_array = SparseUnionArray::from_items(&input);

        assert_eq!(sparse_array.types(), [0, 1, 1]);
        assert_eq!(
            sparse_array.child(0),
            [
                Foo::Bar(-78),
                Foo::Bar(i32::default()),
                Foo::Bar(i32::default())
            ]
        );
        assert_eq!(
            sparse_array.child(1),
            [Foo::Baz(u32::default()), Foo::Baz(1), Foo::Baz(99)]
        );

        assert_eq!(sparse_array.to_vec(), input);

        sparse_array.push(Foo::Bar(42));
        assert_eq!(sparse_array.types(), [0, 1, 1, 0]);
        assert_eq!(
            sparse_array.child(0),
            [
                Foo::Bar(-78),
                Foo::Bar(i32::default()),
                Foo::Bar(i32::default()),
                Foo::Bar(42)
            ]
        );
        assert_eq!(
            sparse_array.child(1),
            [
                Foo::Baz(u32::default()),
                Foo::Baz(1),
                Foo::Baz(99),
                Foo::Baz(u32::default())
            ]
        );
    };
}

#[test]
fn dense_union_index() {
    let input = vec![Foo::Baz(7), Foo::Bar(-1), Foo::Baz(8)];
    let array = DenseUnionArray::from_items(&input);
    assert_eq!(array.len(), 3);
    assert_eq!(array.index(0), Some(&Foo::Baz(7)));
    assert_eq!(array.index(1), Some(&Foo::Bar(-1)));
    assert_eq!(array.index(2), Some(&Foo::Baz(8)));
    assert_eq!(array.index(3), None);
    assert_eq!(array.index_checked(2), &Foo::Baz(8));
}

#[test]
fn dense_union_empty() {
    let array = DenseUnionArray::<Foo>::new();
    assert_eq!(array.len(), 0);
    assert!(array.types().is_empty());
    assert!(array.offsets().is_empty());
    assert!(array.child(0).is_empty());
    assert!(array.child(1).is_empty());
    assert_eq!(array.index(0), None);
}

#[test]
fn sparse_union_index() {
    let input = vec![Foo::Baz(5), Foo::Bar(6)];
    let array = SparseUnionArray::from_items(&input);
    assert_eq!(array.len(), 2);
    assert_eq!(array.index(0), Some(&Foo::Baz(5)));
    assert_eq!(array.index(1), Some(&Foo::Bar(6)));
    assert_eq!(array.index(2), None);
    assert_eq!(array.child(0).len(), array.len());
    assert_eq!(array.child(1).len(), array.len());
}

#[test]
fn sparse_union_empty() {
    let array = SparseUnionArray::<Foo>::new();
    assert_eq!(array.len(), 0);
    assert!(array.child(0).is_empty());
    assert_eq!(array.to_vec(), Vec::<Foo>::new());
}

#[test]
fn dense_type_ids() {
    let mut ids = DenseTypeIds::from_type_ids(&[0, 1, 1, 0, 2], 3);
    assert_eq!(ids.len(), 5);
    assert_eq!(ids.types_slice(), &[0, 1, 1, 0, 2]);
    // The offset of an item counts the earlier items of its variant.
    assert_eq!(ids.offsets_slice(), &[0, 0, 1, 1, 0]);
    assert_eq!(ids.variant_len(0), 2);
    assert_eq!(ids.variant_len(1), 2);
    assert_eq!(ids.variant_len(2), 1);
    assert_eq!(ids.get(2), Some((1, 1)));
    assert_eq!(ids.get(5), None);
    assert_eq!(ids.push(1), 2);
    assert_eq!(ids.variant_len(1), 3);
    let empty = DenseTypeIds::new(2);
    assert_eq!(empty.len(), 0);
    assert_eq!(empty.variant_len(1), 0);
}

#[derive(Clone, Copy, Debug, PartialEq, Eq)]
enum Flag {
    Foo,
    Bar,
}

impl UnionItem for Flag {
    fn spec_variants() -> usize {
        2
    }

    fn variants() -> usize {
        2
    }

    fn spec_type_id(&self) -> i8 {
        self.type_id()
    }

    fn type_id(&self) -> i8 {
        match self {
            Flag::Foo => 0,
            Flag::Bar => 1,
        }
    }

    fn duplicate(&self) -> Self {
        *self
    }
}

impl SparseUnionItem for Flag {
    fn spec_filler(type_id: i8) -> Self {
        Self::filler(type_id)
    }

    fn filler(type_id: i8) -> Self {
        if type_id == 0 {
            Flag::Foo
        } else {
            Flag::Bar
        }
    }
}

#[derive(Clone, Copy, Debug, PartialEq, Eq)]
enum Test {
    Foo { bar: u8 },
    Bar(bool),
    Empty,
}

impl UnionItem for Test {
    fn spec_variants() -> usize {
        3
    }

    fn variants() -> usize {
        3
    }

    fn spec_type_id(&self) -> i8 {
        self.type_id()
    }

    fn type_id(&self) -> i8 {
        match self {
            Test::Foo { .. } => 0,
            Test::Bar(_) => 1,
            Test::Empty => 2,
        }
    }

    fn duplicate(&self) -> Self {
        *self
    }
}

impl SparseUnionItem for Test {
    fn spec_filler(type_id: i8) -> Self {
        Self::filler(type_id)
    }

    fn filler(type_id: i8) -> Self {
        match type_id {
            0 => Test::Foo { bar: 0 },
            1 => Test::Bar(false),
            _ => Test::Empty,
        }
    }
}

#[test]
fn union_derive() {
    let foo_input = vec![Flag::Foo, Flag::Bar];

    let dense_foo_array = DenseUnionArray::from_items(&foo_input);
    assert_eq!(dense_foo_array.len(), foo_input.len());
    let a = dense_foo_array.to_vec();
    assert_eq!(a, foo_input.clone());

    let sparse_foo_array = SparseUnionArray::from_items(&foo_input);
    assert_eq!(sparse_foo_array.len(), foo_input.len());
    assert_eq!(sparse_foo_array.to_vec(), foo_input);

    let input = vec![
        Test::Empty,
        Test::Bar(true),
        Test::Foo { bar: 123 },
        Test::Empty,
    ];
    let mut dense_array = DenseUnionArray::from_items(&input);
    assert_eq!(dense_array.len(), 4);
    assert_eq!(dense_array.types(), &[2, 1, 0, 2]);
    assert_eq!(dense_array.offsets(), &[0, 0, 0, 1]);
    assert_eq!(dense_array.child(0), &[Test::Foo { bar: 123 }]);
    assert_eq!(dense_array.child(2).len(), 2);
    assert_eq!(dense_array.to_vec(), input.clone());

    dense_array.push(Test::Foo { bar: 42 });
    assert_eq!(dense_array.len(), 5);
    assert_eq!(dense_array.types(), &[2, 1, 0, 2, 0]);
    assert_eq!(dense_array.offsets(), &[0, 0, 0, 1, 1]);
    assert_eq!(
        dense_array.child(0),
        &[Test::Foo { bar: 123 }, Test::Foo { bar: 42 }]
    );
    assert_eq!(dense_array.child(2).len(), 2);

    let sparse_array = SparseUnionArray::from_items(&input);
    assert_eq!(sparse_array.len(), 4);
    assert_eq!(sparse_array.types(), &[2, 1, 0, 2]);
    assert_eq!(
        sparse_array.child(0),
        &[
            Test::Foo { bar: 0 },
            Test::Foo { bar: 0 },
            Test::Foo { bar: 123 },
            Test::Foo { bar: 0 }
        ]
    );
    assert_eq!(sparse_array.child(2).len(), 4);
    assert_eq!(sparse_array.to_vec(), input);
}

#[derive(Clone, Debug, PartialEq, Eq)]
enum Record {
    Unit,
    Unnamed(u8, u16),
    Named { a: u32, b: u64, c: String },
}

impl UnionItem for Record {
    fn spec_variants() -> usize {
        3
    }

    fn variants() -> usize {
        3
    }

    fn spec_type_id(&self) -> i8 {
        self.type_id()
    }

    fn type_id(&self) -> i8 {
        match self {
            Record::Unit => 0,
            Record::Unnamed(..) => 1,
            Record::Named { .. } => 2,
        }
    }

    fn duplicate(&self) -> Self {
        self.clone()
    }
}

impl SparseUnionItem for Record {
    fn spec_filler(type_id: i8) -> Self {
        Self::filler(type_id)
    }

    fn filler(type_id: i8) -> Self {
        match type_id {
            0 => Record::Unit,
            1 => Record::Unnamed(0, 0),
            _ => Record::Named {
                a: 0,
                b: 0,
                c: String::new(),
            },
        }
    }
}

#[test]
fn with_multiple_fields() {
    {
        let input = vec![
            Record::Unit,
            Record::Unnamed(1, 2),
            Record::Named {
                a: 3,
                b: 4,
                c: "woo hoo!".to_owned(),
            },
        ];
        let dense_array = DenseUnionArray::from_items(&input);

        assert_eq!(dense_array.types(), [0, 1, 2]);
        assert_eq!(dense_array.offsets(), [0, 0, 0]);
        assert_eq!(dense_array.child(0).len(), 1);
        assert_eq!(dense_array.child(1), [Record::Unnamed(1, 2)]);
        assert_eq!(
            dense_array.child(2),
            [Record::Named {
                a: 3,
                b: 4,
                c: "woo hoo!".to_owned(),
            }]
        );

        assert_eq!(dense_array.to_vec(), input);
    };

    {
        let input = vec![
            Record::Unit,
            Record::Unnamed(1, 2),
            Record::Named {
                a: 3,
                b: 4,
                c: "woo hoo!".to_owned(),
            },
        ];
        let sparse_array = SparseUnionArray::from_items(&input);
        assert_eq!(sparse_array.to_vec(), input);
    };
}
