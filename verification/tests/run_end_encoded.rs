use narrow::run_end_encoded::{RunEndEncoded, RunEndsExt};

#[test]
fn run_end_encoded_from_iter() {
    let input = [1i8, 1, 1, 1, 0, 0, 2];
    let array = RunEndEncoded::<i8>::from_items(&input);
    assert_eq!(array.len(), 7);
    assert_eq!(array.run_len(0), Some(4));
    assert_eq!(array.run_len(1), Some(2));
    assert_eq!(array.run_len(2), Some(1));
    assert!(array.run_len(3).is_none());

    assert_eq!(array.run_value(0), Some(1i8));
    assert_eq!(array.run_value(1), Some(1i8));
    assert_eq!(array.run_value(2), Some(1i8));
    assert_eq!(array.run_value(3), Some(1i8));
    assert_eq!(array.run_value(4), Some(0i8));
    assert_eq!(array.run_value(5), Some(0i8));
    assert_eq!(array.run_value(6), Some(2i8));

    let input = [Some(1i8), Some(1), Some(1), Some(1), None, None, Some(2)];
    let array = RunEndEncoded::<Option<i8>>::from_items(&input);
    assert_eq!(array.len(), 7);
    assert_eq!(array.null_count(), 1);

    let input = ["hello", "world", "world", "world"];
    let array = RunEndEncoded::<&str>::from_items(&input);
    assert_eq!(array.len(), 4);
    assert_eq!(array.values().len(), 2);
    assert_eq!(
        array.values().iter().map(|value| value.len()).sum::<usize>(),
        "helloworld".len()
    );
}

#[test]
fn run_end_encoded_into_iter() {
    let input = [1i8, 1, 1, 1, 0, 0, 2];
    let array = RunEndEncoded::<i8>::from_items(&input);
    let output = array.to_vec();
    assert_eq!(input, output.as_slice());

    let input = [Some(1), None, Some(1), Some(2), Some(2), None, None];
    let array = RunEndEncoded::<Option<i8>>::from_items(&input);
    let output = array.to_vec();
    assert_eq!(input, output.as_slice());
}

#[test]
fn from_array() {
    let input = [1i8, 2, 3, 4, 5, 5, 5, 5, 5];
    let array = narrow::fixed_size_primitive::Int8Array::from_values(&input);
    let ree_array = RunEndEncoded::<i8>::from_items(array.as_slice());
    assert_eq!(ree_array.len(), input.len());
}

#[test]
fn one_run() {
    let input = [0i8; 1234];
    let array = RunEndEncoded::<i8>::from_items(&input);
    assert_eq!(array.len(), 1234);
    assert_eq!(array.values().len(), 1);
}

#[test]
fn run_end_encoded_runs_and_ends() {
    let array = RunEndEncoded::<u8, i32>::from_items(&[3, 3, 4, 3]);
    assert_eq!(array.values(), &[3, 4, 3]);
    assert_eq!(array.run_count(), 3);
    assert_eq!(array.run_value(7), None);
    let mut iter = array.iter();
    assert_eq!(iter.next(), Some(3));
    assert_eq!(iter.next(), Some(3));
    assert_eq!(iter.next(), Some(4));
    assert_eq!(iter.next(), Some(3));
    assert_eq!(iter.next(), None);
}

#[test]
fn run_end_encoded_empty() {
    let array = RunEndEncoded::<i64, i64>::from_items(&[]);
    assert!(array.is_empty());
    assert_eq!(array.run_count(), 0);
    assert_eq!(array.to_vec(), Vec::<i64>::new());
}

#[test]
fn run_ends_iterator() {
    let items = [7u16, 7, 9];
    let mut runs = (&items[..]).run_end_encoded::<i16>();
    assert_eq!(runs.next(), Some((2i16, 7u16)));
    assert_eq!(runs.next(), Some((3i16, 9u16)));
    assert_eq!(runs.next(), None);
}

#[test]
fn run_end_encoded_strings() {
    let input = [String::from("a"), String::from("a"), String::from("b")];
    let array = RunEndEncoded::<String, i32>::from_items(&input);
    assert_eq!(array.values(), &[String::from("a"), String::from("b")]);
    assert_eq!(array.run_value(1), Some(String::from("a")));
    assert_eq!(array.to_vec(), input.to_vec());
}

#[test]
fn run_end_iter_collects_the_items() {
    let input = [1i8, 1, 1, 1, 0, 0, 2];
    let array = RunEndEncoded::<i8>::from_items(&input);
    assert_eq!(array.iter().collect_remaining(), input);
    let mut iter = array.iter();
    assert_eq!(iter.next(), Some(1));
    assert_eq!(iter.collect_remaining(), [1, 1, 1, 0, 0, 2]);

    let input_nullable = [Some(1i8), None, Some(1), Some(2), Some(2), None, None];
    let array_nullable = RunEndEncoded::<Option<i8>>::from_items(&input_nullable);
    assert_eq!(array_nullable.iter().collect_remaining(), input_nullable);
}
