use std::cmp::Ordering;

use rascaline::descriptor::{IndexValue, Indexes, IndexesBuilder};
use rascaline::indexes::{copy_tuple, same_names, same_text, same_tuple};
use rascaline::order::rank_of;
use rascaline::text::decimal_text;

fn pairs() -> Indexes {
    let mut builder = IndexesBuilder::new(vec!["first", "second"]);
    assert_eq!(builder.size(), 2);
    builder.add(&[IndexValue::from(2_usize), IndexValue::from(3_usize)]);
    builder.add(&[IndexValue::from(1_usize), IndexValue::from(243_usize)]);
    builder.add(&[IndexValue::from(4_usize), IndexValue::Real(0.5_f64.to_bits())]);
    builder.finish()
}

#[test]
fn the_builder_keeps_the_order_of_the_tuples() {
    let indexes = pairs();
    assert_eq!(indexes.names(), &["first", "second"]);
    assert_eq!(indexes.size(), 2);
    assert_eq!(indexes.count(), 3);
    assert_eq!(indexes.get(0), &[IndexValue::Unsigned(2), IndexValue::Unsigned(3)]);
    assert_eq!(indexes.get(1), &[IndexValue::Unsigned(1), IndexValue::Unsigned(243)]);
    assert_eq!(indexes.get(2), &[IndexValue::Unsigned(4), IndexValue::Real(0.5_f64.to_bits())]);
}

#[test]
fn an_index_space_without_tuples() {
    let indexes = IndexesBuilder::new(vec!["only"]).finish();
    assert_eq!(indexes.count(), 0);
    assert_eq!(indexes.size(), 1);
    assert!(!indexes.contains(&[IndexValue::from(0_usize)]));
}

#[test]
fn membership_is_of_whole_tuples() {
    let indexes = pairs();
    assert!(indexes.contains(&[IndexValue::from(1_usize), IndexValue::from(243_usize)]));
    assert!(indexes.contains(&[IndexValue::from(4_usize), IndexValue::Real(0.5_f64.to_bits())]));
    assert!(!indexes.contains(&[IndexValue::from(243_usize), IndexValue::from(1_usize)]));
    assert!(!indexes.contains(&[IndexValue::from(1_usize)]));
    assert!(!indexes.contains(&[IndexValue::from(4_usize), IndexValue::from(0_usize)]));
    assert!(!indexes.contains(&[]));
}

#[test]
fn columns_are_found_by_name() {
    let indexes = pairs();
    assert_eq!(indexes.position("first"), Some(0));
    assert_eq!(indexes.position("second"), Some(1));
    assert_eq!(indexes.position("third"), None);

    let twice = IndexesBuilder::new(vec!["a", "b", "a"]).finish();
    assert_eq!(twice.position("a"), Some(0));
}

#[test]
fn a_copy_holds_the_same_tuples() {
    let indexes = pairs();
    let copy = indexes.duplicate();
    assert_eq!(copy.names(), indexes.names());
    assert_eq!(copy.count(), indexes.count());
    for i in 0..indexes.count() {
        assert_eq!(copy.get(i), indexes.get(i));
    }
}

#[test]
fn index_values_are_told_apart_by_their_tag() {
    let integer = IndexValue::from(3_usize);
    assert_eq!(integer, IndexValue::Unsigned(3));
    assert!(integer.is_unsigned());
    assert_eq!(integer.usize(), 3);

    let number = IndexValue::Real(3.0_f64.to_bits());
    assert!(!number.is_unsigned());
    assert_ne!(number, integer);
    assert_ne!(IndexValue::Real(3), IndexValue::Unsigned(3));
    assert_eq!(IndexValue::Real(3), IndexValue::Real(3));
}

#[test]
fn tuples_and_names_are_compared_as_wholes() {
    let left = [IndexValue::from(1_usize), IndexValue::from(2_usize)];
    assert!(same_tuple(&left, &[IndexValue::from(1_usize), IndexValue::from(2_usize)]));
    assert!(!same_tuple(&left, &[IndexValue::from(1_usize), IndexValue::from(3_usize)]));
    assert!(!same_tuple(&left, &[IndexValue::from(1_usize)]));
    assert!(same_tuple(&[], &[]));
    assert_eq!(copy_tuple(&left), left.to_vec());

    let names = vec!["a".to_owned(), "b".to_owned()];
    assert!(same_names(&names, &vec!["a".to_owned(), "b".to_owned()]));
    assert!(!same_names(&names, &vec!["b".to_owned(), "a".to_owned()]));
    assert!(!same_names(&names, &vec!["a".to_owned()]));
    assert!(same_text("neighbor", "neighbor"));
    assert!(!same_text("neighbor", "neighbors"));
}

#[test]
fn decimal_text_of_integers() {
    assert_eq!(decimal_text(0), "0");
    assert_eq!(decimal_text(7), "7");
    assert_eq!(decimal_text(10), "10");
    assert_eq!(decimal_text(123456), "123456");
    assert_eq!(decimal_text(9080706050), "9080706050");
    assert_eq!(decimal_text(usize::MAX), usize::MAX.to_string());
}

#[test]
fn index_values_are_ordered_within_their_tag() {
    let real = |number: f64| IndexValue::Real(number.to_bits());
    assert_eq!(IndexValue::from(2_usize).partial_cmp(&IndexValue::from(3_usize)), Some(Ordering::Less));
    assert_eq!(IndexValue::from(3_usize).partial_cmp(&IndexValue::from(3_usize)), Some(Ordering::Equal));
    assert_eq!(IndexValue::from(4_usize).partial_cmp(&IndexValue::from(3_usize)), Some(Ordering::Greater));
    assert!(IndexValue::from(0_usize) < IndexValue::from(usize::MAX));

    let numbers = [-f64::INFINITY, -2.5e10, -1.0, -1e-300, -0.0, 0.0, 1e-300, 0.5, 1.0, 1.5, 3e20, f64::INFINITY];
    for (i, &left) in numbers.iter().enumerate() {
        for (j, &right) in numbers.iter().enumerate() {
            assert_eq!(real(left).partial_cmp(&real(right)), Some(i.cmp(&j)));
        }
    }

    assert_eq!(real(1.0).partial_cmp(&IndexValue::from(1_usize)), None);
    assert_eq!(IndexValue::from(1_usize).partial_cmp(&real(2.0)), None);
    assert!(!(real(1.0) < IndexValue::from(2_usize)));
}

#[test]
fn the_rank_of_a_key_follows_the_number() {
    let numbers = [-f64::INFINITY, -3.0, -1e-9, -0.0, 0.0, 1e-9, 1.5, 2.0, f64::MAX, f64::INFINITY];
    for pair in numbers.windows(2) {
        assert!(rank_of(pair[0].to_bits()) < rank_of(pair[1].to_bits()));
    }
    assert_eq!(rank_of(0), 1 << 63);
    assert_eq!(rank_of(1 << 63), (1 << 63) - 1);
    assert_eq!(rank_of(u64::MAX), 0);
}
