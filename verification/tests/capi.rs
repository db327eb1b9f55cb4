use rascaline::capi::{calculator_compute, copy_str_to_c, FlatOptions};
use rascaline::descriptor::IndexValue;
use rascaline::system::Pair;
use rascaline::{Calculator, Descriptor, Error, SelectedIndexes, SimpleSystem};

#[test]
fn a_buffer_one_byte_too_small_fails() {
    let string = "sorted distances vector";
    let mut buffer = vec![7_u8; string.len()];
    let error = copy_str_to_c(string, &mut buffer).unwrap_err();
    assert!(matches!(error, Error::InvalidParameter(_)));
    assert_eq!(
        error.to_string(),
        "string buffer is not big enough: got space for 22 characters, but we need to write 23"
    );
    assert_eq!(buffer, vec![7_u8; string.len()]);
}

#[test]
fn a_buffer_of_the_exact_size_is_filled_and_terminated() {
    let string = "sorted distances vector";
    let mut buffer = vec![7_u8; string.len() + 1];
    copy_str_to_c(string, &mut buffer).unwrap();
    assert_eq!(&buffer[..string.len()], string.as_bytes());
    assert_eq!(buffer[string.len()], 0);
}

#[test]
fn a_larger_buffer_keeps_its_tail() {
    let mut buffer = vec![7_u8; 8];
    copy_str_to_c("héo", &mut buffer).unwrap();
    assert_eq!(buffer, vec![b'h', 0xc3, 0xa9, b'o', 0, 7, 7, 7]);

    let mut buffer = vec![7_u8; 3];
    copy_str_to_c("", &mut buffer).unwrap();
    assert_eq!(buffer, vec![0, 7, 7]);
}

#[test]
fn an_empty_buffer_has_no_room() {
    let mut buffer: Vec<u8> = Vec::new();
    let error = copy_str_to_c("", &mut buffer).unwrap_err();
    assert_eq!(
        error.to_string(),
        "string buffer is not big enough: got space for 0 characters, but we need to write 0"
    );
    let error = copy_str_to_c("abc", &mut buffer).unwrap_err();
    assert_eq!(
        error.to_string(),
        "string buffer is not big enough: got space for 0 characters, but we need to write 3"
    );
}

#[test]
fn flat_options_without_lists_select_everything() {
    let flat = FlatOptions { use_native_system: true, selected_samples: None, selected_features: None };
    let options = flat.into_options();
    assert!(options.use_native_system);
    assert!(matches!(options.selected_samples, SelectedIndexes::All));
    assert!(matches!(options.selected_features, SelectedIndexes::All));

    let samples = vec![IndexValue::from(0_usize); 4];
    let features = vec![IndexValue::from(1_usize)];
    let flat = FlatOptions {
        use_native_system: false,
        selected_samples: Some(&samples),
        selected_features: Some(&features),
    };
    let options = flat.into_options();
    assert!(!options.use_native_system);
    assert!(matches!(options.selected_samples, SelectedIndexes::FromC(list) if list == &samples[..]));
    assert!(matches!(options.selected_features, SelectedIndexes::FromC(list) if list == &features[..]));
}

#[test]
fn no_system_is_a_success_that_changes_nothing() {
    let mut calculator =
        Calculator::new("sorted_distances", "{\"cutoff\": 1.5, \"max_neighbors\": 2}".to_owned()).unwrap();
    let mut system = SimpleSystem::new(vec![1, 8]);
    let pairs = vec![Pair { first: 0, second: 1, distance: 1.0_f64.to_bits() }];
    system.set_neighbors(1.5_f64.to_bits(), pairs).unwrap();

    let mut descriptor = Descriptor::new();
    let all = FlatOptions { use_native_system: false, selected_samples: None, selected_features: None };
    calculator_compute(&mut calculator, &mut descriptor, &[system], all).unwrap();
    assert_eq!(descriptor.shape(), (2, 2));
    let before: Vec<Vec<u64>> = (0..2).map(|i| descriptor.row(i)).collect();

    // a selection that would fail with systems is not even looked at
    let samples = vec![IndexValue::from(0_usize); 3];
    let flat = FlatOptions {
        use_native_system: false,
        selected_samples: Some(&samples),
        selected_features: None,
    };
    calculator_compute(&mut calculator, &mut descriptor, &[], flat).unwrap();
    assert_eq!(descriptor.shape(), (2, 2));
    let after: Vec<Vec<u64>> = (0..2).map(|i| descriptor.row(i)).collect();
    assert_eq!(after, before);
    assert_eq!(descriptor.environments().count(), 2);
    assert_eq!(descriptor.features().count(), 2);
}
