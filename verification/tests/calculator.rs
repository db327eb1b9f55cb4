use rascaline::calculators::sorted_distances::SortedDistances;
use rascaline::calculators::{CalculatorBase, Implementation};
use rascaline::descriptor::IndexValue;
use rascaline::system::Pair;
use rascaline::{CalculationOptions, Calculator, Descriptor, Error, SelectedIndexes, SimpleSystem};

fn message(error: Error) -> String {
    error.to_string()
}

fn pair_system() -> SimpleSystem {
    let mut system = SimpleSystem::new(vec![1, 8]);
    let pairs = vec![Pair { first: 0, second: 1, distance: 1.0_f64.to_bits() }];
    system.set_neighbors(1.5_f64.to_bits(), pairs).unwrap();
    system
}

fn unsigned(values: &[usize]) -> Vec<IndexValue> {
    values.iter().map(|&value| IndexValue::from(value)).collect()
}

#[test]
fn unknown_calculator_name_fails() {
    let error = Calculator::new("sorted distances", "{}".to_owned()).unwrap_err();
    assert!(matches!(error, Error::InvalidParameter(_)));
    assert_eq!(message(error), "unknown calculator with name 'sorted distances'");

    let error = Calculator::new("", "{\"cutoff\": 1.5, \"max_neighbors\": 3}".to_owned()).unwrap_err();
    assert_eq!(message(error), "unknown calculator with name ''");
}

#[test]
fn parameters_are_kept_as_they_were_given() {
    let parameters = "{ \"max_neighbors\": 3,\n  \"cutoff\": 1.5 }";
    let calculator = Calculator::new("sorted_distances", parameters.to_owned()).unwrap();
    assert_eq!(calculator.parameters(), parameters);
    assert_eq!(calculator.name(), "sorted distances vector");

    let Implementation::SortedDistances(sorted) = calculator.implementation();
    assert_eq!(f64::from_bits(sorted.cutoff()), 1.5);
    assert_eq!(sorted.max_neighbors(), 3);
    assert_eq!(sorted.get_parameters(), "{\"cutoff\":1.5,\"max_neighbors\":3}");
}

#[test]
fn canonical_parameters_give_the_same_calculator_again() {
    let first = SortedDistances::from_json("{\"max_neighbors\": 12, \"cutoff\": 0.1}").unwrap();
    let canonical = Calculator::from(Implementation::SortedDistances(first));
    assert_eq!(canonical.parameters(), "{\"cutoff\":0.1,\"max_neighbors\":12}");

    let again = Calculator::new("sorted_distances", canonical.parameters().to_owned()).unwrap();
    assert_eq!(again.parameters(), canonical.parameters());
    let Implementation::SortedDistances(sorted) = again.implementation();
    assert_eq!(sorted.cutoff(), 0.1_f64.to_bits());
    assert_eq!(sorted.max_neighbors(), 12);
    assert_eq!(sorted.get_parameters(), canonical.parameters());
}

#[test]
fn an_integer_cutoff_is_a_real_number() {
    let sorted = SortedDistances::from_json("{\"cutoff\": 2, \"max_neighbors\": 0}").unwrap();
    assert_eq!(sorted.cutoff(), 2.0_f64.to_bits());
    assert_eq!(sorted.max_neighbors(), 0);
    assert_eq!(sorted.get_parameters(), "{\"cutoff\":2.0,\"max_neighbors\":0}");
}

#[test]
fn malformed_parameters_fail() {
    let error = Calculator::new("sorted_distances", "{\"cutoff\": 1.5,".to_owned()).unwrap_err();
    assert!(matches!(error, Error::Json(_)));
    assert!(!message(error).is_empty());

    let error = Calculator::new("sorted_distances", "{\"max_neighbors\": 3}".to_owned()).unwrap_err();
    assert!(matches!(error, Error::Json(_)));
    assert_eq!(message(error), "missing field `cutoff`, or not a number");

    let error = Calculator::new("sorted_distances", "{\"cutoff\": \"far\", \"max_neighbors\": 3}".to_owned())
        .unwrap_err();
    assert_eq!(message(error), "missing field `cutoff`, or not a number");

    let error = Calculator::new("sorted_distances", "{\"cutoff\": 1.5}".to_owned()).unwrap_err();
    assert_eq!(message(error), "missing field `max_neighbors`, or not an unsigned integer");

    let error = SortedDistances::from_json("{\"cutoff\": 1.5, \"max_neighbors\": -3}").unwrap_err();
    assert_eq!(message(error), "missing field `max_neighbors`, or not an unsigned integer");

    let error = SortedDistances::from_json("{\"cutoff\": 1.5, \"max_neighbors\": 3.5}").unwrap_err();
    assert_eq!(message(error), "missing field `max_neighbors`, or not an unsigned integer");

    let error = SortedDistances::from_json("[1.5, 3]").unwrap_err();
    assert_eq!(message(error), "missing field `cutoff`, or not a number");
}

#[test]
fn members_give_the_calculator_or_the_first_lack() {
    let sorted = SortedDistances::from_members(Some((1.5_f64.to_bits(), "1.5".to_owned())), Some(7)).unwrap();
    assert_eq!(sorted.cutoff(), 1.5_f64.to_bits());
    assert_eq!(sorted.max_neighbors(), 7);

    let error = SortedDistances::from_members(None, None).unwrap_err();
    assert_eq!(message(error), "missing field `cutoff`, or not a number");
    let error = SortedDistances::from_members(Some((0, "0.0".to_owned())), None).unwrap_err();
    assert_eq!(message(error), "missing field `max_neighbors`, or not an unsigned integer");
}

#[test]
fn default_options_select_everything() {
    let options = CalculationOptions::default();
    assert!(!options.use_native_system);
    assert!(matches!(options.selected_samples, SelectedIndexes::All));
    assert!(matches!(options.selected_features, SelectedIndexes::All));
}

#[test]
fn flat_features_are_cut_into_tuples() {
    let calculator = Calculator::new("sorted_distances", "{\"cutoff\": 1.5, \"max_neighbors\": 4}".to_owned())
        .unwrap();
    let flat = unsigned(&[3, 0, 1]);
    let features = SelectedIndexes::FromC(&flat).into_features(calculator.implementation()).unwrap();
    assert_eq!(features.names(), &["neighbor"]);
    assert_eq!(features.count(), 3);
    assert_eq!(features.size(), 1);
    assert_eq!(features.get(0), &unsigned(&[3])[..]);
    assert_eq!(features.get(1), &unsigned(&[0])[..]);
    assert_eq!(features.get(2), &unsigned(&[1])[..]);

    let none: Vec<IndexValue> = Vec::new();
    let features = SelectedIndexes::FromC(&none).into_features(calculator.implementation()).unwrap();
    assert_eq!(features.count(), 0);

    let features = SelectedIndexes::All.into_features(calculator.implementation()).unwrap();
    assert_eq!(features.count(), 4);
    for i in 0..4 {
        assert_eq!(features.get(i), &unsigned(&[i])[..]);
    }
}

#[test]
fn flat_samples_need_whole_tuples() {
    let calculator = Calculator::new("sorted_distances", "{\"cutoff\": 1.5, \"max_neighbors\": 2}".to_owned())
        .unwrap();
    let systems = vec![pair_system()];

    let flat = unsigned(&[0, 1, 8, 1, 0, 0, 1, 8]);
    let samples = SelectedIndexes::FromC(&flat)
        .into_samples(calculator.implementation(), &systems)
        .unwrap();
    assert_eq!(samples.names(), &["structure", "center", "species_center", "species_neighbor"]);
    assert_eq!(samples.count(), 2);
    assert_eq!(samples.get(0), &unsigned(&[0, 1, 8, 1])[..]);
    assert_eq!(samples.get(1), &unsigned(&[0, 0, 1, 8])[..]);

    for length in [1, 2, 3, 5, 6, 7, 9, 13] {
        let flat = unsigned(&vec![0; length]);
        let error = SelectedIndexes::FromC(&flat)
            .into_samples(calculator.implementation(), &systems)
            .unwrap_err();
        assert!(matches!(error, Error::InvalidParameter(_)));
        assert_eq!(
            message(error),
            format!("wrong size for partial samples list, expected a multiple of 4, got {}", length)
        );
    }
}

#[test]
fn a_failed_selection_leaves_the_descriptor_as_it_was() {
    let mut calculator =
        Calculator::new("sorted_distances", "{\"cutoff\": 1.5, \"max_neighbors\": 2}".to_owned()).unwrap();
    let systems = vec![pair_system()];
    let mut descriptor = Descriptor::new();
    calculator.compute(&systems, &mut descriptor, Default::default()).unwrap();
    assert_eq!(descriptor.shape(), (2, 2));
    let before: Vec<Vec<u64>> = (0..2).map(|i| descriptor.row(i)).collect();

    let flat = unsigned(&[0, 1, 8]);
    let options = CalculationOptions {
        selected_samples: SelectedIndexes::FromC(&flat),
        ..Default::default()
    };
    assert!(calculator.check(&systems, &options));
    let error = calculator.compute(&systems, &mut descriptor, options).unwrap_err();
    assert_eq!(message(error), "wrong size for partial samples list, expected a multiple of 4, got 3");
    assert_eq!(descriptor.shape(), (2, 2));
    let after: Vec<Vec<u64>> = (0..2).map(|i| descriptor.row(i)).collect();
    assert_eq!(after, before);
}

#[test]
fn flat_selections_run_the_calculation() {
    let mut calculator =
        Calculator::new("sorted_distances", "{\"cutoff\": 1.5, \"max_neighbors\": 2}".to_owned()).unwrap();
    let systems = vec![pair_system()];
    let mut descriptor = Descriptor::new();

    let samples = unsigned(&[0, 1, 8, 1]);
    let features = unsigned(&[1]);
    let options = CalculationOptions {
        use_native_system: false,
        selected_samples: SelectedIndexes::FromC(&samples),
        selected_features: SelectedIndexes::FromC(&features),
    };
    assert!(calculator.check(&systems, &options));
    calculator.compute(&systems, &mut descriptor, options).unwrap();
    assert_eq!(descriptor.shape(), (1, 1));
    assert_eq!(f64::from_bits(descriptor.value(0, 0)), 1.5);
}

#[test]
fn the_contract_of_sorted_distances() {
    let sorted = SortedDistances::from_json("{\"cutoff\": 1.5, \"max_neighbors\": 2}").unwrap();
    assert_eq!(sorted.name(), "sorted distances vector");
    assert_eq!(sorted.features_names(), vec!["neighbor"]);
    assert!(!sorted.compute_gradients());
    assert_eq!(sorted.environments().cutoff, 1.5_f64.to_bits());

    let features = sorted.features();
    assert!(sorted.check_features(&features));
    let systems = vec![pair_system()];
    let samples = SelectedIndexes::All.into_samples(&sorted, &systems).unwrap();
    assert!(sorted.check_environments(&samples, &systems));
    assert_eq!(samples.count(), 2);
}

#[test]
fn native_systems_are_copies() {
    let systems = vec![pair_system(), SimpleSystem::new(vec![3, 4, 5])];
    let native = rascaline::calculator::to_native_systems(&systems);
    assert_eq!(native.len(), 2);
    for (copy, system) in native.iter().zip(&systems) {
        assert_eq!(copy.size(), system.size());
        assert_eq!(copy.species(), system.species());
        assert_eq!(copy.pairs(), system.pairs());
        assert_eq!(copy.cutoff(), system.cutoff());
    }
}
