use rascaline::calculators::sorted_distances::SortedDistances;
use rascaline::calculators::Implementation;
use rascaline::descriptor::{IndexValue, IndexesBuilder};
use rascaline::system::Pair;
use rascaline::{CalculationOptions, Calculator, Descriptor, SelectedIndexes, SimpleSystem};

/// A system with the given species and positions, and the pairs of atoms
/// closer to each other than `cutoff`.
fn system(species: Vec<usize>, positions: &[[f64; 3]], cutoff: f64) -> SimpleSystem {
    let mut pairs = Vec::new();
    for first in 0..positions.len() {
        for second in (first + 1)..positions.len() {
            let mut squared = 0.0;
            for axis in 0..3 {
                let delta = positions[second][axis] - positions[first][axis];
                squared += delta * delta;
            }
            let distance = squared.sqrt();
            if distance < cutoff {
                pairs.push(Pair { first, second, distance: distance.to_bits() });
            }
        }
    }
    let mut system = SimpleSystem::new(species);
    system.set_neighbors(cutoff.to_bits(), pairs).unwrap();
    system
}

fn water(cutoff: f64) -> SimpleSystem {
    system(
        vec![123456, 1, 1],
        &[[0.0, 0.0, 0.0], [0.0, 0.75545, -0.58895], [0.0, -0.75545, -0.58895]],
        cutoff,
    )
}

fn sorted_distances() -> Calculator {
    let parameters = "{\"cutoff\": 1.5, \"max_neighbors\": 3}";
    Calculator::from(Implementation::SortedDistances(SortedDistances::from_json(parameters).unwrap()))
}

fn shape(descriptor: &Descriptor) -> [usize; 2] {
    let (rows, columns) = descriptor.shape();
    [rows, columns]
}

fn row(descriptor: &Descriptor, i: usize) -> Vec<f64> {
    descriptor.row(i).into_iter().map(f64::from_bits).collect()
}

#[test]
fn name_and_parameters() {
    let calculator = sorted_distances();

    assert_eq!(calculator.name(), "sorted distances vector");
    assert_eq!(calculator.parameters(), "{\"cutoff\":1.5,\"max_neighbors\":3}");
}

#[test]
fn values() {
    let mut calculator = sorted_distances();

    let systems = vec![water(1.5)];
    let mut descriptor = Descriptor::new();
    assert!(calculator.check(&systems, &Default::default()));
    calculator.compute(&systems, &mut descriptor, Default::default()).unwrap();

    assert_eq!(shape(&descriptor), [3, 3]);

    assert_eq!(row(&descriptor, 0), vec![0.957897074324794, 0.957897074324794, 1.5]);
    assert_eq!(row(&descriptor, 1), vec![0.957897074324794, 1.5, 1.5]);
    assert_eq!(row(&descriptor, 2), vec![0.957897074324794, 1.5, 1.5]);
}

#[test]
fn compute_partial() {
    let mut calculator = sorted_distances();

    let systems = vec![water(1.5)];
    let mut descriptor = Descriptor::new();

    let mut samples =
        IndexesBuilder::new(vec!["structure", "center", "species_center", "species_neighbor"]);
    samples.add(&[
        IndexValue::from(0_usize),
        IndexValue::from(1_usize),
        IndexValue::from(1_usize),
        IndexValue::from(123456_usize),
    ]);
    let options = CalculationOptions {
        selected_samples: SelectedIndexes::Subset(samples.finish()),
        selected_features: SelectedIndexes::All,
        ..Default::default()
    };
    assert!(calculator.check(&systems, &options));
    calculator.compute(&systems, &mut descriptor, options).unwrap();

    assert_eq!(shape(&descriptor), [1, 3]);
    assert_eq!(row(&descriptor, 0), vec![0.957897074324794, 1.5, 1.5]);

    let mut features = IndexesBuilder::new(vec!["neighbor"]);
    features.add(&[IndexValue::from(0_usize)]);
    features.add(&[IndexValue::from(2_usize)]);

    let options = CalculationOptions {
        selected_samples: SelectedIndexes::All,
        selected_features: SelectedIndexes::Subset(features.finish()),
        ..Default::default()
    };
    assert!(calculator.check(&systems, &options));
    calculator.compute(&systems, &mut descriptor, options).unwrap();

    assert_eq!(shape(&descriptor), [3, 2]);
    assert_eq!(row(&descriptor, 0), vec![0.957897074324794, 1.5]);
    assert_eq!(row(&descriptor, 1), vec![0.957897074324794, 1.5]);
    assert_eq!(row(&descriptor, 2), vec![0.957897074324794, 1.5]);
}

/// Two systems: water, and a chain of three atoms of the same species.
fn two_systems(cutoff: f64) -> Vec<SimpleSystem> {
    let chain = system(
        vec![6, 6, 6],
        &[[0.0, 0.0, 0.0], [1.0, 0.0, 0.0], [2.25, 0.0, 0.0]],
        cutoff,
    );
    vec![water(cutoff), chain]
}

fn all_rows(descriptor: &Descriptor) -> Vec<Vec<f64>> {
    (0..descriptor.shape().0).map(|i| row(descriptor, i)).collect()
}

fn sample(values: [usize; 4]) -> Vec<IndexValue> {
    values.iter().map(|&value| IndexValue::from(value)).collect()
}

#[test]
fn rows_are_sorted_and_filled_with_the_cutoff() {
    let mut calculator = sorted_distances();
    let systems = two_systems(1.5);
    let mut descriptor = Descriptor::new();
    assert!(calculator.check(&systems, &Default::default()));
    calculator.compute(&systems, &mut descriptor, Default::default()).unwrap();

    // water: O with its two H, each H with O; chain: three atoms of species 6
    assert_eq!(shape(&descriptor), [6, 3]);
    let rows = all_rows(&descriptor);
    for values in &rows {
        assert!(values.windows(2).all(|pair| pair[0] <= pair[1]));
        assert!(values.iter().all(|&value| value <= 1.5));
    }
    assert_eq!(rows[3], vec![1.0, 1.5, 1.5]);
    assert_eq!(rows[4], vec![1.0, 1.25, 1.5]);
    assert_eq!(rows[5], vec![1.25, 1.5, 1.5]);
}

#[test]
fn more_neighbors_than_slots_keeps_the_closest() {
    let parameters = "{\"cutoff\": 3.0, \"max_neighbors\": 1}";
    let mut calculator =
        Calculator::from(Implementation::SortedDistances(SortedDistances::from_json(parameters).unwrap()));
    let systems = vec![system(
        vec![6, 6, 6],
        &[[0.0, 0.0, 0.0], [2.0, 0.0, 0.0], [-1.0, 0.0, 0.0]],
        3.0,
    )];
    let mut descriptor = Descriptor::new();
    assert!(calculator.check(&systems, &Default::default()));
    calculator.compute(&systems, &mut descriptor, Default::default()).unwrap();

    assert_eq!(shape(&descriptor), [3, 1]);
    assert_eq!(all_rows(&descriptor), vec![vec![1.0], vec![2.0], vec![1.0]]);
}

#[test]
fn samples_of_all_systems_come_in_order() {
    let calculator = sorted_distances();
    let systems = two_systems(1.5);
    let mut descriptor = Descriptor::new();
    let mut calculator = calculator;
    calculator.compute(&systems, &mut descriptor, Default::default()).unwrap();

    let samples = descriptor.environments();
    assert_eq!(samples.names(), &["structure", "center", "species_center", "species_neighbor"]);
    let expected = [
        [0, 0, 123456, 1],
        [0, 1, 1, 123456],
        [0, 2, 1, 123456],
        [1, 0, 6, 6],
        [1, 1, 6, 6],
        [1, 2, 6, 6],
    ];
    assert_eq!(samples.count(), expected.len());
    for (i, values) in expected.iter().enumerate() {
        assert_eq!(samples.get(i), &sample(*values)[..]);
    }
    assert_eq!(descriptor.features().names(), &["neighbor"]);
    assert_eq!(descriptor.features().count(), 3);
    assert_eq!(descriptor.gradients_shape(), None);
}

#[test]
fn one_sample_gives_its_row_of_the_full_calculation() {
    let mut calculator = sorted_distances();
    let systems = two_systems(1.5);

    let mut full = Descriptor::new();
    calculator.compute(&systems, &mut full, Default::default()).unwrap();

    for position in 0..full.shape().0 {
        let mut samples =
            IndexesBuilder::new(vec!["structure", "center", "species_center", "species_neighbor"]);
        samples.add(full.environments().get(position));
        let options = CalculationOptions {
            selected_samples: SelectedIndexes::Subset(samples.finish()),
            ..Default::default()
        };
        let mut descriptor = Descriptor::new();
        assert!(calculator.check(&systems, &options));
        calculator.compute(&systems, &mut descriptor, options).unwrap();

        assert_eq!(shape(&descriptor), [1, 3]);
        assert_eq!(row(&descriptor, 0), row(&full, position));
    }
}

#[test]
fn selected_features_give_their_columns_of_the_full_calculation() {
    let mut calculator = sorted_distances();
    let systems = two_systems(1.5);

    let mut full = Descriptor::new();
    calculator.compute(&systems, &mut full, Default::default()).unwrap();

    let mut features = IndexesBuilder::new(vec!["neighbor"]);
    features.add(&[IndexValue::from(2_usize)]);
    features.add(&[IndexValue::from(0_usize)]);
    let options = CalculationOptions {
        selected_features: SelectedIndexes::Subset(features.finish()),
        ..Default::default()
    };
    let mut descriptor = Descriptor::new();
    assert!(calculator.check(&systems, &options));
    calculator.compute(&systems, &mut descriptor, options).unwrap();

    assert_eq!(shape(&descriptor), [6, 2]);
    for i in 0..6 {
        let expected = row(&full, i);
        assert_eq!(row(&descriptor, i), vec![expected[2], expected[0]]);
    }
}

#[test]
fn as_many_features_as_the_full_space_are_still_taken_by_their_slot() {
    let mut calculator = sorted_distances();
    let systems = vec![water(1.5)];

    // every column, in reversed order
    let mut features = IndexesBuilder::new(vec!["neighbor"]);
    features.add(&[IndexValue::from(2_usize)]);
    features.add(&[IndexValue::from(1_usize)]);
    features.add(&[IndexValue::from(0_usize)]);
    let options = CalculationOptions {
        selected_features: SelectedIndexes::Subset(features.finish()),
        ..Default::default()
    };
    let mut descriptor = Descriptor::new();
    assert!(calculator.check(&systems, &options));
    calculator.compute(&systems, &mut descriptor, options).unwrap();

    assert_eq!(shape(&descriptor), [3, 3]);
    assert_eq!(row(&descriptor, 0), vec![1.5, 0.957897074324794, 0.957897074324794]);
    assert_eq!(row(&descriptor, 1), vec![1.5, 1.5, 0.957897074324794]);
    assert_eq!(row(&descriptor, 2), vec![1.5, 1.5, 0.957897074324794]);

    // one column twice
    let mut features = IndexesBuilder::new(vec!["neighbor"]);
    features.add(&[IndexValue::from(0_usize)]);
    features.add(&[IndexValue::from(0_usize)]);
    features.add(&[IndexValue::from(1_usize)]);
    let options = CalculationOptions {
        selected_features: SelectedIndexes::Subset(features.finish()),
        ..Default::default()
    };
    assert!(calculator.check(&systems, &options));
    calculator.compute(&systems, &mut descriptor, options).unwrap();

    assert_eq!(shape(&descriptor), [3, 3]);
    assert_eq!(row(&descriptor, 0), vec![0.957897074324794, 0.957897074324794, 0.957897074324794]);
    assert_eq!(row(&descriptor, 1), vec![0.957897074324794, 0.957897074324794, 1.5]);

    // every column at its own place, given one by one
    let mut features = IndexesBuilder::new(vec!["neighbor"]);
    features.add(&[IndexValue::from(0_usize)]);
    features.add(&[IndexValue::from(1_usize)]);
    features.add(&[IndexValue::from(2_usize)]);
    let options = CalculationOptions {
        selected_features: SelectedIndexes::Subset(features.finish()),
        ..Default::default()
    };
    assert!(calculator.check(&systems, &options));
    calculator.compute(&systems, &mut descriptor, options).unwrap();

    assert_eq!(row(&descriptor, 0), vec![0.957897074324794, 0.957897074324794, 1.5]);
    assert_eq!(row(&descriptor, 1), vec![0.957897074324794, 1.5, 1.5]);
    assert_eq!(row(&descriptor, 2), vec![0.957897074324794, 1.5, 1.5]);
}

#[test]
fn a_negative_cutoff_has_no_neighbors() {
    let parameters = "{\"cutoff\": -1.0, \"max_neighbors\": 2}";
    let mut calculator =
        Calculator::from(Implementation::SortedDistances(SortedDistances::from_json(parameters).unwrap()));
    assert_eq!(calculator.parameters(), "{\"cutoff\":-1.0,\"max_neighbors\":2}");

    // no distance is below a negative cutoff
    let mut near = SimpleSystem::new(vec![1, 1]);
    let pairs = vec![Pair { first: 0, second: 1, distance: 0.5_f64.to_bits() }];
    assert!(near.set_neighbors((-1.0_f64).to_bits(), pairs).is_err());
    let pairs = vec![Pair { first: 0, second: 1, distance: 0.0_f64.to_bits() }];
    assert!(near.set_neighbors((-1.0_f64).to_bits(), pairs).is_err());
    near.set_neighbors((-1.0_f64).to_bits(), Vec::new()).unwrap();

    let systems = vec![near];
    let mut descriptor = Descriptor::new();
    assert!(calculator.check(&systems, &Default::default()));
    calculator.compute(&systems, &mut descriptor, Default::default()).unwrap();
    assert_eq!(shape(&descriptor), [0, 2]);
}

#[test]
fn a_distance_is_not_negative() {
    let mut system = SimpleSystem::new(vec![1, 1]);
    let pairs = vec![Pair { first: 0, second: 1, distance: (-0.5_f64).to_bits() }];
    assert!(system.set_neighbors(1.5_f64.to_bits(), pairs).is_err());
    let pairs = vec![Pair { first: 0, second: 1, distance: (-0.0_f64).to_bits() }];
    assert!(system.set_neighbors(1.5_f64.to_bits(), pairs).is_err());
    let pairs = vec![Pair { first: 0, second: 1, distance: 1.5_f64.to_bits() }];
    system.set_neighbors(1.5_f64.to_bits(), pairs).unwrap();
    let pairs = vec![Pair { first: 0, second: 1, distance: 1.5000001_f64.to_bits() }];
    assert!(system.set_neighbors(1.5_f64.to_bits(), pairs).is_err());
    assert_eq!(system.pairs().len(), 1);
}

#[test]
fn native_systems_give_the_same_values() {
    let mut calculator = sorted_distances();
    let systems = two_systems(1.5);

    let mut plain = Descriptor::new();
    calculator.compute(&systems, &mut plain, Default::default()).unwrap();

    let options = CalculationOptions { use_native_system: true, ..Default::default() };
    let mut native = Descriptor::new();
    assert!(calculator.check(&systems, &options));
    calculator.compute(&systems, &mut native, options).unwrap();

    assert_eq!(shape(&native), shape(&plain));
    assert_eq!(all_rows(&native), all_rows(&plain));
}

#[test]
fn a_calculation_overwrites_the_descriptor() {
    let mut calculator = sorted_distances();
    let mut descriptor = Descriptor::new();

    calculator.compute(&two_systems(1.5), &mut descriptor, Default::default()).unwrap();
    assert_eq!(shape(&descriptor), [6, 3]);

    calculator.compute(&[water(1.5)], &mut descriptor, Default::default()).unwrap();
    assert_eq!(shape(&descriptor), [3, 3]);
    assert_eq!(row(&descriptor, 0), vec![0.957897074324794, 0.957897074324794, 1.5]);
}

#[test]
fn selections_that_the_calculator_cannot_fill_are_refused() {
    let calculator = sorted_distances();
    let systems = two_systems(1.5);
    let names = vec!["structure", "center", "species_center", "species_neighbor"];

    // a feature beyond the number of neighbors
    let mut features = IndexesBuilder::new(vec!["neighbor"]);
    features.add(&[IndexValue::from(3_usize)]);
    let options = CalculationOptions {
        selected_features: SelectedIndexes::Subset(features.finish()),
        ..Default::default()
    };
    assert!(!calculator.check(&systems, &options));

    // features under another name
    let mut features = IndexesBuilder::new(vec!["n"]);
    features.add(&[IndexValue::from(0_usize)]);
    let options = CalculationOptions {
        selected_features: SelectedIndexes::Subset(features.finish()),
        ..Default::default()
    };
    assert!(!calculator.check(&systems, &options));

    // a feature that is no unsigned integer
    let mut features = IndexesBuilder::new(vec!["neighbor"]);
    features.add(&[IndexValue::Real(1.0_f64.to_bits())]);
    let options = CalculationOptions {
        selected_features: SelectedIndexes::Subset(features.finish()),
        ..Default::default()
    };
    assert!(!calculator.check(&systems, &options));

    // a sample that is none of the systems: oxygen has no oxygen neighbor
    let mut samples = IndexesBuilder::new(names.clone());
    samples.add(&sample([0, 0, 123456, 123456]));
    let options = CalculationOptions {
        selected_samples: SelectedIndexes::Subset(samples.finish()),
        ..Default::default()
    };
    assert!(!calculator.check(&systems, &options));

    // samples that do not follow the order of the systems
    let mut samples = IndexesBuilder::new(names.clone());
    samples.add(&sample([1, 0, 6, 6]));
    samples.add(&sample([0, 0, 123456, 1]));
    let options = CalculationOptions {
        selected_samples: SelectedIndexes::Subset(samples.finish()),
        ..Default::default()
    };
    assert!(!calculator.check(&systems, &options));

    // the same samples in the order of the systems
    let mut samples = IndexesBuilder::new(names);
    samples.add(&sample([0, 0, 123456, 1]));
    samples.add(&sample([1, 0, 6, 6]));
    let options = CalculationOptions {
        selected_samples: SelectedIndexes::Subset(samples.finish()),
        ..Default::default()
    };
    assert!(calculator.check(&systems, &options));

    // systems searched with another cutoff
    assert!(!calculator.check(&two_systems(1.0), &Default::default()));
    // a system without any search
    assert!(!calculator.check(&[SimpleSystem::new(vec![1, 1])], &Default::default()));
}
