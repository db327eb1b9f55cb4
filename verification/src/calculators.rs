//! The contract that every calculator fulfils, and the calculators that the
//! library provides.

use vstd::prelude::*;
use crate::descriptor::Descriptor;
use crate::calculators::sorted_distances::SortedDistances;
use crate::environments::{AtomSpeciesEnvironment, EnvironmentIndexes};
use crate::indexes::{name_texts, IndexValue, Indexes, IndexesView};
use crate::system::{system_views, SimpleSystem, SystemView};

pub mod sorted_distances;

verus! {

/// The values that a calculator gives for the rows `samples` and the columns
/// `features`: each row by itself, from its own sample.
pub open spec fn expected_values<C: CalculatorBase>(
    calculator: &C,
    systems: Seq<SystemView>,
    samples: IndexesView,
    features: IndexesView,
) -> Seq<Seq<u64>> {
    Seq::new(samples.count(), |row: int| calculator.row_values(systems, samples.rows[row], features))
}

/// What every calculator declares and does: its name and parameters, its
/// full feature and sample spaces, the selections it accepts, and the
/// calculation itself.
pub trait CalculatorBase: Sized {
    /// The kind of environment that defines the samples.
    type Environments: EnvironmentIndexes;

    /// The name of the calculator.
    spec fn name_spec(&self) -> Seq<char>;

    /// The canonical text of the parameters.
    spec fn parameters_spec(&self) -> Seq<char>;

    /// The full feature space.
    spec fn features_spec(&self) -> IndexesView;

    /// The definition of the sample space.
    spec fn environments_spec(&self) -> Self::Environments;

    /// Whether the calculator fills gradients.
    spec fn gradients_spec(&self) -> bool;

    /// Whether the calculator can fill the columns `features`.
    spec fn valid_features(&self, features: IndexesView) -> bool;

    /// Whether the calculator can fill the rows `samples` for the systems.
    spec fn valid_environments(&self, samples: IndexesView, systems: Seq<SystemView>) -> bool;

    /// The values of the row of `sample`, for the columns `features`.
    spec fn row_values(
        &self,
        systems: Seq<SystemView>,
        sample: Seq<IndexValue>,
        features: IndexesView,
    ) -> Seq<u64>;

    /// The calculator can fill its full sample space.
    proof fn lemma_full_samples_valid(&self, systems: Seq<SystemView>)
        requires
            systems.len() <= usize::MAX,
            self.environments_spec().accepts(systems),
        ensures
            self.valid_environments(self.environments_spec().indexes_spec(systems), systems),
    ;

    /// The name of the calculator.
    fn name(&self) -> (name: String)
        ensures
            name@ == self.name_spec(),
    ;

    /// The canonical text of the parameters.
    fn get_parameters(&self) -> (parameters: String)
        ensures
            parameters@ == self.parameters_spec(),
    ;

    /// The names of the columns of the feature space: at least one.
    fn features_names(&self) -> (names: Vec<&'static str>)
        ensures
            name_texts(names@) == self.features_spec().names,
            names@.len() > 0,
    ;

    /// The full feature space, which the calculator can fill.
    fn features(&self) -> (features: Indexes)
        ensures
            features@ == self.features_spec(),
            features.wf(),
            self.valid_features(features@),
    ;

    /// The definition of the sample space. It has gradients where the
    /// calculator fills gradients.
    fn environments(&self) -> (environments: Self::Environments)
        ensures
            environments == self.environments_spec(),
            self.gradients_spec() ==> environments.has_gradients(),
    ;

    /// Whether the calculator fills gradients.
    fn compute_gradients(&self) -> (gradients: bool)
        ensures
            gradients == self.gradients_spec(),
    ;

    /// Whether the calculator can fill the columns `indexes`.
    fn check_features(&self, indexes: &Indexes) -> (valid: bool)
        ensures
            valid == self.valid_features(indexes@),
    ;

    /// Whether the calculator can fill the rows `indexes` for the systems.
    fn check_environments(&self, indexes: &Indexes, systems: &[SimpleSystem]) -> (valid: bool)
        requires
            self.environments_spec().accepts(system_views(systems@)),
        ensures
            valid == self.valid_environments(indexes@, system_views(systems@)),
    ;

    /// Fills the values of `descriptor`, for the rows and columns that it
    /// was prepared with: each row holds the values of its sample. The
    /// index spaces stay as they are, and so does the calculator.
    fn compute(&mut self, systems: &[SimpleSystem], descriptor: &mut Descriptor)
        requires
            old(self).environments_spec().accepts(system_views(systems@)),
            old(self).valid_features(old(descriptor)@.features),
            old(self).valid_environments(old(descriptor)@.environments, system_views(systems@)),
        ensures
            *final(self) == *old(self),
            final(descriptor).wf(),
            final(descriptor)@.features == old(descriptor)@.features,
            final(descriptor)@.environments == old(descriptor)@.environments,
            final(descriptor)@.gradients_samples == old(descriptor)@.gradients_samples,
            final(descriptor)@.values.len() == old(descriptor)@.environments.count(),
            forall|row: int|
                0 <= row < old(descriptor)@.environments.count() ==> (
                #[trigger] final(descriptor)@.values[row]) == old(self).row_values(
                    system_views(systems@),
                    old(descriptor)@.environments.rows[row],
                    old(descriptor)@.features,
                ),
            !old(self).gradients_spec() ==> final(descriptor)@.gradients == old(descriptor)@.gradients,
    ;
}

/// One of the calculators that the library provides.
#[derive(Debug)]
pub enum Implementation {
    /// The sorted distances calculator.
    SortedDistances(SortedDistances),
}

impl CalculatorBase for Implementation {
    type Environments = AtomSpeciesEnvironment;

    open spec fn name_spec(&self) -> Seq<char> {
        match self {
            Implementation::SortedDistances(calculator) => calculator.name_spec(),
        }
    }

    open spec fn parameters_spec(&self) -> Seq<char> {
        match self {
            Implementation::SortedDistances(calculator) => calculator.parameters_spec(),
        }
    }

    open spec fn features_spec(&self) -> IndexesView {
        match self {
            Implementation::SortedDistances(calculator) => calculator.features_spec(),
        }
    }

    open spec fn environments_spec(&self) -> AtomSpeciesEnvironment {
        match self {
            Implementation::SortedDistances(calculator) => calculator.environments_spec(),
        }
    }

    open spec fn gradients_spec(&self) -> bool {
        match self {
            Implementation::SortedDistances(calculator) => calculator.gradients_spec(),
        }
    }

    open spec fn valid_features(&self, features: IndexesView) -> bool {
        match self {
            Implementation::SortedDistances(calculator) => calculator.valid_features(features),
        }
    }

    open spec fn valid_environments(&self, samples: IndexesView, systems: Seq<SystemView>) -> bool {
        match self {
            Implementation::SortedDistances(calculator) => calculator.valid_environments(
                samples,
                systems,
            ),
        }
    }

    open spec fn row_values(
        &self,
        systems: Seq<SystemView>,
        sample: Seq<IndexValue>,
        features: IndexesView,
    ) -> Seq<u64> {
        match self {
            Implementation::SortedDistances(calculator) => calculator.row_values(
                systems,
                sample,
                features,
            ),
        }
    }

    proof fn lemma_full_samples_valid(&self, systems: Seq<SystemView>) {
        match self {
            Implementation::SortedDistances(calculator) => calculator.lemma_full_samples_valid(
                systems,
            ),
        }
    }

    fn name(&self) -> (name: String) {
        match self {
            Implementation::SortedDistances(calculator) => calculator.name(),
        }
    }

    fn get_parameters(&self) -> (parameters: String) {
        match self {
            Implementation::SortedDistances(calculator) => calculator.get_parameters(),
        }
    }

    fn features_names(&self) -> (names: Vec<&'static str>) {
        match self {
            Implementation::SortedDistances(calculator) => calculator.features_names(),
        }
    }

    fn features(&self) -> (features: Indexes) {
        match self {
            Implementation::SortedDistances(calculator) => calculator.features(),
        }
    }

    fn environments(&self) -> (environments: AtomSpeciesEnvironment) {
        match self {
            Implementation::SortedDistances(calculator) => calculator.environments(),
        }
    }

    fn compute_gradients(&self) -> (gradients: bool) {
        match self {
            Implementation::SortedDistances(calculator) => calculator.compute_gradients(),
        }
    }

    fn check_features(&self, indexes: &Indexes) -> (valid: bool) {
        match self {
            Implementation::SortedDistances(calculator) => calculator.check_features(indexes),
        }
    }

    fn check_environments(&self, indexes: &Indexes, systems: &[SimpleSystem]) -> (valid: bool) {
        match self {
            Implementation::SortedDistances(calculator) => calculator.check_environments(
                indexes,
                systems,
            ),
        }
    }

    fn compute(&mut self, systems: &[SimpleSystem], descriptor: &mut Descriptor) {
        match self {
            Implementation::SortedDistances(calculator) => {
                calculator.compute(systems, descriptor);
            },
        }
    }
}

} // verus!
