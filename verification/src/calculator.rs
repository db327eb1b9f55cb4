//! The orchestrator: a calculator with its parameters, the selections that a
//! caller can ask for, and the steps of a calculation.

use vstd::prelude::*;
use vstd::string::StringExecFns;
use crate::calculators::sorted_distances::{parameters_of_text, SortedDistances};
use crate::calculators::{expected_values, CalculatorBase, Implementation};
use crate::dense::{can_hold, fits_in_memory};
use crate::descriptor::{Descriptor, DescriptorView};
use crate::environments::EnvironmentIndexes;
use crate::errors::Error;
use crate::indexes::{name_texts, same_text, IndexValue, Indexes, IndexesBuilder, IndexesView};
use crate::system::{system_views, SimpleSystem, SystemView};
use crate::text::{decimal, decimal_text};

verus! {

/// The rows or columns on which a caller wants a calculation to run.
#[derive(Debug)]
pub enum SelectedIndexes<'a> {
    /// The full space of the calculator.
    All,
    /// The given index space, as it is.
    Subset(Indexes),
    /// The tuples that a flat list of values holds one after the other.
    FromC(&'a [IndexValue]),
}

/// The tuples of `size` values that a flat list holds one after the other.
pub open spec fn chunked(list: Seq<IndexValue>, size: nat) -> Seq<Seq<IndexValue>> {
    Seq::new((list.len() / size) as nat, |i: int| list.subrange(i * size, i * size + size))
}

/// The index space that a flat list stands for, with the given names.
pub open spec fn flat_indexes(names: Seq<Seq<char>>, list: Seq<IndexValue>) -> IndexesView {
    IndexesView { names, rows: chunked(list, names.len()) }
}

/// The message for a flat list of `got` values, where a multiple of
/// `expected` was asked for.
pub open spec fn wrong_size_message(what: Seq<char>, expected: nat, got: nat) -> Seq<char> {
    "wrong size for partial "@ + what + " list, expected a multiple of "@ + decimal(expected)
        + ", got "@ + decimal(got)
}

/// The message for the name of a calculator that the library does not have.
pub open spec fn unknown_calculator_message(name: Seq<char>) -> Seq<char> {
    "unknown calculator with name '"@ + name + "'"@
}

/// The index space that a flat list stands for, or the error for a list that
/// holds no whole number of tuples.
fn indexes_from_flat(list: &[IndexValue], names: Vec<&'static str>, what: &str) -> (result: Result<
    Indexes,
    Error,
>)
    requires
        names@.len() > 0,
    ensures
        list@.len() % names@.len() == 0 ==> (result matches Ok(indexes) && indexes@ == flat_indexes(
            name_texts(names@),
            list@,
        )),
        list@.len() % names@.len() != 0 ==> (result matches Err(Error::InvalidParameter(message))
            && message@ == wrong_size_message(what@, names@.len(), list@.len())),
{
    let ghost texts = name_texts(names@);
    let mut builder = IndexesBuilder::new(names);
    let size = builder.size();
    if list.len() % size != 0 {
        let mut message = "wrong size for partial ".to_owned();
        message.append(what);
        message.append(" list, expected a multiple of ");
        message.append(decimal_text(size).as_str());
        message.append(", got ");
        message.append(decimal_text(list.len()).as_str());
        return Err(Error::InvalidParameter(message));
    }
    let length = list.len();
    let count = length / size;
    assert(count * size == list@.len()) by (nonlinear_arith)
        requires
            size > 0,
            count == list@.len() / (size as nat),
            list@.len() % (size as nat) == 0,
    ;
    let mut i: usize = 0;
    assert(builder@.rows =~= chunked(list@, size as nat).take(0));
    while i < count
        invariant
            i <= count,
            size > 0,
            size == texts.len(),
            count * size == list@.len(),
            list@.len() == length,
            count == list@.len() / (size as nat),
            builder@.names == texts,
            builder@.rows == chunked(list@, size as nat).take(i as int),
        decreases count - i,
    {
        assert(0 <= i * size && i * size + size <= length) by (nonlinear_arith)
            requires
                0 <= i < count,
                count * size == length,
                size > 0,
        ;
        let start = i * size;
        let chunk = &list[start..start + size];
        builder.add(chunk);
        assert(chunked(list@, size as nat)[i as int] == chunk@);
        assert(builder@.rows =~= chunked(list@, size as nat).take(i + 1));
        i += 1;
    }
    assert(chunked(list@, size as nat).take(count as int) =~= chunked(list@, size as nat));
    Ok(builder.finish())
}

impl<'a> SelectedIndexes<'a> {
    /// The columns that this selection stands for with `calculator`, or the
    /// message of the error for a flat list of the wrong size.
    pub open spec fn features_of<C: CalculatorBase>(self, calculator: &C) -> Result<
        IndexesView,
        Seq<char>,
    > {
        let names = calculator.features_spec().names;
        match self {
            SelectedIndexes::All => Ok(calculator.features_spec()),
            SelectedIndexes::Subset(indexes) => Ok(indexes@),
            SelectedIndexes::FromC(list) => if list@.len() % names.len() == 0 {
                Ok(flat_indexes(names, list@))
            } else {
                Err(wrong_size_message("features"@, names.len(), list@.len()))
            },
        }
    }

    /// The rows that this selection stands for with `calculator` and the
    /// systems, or the message of the error for a flat list of the wrong
    /// size.
    pub open spec fn samples_of<C: CalculatorBase>(
        self,
        calculator: &C,
        systems: Seq<SystemView>,
    ) -> Result<IndexesView, Seq<char>> {
        let names = calculator.environments_spec().names_spec();
        match self {
            SelectedIndexes::All => Ok(calculator.environments_spec().indexes_spec(systems)),
            SelectedIndexes::Subset(indexes) => Ok(indexes@),
            SelectedIndexes::FromC(list) => if list@.len() % names.len() == 0 {
                Ok(flat_indexes(names, list@))
            } else {
                Err(wrong_size_message("samples"@, names.len(), list@.len()))
            },
        }
    }

    /// The columns that this selection stands for: the full feature space of
    /// the calculator, the given index space, or the tuples of the flat
    /// list. Fails for a flat list that holds no whole number of tuples.
    ///
    /// The calculator must be able to fill the columns.
    pub fn into_features<C: CalculatorBase>(self, calculator: &C) -> (result: Result<Indexes, Error>)
        requires
            self.features_of(calculator) matches Ok(features) ==> calculator.valid_features(features),
        ensures
            match self.features_of(calculator) {
                Ok(features) => result matches Ok(indexes) && indexes@ == features,
                Err(expected) => result matches Err(Error::InvalidParameter(message)) && message@
                    == expected,
            },
    {
        match self {
            SelectedIndexes::All => Ok(calculator.features()),
            SelectedIndexes::Subset(indexes) => Ok(indexes),
            SelectedIndexes::FromC(list) => indexes_from_flat(
                list,
                calculator.features_names(),
                "features",
            ),
        }
    }

    /// The rows that this selection stands for: the full sample space of the
    /// calculator for the systems, the given index space, or the tuples of
    /// the flat list. Fails for a flat list that holds no whole number of
    /// tuples.
    ///
    /// The calculator must be able to fill the rows.
    pub fn into_samples<C: CalculatorBase>(self, calculator: &C, systems: &[SimpleSystem]) -> (result:
        Result<Indexes, Error>)
        requires
            self is All ==> calculator.environments_spec().accepts(system_views(systems@)),
            self.samples_of(calculator, system_views(systems@)) matches Ok(samples)
                ==> calculator.valid_environments(samples, system_views(systems@)),
        ensures
            match self.samples_of(calculator, system_views(systems@)) {
                Ok(samples) => result matches Ok(indexes) && indexes@ == samples,
                Err(expected) => result matches Err(Error::InvalidParameter(message)) && message@
                    == expected,
            },
    {
        match self {
            SelectedIndexes::All => {
                let environments = calculator.environments();
                Ok(environments.indexes(systems))
            },
            SelectedIndexes::Subset(indexes) => Ok(indexes),
            SelectedIndexes::FromC(list) => {
                let environments = calculator.environments();
                indexes_from_flat(list, environments.names(), "samples")
            },
        }
    }
}

/// What a caller can choose for one calculation.
#[derive(Debug)]
pub struct CalculationOptions<'a> {
    /// Whether to copy the systems into plain systems of the library before
    /// the calculation runs on them.
    pub use_native_system: bool,
    /// The rows on which to run the calculation.
    pub selected_samples: SelectedIndexes<'a>,
    /// The columns on which to run the calculation.
    pub selected_features: SelectedIndexes<'a>,
}

impl<'a> Default for CalculationOptions<'a> {
    /// No copy of the systems, all the rows and all the columns.
    fn default() -> (options: CalculationOptions<'a>)
        ensures
            options.use_native_system == false,
            options.selected_samples is All,
            options.selected_features is All,
    {
        CalculationOptions {
            use_native_system: false,
            selected_samples: SelectedIndexes::All,
            selected_features: SelectedIndexes::All,
        }
    }
}

/// Copies of the systems, in the same order.
pub fn to_native_systems(systems: &[SimpleSystem]) -> (native: Vec<SimpleSystem>)
    ensures
        system_views(native@) == system_views(systems@),
{
    let mut native: Vec<SimpleSystem> = Vec::new();
    let mut i: usize = 0;
    while i < systems.len()
        invariant
            i <= systems@.len(),
            native@.len() == i,
            forall|k: int| 0 <= k < i ==> (#[trigger] native@[k])@ == systems@[k]@,
        decreases systems@.len() - i,
    {
        native.push(systems[i].duplicate());
        i += 1;
    }
    assert(system_views(native@) =~= system_views(systems@));
    native
}

/// Whether the library has a calculator with this name.
pub open spec fn is_registered(name: Seq<char>) -> bool {
    name == "sorted_distances"@
}

/// A calculator, with the text of the parameters that it was made from.
#[derive(Debug)]
pub struct Calculator {
    implementation: Implementation,
    parameters: String,
}

impl Calculator {
    /// The calculator proper.
    pub closed spec fn implementation_spec(&self) -> Implementation {
        self.implementation
    }

    /// The text of the parameters.
    pub closed spec fn parameters_spec(&self) -> Seq<char> {
        self.parameters@
    }

    /// What a calculation needs of the systems and the options: systems that
    /// hold what the calculator reads, selections that the calculator can
    /// fill, and a descriptor that fits in memory.
    pub open spec fn accepts(&self, systems: Seq<SystemView>, options: CalculationOptions) -> bool {
        let calculator = self.implementation_spec();
        &&& calculator.environments_spec().accepts(systems)
        &&& options.selected_features.features_of(&calculator) matches Ok(features) ==> {
            &&& calculator.valid_features(features)
            &&& options.selected_samples.samples_of(&calculator, systems) matches Ok(samples) ==> {
                &&& calculator.valid_environments(samples, systems)
                &&& fits_in_memory(samples.count(), features.count())
                &&& calculator.gradients_spec() ==> fits_in_memory(
                    calculator.environments_spec().gradients_spec(systems, samples).count(),
                    features.count(),
                )
            }
        }
    }

    /// What a descriptor holds after a calculation on the rows `samples` and
    /// the columns `features`.
    pub open spec fn outcome(
        &self,
        systems: Seq<SystemView>,
        samples: IndexesView,
        features: IndexesView,
        descriptor: DescriptorView,
    ) -> bool {
        let calculator = self.implementation_spec();
        &&& descriptor.features == features
        &&& descriptor.environments == samples
        &&& descriptor.values == expected_values(&calculator, systems, samples, features)
        &&& if calculator.gradients_spec() {
            &&& descriptor.gradients is Some
            &&& descriptor.gradients_samples == calculator.environments_spec().gradients_spec(
                systems,
                samples,
            )
        } else {
            &&& descriptor.gradients is None
            &&& descriptor.gradients_samples == IndexesView::empty(Seq::empty())
        }
    }

    /// What a calculation with the options leaves: the error of the first
    /// selection that fails, features first, with the descriptor as it was;
    /// or the outcome for the rows and columns that the options select.
    pub open spec fn computed(
        &self,
        systems: Seq<SystemView>,
        options: CalculationOptions,
        before: DescriptorView,
        after: DescriptorView,
        result: Result<(), Error>,
    ) -> bool {
        let calculator = self.implementation_spec();
        match options.selected_features.features_of(&calculator) {
            Err(expected) => (result matches Err(Error::InvalidParameter(message)) && message@
                == expected) && after == before,
            Ok(features) => match options.selected_samples.samples_of(&calculator, systems) {
                Err(expected) => (result matches Err(Error::InvalidParameter(message)) && message@
                    == expected) && after == before,
                Ok(samples) => result is Ok && self.outcome(systems, samples, features, after),
            },
        }
    }

    /// The calculator with the given name, made from the parameters in
    /// `parameters`, which it keeps as they are.
    ///
    /// Fails for a name that the library does not have, and for parameters
    /// that are not a JSON document or lack what the calculator needs.
    pub fn new(name: &str, parameters: String) -> (result: Result<Calculator, Error>)
        ensures
            !is_registered(name@) ==> (result matches Err(Error::InvalidParameter(message))
                && message@ == unknown_calculator_message(name@)),
            is_registered(name@) ==> match parameters_of_text(parameters@) {
                Ok(expected) => {
                    &&& result matches Ok(calculator)
                    &&& calculator.parameters_spec() == parameters@
                    &&& calculator.implementation_spec() matches Implementation::SortedDistances(
                        sorted,
                    )
                    &&& expected == (sorted.cutoff_spec(), sorted.max_neighbors_spec())
                },
                Err(expected) => result matches Err(Error::Json(message)) && message@ == expected,
            },
    {
        if same_text(name, "sorted_distances") {
            match SortedDistances::from_json(parameters.as_str()) {
                Ok(sorted) => Ok(
                    Calculator { implementation: Implementation::SortedDistances(sorted), parameters },
                ),
                Err(error) => Err(error),
            }
        } else {
            let mut message = "unknown calculator with name '".to_owned();
            message.append(name);
            message.append("'");
            Err(Error::InvalidParameter(message))
        }
    }

    /// The calculator around `implementation`, with the canonical text of
    /// its parameters.
    pub fn from(implementation: Implementation) -> (calculator: Calculator)
        ensures
            calculator.implementation_spec() == implementation,
            calculator.parameters_spec() == implementation.parameters_spec(),
    {
        let parameters = implementation.get_parameters();
        Calculator { implementation, parameters }
    }

    /// The name of the calculator.
    pub fn name(&self) -> (name: String)
        ensures
            name@ == self.implementation_spec().name_spec(),
    {
        self.implementation.name()
    }

    /// The text of the parameters that the calculator was made from.
    pub fn parameters(&self) -> (parameters: &str)
        ensures
            parameters@ == self.parameters_spec(),
    {
        self.parameters.as_str()
    }

    /// The calculator proper.
    pub fn implementation(&self) -> (implementation: &Implementation)
        ensures
            *implementation == self.implementation_spec(),
    {
        &self.implementation
    }

    /// Whether a calculation can run on the systems with the options: the
    /// systems hold what the calculator reads, the calculator can fill the
    /// selections, and the descriptor fits in memory.
    pub fn check(&self, systems: &[SimpleSystem], options: &CalculationOptions) -> (accepted: bool)
        ensures
            accepted == self.accepts(system_views(systems@), *options),
    {
        let ghost views = system_views(systems@);
        let size = systems.len();
        assert(views.len() == size);
        let environments = self.implementation.environments();
        if !environments.ready(systems) {
            return false;
        }
        let features = match &options.selected_features {
            SelectedIndexes::All => self.implementation.features(),
            SelectedIndexes::Subset(indexes) => indexes.duplicate(),
            SelectedIndexes::FromC(list) => {
                match indexes_from_flat(list, self.implementation.features_names(), "features") {
                    Ok(indexes) => indexes,
                    Err(_) => {
                        return true;
                    },
                }
            },
        };
        if !self.implementation.check_features(&features) {
            return false;
        }
        let samples = match &options.selected_samples {
            SelectedIndexes::All => {
                proof {
                    self.implementation.lemma_full_samples_valid(views);
                }
                environments.indexes(systems)
            },
            SelectedIndexes::Subset(indexes) => indexes.duplicate(),
            SelectedIndexes::FromC(list) => {
                match indexes_from_flat(list, environments.names(), "samples") {
                    Ok(indexes) => indexes,
                    Err(_) => {
                        return true;
                    },
                }
            },
        };
        if !self.implementation.check_environments(&samples, systems) {
            return false;
        }
        if !can_hold(samples.count(), features.count()) {
            return false;
        }
        if self.implementation.compute_gradients() {
            match environments.gradients_for(systems, &samples) {
                Some(gradients) => can_hold(gradients.count(), features.count()),
                None => {
                    // a calculator that fills gradients has an environment
                    // with gradients
                    proof {
                        assert(false);
                    }
                    false
                },
            }
        } else {
            true
        }
    }

    /// Runs the calculation on the systems and stores the result in
    /// `descriptor`, for the rows and columns that `options` selects.
    ///
    /// The selections are resolved, features first; the descriptor is
    /// prepared for them, with gradients where the calculator fills
    /// gradients; the systems are copied where the options ask for it; and
    /// the calculator fills the values. Where a selection fails, the error
    /// is returned and the descriptor stays as it was.
    pub fn compute(
        &mut self,
        systems: &[SimpleSystem],
        descriptor: &mut Descriptor,
        options: CalculationOptions,
    ) -> (result: Result<(), Error>)
        requires
            old(self).accepts(system_views(systems@), options),
        ensures
            final(self).implementation_spec() == old(self).implementation_spec(),
            final(self).parameters_spec() == old(self).parameters_spec(),
            final(descriptor).wf(),
            old(self).computed(
                system_views(systems@),
                options,
                old(descriptor)@,
                final(descriptor)@,
                result,
            ),
    {
        proof {
            use_type_invariant(&*descriptor);
        }
        let ghost views = system_views(systems@);
        let features = match options.selected_features.into_features(&self.implementation) {
            Ok(features) => features,
            Err(error) => {
                return Err(error);
            },
        };
        let samples = match options.selected_samples.into_samples(&self.implementation, systems) {
            Ok(samples) => samples,
            Err(error) => {
                return Err(error);
            },
        };
        let ghost samples_view = samples@;
        let ghost features_view = features@;
        let environments = self.implementation.environments();
        if self.implementation.compute_gradients() {
            match environments.gradients_for(systems, &samples) {
                Some(gradients) => {
                    descriptor.prepare_gradients(samples, gradients, features);
                },
                None => {
                    // a calculator that fills gradients has an environment
                    // with gradients
                    proof {
                        assert(false);
                    }
                },
            }
        } else {
            descriptor.prepare(samples, features);
        }
        if options.use_native_system {
            let native = to_native_systems(systems);
            self.implementation.compute(native.as_slice(), descriptor);
        } else {
            self.implementation.compute(systems, descriptor);
        }
        assert(descriptor@.values =~= expected_values(
            &self.implementation,
            views,
            samples_view,
            features_view,
        ));
        Ok(())
    }
}

} // verus!
