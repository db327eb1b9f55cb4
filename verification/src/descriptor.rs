//! The output store of a calculation: dense values, optional gradients, and
//! the index spaces that name their rows and columns.

use vstd::prelude::*;
use crate::dense::{dense_cols, dense_rows, filled_rows, fits_in_memory, DenseArray};
use crate::indexes::{name_texts, IndexesView};

pub use crate::indexes::{IndexValue, Indexes, IndexesBuilder};

verus! {

/// The mathematical content of a descriptor.
pub struct DescriptorView {
    /// The index space of the columns.
    pub features: IndexesView,
    /// The index space of the rows (the samples).
    pub environments: IndexesView,
    /// The values, one row per sample and one column per feature.
    pub values: Seq<Seq<u64>>,
    /// The index space of the rows of the gradients.
    pub gradients_samples: IndexesView,
    /// The gradients, if any, one row per gradient sample and one column
    /// per feature.
    pub gradients: Option<Seq<Seq<u64>>>,
}

/// Whether `cells` has `rows` rows of `cols` cells each.
pub open spec fn has_shape(cells: Seq<Seq<u64>>, rows: nat, cols: nat) -> bool {
    &&& cells.len() == rows
    &&& forall|i: int| 0 <= i < cells.len() ==> (#[trigger] cells[i]).len() == cols
}

impl DescriptorView {
    /// The shapes of the arrays follow from the index spaces.
    pub open spec fn wf(self) -> bool {
        &&& self.features.wf()
        &&& self.environments.wf()
        &&& self.gradients_samples.wf()
        &&& has_shape(self.values, self.environments.count(), self.features.count())
        &&& match self.gradients {
            Some(gradients) => has_shape(
                gradients,
                self.gradients_samples.count(),
                self.features.count(),
            ),
            None => self.gradients_samples.count() == 0,
        }
    }

    /// What a descriptor holds right after it was prepared for `samples` and
    /// `features` without gradients: zero in every cell.
    pub open spec fn prepared(samples: IndexesView, features: IndexesView) -> DescriptorView {
        DescriptorView {
            features,
            environments: samples,
            values: filled_rows(samples.count(), features.count(), 0),
            gradients_samples: IndexesView::empty(Seq::empty()),
            gradients: None,
        }
    }

    /// What a descriptor holds right after it was prepared for `samples`,
    /// `gradients` and `features`: zero in every cell of both arrays.
    pub open spec fn prepared_gradients(
        samples: IndexesView,
        gradients: IndexesView,
        features: IndexesView,
    ) -> DescriptorView {
        DescriptorView {
            features,
            environments: samples,
            values: filled_rows(samples.count(), features.count(), 0),
            gradients_samples: gradients,
            gradients: Some(filled_rows(gradients.count(), features.count(), 0)),
        }
    }

    /// This descriptor with other values.
    pub open spec fn with_values(self, values: Seq<Seq<u64>>) -> DescriptorView {
        DescriptorView { values, ..self }
    }
}

/// The dense output of a calculation, with the index spaces that describe
/// its rows and columns.
pub struct Descriptor {
    features: Indexes,
    environments: Indexes,
    values: DenseArray,
    gradients_samples: Indexes,
    gradients: Option<DenseArray>,
}

impl View for Descriptor {
    type V = DescriptorView;

    closed spec fn view(&self) -> DescriptorView {
        DescriptorView {
            features: self.features@,
            environments: self.environments@,
            values: dense_rows(self.values),
            gradients_samples: self.gradients_samples@,
            gradients: match self.gradients {
                Some(gradients) => Some(dense_rows(gradients)),
                None => None,
            },
        }
    }
}

impl Descriptor {
    /// The arrays have the shapes that the index spaces give them. This
    /// holds of every descriptor.
    #[verifier::type_invariant]
    pub open spec fn wf(&self) -> bool {
        &&& self@.wf()
        &&& self.columns_agree()
    }

    /// The arrays have one column for each feature, also where they have no
    /// row.
    pub closed spec fn columns_agree(&self) -> bool {
        &&& dense_cols(self.values) == self@.features.count()
        &&& match self.gradients {
            Some(gradients) => dense_cols(gradients) == self@.features.count(),
            None => true,
        }
    }

    /// An empty descriptor: no sample, no feature, no gradients.
    pub fn new() -> (descriptor: Descriptor)
        ensures
            descriptor.wf(),
            descriptor@ == DescriptorView::prepared(
                IndexesView::empty(Seq::empty()),
                IndexesView::empty(Seq::empty()),
            ),
    {
        let features = IndexesBuilder::new(Vec::new()).finish();
        let environments = IndexesBuilder::new(Vec::new()).finish();
        let gradients_samples = IndexesBuilder::new(Vec::new()).finish();
        assert(name_texts(Seq::<&str>::empty()) =~= Seq::empty());
        Descriptor {
            features,
            environments,
            values: DenseArray::filled(0, 0, 0),
            gradients_samples,
            gradients: None,
        }
    }

    /// Gives the descriptor the rows of `samples` and the columns of
    /// `features`, with zero in every cell and without gradients. What the
    /// descriptor held before is dropped.
    pub fn prepare(&mut self, samples: Indexes, features: Indexes)
        requires
            fits_in_memory(samples@.count(), features@.count()),
        ensures
            final(self).wf(),
            final(self)@ == DescriptorView::prepared(samples@, features@),
    {
        let rows = samples.count();
        let cols = features.count();
        assert(name_texts(Seq::<&str>::empty()) =~= Seq::empty());
        *self = Descriptor {
            features,
            environments: samples,
            values: DenseArray::filled(rows, cols, 0),
            gradients_samples: IndexesBuilder::new(Vec::new()).finish(),
            gradients: None,
        };
    }

    /// Gives the descriptor the rows of `samples` and the columns of
    /// `features`, and gradients with the rows of `gradients`, with zero in
    /// every cell of both arrays. What the descriptor held before is
    /// dropped.
    pub fn prepare_gradients(&mut self, samples: Indexes, gradients: Indexes, features: Indexes)
        requires
            fits_in_memory(samples@.count(), features@.count()),
            fits_in_memory(gradients@.count(), features@.count()),
        ensures
            final(self).wf(),
            final(self)@ == DescriptorView::prepared_gradients(samples@, gradients@, features@),
    {
        let rows = samples.count();
        let gradient_rows = gradients.count();
        let cols = features.count();
        *self = Descriptor {
            features,
            environments: samples,
            values: DenseArray::filled(rows, cols, 0),
            gradients_samples: gradients,
            gradients: Some(DenseArray::filled(gradient_rows, cols, 0)),
        };
    }

    /// The index space of the columns.
    pub fn features(&self) -> (features: &Indexes)
        ensures
            features@ == self@.features,
    {
        &self.features
    }

    /// The index space of the rows.
    pub fn environments(&self) -> (environments: &Indexes)
        ensures
            environments@ == self@.environments,
    {
        &self.environments
    }

    /// The index space of the rows of the gradients.
    pub fn gradients_samples(&self) -> (samples: &Indexes)
        ensures
            samples@ == self@.gradients_samples,
    {
        &self.gradients_samples
    }

    /// The number of rows and of columns of the values.
    pub fn shape(&self) -> (shape: (usize, usize))
        ensures
            shape.0 == self@.environments.count(),
            shape.1 == self@.features.count(),
            self.wf(),
    {
        proof {
            use_type_invariant(self);
        }
        (self.values.nrows(), self.values.ncols())
    }

    /// The number of rows and of columns of the gradients, if there are any.
    pub fn gradients_shape(&self) -> (shape: Option<(usize, usize)>)
        ensures
            match shape {
                Some(shape) => self@.gradients is Some && shape.0 == self@.gradients_samples.count()
                    && shape.1 == self@.features.count(),
                None => self@.gradients is None,
            },
    {
        proof {
            use_type_invariant(self);
        }
        match &self.gradients {
            Some(gradients) => Some((gradients.nrows(), gradients.ncols())),
            None => None,
        }
    }

    /// The value at row `i`, column `j`.
    pub fn value(&self, i: usize, j: usize) -> (value: u64)
        requires
            i < self@.environments.count(),
            j < self@.features.count(),
        ensures
            value == self@.values[i as int][j as int],
    {
        proof {
            use_type_invariant(self);
        }
        self.values.get(i, j)
    }

    /// The gradient at row `i`, column `j`.
    pub fn gradient(&self, i: usize, j: usize) -> (value: u64)
        requires
            self@.gradients is Some,
            i < self@.gradients_samples.count(),
            j < self@.features.count(),
        ensures
            value == self@.gradients->0[i as int][j as int],
    {
        proof {
            use_type_invariant(self);
        }
        match &self.gradients {
            Some(gradients) => gradients.get(i, j),
            None => 0,
        }
    }

    /// The values of row `i`, in column order.
    pub fn row(&self, i: usize) -> (row: Vec<u64>)
        requires
            i < self@.environments.count(),
        ensures
            row@ == self@.values[i as int],
    {
        proof {
            use_type_invariant(self);
        }
        let cols = self.values.ncols();
        let mut row: Vec<u64> = Vec::new();
        let mut j: usize = 0;
        while j < cols
            invariant
                self.wf(),
                i < self@.environments.count(),
                cols == self@.features.count(),
                j <= cols,
                row@ == self@.values[i as int].take(j as int),
            decreases cols - j,
        {
            row.push(self.values.get(i, j));
            assert(self@.values[i as int].take(j + 1) =~= self@.values[i as int].take(j as int).push(
                self@.values[i as int][j as int],
            ));
            j += 1;
        }
        assert(self@.values[i as int].take(cols as int) =~= self@.values[i as int]);
        row
    }

    /// Writes `value` at row `i`, column `j` of the values.
    pub fn set_value(&mut self, i: usize, j: usize, value: u64)
        requires
            i < old(self)@.environments.count(),
            j < old(self)@.features.count(),
        ensures
            final(self).wf(),
            final(self)@ == old(self)@.with_values(
                old(self)@.values.update(i as int, old(self)@.values[i as int].update(j as int, value)),
            ),
    {
        proof {
            use_type_invariant(&*self);
        }
        self.values.set(i, j, value);
    }

    /// Replaces row `i` of the values by `row`.
    pub fn set_row(&mut self, i: usize, row: &[u64])
        requires
            i < old(self)@.environments.count(),
            row@.len() == old(self)@.features.count(),
        ensures
            final(self).wf(),
            final(self)@ == old(self)@.with_values(old(self)@.values.update(i as int, row@)),
    {
        proof {
            use_type_invariant(&*self);
        }
        self.values.assign_row(i, row);
    }
}

} // verus!
