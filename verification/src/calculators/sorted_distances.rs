//! The sorted distances calculator: for each atom and each species among its
//! neighbors, the distances to the neighbors of that species in increasing
//! order, cut or filled up with the cutoff to a fixed length.

use vstd::prelude::*;
use vstd::relations::{sorted_by, total_ordering};
use vstd::seq_lib::lemma_sorted_unique;
use vstd::string::StringExecFns;
use crate::calculators::CalculatorBase;
use crate::descriptor::Descriptor;
use crate::environments::{
    is_sample, is_sample_row, key_lt, lemma_sample_keys, lemma_sample_rows, row_sample,
    sample_indexes, sample_keys, sample_names, AtomSpeciesEnvironment, EnvironmentIndexes,
};
use crate::errors::Error;
use crate::indexes::{
    name_texts, same_names, same_text, IndexValue, Indexes, IndexesBuilder, IndexesView,
};
use crate::json::{
    document_member, json_error, json_parse, json_real_text, parse_document, real_member,
    unsigned_member, value_real, value_unsigned, Members,
};
use crate::system::{system_views, SimpleSystem, SystemView};
use crate::text::{decimal, decimal_text};

verus! {

/// The order of the keys of distances, which is the order of the distances.
pub open spec fn key_leq() -> spec_fn(u64, u64) -> bool {
    |a: u64, b: u64| a <= b
}

/// Whether `atom` is the center that is asked for, with the species `alpha`,
/// and `other` has the species `beta`.
pub open spec fn joins(
    system: SystemView,
    atom: usize,
    other: usize,
    center: usize,
    alpha: usize,
    beta: usize,
) -> bool {
    atom == center && system.species[atom as int] == alpha && system.species[other as int] == beta
}

/// The distances from `center`, of species `alpha`, to its neighbors of
/// species `beta`, as the first `upto` pairs give them. A pair counts once
/// for each of its two atoms that is the center.
pub open spec fn distances_upto(
    system: SystemView,
    center: usize,
    alpha: usize,
    beta: usize,
    upto: nat,
) -> Seq<u64>
    decreases upto,
{
    if upto == 0 {
        Seq::empty()
    } else {
        let before = distances_upto(system, center, alpha, beta, (upto - 1) as nat);
        let pair = system.pairs[upto - 1];
        let first = if joins(system, pair.first, pair.second, center, alpha, beta) {
            before.push(pair.distance)
        } else {
            before
        };
        if joins(system, pair.second, pair.first, center, alpha, beta) {
            first.push(pair.distance)
        } else {
            first
        }
    }
}

/// The distances from `center`, of species `alpha`, to its neighbors of
/// species `beta`.
pub open spec fn distances_around(system: SystemView, center: usize, alpha: usize, beta: usize) -> Seq<
    u64,
> {
    distances_upto(system, center, alpha, beta, system.pairs.len())
}

/// The first `width` keys of `keys`, with `fill` where `keys` has no more.
pub open spec fn padded(keys: Seq<u64>, width: nat, fill: u64) -> Seq<u64> {
    Seq::new(
        width,
        |i: int|
            if i < keys.len() {
                keys[i]
            } else {
                fill
            },
    )
}

/// Whether each key is no larger than the keys after it.
pub open spec fn non_decreasing(keys: Seq<u64>) -> bool {
    forall|i: int, j: int| 0 <= i < j < keys.len() ==> keys[i] <= keys[j]
}

/// Whether the rows stand in the order of their systems: the structure of a
/// row is no larger than the structures of the rows after it.
pub open spec fn follows_systems(rows: Seq<Seq<IndexValue>>) -> bool {
    forall|i: int, j: int| 0 <= i < j < rows.len() ==> rows[i][0].as_nat() <= rows[j][0].as_nat()
}

/// The text of the parameters of a sorted distances calculator.
pub open spec fn canonical_parameters(cutoff: u64, max_neighbors: usize) -> Seq<char> {
    "{\"cutoff\":"@ + json_real_text(cutoff) + ",\"max_neighbors\":"@ + decimal(max_neighbors as nat)
        + "}"@
}

/// What the members that were read from a document give: the cutoff and the
/// number of neighbors, or the message that names the first member that is
/// missing or not of its kind.
pub open spec fn parameters_from(cutoff: Option<u64>, max_neighbors: Option<u64>) -> Result<
    (u64, usize),
    Seq<char>,
> {
    match (cutoff, max_neighbors) {
        (None, _) => Err("missing field `cutoff`, or not a number"@),
        (Some(_), None) => Err("missing field `max_neighbors`, or not an unsigned integer"@),
        (Some(cutoff), Some(max_neighbors)) => if max_neighbors <= usize::MAX {
            Ok((cutoff, max_neighbors as usize))
        } else {
            Err("`max_neighbors` is too large"@)
        },
    }
}

/// What `from_json` makes of the members of a document: the cutoff under
/// `cutoff` and the number of neighbors under `max_neighbors`.
pub open spec fn parameters_of(members: Members) -> Result<(u64, usize), Seq<char>> {
    parameters_from(real_member(members, "cutoff"@), unsigned_member(members, "max_neighbors"@))
}

/// What `from_json` makes of a text: the cutoff and the number of neighbors,
/// or the message of the error.
pub open spec fn parameters_of_text(text: Seq<char>) -> Result<(u64, usize), Seq<char>> {
    match json_parse(text) {
        Some(members) => parameters_of(members),
        None => Err(json_error(text)),
    }
}

/// The keys of `keys` in increasing order.
fn sorted_keys(keys: &Vec<u64>) -> (sorted: Vec<u64>)
    ensures
        sorted@ == keys@.sort_by(key_leq()),
{
    let mut sorted: Vec<u64> = Vec::new();
    let mut i: usize = 0;
    assert(keys@.take(0) =~= Seq::<u64>::empty());
    while i < keys.len()
        invariant
            i <= keys@.len(),
            non_decreasing(sorted@),
            sorted@.to_multiset() == keys@.take(i as int).to_multiset(),
        decreases keys@.len() - i,
    {
        let key = keys[i];
        let mut at: usize = sorted.len();
        while at > 0 && sorted[at - 1] > key
            invariant
                at <= sorted@.len(),
                forall|k: int| at <= k < sorted@.len() ==> sorted@[k] > key,
            decreases at,
        {
            at -= 1;
        }
        let ghost before = sorted@;
        sorted.insert(at, key);
        proof {
            broadcast use vstd::seq_lib::to_multiset_insert, vstd::seq_lib::to_multiset_build;

            assert(keys@.take(i + 1) =~= keys@.take(i as int).push(key));
            assert(sorted@ == before.insert(at as int, key));
            assert forall|a: int, b: int| 0 <= a < b < sorted@.len() implies sorted@[a] <= sorted@[b] by {
                if b < at {
                    assert(before[a] <= before[b]);
                } else if b == at {
                    assert(a == at - 1 || before[a] <= before[at - 1]);
                } else if a < at {
                    assert(before[a] <= before[b - 1]);
                } else if a > at {
                    assert(before[a - 1] <= before[b - 1]);
                }
            }
        }
        i += 1;
    }
    proof {
        assert(keys@.take(keys@.len() as int) =~= keys@);
        lemma_sorted(keys@, sorted@);
    }
    sorted
}

/// A list in increasing order, with the keys of `input`, is `input` sorted.
proof fn lemma_sorted(input: Seq<u64>, output: Seq<u64>)
    requires
        non_decreasing(output),
        output.to_multiset() == input.to_multiset(),
    ensures
        output == input.sort_by(key_leq()),
{
    let leq = key_leq();
    assert(total_ordering(leq));
    input.lemma_sort_by_ensures(leq);
    assert(sorted_by(output, leq));
    lemma_sorted_unique(output, input.sort_by(leq), leq);
}

/// The sorted distances calculator.
#[derive(Debug)]
pub struct SortedDistances {
    cutoff: u64,
    cutoff_text: String,
    max_neighbors: usize,
}

impl SortedDistances {
    #[verifier::type_invariant]
    spec fn well_formed(&self) -> bool {
        self.cutoff_text@ == json_real_text(self.cutoff)
    }

    /// The key of the cutoff: neighbors further apart are not taken into
    /// account, and rows with fewer neighbors are filled up with it.
    pub closed spec fn cutoff_spec(&self) -> u64 {
        self.cutoff
    }

    /// The number of distances that each row holds.
    pub closed spec fn max_neighbors_spec(&self) -> usize {
        self.max_neighbors
    }

    /// The sorted distances from `center`, of species `alpha`, to its
    /// neighbors of species `beta`, cut or filled up with the cutoff to the
    /// number of neighbors of this calculator.
    pub open spec fn neighbor_vector(
        &self,
        system: SystemView,
        center: usize,
        alpha: usize,
        beta: usize,
    ) -> Seq<u64> {
        padded(
            distances_around(system, center, alpha, beta).sort_by(key_leq()),
            self.max_neighbors_spec() as nat,
            self.cutoff_spec(),
        )
    }

    /// The full feature space: one column for each position in the sorted
    /// list of distances.
    pub open spec fn full_features(max_neighbors: usize) -> IndexesView {
        IndexesView {
            names: seq!["neighbor"@],
            rows: Seq::new(max_neighbors as nat, |i: int| seq![IndexValue::Unsigned(i as usize)]),
        }
    }

    /// The key of the cutoff.
    pub fn cutoff(&self) -> (cutoff: u64)
        ensures
            cutoff == self.cutoff_spec(),
    {
        self.cutoff
    }

    /// The number of distances that each row holds.
    pub fn max_neighbors(&self) -> (max_neighbors: usize)
        ensures
            max_neighbors == self.max_neighbors_spec(),
    {
        self.max_neighbors
    }

    /// The calculator that a parameter document describes: a JSON object
    /// with a number under `cutoff` and an unsigned integer under
    /// `max_neighbors`.
    pub fn from_json(parameters: &str) -> (result: Result<SortedDistances, Error>)
        ensures
            match parameters_of_text(parameters@) {
                Ok(expected) => result matches Ok(calculator) && expected == (
                    calculator.cutoff_spec(),
                    calculator.max_neighbors_spec(),
                ),
                Err(expected) => result matches Err(Error::Json(message)) && message@ == expected,
            },
    {
        match parse_document(parameters) {
            Ok(document) => {
                let cutoff = match document_member(&document, "cutoff") {
                    Some(member) => value_real(member),
                    None => None,
                };
                let max_neighbors = match document_member(&document, "max_neighbors") {
                    Some(member) => value_unsigned(member),
                    None => None,
                };
                Self::from_members(cutoff, max_neighbors)
            },
            Err(message) => Err(Error::Json(message)),
        }
    }

    /// The calculator with the cutoff and the number of neighbors that were
    /// read from a parameter document, or an error that names the member
    /// that the document lacks.
    pub fn from_members(cutoff: Option<(u64, String)>, max_neighbors: Option<u64>) -> (result: Result<
        SortedDistances,
        Error,
    >)
        requires
            cutoff matches Some((key, text)) ==> text@ == json_real_text(key),
        ensures
            match parameters_from(
                match cutoff {
                    Some((key, _)) => Some(key),
                    None => None,
                },
                max_neighbors,
            ) {
                Ok(expected) => result matches Ok(calculator) && expected == (
                    calculator.cutoff_spec(),
                    calculator.max_neighbors_spec(),
                ),
                Err(expected) => result matches Err(Error::Json(message)) && message@ == expected,
            },
    {
        match (cutoff, max_neighbors) {
            (None, _) => Err(Error::Json("missing field `cutoff`, or not a number".to_owned())),
            (Some(_), None) => Err(
                Error::Json("missing field `max_neighbors`, or not an unsigned integer".to_owned()),
            ),
            (Some((key, text)), Some(count)) => {
                if count > usize::MAX as u64 {
                    Err(Error::Json("`max_neighbors` is too large".to_owned()))
                } else {
                    Ok(SortedDistances { cutoff: key, cutoff_text: text, max_neighbors: count as usize })
                }
            },
        }
    }

    /// The distances from `center`, of species `alpha`, to its neighbors of
    /// species `beta`, sorted, and cut or filled up with the cutoff.
    fn sorted_neighbors(&self, system: &SimpleSystem, center: usize, alpha: usize, beta: usize) -> (vector:
        Vec<u64>)
        ensures
            vector@ == self.neighbor_vector(system@, center, alpha, beta),
            vector@.len() == self.max_neighbors_spec(),
    {
        let species = system.species();
        let pairs = system.pairs();
        let mut distances: Vec<u64> = Vec::new();
        let mut j: usize = 0;
        while j < pairs.len()
            invariant
                j <= pairs@.len(),
                pairs@ == system@.pairs,
                species@ == system@.species,
                system@.wf(),
                distances@ == distances_upto(system@, center, alpha, beta, j as nat),
            decreases pairs@.len() - j,
        {
            let pair = pairs[j];
            assert(system@.admits(system@.cutoff->0, system@.pairs[j as int]));
            if pair.first == center && species[pair.first] == alpha && species[pair.second] == beta {
                distances.push(pair.distance);
            }
            if pair.second == center && species[pair.second] == alpha && species[pair.first] == beta {
                distances.push(pair.distance);
            }
            j += 1;
        }
        let mut vector = sorted_keys(&distances);
        let ghost sorted = vector@;
        vector.resize(self.max_neighbors, self.cutoff);
        assert(vector@ =~= padded(sorted, self.max_neighbors as nat, self.cutoff));
        vector
    }
}

/// The structure of the sample at position `row`.
fn structure_of(samples: &Indexes, row: usize) -> (structure: usize)
    requires
        row < samples@.count(),
        is_sample_row(samples@.rows[row as int]),
    ensures
        structure == samples@.rows[row as int][0].as_nat(),
{
    samples.get(row)[0].usize()
}

impl CalculatorBase for SortedDistances {
    type Environments = AtomSpeciesEnvironment;

    open spec fn name_spec(&self) -> Seq<char> {
        "sorted distances vector"@
    }

    open spec fn parameters_spec(&self) -> Seq<char> {
        canonical_parameters(self.cutoff_spec(), self.max_neighbors_spec())
    }

    open spec fn features_spec(&self) -> IndexesView {
        Self::full_features(self.max_neighbors_spec())
    }

    open spec fn environments_spec(&self) -> AtomSpeciesEnvironment {
        AtomSpeciesEnvironment { cutoff: self.cutoff_spec() }
    }

    open spec fn gradients_spec(&self) -> bool {
        false
    }

    open spec fn valid_features(&self, features: IndexesView) -> bool {
        &&& features.names == seq!["neighbor"@]
        &&& forall|i: int|
            0 <= i < features.rows.len() ==> {
                &&& (#[trigger] features.rows[i]).len() == 1
                &&& features.rows[i][0] is Unsigned
                &&& features.rows[i][0].as_nat() < self.max_neighbors_spec()
            }
    }

    open spec fn valid_environments(&self, samples: IndexesView, systems: Seq<SystemView>) -> bool {
        &&& samples.names == sample_names()
        &&& forall|i: int|
            0 <= i < samples.rows.len() ==> is_sample_row(#[trigger] samples.rows[i]) && is_sample(
                systems,
                row_sample(samples.rows[i]),
            )
        &&& follows_systems(samples.rows)
    }

    open spec fn row_values(
        &self,
        systems: Seq<SystemView>,
        sample: Seq<IndexValue>,
        features: IndexesView,
    ) -> Seq<u64> {
        let vector = self.neighbor_vector(
            systems[sample[0].as_nat() as int],
            sample[1]->Unsigned_0,
            sample[2]->Unsigned_0,
            sample[3]->Unsigned_0,
        );
        Seq::new(features.count(), |c: int| vector[features.rows[c][0].as_nat() as int])
    }

    proof fn lemma_full_samples_valid(&self, systems: Seq<SystemView>) {
        lemma_sample_keys(systems);
        let keys = sample_keys(systems);
        let full = sample_indexes(keys);
        assert forall|i: int| 0 <= i < full.rows.len() implies is_sample_row(#[trigger] full.rows[i])
            && is_sample(systems, row_sample(full.rows[i])) by {
            assert(keys.contains(keys[i]));
            assert(is_sample(systems, keys[i]));
            assert(row_sample(full.rows[i]) == keys[i]);
        }
        assert forall|i: int, j: int| 0 <= i < j < full.rows.len() implies full.rows[i][0].as_nat()
            <= full.rows[j][0].as_nat() by {
            assert(key_lt(keys[i], keys[j]));
        }
        assert(follows_systems(full.rows));
        assert(self.environments_spec().indexes_spec(systems) == full);
        assert(full.names == sample_names());
    }

    fn name(&self) -> (name: String) {
        "sorted distances vector".to_owned()
    }

    fn get_parameters(&self) -> (parameters: String) {
        proof {
            use_type_invariant(self);
        }
        let mut parameters = "{\"cutoff\":".to_owned();
        parameters.append(self.cutoff_text.as_str());
        parameters.append(",\"max_neighbors\":");
        parameters.append(decimal_text(self.max_neighbors).as_str());
        parameters.append("}");
        parameters
    }

    fn features_names(&self) -> (names: Vec<&'static str>) {
        let mut names: Vec<&'static str> = Vec::new();
        names.push("neighbor");
        assert(name_texts(names@)[0] == "neighbor"@);
        assert(name_texts(names@) =~= seq!["neighbor"@]);
        names
    }

    fn features(&self) -> (features: Indexes) {
        let mut builder = IndexesBuilder::new(self.features_names());
        assert(builder@.rows =~= Self::full_features(0).rows);
        let mut i: usize = 0;
        while i < self.max_neighbors
            invariant
                i <= self.max_neighbors,
                builder@ == Self::full_features(i),
            decreases self.max_neighbors - i,
        {
            let mut row: Vec<IndexValue> = Vec::new();
            row.push(IndexValue::Unsigned(i));
            builder.add(row.as_slice());
            assert(builder@.rows =~= Self::full_features((i + 1) as usize).rows);
            i += 1;
        }
        builder.finish()
    }

    fn environments(&self) -> (environments: AtomSpeciesEnvironment) {
        AtomSpeciesEnvironment::new(self.cutoff)
    }

    fn compute_gradients(&self) -> (gradients: bool) {
        false
    }

    fn check_features(&self, indexes: &Indexes) -> (valid: bool) {
        let names = indexes.names();
        if names.len() != 1 {
            assert(indexes@.names.len() != 1);
            return false;
        }
        assert(indexes@.names[0] == names@[0]@);
        if !same_text(names[0].as_str(), "neighbor") {
            return false;
        }
        assert(indexes@.names =~= seq!["neighbor"@]);
        let mut i: usize = 0;
        while i < indexes.count()
            invariant
                i <= indexes@.count(),
                forall|k: int|
                    0 <= k < i ==> {
                        &&& (#[trigger] indexes@.rows[k]).len() == 1
                        &&& indexes@.rows[k][0] is Unsigned
                        &&& indexes@.rows[k][0].as_nat() < self.max_neighbors_spec()
                    },
            decreases indexes@.count() - i,
        {
            let row = indexes.get(i);
            if row.len() != 1 || !row[0].is_unsigned() || row[0].usize() >= self.max_neighbors {
                assert(!({
                    &&& indexes@.rows[i as int].len() == 1
                    &&& indexes@.rows[i as int][0] is Unsigned
                    &&& indexes@.rows[i as int][0].as_nat() < self.max_neighbors_spec()
                }));
                return false;
            }
            i += 1;
        }
        true
    }

    fn check_environments(&self, indexes: &Indexes, systems: &[SimpleSystem]) -> (valid: bool) {
        let ghost views = system_views(systems@);
        let size = systems.len();
        assert(views.len() == size);
        let environments = self.environments();
        let expected = IndexesBuilder::new(environments.names()).finish();
        if !same_names(indexes.names(), expected.names()) {
            return false;
        }
        let allowed = environments.indexes(systems);
        let mut last: usize = 0;
        let mut i: usize = 0;
        while i < indexes.count()
            invariant
                i <= indexes@.count(),
                views == system_views(systems@),
                views.len() <= usize::MAX,
                allowed@ == sample_indexes(sample_keys(views)),
                forall|k: int|
                    0 <= k < i ==> is_sample_row(#[trigger] indexes@.rows[k]) && is_sample(
                        views,
                        row_sample(indexes@.rows[k]),
                    ),
                forall|a: int, b: int|
                    0 <= a < b < i ==> (#[trigger] indexes@.rows[a])[0].as_nat() <= (
                    #[trigger] indexes@.rows[b])[0].as_nat(),
                i > 0 ==> last == indexes@.rows[i - 1][0].as_nat(),
            decreases indexes@.count() - i,
        {
            let row = indexes.get(i);
            proof {
                lemma_sample_rows(views, row@);
            }
            if !allowed.contains(row) {
                return false;
            }
            let structure = row[0].usize();
            if i > 0 && structure < last {
                assert(indexes@.rows[i - 1][0].as_nat() > indexes@.rows[i as int][0].as_nat());
                return false;
            }
            assert forall|a: int, b: int| 0 <= a < b < i + 1 implies (#[trigger] indexes@.rows[a])[0].as_nat()
                <= (#[trigger] indexes@.rows[b])[0].as_nat() by {
                if b == i && a < i - 1 {
                    assert(indexes@.rows[a][0].as_nat() <= indexes@.rows[i - 1][0].as_nat());
                }
            }
            last = structure;
            i += 1;
        }
        true
    }

    fn compute(&mut self, systems: &[SimpleSystem], descriptor: &mut Descriptor) {
        proof {
            use_type_invariant(&*descriptor);
        }
        let ghost views = system_views(systems@);
        let ghost start = descriptor@;
        let count = descriptor.environments().count();
        let width = descriptor.features().count();
        // the slot that each column asks for; a whole row is copied at once
        // where each column asks for the slot of its own position
        let mut all_features = width == self.max_neighbors;
        let mut requested: Vec<usize> = Vec::new();
        let mut f: usize = 0;
        while f < width
            invariant
                f <= width,
                width == start.features.count(),
                descriptor@ == start,
                self.valid_features(start.features),
                requested@.len() == f,
                forall|k: int|
                    0 <= k < f ==> (#[trigger] requested@[k]) as nat
                        == start.features.rows[k][0].as_nat() && requested@[k]
                        < self.max_neighbors_spec(),
                all_features ==> width == self.max_neighbors_spec(),
                all_features ==> forall|k: int| 0 <= k < f ==> (#[trigger] requested@[k]) == k,
            decreases width - f,
        {
            let feature = descriptor.features().get(f);
            let slot = feature[0].usize();
            if slot != f {
                all_features = false;
            }
            requested.push(slot);
            f += 1;
        }
        let mut current: usize = 0;
        let mut i_system: usize = 0;
        while i_system < systems.len()
            invariant
                i_system <= systems@.len(),
                views == system_views(systems@),
                descriptor.wf(),
                descriptor@ == start.with_values(descriptor@.values),
                count == start.environments.count(),
                width == start.features.count(),
                all_features ==> width == self.max_neighbors_spec(),
                all_features ==> forall|k: int| 0 <= k < width ==> (#[trigger] requested@[k]) == k,
                requested@.len() == width,
                forall|k: int|
                    0 <= k < requested@.len() ==> (#[trigger] requested@[k]) as nat
                        == start.features.rows[k][0].as_nat() && requested@[k]
                        < self.max_neighbors_spec(),
                self.valid_features(start.features),
                self.valid_environments(start.environments, views),
                *self == *old(self),
                current <= count,
                forall|r: int|
                    0 <= r < current ==> (#[trigger] descriptor@.values[r]) == self.row_values(
                        views,
                        start.environments.rows[r],
                        start.features,
                    ),
                current < count ==> start.environments.rows[current as int][0].as_nat() >= i_system,
            decreases systems@.len() - i_system,
        {
            let system = &systems[i_system];
            assert(system@ == views[i_system as int]);
            while current < count && structure_of(descriptor.environments(), current) == i_system
                invariant
                    i_system < systems@.len(),
                    views == system_views(systems@),
                    system@ == views[i_system as int],
                    descriptor.wf(),
                    descriptor@ == start.with_values(descriptor@.values),
                    count == start.environments.count(),
                    width == start.features.count(),
                    all_features ==> width == self.max_neighbors_spec(),
                    all_features ==> forall|k: int|
                        0 <= k < width ==> (#[trigger] requested@[k]) == k,
                    requested@.len() == width,
                    forall|k: int|
                        0 <= k < requested@.len() ==> (#[trigger] requested@[k]) as nat
                            == start.features.rows[k][0].as_nat() && requested@[k]
                            < self.max_neighbors_spec(),
                    self.valid_features(start.features),
                    self.valid_environments(start.environments, views),
                    *self == *old(self),
                    current <= count,
                    forall|r: int|
                        0 <= r < current ==> (#[trigger] descriptor@.values[r]) == self.row_values(
                            views,
                            start.environments.rows[r],
                            start.features,
                        ),
                    current < count ==> start.environments.rows[current as int][0].as_nat()
                        >= i_system,
                decreases count - current,
            {
                let ghost sample_view = start.environments.rows[current as int];
                assert(is_sample_row(sample_view));
                let sample = descriptor.environments().get(current);
                let center = sample[1].usize();
                let alpha = sample[2].usize();
                let beta = sample[3].usize();
                let vector = self.sorted_neighbors(system, center, alpha, beta);
                let ghost expected = self.row_values(views, sample_view, start.features);
                if all_features {
                    descriptor.set_row(current, vector.as_slice());
                    assert(descriptor@.values[current as int] =~= expected) by {
                        assert forall|c: int| 0 <= c < width implies expected[c] == vector@[c] by {
                            assert(requested@[c] == c);
                        }
                    }
                } else {
                    let ghost filled = descriptor@.values;
                    let mut i: usize = 0;
                    while i < requested.len()
                        invariant
                            i <= requested@.len(),
                            requested@.len() == width,
                            width == start.features.count(),
                            current < count,
                            count == start.environments.count(),
                            vector@.len() == self.max_neighbors_spec(),
                            descriptor.wf(),
                            descriptor@ == start.with_values(descriptor@.values),
                            forall|k: int|
                                0 <= k < requested@.len() ==> (#[trigger] requested@[k])
                                    < self.max_neighbors_spec(),
                            forall|r: int|
                                0 <= r < current ==> (#[trigger] descriptor@.values[r]) == filled[r],
                            forall|c: int|
                                0 <= c < i ==> (#[trigger] descriptor@.values[current as int][c])
                                    == vector@[requested@[c] as int],
                        decreases requested@.len() - i,
                    {
                        descriptor.set_value(current, i, vector[requested[i]]);
                        i += 1;
                    }
                    proof {
                        assert(descriptor@.values[current as int].len() == width);
                        assert(descriptor@.values[current as int] =~= expected);
                    }
                }
                proof {
                    assert(follows_systems(start.environments.rows));
                    if current + 1 < count {
                        assert(start.environments.rows[current as int][0].as_nat()
                            <= start.environments.rows[current + 1][0].as_nat());
                    }
                }
                current += 1;
            }
            i_system += 1;
        }
        proof {
            if current < count {
                let row = start.environments.rows[current as int];
                assert(is_sample(views, row_sample(row)));
            }
            assert(descriptor@.values.len() == count);
        }
    }
}

} // verus!
