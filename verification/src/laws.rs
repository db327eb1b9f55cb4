//! What holds of every calculation: how the values for a part of the rows or
//! columns relate to the values for all of them, and the shape of the rows
//! of the sorted distances calculator.

use vstd::prelude::*;
use vstd::relations::total_ordering;
use crate::calculators::sorted_distances::{
    distances_around, distances_upto, key_leq, non_decreasing, SortedDistances,
};
use crate::calculators::{expected_values, CalculatorBase};
use crate::indexes::IndexesView;
use crate::order::real_rank;
use crate::system::SystemView;

verus! {

/// The index space that holds the tuple at `position` of `indexes`, and no
/// other.
pub open spec fn single(indexes: IndexesView, position: int) -> IndexesView {
    IndexesView { names: indexes.names, rows: seq![indexes.rows[position]] }
}

/// A calculation on one sample alone gives one row, and this row is the row
/// that the sample has in a calculation on any list of samples that holds
/// it, for the same columns.
pub proof fn lemma_single_sample<C: CalculatorBase>(
    calculator: &C,
    systems: Seq<SystemView>,
    samples: IndexesView,
    features: IndexesView,
    position: int,
)
    requires
        0 <= position < samples.count(),
    ensures
        expected_values(calculator, systems, single(samples, position), features).len() == 1,
        expected_values(calculator, systems, single(samples, position), features)[0]
            == expected_values(calculator, systems, samples, features)[position],
{
}

/// Each row of a calculation depends on its own sample only: two lists of
/// samples give the same row wherever they hold the same sample.
pub proof fn lemma_rows_by_sample<C: CalculatorBase>(
    calculator: &C,
    systems: Seq<SystemView>,
    first: IndexesView,
    second: IndexesView,
    features: IndexesView,
    i: int,
    j: int,
)
    requires
        0 <= i < first.count(),
        0 <= j < second.count(),
        first.rows[i] == second.rows[j],
    ensures
        expected_values(calculator, systems, first, features)[i] == expected_values(
            calculator,
            systems,
            second,
            features,
        )[j],
{
}

/// With the sorted distances calculator, the columns of a selection of
/// features are columns of the full calculation: the column of a feature is
/// the column at the position that the feature names, whatever the number
/// and the order of the features of the selection.
pub proof fn lemma_partial_features(
    calculator: &SortedDistances,
    systems: Seq<SystemView>,
    samples: IndexesView,
    selected: IndexesView,
    row: int,
    column: int,
)
    requires
        calculator.valid_features(selected),
        0 <= row < samples.count(),
        0 <= column < selected.count(),
    ensures
        expected_values(calculator, systems, samples, selected)[row].len() == selected.count(),
        expected_values(calculator, systems, samples, selected)[row][column] == expected_values(
            calculator,
            systems,
            samples,
            calculator.features_spec(),
        )[row][selected.rows[column][0].as_nat() as int],
{
    assert(calculator.features_spec().count() == calculator.max_neighbors_spec());
}

/// The distances around an atom in increasing order: the same distances,
/// each as often as before, and none larger than the ones after it. So the
/// distance at slot `f` is the one that `f` of them come before, and cutting
/// the list keeps the smallest.
pub proof fn lemma_slots_in_order(system: SystemView, center: usize, alpha: usize, beta: usize)
    ensures
        non_decreasing(distances_around(system, center, alpha, beta).sort_by(key_leq())),
        distances_around(system, center, alpha, beta).sort_by(key_leq()).to_multiset()
            == distances_around(system, center, alpha, beta).to_multiset(),
        distances_around(system, center, alpha, beta).sort_by(key_leq()).len() == distances_around(
            system,
            center,
            alpha,
            beta,
        ).len(),
{
    let leq = key_leq();
    let distances = distances_around(system, center, alpha, beta);
    let sorted = distances.sort_by(leq);
    assert(total_ordering(leq));
    distances.lemma_sort_by_ensures(leq);
    assert forall|i: int, j: int| 0 <= i < j < sorted.len() implies sorted[i] <= sorted[j] by {
        assert(leq(sorted[i], sorted[j]));
    }
    assert(sorted.len() == distances.len()) by {
        broadcast use vstd::seq_lib::to_multiset_len;

        assert(sorted.to_multiset().len() == distances.to_multiset().len());
    }
}

/// With the sorted distances calculator, each cell holds what its own
/// column asks for: for a column whose feature names the slot `f`, the
/// distance at slot `f` of the distances around the center of the row, in
/// increasing order, or the cutoff where there are no more than `f`
/// distances.
pub proof fn lemma_cell_value(
    calculator: &SortedDistances,
    systems: Seq<SystemView>,
    samples: IndexesView,
    features: IndexesView,
    row: int,
    column: int,
)
    requires
        calculator.valid_features(features),
        0 <= row < samples.count(),
        0 <= column < features.count(),
    ensures
        ({
            let sample = samples.rows[row];
            let slot = features.rows[column][0].as_nat() as int;
            let sorted = distances_around(
                systems[sample[0].as_nat() as int],
                sample[1]->Unsigned_0,
                sample[2]->Unsigned_0,
                sample[3]->Unsigned_0,
            ).sort_by(key_leq());
            expected_values(calculator, systems, samples, features)[row][column] == if slot
                < sorted.len() {
                sorted[slot]
            } else {
                calculator.cutoff_spec()
            }
        }),
{
}

/// Every distance around an atom is the distance of a pair of the system.
proof fn lemma_distances_of_pairs(
    system: SystemView,
    center: usize,
    alpha: usize,
    beta: usize,
    upto: nat,
    distance: u64,
)
    requires
        upto <= system.pairs.len(),
        distances_upto(system, center, alpha, beta, upto).contains(distance),
    ensures
        exists|j: int| 0 <= j < upto && (#[trigger] system.pairs[j]).distance == distance,
    decreases upto,
{
    if upto > 0 {
        let before = distances_upto(system, center, alpha, beta, (upto - 1) as nat);
        let pair = system.pairs[upto - 1];
        let all = distances_upto(system, center, alpha, beta, upto);
        let i = choose|i: int| 0 <= i < all.len() && all[i] == distance;
        if i < before.len() {
            assert(before[i] == distance);
            assert(before.contains(distance));
            lemma_distances_of_pairs(system, center, alpha, beta, (upto - 1) as nat, distance);
        } else {
            assert(distance == pair.distance);
        }
    }
}

/// Each row of the sorted distances calculator is in increasing order, as
/// keys and as numbers, and holds the cutoff wherever the atom has no more
/// neighbors: the row has as many slots as the calculator has neighbors, the
/// distances come first, and none of them is larger than the cutoff.
pub proof fn lemma_row_shape(
    calculator: &SortedDistances,
    system: SystemView,
    center: usize,
    alpha: usize,
    beta: usize,
)
    requires
        system.wf(),
        system.searched(calculator.cutoff_spec()),
    ensures
        calculator.neighbor_vector(system, center, alpha, beta).len()
            == calculator.max_neighbors_spec(),
        non_decreasing(calculator.neighbor_vector(system, center, alpha, beta)),
        forall|i: int, j: int|
            0 <= i < j < calculator.max_neighbors_spec() ==> real_rank(
                calculator.neighbor_vector(system, center, alpha, beta)[i],
            ) <= real_rank(calculator.neighbor_vector(system, center, alpha, beta)[j]),
        forall|slot: int|
            distances_around(system, center, alpha, beta).len() <= slot
                < calculator.max_neighbors_spec() ==> calculator.neighbor_vector(
                system,
                center,
                alpha,
                beta,
            )[slot] == calculator.cutoff_spec(),
{
    let leq = key_leq();
    let distances = distances_around(system, center, alpha, beta);
    let sorted = distances.sort_by(leq);
    let vector = calculator.neighbor_vector(system, center, alpha, beta);
    assert(total_ordering(leq));
    distances.lemma_sort_by_ensures(leq);
    assert(sorted.len() == distances.len()) by {
        broadcast use vstd::seq_lib::to_multiset_len;

        assert(sorted.to_multiset().len() == distances.to_multiset().len());
    }
    assert forall|i: int| 0 <= i < sorted.len() implies sorted[i] <= calculator.cutoff_spec() by {
        assert(sorted.contains(sorted[i]));
        assert(distances.contains(sorted[i]));
        lemma_distances_of_pairs(system, center, alpha, beta, system.pairs.len(), sorted[i]);
        let j = choose|j: int|
            0 <= j < system.pairs.len() && (#[trigger] system.pairs[j]).distance == sorted[i];
        assert(system.admits(calculator.cutoff_spec(), system.pairs[j]));
    }
    assert forall|i: int, j: int| 0 <= i < j < vector.len() implies vector[i] <= vector[j] by {
        if j < sorted.len() {
            assert(leq(sorted[i], sorted[j]));
        }
    }
}

} // verus!
