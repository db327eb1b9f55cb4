//! Environment definitions: the rules that give the full sample space of a
//! calculator for a list of systems, and the samples of its gradients.

use vstd::prelude::*;
use crate::indexes::{name_texts, IndexValue, Indexes, IndexesBuilder, IndexesView};
use crate::system::{all_searched, system_views, Pair, SimpleSystem, SystemView};

verus! {

/// What identifies one row of an atom-centered, species-resolved sample
/// space, or of its gradients.
#[derive(Clone, Copy, Debug, PartialEq, Eq, Structural)]
pub struct EnvironmentKey {
    /// The position of the system in the list of systems.
    pub structure: usize,
    /// The index of the central atom in its system.
    pub center: usize,
    /// The species of the central atom.
    pub species_center: usize,
    /// The species of the neighbors taken into account.
    pub species_neighbor: usize,
    /// For a gradient sample, the index of the neighbor with respect to
    /// which the gradient is taken; 0 for a sample.
    pub neighbor: usize,
}

/// The lexicographic order of the keys, by structure, center, species of the
/// center, species of the neighbor, and neighbor.
pub open spec fn key_lt(a: EnvironmentKey, b: EnvironmentKey) -> bool {
    ||| a.structure < b.structure
    ||| a.structure == b.structure && a.center < b.center
    ||| a.structure == b.structure && a.center == b.center && a.species_center < b.species_center
    ||| a.structure == b.structure && a.center == b.center && a.species_center == b.species_center
        && a.species_neighbor < b.species_neighbor
    ||| a.structure == b.structure && a.center == b.center && a.species_center == b.species_center
        && a.species_neighbor == b.species_neighbor && a.neighbor < b.neighbor
}

/// Whether each key of the list comes before all the keys after it: the list
/// is sorted and holds no key twice.
pub open spec fn strictly_increasing(keys: Seq<EnvironmentKey>) -> bool {
    forall|i: int, j: int| 0 <= i < j < keys.len() ==> key_lt(keys[i], keys[j])
}

/// The sample around the first atom of `pair`, in the system at position
/// `structure`.
pub open spec fn first_sample(system: SystemView, structure: usize, pair: Pair) -> EnvironmentKey {
    EnvironmentKey {
        structure,
        center: pair.first,
        species_center: system.species[pair.first as int],
        species_neighbor: system.species[pair.second as int],
        neighbor: 0,
    }
}

/// The sample around the second atom of `pair`, in the system at position
/// `structure`.
pub open spec fn second_sample(system: SystemView, structure: usize, pair: Pair) -> EnvironmentKey {
    EnvironmentKey {
        structure,
        center: pair.second,
        species_center: system.species[pair.second as int],
        species_neighbor: system.species[pair.first as int],
        neighbor: 0,
    }
}

/// Whether one of the first `upto` pairs of `system` has `key` as the sample
/// around one of its two atoms.
pub open spec fn is_sample_upto(system: SystemView, upto: int, key: EnvironmentKey) -> bool {
    exists|j: int|
        0 <= j < upto && j < system.pairs.len() && (key == first_sample(
            system,
            key.structure,
            #[trigger] system.pairs[j],
        ) || key == second_sample(system, key.structure, system.pairs[j]))
}

/// Whether `key` is a sample of the systems: an atom of one of the systems,
/// with its species, and the species of one of its neighbors.
pub open spec fn is_sample(systems: Seq<SystemView>, key: EnvironmentKey) -> bool {
    &&& key.structure < systems.len()
    &&& is_sample_upto(systems[key.structure as int], systems[key.structure as int].pairs.len() as int, key)
}

/// Whether `keys` is the full sample space of the systems: every sample
/// once, in increasing order.
pub open spec fn is_sample_list(systems: Seq<SystemView>, keys: Seq<EnvironmentKey>) -> bool {
    &&& strictly_increasing(keys)
    &&& forall|key: EnvironmentKey| #[trigger] keys.contains(key) <==> is_sample(systems, key)
}

/// The full sample space of the systems: every sample once, in increasing
/// order.
pub open spec fn sample_keys(systems: Seq<SystemView>) -> Seq<EnvironmentKey> {
    choose|keys: Seq<EnvironmentKey>| is_sample_list(systems, keys)
}

/// The tuple that stands for a sample in an index space.
pub open spec fn sample_row(key: EnvironmentKey) -> Seq<IndexValue> {
    seq![
        IndexValue::Unsigned(key.structure),
        IndexValue::Unsigned(key.center),
        IndexValue::Unsigned(key.species_center),
        IndexValue::Unsigned(key.species_neighbor),
    ]
}

/// The sample that a tuple of four unsigned values stands for.
pub open spec fn row_sample(row: Seq<IndexValue>) -> EnvironmentKey {
    EnvironmentKey {
        structure: row[0]->Unsigned_0,
        center: row[1]->Unsigned_0,
        species_center: row[2]->Unsigned_0,
        species_neighbor: row[3]->Unsigned_0,
        neighbor: 0,
    }
}

/// Whether a tuple has the form of a sample: four unsigned values.
pub open spec fn is_sample_row(row: Seq<IndexValue>) -> bool {
    &&& row.len() == 4
    &&& row[0] is Unsigned
    &&& row[1] is Unsigned
    &&& row[2] is Unsigned
    &&& row[3] is Unsigned
}

/// The tuple that stands for a gradient sample in an index space.
pub open spec fn gradient_row(key: EnvironmentKey) -> Seq<IndexValue> {
    sample_row(key).push(IndexValue::Unsigned(key.neighbor))
}

/// The names of the columns of a sample space.
pub open spec fn sample_names() -> Seq<Seq<char>> {
    seq!["structure"@, "center"@, "species_center"@, "species_neighbor"@]
}

/// The names of the columns of the gradient samples.
pub open spec fn gradient_names() -> Seq<Seq<char>> {
    sample_names().push("neighbor"@)
}

/// The sample that a gradient sample belongs to.
pub open spec fn without_neighbor(key: EnvironmentKey) -> EnvironmentKey {
    EnvironmentKey { neighbor: 0, ..key }
}

/// Whether `key` is a gradient sample of the systems for `samples`: one of
/// the samples, and an atom that is a neighbor of its center with the
/// species that the sample asks for.
pub open spec fn is_gradient_sample(
    systems: Seq<SystemView>,
    samples: Seq<Seq<IndexValue>>,
    key: EnvironmentKey,
) -> bool {
    &&& key.structure < systems.len()
    &&& is_gradient_upto(
        systems[key.structure as int],
        samples,
        systems[key.structure as int].pairs.len() as int,
        key,
    )
}

/// Whether `key` is one of `samples` with a neighbor that one of the first
/// `upto` pairs of `system` gives it.
pub open spec fn is_gradient_upto(
    system: SystemView,
    samples: Seq<Seq<IndexValue>>,
    upto: int,
    key: EnvironmentKey,
) -> bool {
    &&& samples.contains(sample_row(key))
    &&& exists|j: int|
        0 <= j < upto && j < system.pairs.len() && is_gradient_of(system, #[trigger] system.pairs[j], key)
}

/// Whether `pair` makes `key` a gradient sample: `key` is the sample around
/// one atom of the pair, with the other atom as the neighbor.
pub open spec fn is_gradient_of(system: SystemView, pair: Pair, key: EnvironmentKey) -> bool {
    ||| without_neighbor(key) == first_sample(system, key.structure, pair) && key.neighbor == pair.second
    ||| without_neighbor(key) == second_sample(system, key.structure, pair) && key.neighbor == pair.first
}

/// Whether `keys` holds every gradient sample of the systems for `samples`
/// once, in increasing order.
pub open spec fn is_gradient_list(
    systems: Seq<SystemView>,
    samples: Seq<Seq<IndexValue>>,
    keys: Seq<EnvironmentKey>,
) -> bool {
    &&& strictly_increasing(keys)
    &&& forall|key: EnvironmentKey| #[trigger]
        keys.contains(key) <==> is_gradient_sample(systems, samples, key)
}

/// The gradient samples of the systems for `samples`: each once, in
/// increasing order.
pub open spec fn gradient_keys(systems: Seq<SystemView>, samples: Seq<Seq<IndexValue>>) -> Seq<
    EnvironmentKey,
> {
    choose|keys: Seq<EnvironmentKey>| is_gradient_list(systems, samples, keys)
}

/// Two lists that hold the same keys, each once and in increasing order, are
/// the same list.
pub proof fn lemma_increasing_unique(a: Seq<EnvironmentKey>, b: Seq<EnvironmentKey>)
    requires
        strictly_increasing(a),
        strictly_increasing(b),
        forall|key: EnvironmentKey| a.contains(key) <==> b.contains(key),
    ensures
        a == b,
    decreases a.len(),
{
    if a.len() == 0 {
        if b.len() > 0 {
            assert(b.contains(b[0]));
            assert(a.contains(b[0]));
        }
        assert(a =~= b);
    } else {
        let top = a.last();
        assert(a.contains(top));
        assert(b.contains(top));
        let i = choose|i: int| 0 <= i < b.len() && b[i] == top;
        assert(b.contains(b.last()));
        assert(a.contains(b.last()));
        let j = choose|j: int| 0 <= j < a.len() && a[j] == b.last();
        assert(b.last() == top) by {
            if i < b.len() - 1 {
                assert(key_lt(b[i], b[b.len() - 1]));
                if j < a.len() - 1 {
                    assert(key_lt(a[j], a[a.len() - 1]));
                }
            }
        }
        let a2 = a.drop_last();
        let b2 = b.drop_last();
        assert forall|key: EnvironmentKey| a2.contains(key) <==> b2.contains(key) by {
            if a2.contains(key) {
                let m = choose|m: int| 0 <= m < a2.len() && a2[m] == key;
                assert(a[m] == key);
                assert(key_lt(a[m], a[a.len() - 1]));
                assert(a.contains(key));
                assert(b.contains(key));
                let n = choose|n: int| 0 <= n < b.len() && b[n] == key;
                assert(n < b.len() - 1);
                assert(b2[n] == key);
            }
            if b2.contains(key) {
                let m = choose|m: int| 0 <= m < b2.len() && b2[m] == key;
                assert(b[m] == key);
                assert(key_lt(b[m], b[b.len() - 1]));
                assert(b.contains(key));
                assert(a.contains(key));
                let n = choose|n: int| 0 <= n < a.len() && a[n] == key;
                assert(n < a.len() - 1);
                assert(a2[n] == key);
            }
        }
        assert(strictly_increasing(a2)) by {
            assert forall|x: int, y: int| 0 <= x < y < a2.len() implies key_lt(a2[x], a2[y]) by {
                assert(key_lt(a[x], a[y]));
            }
        }
        assert(strictly_increasing(b2)) by {
            assert forall|x: int, y: int| 0 <= x < y < b2.len() implies key_lt(b2[x], b2[y]) by {
                assert(key_lt(b[x], b[y]));
            }
        }
        lemma_increasing_unique(a2, b2);
        assert(a =~= a2.push(top));
        assert(b =~= b2.push(top));
    }
}

/// A sorted list stays sorted, and gains exactly `key`, when `key` is put at
/// its place in it.
pub proof fn lemma_insert(keys: Seq<EnvironmentKey>, key: EnvironmentKey) -> (with_key: Seq<
    EnvironmentKey,
>)
    requires
        strictly_increasing(keys),
    ensures
        strictly_increasing(with_key),
        forall|k: EnvironmentKey| #[trigger] with_key.contains(k) <==> (keys.contains(k) || k == key),
    decreases keys.len(),
{
    if keys.len() == 0 {
        let with_key = seq![key];
        assert(with_key[0] == key);
        with_key
    } else if key_lt(keys.last(), key) {
        let with_key = keys.push(key);
        assert forall|i: int, j: int| 0 <= i < j < with_key.len() implies key_lt(
            with_key[i],
            with_key[j],
        ) by {
            if j == keys.len() {
                assert(i == keys.len() - 1 || key_lt(keys[i], keys[keys.len() - 1]));
            } else {
                assert(key_lt(keys[i], keys[j]));
            }
        }
        assert forall|k: EnvironmentKey| #[trigger]
            with_key.contains(k) <==> (keys.contains(k) || k == key) by {
            if keys.contains(k) {
                let m = choose|m: int| 0 <= m < keys.len() && keys[m] == k;
                assert(with_key[m] == k);
            }
            if k == key {
                assert(with_key[keys.len() as int] == k);
            }
        }
        with_key
    } else if keys.last() == key {
        assert(keys.contains(key));
        keys
    } else {
        let front = keys.drop_last();
        assert forall|i: int, j: int| 0 <= i < j < front.len() implies key_lt(front[i], front[j]) by {
            assert(key_lt(keys[i], keys[j]));
        }
        let inner = lemma_insert(front, key);
        let with_key = inner.push(keys.last());
        assert forall|i: int, j: int| 0 <= i < j < with_key.len() implies key_lt(
            with_key[i],
            with_key[j],
        ) by {
            if j == inner.len() {
                assert(inner.contains(inner[i]));
                if front.contains(inner[i]) {
                    let m = choose|m: int| 0 <= m < front.len() && front[m] == inner[i];
                    assert(key_lt(keys[m], keys[keys.len() - 1]));
                }
            } else {
                assert(key_lt(inner[i], inner[j]));
            }
        }
        assert forall|k: EnvironmentKey| #[trigger]
            with_key.contains(k) <==> (keys.contains(k) || k == key) by {
            if with_key.contains(k) {
                let m = choose|m: int| 0 <= m < with_key.len() && with_key[m] == k;
                if m < inner.len() {
                    assert(inner.contains(k));
                    if front.contains(k) {
                        let n = choose|n: int| 0 <= n < front.len() && front[n] == k;
                        assert(keys[n] == k);
                    }
                } else {
                    assert(keys[keys.len() - 1] == k);
                }
            }
            if keys.contains(k) {
                let m = choose|m: int| 0 <= m < keys.len() && keys[m] == k;
                if m < front.len() {
                    assert(front[m] == k);
                    assert(front.contains(k));
                    assert(inner.contains(k));
                    let n = choose|n: int| 0 <= n < inner.len() && inner[n] == k;
                    assert(with_key[n] == k);
                } else {
                    assert(with_key[inner.len() as int] == k);
                }
            }
            if k == key {
                assert(inner.contains(k));
                let n = choose|n: int| 0 <= n < inner.len() && inner[n] == k;
                assert(with_key[n] == k);
            }
        }
        with_key
    }
}

/// The samples that the first `upto` pairs of one system give can be listed
/// once each, in increasing order.
proof fn lemma_system_samples(system: SystemView, structure: usize, upto: nat) -> (keys: Seq<
    EnvironmentKey,
>)
    ensures
        strictly_increasing(keys),
        forall|k: EnvironmentKey| #[trigger]
            keys.contains(k) <==> (k.structure == structure && is_sample_upto(system, upto as int, k)),
    decreases upto,
{
    if upto == 0 {
        let keys = Seq::<EnvironmentKey>::empty();
        keys
    } else if upto > system.pairs.len() {
        let keys = lemma_system_samples(system, structure, (upto - 1) as nat);
        assert forall|k: EnvironmentKey| #[trigger]
            keys.contains(k) <==> (k.structure == structure && is_sample_upto(system, upto as int, k)) by {
            if is_sample_upto(system, upto as int, k) {
                let w = choose|w: int|
                    0 <= w < upto && w < system.pairs.len() && (k == first_sample(
                        system,
                        k.structure,
                        #[trigger] system.pairs[w],
                    ) || k == second_sample(system, k.structure, system.pairs[w]));
                assert(0 <= w < upto - 1);
                assert(is_sample_upto(system, upto - 1, k));
            }
            if is_sample_upto(system, upto - 1, k) {
                let w = choose|w: int|
                    0 <= w < upto - 1 && w < system.pairs.len() && (k == first_sample(
                        system,
                        k.structure,
                        #[trigger] system.pairs[w],
                    ) || k == second_sample(system, k.structure, system.pairs[w]));
                assert(0 <= w < upto);
                assert(is_sample_upto(system, upto as int, k));
            }
        }
        keys
    } else {
        let before = lemma_system_samples(system, structure, (upto - 1) as nat);
        let pair = system.pairs[upto - 1];
        let first = first_sample(system, structure, pair);
        let second = second_sample(system, structure, pair);
        let middle = lemma_insert(before, first);
        let keys = lemma_insert(middle, second);
        assert forall|k: EnvironmentKey| #[trigger]
            keys.contains(k) <==> (k.structure == structure && is_sample_upto(system, upto as int, k)) by {
            assert(keys.contains(k) <==> (before.contains(k) || k == first || k == second));
            if k.structure == structure {
                if is_sample_upto(system, upto as int, k) {
                    let w = choose|w: int|
                        0 <= w < upto && w < system.pairs.len() && (k == first_sample(
                            system,
                            k.structure,
                            #[trigger] system.pairs[w],
                        ) || k == second_sample(system, k.structure, system.pairs[w]));
                    if w < upto - 1 {
                        assert(is_sample_upto(system, upto - 1, k));
                    }
                }
                if is_sample_upto(system, upto - 1, k) {
                    let w = choose|w: int|
                        0 <= w < upto - 1 && w < system.pairs.len() && (k == first_sample(
                            system,
                            k.structure,
                            #[trigger] system.pairs[w],
                        ) || k == second_sample(system, k.structure, system.pairs[w]));
                    assert(0 <= w < upto);
                    assert(is_sample_upto(system, upto as int, k));
                }
                if k == first || k == second {
                    assert(k == first_sample(system, k.structure, system.pairs[upto - 1]) || k
                        == second_sample(system, k.structure, system.pairs[upto - 1]));
                    assert(is_sample_upto(system, upto as int, k));
                }
            }
        }
        keys
    }
}

/// The samples of the first `upto` systems can be listed once each, in
/// increasing order.
proof fn lemma_samples_upto(systems: Seq<SystemView>, upto: nat) -> (keys: Seq<EnvironmentKey>)
    requires
        upto <= systems.len(),
        systems.len() <= usize::MAX,
    ensures
        strictly_increasing(keys),
        forall|k: EnvironmentKey| #[trigger]
            keys.contains(k) <==> (k.structure < upto && is_sample(systems, k)),
    decreases upto,
{
    if upto == 0 {
        Seq::<EnvironmentKey>::empty()
    } else {
        let before = lemma_samples_upto(systems, (upto - 1) as nat);
        let structure = (upto - 1) as usize;
        let system = systems[upto - 1];
        let here = lemma_system_samples(system, structure, system.pairs.len());
        let keys = before + here;
        assert forall|i: int, j: int| 0 <= i < j < keys.len() implies key_lt(keys[i], keys[j]) by {
            if j < before.len() {
                assert(key_lt(before[i], before[j]));
            } else if i >= before.len() {
                assert(key_lt(here[i - before.len()], here[j - before.len()]));
            } else {
                assert(before.contains(before[i]));
                assert(here.contains(here[j - before.len()]));
            }
        }
        assert forall|k: EnvironmentKey| #[trigger]
            keys.contains(k) <==> (k.structure < upto && is_sample(systems, k)) by {
            if keys.contains(k) {
                let m = choose|m: int| 0 <= m < keys.len() && keys[m] == k;
                if m < before.len() {
                    assert(before.contains(before[m]));
                } else {
                    assert(here.contains(here[m - before.len()]));
                }
            }
            if k.structure < upto && is_sample(systems, k) {
                if k.structure < upto - 1 {
                    assert(before.contains(k));
                    let m = choose|m: int| 0 <= m < before.len() && before[m] == k;
                    assert(keys[m] == k);
                } else {
                    assert(here.contains(k));
                    let m = choose|m: int| 0 <= m < here.len() && here[m] == k;
                    assert(keys[before.len() + m] == k);
                }
            }
        }
        keys
    }
}

/// The full sample space of a list of systems exists: `sample_keys` holds
/// every sample once, in increasing order.
pub proof fn lemma_sample_keys(systems: Seq<SystemView>)
    requires
        systems.len() <= usize::MAX,
    ensures
        is_sample_list(systems, sample_keys(systems)),
{
    let keys = lemma_samples_upto(systems, systems.len());
    assert(is_sample_list(systems, keys));
}

/// The gradient samples that the first `upto` pairs of one system give for
/// `samples` can be listed once each, in increasing order.
proof fn lemma_system_gradients(
    system: SystemView,
    samples: Seq<Seq<IndexValue>>,
    structure: usize,
    upto: nat,
) -> (keys: Seq<EnvironmentKey>)
    ensures
        strictly_increasing(keys),
        forall|k: EnvironmentKey| #[trigger]
            keys.contains(k) <==> (k.structure == structure && is_gradient_upto(
                system,
                samples,
                upto as int,
                k,
            )),
    decreases upto,
{
    if upto == 0 {
        Seq::<EnvironmentKey>::empty()
    } else {
        let before = lemma_system_gradients(system, samples, structure, (upto - 1) as nat);
        if upto > system.pairs.len() {
            assert forall|k: EnvironmentKey| #[trigger]
                before.contains(k) <==> (k.structure == structure && is_gradient_upto(
                    system,
                    samples,
                    upto as int,
                    k,
                )) by {
                if is_gradient_upto(system, samples, upto as int, k) {
                    let w = choose|w: int|
                        0 <= w < upto && w < system.pairs.len() && is_gradient_of(
                            system,
                            #[trigger] system.pairs[w],
                            k,
                        );
                    assert(0 <= w < upto - 1);
                    assert(is_gradient_upto(system, samples, upto - 1, k));
                }
                if is_gradient_upto(system, samples, upto - 1, k) {
                    let w = choose|w: int|
                        0 <= w < upto - 1 && w < system.pairs.len() && is_gradient_of(
                            system,
                            #[trigger] system.pairs[w],
                            k,
                        );
                    assert(0 <= w < upto);
                    assert(is_gradient_upto(system, samples, upto as int, k));
                }
            }
            before
        } else {
            let pair = system.pairs[upto - 1];
            let first = EnvironmentKey { neighbor: pair.second, ..first_sample(system, structure, pair) };
            let second = EnvironmentKey { neighbor: pair.first, ..second_sample(system, structure, pair) };
            let has_first = samples.contains(sample_row(first));
            let has_second = samples.contains(sample_row(second));
            let middle = if has_first {
                lemma_insert(before, first)
            } else {
                before
            };
            let keys = if has_second {
                lemma_insert(middle, second)
            } else {
                middle
            };
            assert forall|k: EnvironmentKey| #[trigger]
                keys.contains(k) <==> (k.structure == structure && is_gradient_upto(
                    system,
                    samples,
                    upto as int,
                    k,
                )) by {
                assert(keys.contains(k) <==> (before.contains(k) || (has_first && k == first) || (
                has_second && k == second)));
                if k.structure == structure {
                    if is_gradient_upto(system, samples, upto as int, k) {
                        let w = choose|w: int|
                            0 <= w < upto && w < system.pairs.len() && is_gradient_of(
                                system,
                                #[trigger] system.pairs[w],
                                k,
                            );
                        if w < upto - 1 {
                            assert(is_gradient_upto(system, samples, upto - 1, k));
                        } else {
                            assert(is_gradient_of(system, pair, k));
                            assert(k == first || k == second);
                        }
                    }
                    if is_gradient_upto(system, samples, upto - 1, k) {
                        let w = choose|w: int|
                            0 <= w < upto - 1 && w < system.pairs.len() && is_gradient_of(
                                system,
                                #[trigger] system.pairs[w],
                                k,
                            );
                        assert(0 <= w < upto);
                        assert(is_gradient_upto(system, samples, upto as int, k));
                    }
                    if (has_first && k == first) || (has_second && k == second) {
                        assert(is_gradient_of(system, system.pairs[upto - 1], k));
                        assert(is_gradient_upto(system, samples, upto as int, k));
                    }
                }
            }
            keys
        }
    }
}

/// The gradient samples of the first `upto` systems for `samples` can be
/// listed once each, in increasing order.
proof fn lemma_gradients_upto(systems: Seq<SystemView>, samples: Seq<Seq<IndexValue>>, upto: nat) -> (keys:
    Seq<EnvironmentKey>)
    requires
        upto <= systems.len(),
        systems.len() <= usize::MAX,
    ensures
        strictly_increasing(keys),
        forall|k: EnvironmentKey| #[trigger]
            keys.contains(k) <==> (k.structure < upto && is_gradient_sample(systems, samples, k)),
    decreases upto,
{
    if upto == 0 {
        Seq::<EnvironmentKey>::empty()
    } else {
        let before = lemma_gradients_upto(systems, samples, (upto - 1) as nat);
        let structure = (upto - 1) as usize;
        let system = systems[upto - 1];
        let here = lemma_system_gradients(system, samples, structure, system.pairs.len());
        let keys = before + here;
        assert forall|i: int, j: int| 0 <= i < j < keys.len() implies key_lt(keys[i], keys[j]) by {
            if j < before.len() {
                assert(key_lt(before[i], before[j]));
            } else if i >= before.len() {
                assert(key_lt(here[i - before.len()], here[j - before.len()]));
            } else {
                assert(before.contains(before[i]));
                assert(here.contains(here[j - before.len()]));
            }
        }
        assert forall|k: EnvironmentKey| #[trigger]
            keys.contains(k) <==> (k.structure < upto && is_gradient_sample(systems, samples, k)) by {
            if keys.contains(k) {
                let m = choose|m: int| 0 <= m < keys.len() && keys[m] == k;
                if m < before.len() {
                    assert(before.contains(before[m]));
                } else {
                    assert(here.contains(here[m - before.len()]));
                }
            }
            if k.structure < upto && is_gradient_sample(systems, samples, k) {
                if k.structure < upto - 1 {
                    assert(before.contains(k));
                    let m = choose|m: int| 0 <= m < before.len() && before[m] == k;
                    assert(keys[m] == k);
                } else {
                    assert(here.contains(k));
                    let m = choose|m: int| 0 <= m < here.len() && here[m] == k;
                    assert(keys[before.len() + m] == k);
                }
            }
        }
        keys
    }
}

/// The gradient samples of a list of systems for `samples` exist:
/// `gradient_keys` holds each of them once, in increasing order.
pub proof fn lemma_gradient_keys(systems: Seq<SystemView>, samples: Seq<Seq<IndexValue>>)
    requires
        systems.len() <= usize::MAX,
    ensures
        is_gradient_list(systems, samples, gradient_keys(systems, samples)),
{
    let keys = lemma_gradients_upto(systems, samples, systems.len());
    assert(is_gradient_list(systems, samples, keys));
}

/// Whether `a` comes before `b` in the order of the keys.
pub fn key_less(a: &EnvironmentKey, b: &EnvironmentKey) -> (less: bool)
    ensures
        less == key_lt(*a, *b),
{
    if a.structure != b.structure {
        a.structure < b.structure
    } else if a.center != b.center {
        a.center < b.center
    } else if a.species_center != b.species_center {
        a.species_center < b.species_center
    } else if a.species_neighbor != b.species_neighbor {
        a.species_neighbor < b.species_neighbor
    } else {
        a.neighbor < b.neighbor
    }
}

/// Puts `key` at its place in the sorted list `keys`, unless the list holds
/// it already.
pub fn insert_key(keys: &mut Vec<EnvironmentKey>, key: EnvironmentKey)
    requires
        strictly_increasing(old(keys)@),
    ensures
        strictly_increasing(final(keys)@),
        forall|k: EnvironmentKey| #[trigger]
            final(keys)@.contains(k) <==> (old(keys)@.contains(k) || k == key),
{
    let mut at: usize = keys.len();
    while at > 0 && !key_less(&keys[at - 1], &key)
        invariant
            at <= keys@.len(),
            keys@ == old(keys)@,
            forall|k: int| at <= k < keys@.len() ==> !key_lt(#[trigger] keys@[k], key),
        decreases at,
    {
        at -= 1;
    }
    if at < keys.len() && keys[at] == key {
        assert(keys@.contains(key));
        return ;
    }
    let ghost before = keys@;
    keys.insert(at, key);
    proof {
        let after = keys@;
        assert(after == before.insert(at as int, key));
        assert forall|i: int, j: int| 0 <= i < j < after.len() implies key_lt(after[i], after[j]) by {
            if j < at {
                assert(key_lt(before[i], before[j]));
            } else if j == at {
                assert(key_lt(before[i], before[at - 1]) || i == at - 1);
            } else if i < at {
                assert(key_lt(before[i], before[j - 1]));
            } else if i == at {
                assert(!key_lt(before[j - 1], key));
                assert(key_lt(before[at as int], before[j - 1]) || j - 1 == at);
            } else {
                assert(key_lt(before[i - 1], before[j - 1]));
            }
        }
        assert forall|k: EnvironmentKey| #[trigger]
            after.contains(k) <==> (before.contains(k) || k == key) by {
            if after.contains(k) {
                let m = choose|m: int| 0 <= m < after.len() && after[m] == k;
                if m < at {
                    assert(before[m] == k);
                } else if m > at {
                    assert(before[m - 1] == k);
                }
            }
            if before.contains(k) {
                let m = choose|m: int| 0 <= m < before.len() && before[m] == k;
                if m < at {
                    assert(after[m] == k);
                } else {
                    assert(after[m + 1] == k);
                }
            }
            if k == key {
                assert(after[at as int] == k);
            }
        }
    }
}

/// The index space that stands for a list of samples.
pub open spec fn sample_indexes(keys: Seq<EnvironmentKey>) -> IndexesView {
    IndexesView { names: sample_names(), rows: Seq::new(keys.len(), |i: int| sample_row(keys[i])) }
}

/// The index space that stands for a list of gradient samples.
pub open spec fn gradient_indexes(keys: Seq<EnvironmentKey>) -> IndexesView {
    IndexesView { names: gradient_names(), rows: Seq::new(keys.len(), |i: int| gradient_row(keys[i])) }
}

/// The definition of a sample space: which rows a calculator can fill for a
/// list of systems, and which rows their gradients have.
pub trait EnvironmentIndexes: Sized {
    /// The names of the columns of the sample space.
    spec fn names_spec(&self) -> Seq<Seq<char>>;

    /// Whether the systems hold what this definition reads from them.
    spec fn accepts(&self, systems: Seq<SystemView>) -> bool;

    /// The full sample space of the systems.
    spec fn indexes_spec(&self, systems: Seq<SystemView>) -> IndexesView;

    /// Whether this kind of environment has gradients.
    spec fn has_gradients(&self) -> bool;

    /// The samples of the gradients of `samples`.
    spec fn gradients_spec(&self, systems: Seq<SystemView>, samples: IndexesView) -> IndexesView;

    /// Whether the systems hold what this definition reads from them.
    fn ready(&self, systems: &[SimpleSystem]) -> (ready: bool)
        ensures
            ready == self.accepts(system_views(systems@)),
    ;

    /// The names of the columns of the sample space: at least one.
    fn names(&self) -> (names: Vec<&'static str>)
        ensures
            name_texts(names@) == self.names_spec(),
            names@.len() > 0,
    ;

    /// The full sample space of the systems.
    fn indexes(&self, systems: &[SimpleSystem]) -> (indexes: Indexes)
        requires
            self.accepts(system_views(systems@)),
        ensures
            indexes@ == self.indexes_spec(system_views(systems@)),
            indexes@.names == self.names_spec(),
            indexes.wf(),
    ;

    /// The samples of the gradients of `samples`, or nothing where this kind
    /// of environment has no gradients.
    fn gradients_for(&self, systems: &[SimpleSystem], samples: &Indexes) -> (gradients: Option<
        Indexes,
    >)
        requires
            self.accepts(system_views(systems@)),
        ensures
            match gradients {
                Some(gradients) => self.has_gradients() && gradients.wf() && gradients@
                    == self.gradients_spec(system_views(systems@), samples@),
                None => !self.has_gradients(),
            },
    ;
}

/// Atom-centered environments that tell species apart: one sample for each
/// atom and each species found among its neighbors within the cutoff.
#[derive(Clone, Copy, Debug)]
pub struct AtomSpeciesEnvironment {
    /// The key of the cutoff of the neighbor search.
    pub cutoff: u64,
}

impl AtomSpeciesEnvironment {
    /// The environments of the atoms, with the neighbors within `cutoff`.
    pub fn new(cutoff: u64) -> (environment: AtomSpeciesEnvironment)
        ensures
            environment == (AtomSpeciesEnvironment { cutoff }),
    {
        AtomSpeciesEnvironment { cutoff }
    }
}

/// A tuple is a row of the full sample space exactly when it has the form of
/// a sample and stands for a sample of the systems.
pub proof fn lemma_sample_rows(systems: Seq<SystemView>, row: Seq<IndexValue>)
    requires
        systems.len() <= usize::MAX,
    ensures
        sample_indexes(sample_keys(systems)).rows.contains(row) <==> (is_sample_row(row) && is_sample(
            systems,
            row_sample(row),
        )),
{
    lemma_sample_keys(systems);
    let keys = sample_keys(systems);
    let rows = sample_indexes(keys).rows;
    if rows.contains(row) {
        let i = choose|i: int| 0 <= i < rows.len() && rows[i] == row;
        assert(keys.contains(keys[i]));
        assert(is_sample(systems, keys[i]));
        assert(row_sample(row) == keys[i]);
    }
    if is_sample_row(row) && is_sample(systems, row_sample(row)) {
        assert(keys.contains(row_sample(row)));
        let i = choose|i: int| 0 <= i < keys.len() && keys[i] == row_sample(row);
        assert(rows[i] =~= row);
    }
}

/// The vector that holds the tuple of a sample.
fn sample_tuple(key: &EnvironmentKey) -> (row: Vec<IndexValue>)
    ensures
        row@ == sample_row(*key),
{
    let mut row: Vec<IndexValue> = Vec::new();
    row.push(IndexValue::Unsigned(key.structure));
    row.push(IndexValue::Unsigned(key.center));
    row.push(IndexValue::Unsigned(key.species_center));
    row.push(IndexValue::Unsigned(key.species_neighbor));
    assert(row@ =~= sample_row(*key));
    row
}

/// The samples of the systems: each once, in increasing order.
fn collect_samples(systems: &[SimpleSystem]) -> (keys: Vec<EnvironmentKey>)
    ensures
        keys@ == sample_keys(system_views(systems@)),
        is_sample_list(system_views(systems@), keys@),
{
    let ghost views = system_views(systems@);
    let mut keys: Vec<EnvironmentKey> = Vec::new();
    let mut s: usize = 0;
    while s < systems.len()
        invariant
            s <= systems@.len(),
            views == system_views(systems@),
            strictly_increasing(keys@),
            forall|k: EnvironmentKey| #[trigger]
                keys@.contains(k) <==> (k.structure < s && is_sample(views, k)),
        decreases systems@.len() - s,
    {
        let system = &systems[s];
        let species = system.species();
        let pairs = system.pairs();
        let ghost view = views[s as int];
        assert(view == systems@[s as int]@);
        let mut j: usize = 0;
        while j < pairs.len()
            invariant
                s < systems@.len(),
                j <= pairs@.len(),
                views == system_views(systems@),
                view == views[s as int],
                view.wf(),
                pairs@ == view.pairs,
                species@ == view.species,
                strictly_increasing(keys@),
                forall|k: EnvironmentKey| #[trigger]
                    keys@.contains(k) <==> ((k.structure < s && is_sample(views, k)) || (k.structure
                        == s && is_sample_upto(view, j as int, k))),
            decreases pairs@.len() - j,
        {
            let pair = pairs[j];
            assert(view.admits(view.cutoff->0, view.pairs[j as int]));
            let first = EnvironmentKey {
                structure: s,
                center: pair.first,
                species_center: species[pair.first],
                species_neighbor: species[pair.second],
                neighbor: 0,
            };
            let second = EnvironmentKey {
                structure: s,
                center: pair.second,
                species_center: species[pair.second],
                species_neighbor: species[pair.first],
                neighbor: 0,
            };
            let ghost before = keys@;
            insert_key(&mut keys, first);
            insert_key(&mut keys, second);
            proof {
                assert(first == first_sample(view, s, view.pairs[j as int]));
                assert(second == second_sample(view, s, view.pairs[j as int]));
                assert forall|k: EnvironmentKey| #[trigger]
                    keys@.contains(k) <==> ((k.structure < s && is_sample(views, k)) || (k.structure
                        == s && is_sample_upto(view, j + 1, k))) by {
                    assert(keys@.contains(k) <==> (before.contains(k) || k == first || k == second));
                    if k.structure == s {
                        if is_sample_upto(view, j + 1, k) {
                            let w = choose|w: int|
                                0 <= w < j + 1 && w < view.pairs.len() && (k == first_sample(
                                    view,
                                    k.structure,
                                    #[trigger] view.pairs[w],
                                ) || k == second_sample(view, k.structure, view.pairs[w]));
                            if w < j {
                                assert(is_sample_upto(view, j as int, k));
                            }
                        }
                        if is_sample_upto(view, j as int, k) {
                            let w = choose|w: int|
                                0 <= w < j && w < view.pairs.len() && (k == first_sample(
                                    view,
                                    k.structure,
                                    #[trigger] view.pairs[w],
                                ) || k == second_sample(view, k.structure, view.pairs[w]));
                            assert(0 <= w < j + 1);
                            assert(is_sample_upto(view, j + 1, k));
                        }
                        if k == first || k == second {
                            assert(k == first_sample(view, k.structure, view.pairs[j as int]) || k
                                == second_sample(view, k.structure, view.pairs[j as int]));
                            assert(is_sample_upto(view, j + 1, k));
                        }
                    }
                }
            }
            j += 1;
        }
        proof {
            assert forall|k: EnvironmentKey| #[trigger]
                keys@.contains(k) <==> (k.structure < s + 1 && is_sample(views, k)) by {
                if k.structure == s {
                    assert(is_sample(views, k) <==> is_sample_upto(view, view.pairs.len() as int, k));
                }
            }
        }
        s += 1;
    }
    proof {
        assert(is_sample_list(views, keys@));
        lemma_increasing_unique(keys@, sample_keys(views));
    }
    keys
}

impl EnvironmentIndexes for AtomSpeciesEnvironment {
    open spec fn names_spec(&self) -> Seq<Seq<char>> {
        sample_names()
    }

    open spec fn accepts(&self, systems: Seq<SystemView>) -> bool {
        all_searched(systems, self.cutoff)
    }

    open spec fn indexes_spec(&self, systems: Seq<SystemView>) -> IndexesView {
        sample_indexes(sample_keys(systems))
    }

    open spec fn has_gradients(&self) -> bool {
        true
    }

    open spec fn gradients_spec(&self, systems: Seq<SystemView>, samples: IndexesView) -> IndexesView {
        gradient_indexes(gradient_keys(systems, samples.rows))
    }

    fn ready(&self, systems: &[SimpleSystem]) -> (ready: bool) {
        let ghost views = system_views(systems@);
        let mut i: usize = 0;
        while i < systems.len()
            invariant
                i <= systems@.len(),
                views == system_views(systems@),
                forall|k: int| 0 <= k < i ==> (#[trigger] views[k]).wf() && views[k].searched(self.cutoff),
            decreases systems@.len() - i,
        {
            let pairs = systems[i].pairs();
            assert(views[i as int] == systems@[i as int]@);
            match systems[i].cutoff() {
                Some(cutoff) => {
                    if cutoff != self.cutoff {
                        assert(!views[i as int].searched(self.cutoff));
                        return false;
                    }
                },
                None => {
                    assert(!views[i as int].searched(self.cutoff));
                    return false;
                },
            }
            i += 1;
        }
        true
    }

    fn names(&self) -> (names: Vec<&'static str>) {
        let mut names: Vec<&'static str> = Vec::new();
        names.push("structure");
        names.push("center");
        names.push("species_center");
        names.push("species_neighbor");
        assert(name_texts(names@).len() == 4);
        assert(name_texts(names@)[0] == "structure"@);
        assert(name_texts(names@)[1] == "center"@);
        assert(name_texts(names@)[2] == "species_center"@);
        assert(name_texts(names@)[3] == "species_neighbor"@);
        assert(name_texts(names@) =~= sample_names());
        names
    }

    fn indexes(&self, systems: &[SimpleSystem]) -> (indexes: Indexes) {
        let keys = collect_samples(systems);
        let mut builder = IndexesBuilder::new(self.names());
        assert(builder@.rows =~= sample_indexes(keys@.take(0)).rows);
        let mut i: usize = 0;
        while i < keys.len()
            invariant
                i <= keys@.len(),
                builder@ == sample_indexes(keys@.take(i as int)),
            decreases keys@.len() - i,
        {
            let row = sample_tuple(&keys[i]);
            builder.add(row.as_slice());
            assert(builder@.rows =~= sample_indexes(keys@.take(i + 1)).rows);
            i += 1;
        }
        assert(keys@.take(keys@.len() as int) =~= keys@);
        builder.finish()
    }

    fn gradients_for(&self, systems: &[SimpleSystem], samples: &Indexes) -> (gradients: Option<
        Indexes,
    >) {
        let keys = collect_gradients(systems, samples);
        let mut names = self.names();
        let ghost short = names@;
        assert(name_texts(short).len() == sample_names().len());
        assert(short.len() == 4);
        names.push("neighbor");
        assert(names@.len() == 5);
        assert forall|i: int| 0 <= i < 5 implies #[trigger] name_texts(names@)[i] == gradient_names()[i] by {
            if i < 4 {
                assert(names@[i] == short[i]);
                assert(name_texts(names@)[i] == name_texts(short)[i]);
                assert(gradient_names()[i] == sample_names()[i]);
            }
        }
        assert(name_texts(names@) =~= gradient_names());
        let mut builder = IndexesBuilder::new(names);
        assert(builder@.rows =~= gradient_indexes(keys@.take(0)).rows);
        let mut i: usize = 0;
        while i < keys.len()
            invariant
                i <= keys@.len(),
                builder@ == gradient_indexes(keys@.take(i as int)),
            decreases keys@.len() - i,
        {
            let mut row = sample_tuple(&keys[i]);
            row.push(IndexValue::Unsigned(keys[i].neighbor));
            builder.add(row.as_slice());
            assert(builder@.rows =~= gradient_indexes(keys@.take(i + 1)).rows);
            i += 1;
        }
        assert(keys@.take(keys@.len() as int) =~= keys@);
        Some(builder.finish())
    }
}

/// The gradient samples of the systems for `samples`: each once, in
/// increasing order.
fn collect_gradients(systems: &[SimpleSystem], samples: &Indexes) -> (keys: Vec<EnvironmentKey>)
    ensures
        keys@ == gradient_keys(system_views(systems@), samples@.rows),
        is_gradient_list(system_views(systems@), samples@.rows, keys@),
{
    let ghost views = system_views(systems@);
    let ghost rows = samples@.rows;
    let mut keys: Vec<EnvironmentKey> = Vec::new();
    let mut s: usize = 0;
    while s < systems.len()
        invariant
            s <= systems@.len(),
            views == system_views(systems@),
            rows == samples@.rows,
            strictly_increasing(keys@),
            forall|k: EnvironmentKey| #[trigger]
                keys@.contains(k) <==> (k.structure < s && is_gradient_sample(views, rows, k)),
        decreases systems@.len() - s,
    {
        let system = &systems[s];
        let species = system.species();
        let pairs = system.pairs();
        let ghost view = views[s as int];
        assert(view == systems@[s as int]@);
        let mut j: usize = 0;
        while j < pairs.len()
            invariant
                s < systems@.len(),
                j <= pairs@.len(),
                views == system_views(systems@),
                rows == samples@.rows,
                view == views[s as int],
                view.wf(),
                pairs@ == view.pairs,
                species@ == view.species,
                strictly_increasing(keys@),
                forall|k: EnvironmentKey| #[trigger]
                    keys@.contains(k) <==> ((k.structure < s && is_gradient_sample(views, rows, k))
                        || (k.structure == s && is_gradient_upto(view, rows, j as int, k))),
            decreases pairs@.len() - j,
        {
            let pair = pairs[j];
            assert(view.admits(view.cutoff->0, view.pairs[j as int]));
            let first = EnvironmentKey {
                structure: s,
                center: pair.first,
                species_center: species[pair.first],
                species_neighbor: species[pair.second],
                neighbor: pair.second,
            };
            let second = EnvironmentKey {
                structure: s,
                center: pair.second,
                species_center: species[pair.second],
                species_neighbor: species[pair.first],
                neighbor: pair.first,
            };
            let ghost before = keys@;
            let first_row = sample_tuple(&first);
            let has_first = samples.contains(first_row.as_slice());
            if has_first {
                insert_key(&mut keys, first);
            }
            let second_row = sample_tuple(&second);
            let has_second = samples.contains(second_row.as_slice());
            if has_second {
                insert_key(&mut keys, second);
            }
            proof {
                let p = view.pairs[j as int];
                assert(without_neighbor(first) == first_sample(view, s, p));
                assert(without_neighbor(second) == second_sample(view, s, p));
                assert(sample_row(first) == sample_row(without_neighbor(first)));
                assert forall|k: EnvironmentKey| #[trigger]
                    keys@.contains(k) <==> ((k.structure < s && is_gradient_sample(views, rows, k))
                        || (k.structure == s && is_gradient_upto(view, rows, j + 1, k))) by {
                    assert(keys@.contains(k) <==> (before.contains(k) || (has_first && k == first)
                        || (has_second && k == second)));
                    if k.structure == s {
                        if is_gradient_upto(view, rows, j + 1, k) {
                            let w = choose|w: int|
                                0 <= w < j + 1 && w < view.pairs.len() && is_gradient_of(
                                    view,
                                    #[trigger] view.pairs[w],
                                    k,
                                );
                            if w < j {
                                assert(is_gradient_upto(view, rows, j as int, k));
                            } else {
                                assert(is_gradient_of(view, p, k));
                                assert(k == first || k == second);
                            }
                        }
                        if is_gradient_upto(view, rows, j as int, k) {
                            let w = choose|w: int|
                                0 <= w < j && w < view.pairs.len() && is_gradient_of(
                                    view,
                                    #[trigger] view.pairs[w],
                                    k,
                                );
                            assert(0 <= w < j + 1);
                            assert(is_gradient_upto(view, rows, j + 1, k));
                        }
                        if (has_first && k == first) || (has_second && k == second) {
                            assert(is_gradient_of(view, view.pairs[j as int], k));
                            assert(is_gradient_upto(view, rows, j + 1, k));
                        }
                    }
                }
            }
            j += 1;
        }
        proof {
            assert forall|k: EnvironmentKey| #[trigger]
                keys@.contains(k) <==> (k.structure < s + 1 && is_gradient_sample(views, rows, k)) by {
                if k.structure == s {
                    assert(is_gradient_sample(views, rows, k) <==> is_gradient_upto(
                        view,
                        rows,
                        view.pairs.len() as int,
                        k,
                    ));
                }
            }
        }
        s += 1;
    }
    proof {
        assert(is_gradient_list(views, rows, keys@));
        lemma_increasing_unique(keys@, gradient_keys(views, rows));
    }
    keys
}

} // verus!
