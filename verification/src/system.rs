//! Atomic systems as the calculators read them: the species of each atom and
//! the neighbor pairs found by a search within a cutoff.
//!
//! Distances and cutoffs are scalar keys: the bit pattern of a
//! double-precision number. A distance is not negative; a cutoff may be any
//! number, and the two are compared in the order of the numbers.

use vstd::prelude::*;
use crate::errors::Error;
use crate::order::{rank_of, real_rank, SIGN};

verus! {

/// Two atoms closer to each other than the cutoff of a neighbor search.
#[derive(Clone, Copy, Debug, PartialEq, Eq, Structural)]
pub struct Pair {
    /// The index of the first atom.
    pub first: usize,
    /// The index of the second atom.
    pub second: usize,
    /// The key of the distance between the two atoms.
    pub distance: u64,
}

/// The mathematical content of a system.
pub struct SystemView {
    /// The species of each atom.
    pub species: Seq<usize>,
    /// The cutoff of the last neighbor search, if there was one.
    pub cutoff: Option<u64>,
    /// The pairs found by the last neighbor search, in the order in which
    /// the search gave them.
    pub pairs: Seq<Pair>,
}

impl SystemView {
    /// Whether `pair` joins two atoms of this system at a distance that is
    /// not negative and, in the order of the numbers, no larger than
    /// `cutoff`.
    pub open spec fn admits(self, cutoff: u64, pair: Pair) -> bool {
        &&& pair.first < self.species.len()
        &&& pair.second < self.species.len()
        &&& pair.distance < SIGN
        &&& real_rank(pair.distance) <= real_rank(cutoff)
    }

    /// Whether every pair of `pairs` joins two atoms of this system that are
    /// no further apart than `cutoff`.
    pub open spec fn admits_all(self, cutoff: u64, pairs: Seq<Pair>) -> bool {
        forall|i: int| 0 <= i < pairs.len() ==> self.admits(cutoff, #[trigger] pairs[i])
    }

    /// The pairs belong to the system and to the cutoff, and there is no
    /// pair without a search.
    pub open spec fn wf(self) -> bool {
        match self.cutoff {
            Some(cutoff) => self.admits_all(cutoff, self.pairs),
            None => self.pairs.len() == 0,
        }
    }

    /// Whether the pairs of this system come from a search with `cutoff`.
    pub open spec fn searched(self, cutoff: u64) -> bool {
        self.cutoff == Some(cutoff)
    }
}

/// The contents of a list of systems, in order.
pub open spec fn system_views(systems: Seq<SimpleSystem>) -> Seq<SystemView> {
    Seq::new(systems.len(), |i: int| systems[i]@)
}

/// Whether every system of the list is well formed and holds the pairs of a
/// search with `cutoff`.
pub open spec fn all_searched(systems: Seq<SystemView>, cutoff: u64) -> bool {
    forall|i: int| 0 <= i < systems.len() ==> (#[trigger] systems[i]).wf() && systems[i].searched(cutoff)
}

/// A system in its plain form: the species of its atoms, and the result of
/// the last neighbor search made on it.
#[derive(Debug)]
pub struct SimpleSystem {
    species: Vec<usize>,
    cutoff: Option<u64>,
    pairs: Vec<Pair>,
}

impl View for SimpleSystem {
    type V = SystemView;

    closed spec fn view(&self) -> SystemView {
        SystemView { species: self.species@, cutoff: self.cutoff, pairs: self.pairs@ }
    }
}

impl SimpleSystem {
    #[verifier::type_invariant]
    spec fn well_formed(&self) -> bool {
        self@.wf()
    }

    /// A system with one atom for each species of `species`, on which no
    /// neighbor search was made yet.
    pub fn new(species: Vec<usize>) -> (system: SimpleSystem)
        ensures
            system@ == (SystemView { species: species@, cutoff: None, pairs: Seq::empty() }),
            system@.wf(),
    {
        SimpleSystem { species, cutoff: None, pairs: Vec::new() }
    }

    /// The number of atoms.
    pub fn size(&self) -> (size: usize)
        ensures
            size == self@.species.len(),
    {
        self.species.len()
    }

    /// The species of each atom.
    pub fn species(&self) -> (species: &[usize])
        ensures
            species@ == self@.species,
    {
        self.species.as_slice()
    }

    /// The cutoff of the last neighbor search, if there was one.
    pub fn cutoff(&self) -> (cutoff: Option<u64>)
        ensures
            cutoff == self@.cutoff,
    {
        self.cutoff
    }

    /// The pairs found by the last neighbor search.
    pub fn pairs(&self) -> (pairs: &[Pair])
        ensures
            pairs@ == self@.pairs,
            self@.wf(),
    {
        proof {
            use_type_invariant(self);
        }
        self.pairs.as_slice()
    }

    /// Records the result of a neighbor search with `cutoff`, in place of
    /// the result of the search before.
    ///
    /// Fails, and leaves the system as it was, when a pair names an atom
    /// that the system does not have, or has a distance that is negative or
    /// larger than `cutoff`.
    pub fn set_neighbors(&mut self, cutoff: u64, pairs: Vec<Pair>) -> (result: Result<(), Error>)
        ensures
            old(self)@.admits_all(cutoff, pairs@) ==> result is Ok && final(self)@ == (SystemView {
                species: old(self)@.species,
                cutoff: Some(cutoff),
                pairs: pairs@,
            }),
            !old(self)@.admits_all(cutoff, pairs@) ==> (result matches Err(
                Error::InvalidParameter(message),
            ) && message@ == "a neighbor pair does not belong to the system and the cutoff"@)
                && final(self)@ == old(self)@,
            final(self)@.wf(),
    {
        proof {
            use_type_invariant(&*self);
        }
        let size = self.species.len();
        let mut i: usize = 0;
        while i < pairs.len()
            invariant
                i <= pairs@.len(),
                size == self@.species.len(),
                self@ == old(self)@,
                self@.wf(),
                forall|k: int| 0 <= k < i ==> self@.admits(cutoff, #[trigger] pairs@[k]),
            decreases pairs@.len() - i,
        {
            let pair = pairs[i];
            if pair.first >= size || pair.second >= size || pair.distance >= SIGN || rank_of(
                pair.distance,
            ) > rank_of(cutoff) {
                assert(!self@.admits(cutoff, pairs@[i as int]));
                return Err(Error::InvalidParameter(
                    "a neighbor pair does not belong to the system and the cutoff".to_owned(),
                ));
            }
            i += 1;
        }
        self.pairs = Vec::new();
        self.cutoff = Some(cutoff);
        self.pairs = pairs;
        Ok(())
    }

    /// A copy of this system.
    pub fn duplicate(&self) -> (copy: SimpleSystem)
        ensures
            copy@ == self@,
    {
        proof {
            use_type_invariant(self);
        }
        let species = self.species.clone();
        let pairs = self.pairs.clone();
        assert(species@ =~= self.species@);
        assert(pairs@ =~= self.pairs@);
        SimpleSystem { species, cutoff: self.cutoff, pairs }
    }
}

} // verus!
