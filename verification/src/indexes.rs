//! Index spaces: named, ordered sets of fixed-width tuples that describe the
//! rows (samples) and columns (features) of a descriptor.

use vstd::prelude::*;

verus! {

/// One cell of an index tuple: either an unsigned integer, or a real number
/// carried as the bit pattern of its double-precision encoding.
///
/// Two values are equal when they carry the same tag and the same payload.
#[derive(Clone, Copy, Debug, PartialEq, Eq, Structural)]
pub enum IndexValue {
    /// An unsigned integer, such as an atom index or a species.
    Unsigned(usize),
    /// A real number, as the bit pattern of its double-precision encoding.
    Real(u64),
}

impl IndexValue {
    /// The integer carried by an unsigned value, and 0 for a real one.
    pub open spec fn as_nat(self) -> nat {
        match self {
            IndexValue::Unsigned(n) => n as nat,
            IndexValue::Real(_) => 0,
        }
    }

    /// Whether this value carries an unsigned integer.
    pub fn is_unsigned(self) -> (unsigned: bool)
        ensures
            unsigned == (self is Unsigned),
    {
        match self {
            IndexValue::Unsigned(_) => true,
            IndexValue::Real(_) => false,
        }
    }

    /// The unsigned integer carried by this value.
    pub fn usize(self) -> (n: usize)
        requires
            self is Unsigned,
        ensures
            self == IndexValue::Unsigned(n),
    {
        match self {
            IndexValue::Unsigned(n) => n,
            IndexValue::Real(_) => 0,
        }
    }
}

impl From<usize> for IndexValue {
    fn from(value: usize) -> (index: IndexValue) {
        IndexValue::Unsigned(value)
    }
}

impl vstd::std_specs::convert::FromSpecImpl<usize> for IndexValue {
    open spec fn obeys_from_spec() -> bool {
        true
    }

    open spec fn from_spec(value: usize) -> IndexValue {
        IndexValue::Unsigned(value)
    }
}

/// The texts of a sequence of strings.
pub open spec fn texts(names: Seq<String>) -> Seq<Seq<char>> {
    Seq::new(names.len(), |i: int| names[i]@)
}

/// The texts of a sequence of string slices.
pub open spec fn name_texts(names: Seq<&str>) -> Seq<Seq<char>> {
    Seq::new(names.len(), |i: int| names[i]@)
}

/// The tuples held by a sequence of vectors.
pub open spec fn tuples(rows: Seq<Vec<IndexValue>>) -> Seq<Seq<IndexValue>> {
    Seq::new(rows.len(), |i: int| rows[i]@)
}

/// The mathematical content of an index space: its column names and its
/// tuples, in order.
pub struct IndexesView {
    /// The names of the columns, in order.
    pub names: Seq<Seq<char>>,
    /// The tuples, in order; the order is the order of the descriptor's rows
    /// or columns.
    pub rows: Seq<Seq<IndexValue>>,
}

impl IndexesView {
    /// Every tuple has one value per column name.
    pub open spec fn wf(self) -> bool {
        forall|i: int| 0 <= i < self.rows.len() ==> (#[trigger] self.rows[i]).len() == self.names.len()
    }

    /// The number of tuples.
    pub open spec fn count(self) -> nat {
        self.rows.len()
    }

    /// The number of values in each tuple.
    pub open spec fn size(self) -> nat {
        self.names.len()
    }

    /// The index space with the given names and no tuple.
    pub open spec fn empty(names: Seq<Seq<char>>) -> IndexesView {
        IndexesView { names, rows: Seq::empty() }
    }

    /// This index space with one more tuple at the end.
    pub open spec fn push(self, tuple: Seq<IndexValue>) -> IndexesView {
        IndexesView { names: self.names, rows: self.rows.push(tuple) }
    }

    /// The position of the first column with the given name, if any.
    pub open spec fn position(self, name: Seq<char>) -> Option<int> {
        self.names.index_of_first(name)
    }
}

/// Whether two tuples hold the same values in the same order.
pub fn same_tuple(left: &[IndexValue], right: &[IndexValue]) -> (same: bool)
    ensures
        same == (left@ == right@),
{
    if left.len() != right.len() {
        return false;
    }
    let mut i: usize = 0;
    while i < left.len()
        invariant
            i <= left@.len(),
            left@.len() == right@.len(),
            forall|k: int| 0 <= k < i ==> left@[k] == right@[k],
        decreases left@.len() - i,
    {
        if left[i] != right[i] {
            return false;
        }
        i += 1;
    }
    assert(left@ =~= right@);
    true
}

/// Whether two lists of names hold the same texts in the same order.
pub fn same_names(left: &Vec<String>, right: &Vec<String>) -> (same: bool)
    ensures
        same == (texts(left@) == texts(right@)),
{
    if left.len() != right.len() {
        assert(texts(left@).len() != texts(right@).len());
        return false;
    }
    let mut i: usize = 0;
    while i < left.len()
        invariant
            i <= left@.len(),
            left@.len() == right@.len(),
            forall|k: int| 0 <= k < i ==> left@[k]@ == right@[k]@,
        decreases left@.len() - i,
    {
        if left[i] != right[i] {
            assert(texts(left@)[i as int] != texts(right@)[i as int]);
            return false;
        }
        i += 1;
    }
    assert(texts(left@) =~= texts(right@));
    true
}

/// An immutable, ordered set of fixed-width tuples with named columns.
#[derive(Debug)]
pub struct Indexes {
    names: Vec<String>,
    rows: Vec<Vec<IndexValue>>,
}

impl View for Indexes {
    type V = IndexesView;

    closed spec fn view(&self) -> IndexesView {
        IndexesView { names: texts(self.names@), rows: tuples(self.rows@) }
    }
}

impl Indexes {
    /// Every tuple has one value per column name. This holds of every index
    /// space.
    #[verifier::type_invariant]
    pub open spec fn wf(&self) -> bool {
        self@.wf()
    }

    /// The number of tuples.
    pub fn count(&self) -> (count: usize)
        ensures
            count == self@.count(),
            self.wf(),
    {
        proof {
            use_type_invariant(self);
        }
        self.rows.len()
    }

    /// The number of values in each tuple.
    pub fn size(&self) -> (size: usize)
        ensures
            size == self@.size(),
    {
        self.names.len()
    }

    /// The names of the columns, in order.
    pub fn names(&self) -> (names: &Vec<String>)
        ensures
            texts(names@) == self@.names,
    {
        &self.names
    }

    /// The tuple at position `i`.
    pub fn get(&self, i: usize) -> (tuple: &[IndexValue])
        requires
            i < self@.count(),
        ensures
            tuple@ == self@.rows[i as int],
    {
        self.rows[i].as_slice()
    }

    /// Whether `tuple` is one of the tuples of this index space.
    pub fn contains(&self, tuple: &[IndexValue]) -> (found: bool)
        ensures
            found == self@.rows.contains(tuple@),
    {
        let mut i: usize = 0;
        while i < self.rows.len()
            invariant
                i <= self.rows@.len(),
                forall|k: int| 0 <= k < i ==> self@.rows[k] != tuple@,
            decreases self.rows@.len() - i,
        {
            if same_tuple(self.rows[i].as_slice(), tuple) {
                assert(self@.rows[i as int] == tuple@);
                return true;
            }
            i += 1;
        }
        false
    }

    /// The position of the first column named `name`, if there is one.
    pub fn position(&self, name: &str) -> (position: Option<usize>)
        ensures
            match position {
                Some(i) => self@.position(name@) == Some(i as int),
                None => self@.position(name@) is None,
            },
    {
        let mut i: usize = 0;
        while i < self.names.len()
            invariant
                i <= self.names@.len(),
                forall|k: int| 0 <= k < i ==> self@.names[k] != name@,
            decreases self.names@.len() - i,
        {
            if same_text(self.names[i].as_str(), name) {
                proof {
                    assert(self@.names[i as int] == name@);
                    self@.names.index_of_first_ensures(name@);
                }
                return Some(i);
            }
            i += 1;
        }
        proof {
            self@.names.index_of_first_ensures(name@);
        }
        None
    }

    /// A copy of this index space.
    pub fn duplicate(&self) -> (copy: Indexes)
        ensures
            copy@ == self@,
            copy.wf(),
    {
        proof {
            use_type_invariant(self);
        }
        let mut names: Vec<String> = Vec::new();
        let mut i: usize = 0;
        while i < self.names.len()
            invariant
                i <= self.names@.len(),
                names@.len() == i,
                forall|k: int| 0 <= k < i ==> names@[k]@ == self.names@[k]@,
            decreases self.names@.len() - i,
        {
            names.push(self.names[i].clone());
            i += 1;
        }
        let mut rows: Vec<Vec<IndexValue>> = Vec::new();
        let mut j: usize = 0;
        while j < self.rows.len()
            invariant
                j <= self.rows@.len(),
                rows@.len() == j,
                forall|k: int| 0 <= k < j ==> rows@[k]@ == self.rows@[k]@,
            decreases self.rows@.len() - j,
        {
            rows.push(copy_tuple(self.rows[j].as_slice()));
            j += 1;
        }
        assert(texts(names@) =~= self@.names);
        assert(tuples(rows@) =~= self@.rows);
        Indexes { names, rows }
    }
}

/// Whether two texts are equal.
pub fn same_text(left: &str, right: &str) -> (same: bool)
    ensures
        same == (left@ == right@),
{
    let left = left.to_owned();
    let right = right.to_owned();
    left == right
}

/// A vector holding the values of `tuple`, in order.
pub fn copy_tuple(tuple: &[IndexValue]) -> (copy: Vec<IndexValue>)
    ensures
        copy@ == tuple@,
{
    let mut copy: Vec<IndexValue> = Vec::new();
    let mut i: usize = 0;
    while i < tuple.len()
        invariant
            i <= tuple@.len(),
            copy@ == tuple@.take(i as int),
        decreases tuple@.len() - i,
    {
        copy.push(tuple[i]);
        assert(tuple@.take(i + 1) =~= tuple@.take(i as int).push(tuple@[i as int]));
        i += 1;
    }
    assert(tuple@.take(tuple@.len() as int) =~= tuple@);
    copy
}

/// Accumulates tuples for a fixed list of column names.
#[derive(Debug)]
pub struct IndexesBuilder {
    names: Vec<String>,
    rows: Vec<Vec<IndexValue>>,
}

impl View for IndexesBuilder {
    type V = IndexesView;

    closed spec fn view(&self) -> IndexesView {
        IndexesView { names: texts(self.names@), rows: tuples(self.rows@) }
    }
}

impl IndexesBuilder {
    /// Every tuple has one value per column name. This holds of every
    /// builder.
    #[verifier::type_invariant]
    pub open spec fn wf(&self) -> bool {
        self@.wf()
    }

    /// A builder for tuples with one value per name in `names`, holding no
    /// tuple yet.
    pub fn new(names: Vec<&str>) -> (builder: IndexesBuilder)
        ensures
            builder@ == IndexesView::empty(name_texts(names@)),
            builder.wf(),
    {
        let mut owned: Vec<String> = Vec::new();
        let mut i: usize = 0;
        while i < names.len()
            invariant
                i <= names@.len(),
                owned@.len() == i,
                forall|k: int| 0 <= k < i ==> owned@[k]@ == names@[k]@,
            decreases names@.len() - i,
        {
            owned.push(names[i].to_owned());
            i += 1;
        }
        let rows: Vec<Vec<IndexValue>> = Vec::new();
        assert(texts(owned@) =~= name_texts(names@));
        assert(tuples(rows@) =~= Seq::empty());
        IndexesBuilder { names: owned, rows }
    }

    /// The number of values that every tuple of this builder has.
    pub fn size(&self) -> (size: usize)
        ensures
            size == self@.size(),
    {
        self.names.len()
    }

    /// Appends `tuple` after the tuples already added.
    pub fn add(&mut self, tuple: &[IndexValue])
        requires
            tuple@.len() == old(self)@.size(),
        ensures
            final(self)@ == old(self)@.push(tuple@),
            final(self).wf(),
    {
        proof {
            use_type_invariant(&*self);
        }
        let copy = copy_tuple(tuple);
        let mut taken = IndexesBuilder::new(Vec::new());
        core::mem::swap(self, &mut taken);
        let IndexesBuilder { names, mut rows } = taken;
        assert(tuples(rows@.push(copy)) =~= old(self)@.rows.push(tuple@));
        rows.push(copy);
        *self = IndexesBuilder { names, rows };
    }

    /// The index space holding the tuples added so far, in the order in
    /// which they were added.
    pub fn finish(self) -> (indexes: Indexes)
        ensures
            indexes@ == self@,
            indexes.wf(),
    {
        proof {
            use_type_invariant(&self);
        }
        Indexes { names: self.names, rows: self.rows }
    }
}

} // verus!
