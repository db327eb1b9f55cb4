//! The order of index values: unsigned integers by their value, real numbers
//! by the number that their key stands for. Values of different tags are
//! not ordered.

use std::cmp::Ordering;
use vstd::prelude::*;
use crate::indexes::IndexValue;

verus! {

/// The smallest key of a negative number: the sign is the highest bit.
pub const SIGN: u64 = 0x8000_0000_0000_0000;

/// The rank of a real number among the real numbers, from its key: a larger
/// number has a larger rank. Negative numbers have their sign bit set, and
/// the larger their other bits, the smaller the number.
pub open spec fn real_rank(key: u64) -> u64 {
    if key >= SIGN {
        (u64::MAX - key) as u64
    } else {
        (key + SIGN) as u64
    }
}

/// The order of two integers.
pub open spec fn integer_order(left: int, right: int) -> Ordering {
    if left < right {
        Ordering::Less
    } else if left == right {
        Ordering::Equal
    } else {
        Ordering::Greater
    }
}

/// The rank of an index value among the values of its tag.
pub open spec fn rank(value: IndexValue) -> int {
    match value {
        IndexValue::Unsigned(n) => n as int,
        IndexValue::Real(key) => real_rank(key) as int,
    }
}

/// Whether two index values have the same tag.
pub open spec fn same_tag(left: IndexValue, right: IndexValue) -> bool {
    (left is Unsigned) == (right is Unsigned)
}

/// The order of two index values, where they have the same tag.
pub open spec fn value_order(left: IndexValue, right: IndexValue) -> Option<Ordering> {
    if same_tag(left, right) {
        Some(integer_order(rank(left), rank(right)))
    } else {
        None
    }
}

/// Two index values are equal in the order exactly when they are the same
/// value.
pub proof fn lemma_order_equal(left: IndexValue, right: IndexValue)
    ensures
        value_order(left, right) == Some(Ordering::Equal) <==> left == right,
{
}

/// The order is the same from both sides: one value comes before another
/// exactly when the other comes after it.
pub proof fn lemma_order_reversed(left: IndexValue, right: IndexValue)
    ensures
        value_order(left, right) == Some(Ordering::Less) <==> value_order(right, left) == Some(
            Ordering::Greater,
        ),
        value_order(left, right) is None <==> value_order(right, left) is None,
{
}

/// What comes before a second value, and the second before a third, comes
/// before the third.
pub proof fn lemma_order_transitive(first: IndexValue, second: IndexValue, third: IndexValue)
    requires
        value_order(first, second) == Some(Ordering::Less),
        value_order(second, third) == Some(Ordering::Less),
    ensures
        value_order(first, third) == Some(Ordering::Less),
{
}

/// The rank of a real number among the real numbers, from its key.
pub fn rank_of(key: u64) -> (rank: u64)
    ensures
        rank == real_rank(key),
{
    if key >= SIGN {
        u64::MAX - key
    } else {
        key + SIGN
    }
}

impl PartialOrd for IndexValue {
    /// The order of two index values with the same tag, and nothing for two
    /// values with different tags.
    fn partial_cmp(&self, other: &IndexValue) -> (order: Option<Ordering>) {
        match (self, other) {
            (IndexValue::Unsigned(a), IndexValue::Unsigned(b)) => {
                if *a < *b {
                    Some(Ordering::Less)
                } else if *a == *b {
                    Some(Ordering::Equal)
                } else {
                    Some(Ordering::Greater)
                }
            },
            (IndexValue::Real(a), IndexValue::Real(b)) => {
                let left = rank_of(*a);
                let right = rank_of(*b);
                if left < right {
                    Some(Ordering::Less)
                } else if left == right {
                    Some(Ordering::Equal)
                } else {
                    Some(Ordering::Greater)
                }
            },
            _ => None,
        }
    }
}

impl vstd::std_specs::cmp::PartialOrdSpecImpl for IndexValue {
    open spec fn obeys_partial_cmp_spec() -> bool {
        true
    }

    open spec fn partial_cmp_spec(&self, other: &IndexValue) -> Option<Ordering> {
        value_order(*self, *other)
    }
}

} // verus!
