//! Dense two-dimensional storage for the values of a descriptor.
//!
//! The cells are scalar keys: unsigned 64-bit integers that stand for real
//! numbers. A non-negative real number is carried as the bit pattern of its
//! double-precision encoding, so that the order of the keys is the order of
//! the numbers, and the key 0 is the number zero.

use vstd::prelude::*;

verus! {

/// A dense array of scalar keys with a fixed number of rows and columns,
/// stored in a two-dimensional `ndarray` array.
///
/// The array itself is not visible to the verifier: its content is known
/// through `dense_rows` and `dense_cols` only.
#[verifier::external_body]
pub struct DenseArray {
    cells: ndarray::Array2<u64>,
}

/// The rows of a dense array, each with its cells in column order.
pub uninterp spec fn dense_rows(array: DenseArray) -> Seq<Seq<u64>>;

/// The number of columns of a dense array, which is the length of each of
/// its rows.
pub uninterp spec fn dense_cols(array: DenseArray) -> nat;

/// The rows of an array in which every cell holds `fill`.
pub open spec fn filled_rows(rows: nat, cols: nat, fill: u64) -> Seq<Seq<u64>> {
    Seq::new(rows, |i: int| Seq::new(cols, |j: int| fill))
}

/// Whether an array with this many rows and columns of 8-byte cells can be
/// made at all: the bytes of the cells can be allocated, and the product of
/// the two lengths, leaving out a length that is zero, is a size.
pub open spec fn fits_in_memory(rows: nat, cols: nat) -> bool {
    &&& rows * cols * 8 <= isize::MAX
    &&& rows == 0 ==> cols <= isize::MAX
    &&& cols == 0 ==> rows <= isize::MAX
}

/// Whether an array with this many rows and columns can be made at all.
pub fn can_hold(rows: usize, cols: usize) -> (fits: bool)
    ensures
        fits == fits_in_memory(rows as nat, cols as nat),
{
    if rows == 0 {
        return cols <= isize::MAX as usize;
    }
    if cols == 0 {
        return rows <= isize::MAX as usize;
    }
    match rows.checked_mul(cols) {
        Some(cells) => match cells.checked_mul(8) {
            Some(bytes) => bytes <= isize::MAX as usize,
            None => false,
        },
        None => {
            assert(rows * cols * 8 >= rows * cols) by (nonlinear_arith)
                requires
                    rows * cols >= 0,
            ;
            false
        },
    }
}

impl DenseArray {
    /// Every row has one cell per column.
    pub open spec fn wf(self) -> bool {
        forall|i: int| 0 <= i < dense_rows(self).len() ==> (#[trigger] dense_rows(self)[i]).len() == dense_cols(self)
    }

    /// Calls `ndarray::Array2::from_elem` with the shape `(rows, cols)`.
    /// The contract claims that the array has this shape and holds `fill`
    /// in every cell. `from_elem` panics when the product of the lengths
    /// that are not zero is larger than `isize::MAX`, and the allocation
    /// panics when the bytes are; the precondition leaves both out.
    #[verifier::external_body]
    pub(crate) fn filled(rows: usize, cols: usize, fill: u64) -> (array: DenseArray)
        requires
            fits_in_memory(rows as nat, cols as nat),
        ensures
            dense_rows(array) == filled_rows(rows as nat, cols as nat, fill),
            dense_cols(array) == cols,
    {
        DenseArray { cells: ndarray::Array2::from_elem((rows, cols), fill) }
    }

    /// Calls `ndarray::ArrayBase::nrows`. The contract claims that the
    /// result is the number of rows.
    #[verifier::external_body]
    pub(crate) fn nrows(&self) -> (rows: usize)
        ensures
            rows == dense_rows(*self).len(),
    {
        self.cells.nrows()
    }

    /// Calls `ndarray::ArrayBase::ncols`. The contract claims that the
    /// result is the number of columns.
    #[verifier::external_body]
    pub(crate) fn ncols(&self) -> (cols: usize)
        ensures
            cols == dense_cols(*self),
    {
        self.cells.ncols()
    }

    /// Reads one cell through the `Index` implementation of
    /// `ndarray::ArrayBase`, which panics out of bounds. The contract claims
    /// that the result is the cell at row `i`, column `j`.
    #[verifier::external_body]
    pub(crate) fn get(&self, i: usize, j: usize) -> (cell: u64)
        requires
            i < dense_rows(*self).len(),
            j < dense_cols(*self),
        ensures
            cell == dense_rows(*self)[i as int][j as int],
    {
        self.cells[[i, j]]
    }

    /// Writes one cell through the `IndexMut` implementation of
    /// `ndarray::ArrayBase`, which panics out of bounds. The contract claims
    /// that, within bounds, the call does not panic, the cell at row `i`,
    /// column `j` becomes `cell`, and nothing else changes.
    #[verifier::external_body]
    pub(crate) fn set(&mut self, i: usize, j: usize, cell: u64)
        requires
            i < dense_rows(*old(self)).len(),
            j < dense_cols(*old(self)),
        ensures
            dense_rows(*final(self)) == dense_rows(*old(self)).update(
                i as int,
                dense_rows(*old(self))[i as int].update(j as int, cell),
            ),
            dense_cols(*final(self)) == dense_cols(*old(self)),
        no_unwind
    {
        self.cells[[i, j]] = cell;
    }

    /// Calls `ndarray::ArrayBase::row_mut` and `assign` with a
    /// one-dimensional view of `cells`. `row_mut` panics out of bounds, and
    /// `assign` broadcasts or panics when the lengths differ, which the
    /// precondition leaves out. The contract claims that the call does not
    /// panic then, that row `i` becomes `cells`, and that nothing else
    /// changes.
    #[verifier::external_body]
    pub(crate) fn assign_row(&mut self, i: usize, cells: &[u64])
        requires
            i < dense_rows(*old(self)).len(),
            cells@.len() == dense_cols(*old(self)),
        ensures
            dense_rows(*final(self)) == dense_rows(*old(self)).update(i as int, cells@),
            dense_cols(*final(self)) == dense_cols(*old(self)),
        no_unwind
    {
        self.cells.row_mut(i).assign(&ndarray::aview1(cells));
    }
}

} // verus!
