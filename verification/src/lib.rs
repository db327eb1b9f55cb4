//! Descriptors for atomistic systems: index spaces, selections, and the
//! calculators that fill dense descriptor arrays.
//!
//! A [`Calculator`] turns a list of systems into a [`Descriptor`]: a dense
//! array with one row per sample and one column per feature, together with
//! the index spaces that name the rows and the columns. A caller can ask for
//! a part of the rows or of the columns with a [`SelectedIndexes`].
//!
//! The library holds no floating-point number. A real number (a distance, a
//! cutoff, a value of a descriptor) is carried as a scalar key: the bit
//! pattern of its double-precision encoding, as an unsigned 64-bit integer.
//! For the numbers that are not negative, the order of the keys is the order
//! of the numbers. The neighbor search, which works on positions, is left to
//! the caller: a [`SimpleSystem`] holds the species of its atoms and the
//! pairs that a search gave.

pub mod errors;
pub mod text;
pub mod json;
pub mod indexes;
pub mod order;
pub mod dense;
pub mod descriptor;
pub mod system;
pub mod environments;
pub mod calculators;
pub mod calculator;
pub mod capi;
pub mod laws;

pub use calculator::{CalculationOptions, Calculator, SelectedIndexes};
pub use descriptor::Descriptor;
pub use errors::Error;
pub use system::SimpleSystem;
