//! Vectorization of an AIR: one trace row carries several independent
//! instances ("slots") of the same single-instance column record, laid out
//! one after another, so that several permutations are proven per row.
//!
//! * [`layout`] is the arithmetic of the layout: which columns of a flat row
//!   belong to which slot, and the laws that make a row and its slots two
//!   readings of the same data.
//! * [`cols`] holds the checked, non-copying views of a row as its slots.
//! * [`air`] holds the vectorized AIR definition, which wraps one inner
//!   definition and evaluates it once per slot.

pub mod air;
pub mod cols;
pub mod layout;

pub use air::VectorizedPoseidon2Air;
pub use cols::{VectorizedPoseidon2Cols, VectorizedPoseidon2ColsMut};
pub use layout::{check_layout, LayoutMismatch};
