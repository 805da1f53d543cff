//! Core data model for rank-1 constraint systems (R1CS): variable indices
//! with their total order and fixed-width byte encoding, linear combinations
//! kept sorted and deduplicated by variable, and the protocol traits that
//! proving-system backends implement.

pub mod field;
pub mod index;
pub mod lc;
pub mod relations;
pub mod snark;
pub mod toy;
