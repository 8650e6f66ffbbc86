//! Core logic of an in-circuit STARK verifier for recursive proof composition:
//! the oblivious (branch-free) answer accumulator that combines per-query FRI
//! quotient values, the quotient-constant builders that derive line
//! coefficients at the out-of-domain point, and the padded Merkle
//! decommitment verifier that checks inclusion paths of runtime-variable
//! depth with a fixed iteration structure.
pub mod accumulator;
pub mod algebra;
pub mod allocation;
pub mod bitmap;
pub mod bucket_map;
pub mod column_map;
pub mod composition;
pub mod decommit;
pub mod errors;
pub mod field;
pub mod line;
pub mod merkle;
pub mod poseidon;
pub mod quotients;
pub mod results;
