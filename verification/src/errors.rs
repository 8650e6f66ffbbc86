//! Structural errors of circuit construction.
//!
//! Each one signals a mismatch between the declared shape of the circuit and
//! the witness or proof being processed. They are fatal: construction cannot
//! proceed past one, and callers are expected to abort the whole build.
use vstd::prelude::*;

verus! {

#[derive(Clone, Copy, Debug, PartialEq, Eq, Structural)]
pub enum StructuralError {
    /// Two sequences expected to pair up element by element differ in length.
    LengthMismatch,
    /// A flat stream of sampled values was not consumed exactly.
    OffsetMismatch,
    /// Self-column and sibling-column presence disagree at some depth.
    PresenceMismatch,
}

} // verus!
