//! The error kinds reported by the engine.
use vstd::prelude::*;

verus! {

/// A violated caller contract. None of these is transient: the same call
/// fails the same way every time.
#[derive(Clone, Copy, Debug, PartialEq, Eq, Structural)]
pub enum NetworkError {
    /// Operand shapes do not fit each other or the declared dimensions.
    DimensionMismatch,
    /// A network needs at least two layers, none of them empty.
    InvalidTopology,
    /// There is no largest element in an empty vector.
    EmptyOutput,
}

} // verus!
