//! Why a computation of this library could not be carried out.

use vstd::prelude::*;

verus! {

/// Why a simulation or an enumeration could not run.
#[derive(PartialEq, Eq, Structural, Clone, Copy, Debug)]
pub enum SimulationError {
    /// No trials were asked for.
    InvalidArgument,
    /// The number of outcomes does not fit in a `usize`.
    Overflow,
}

} // verus!
