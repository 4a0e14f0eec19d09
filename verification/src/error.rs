//! The ways in which the simulation refuses an input.

use vstd::prelude::*;

verus! {

/// Why a simulation could not be made or a step could not be taken.
#[derive(Debug, Copy, Clone, PartialEq, Eq, Structural)]
pub enum FluidError {
    /// The configuration describes no simulation: no particles, a smoothing
    /// radius that is not positive, a boundary without interior, or a value
    /// outside the range of the arithmetic.
    InvalidConfiguration,
    /// The time step is not positive or is too large to be represented.
    InvalidTimeStep,
    /// A quantity derived during the step left the representable range.
    NumericDegeneracy,
}

} // verus!
