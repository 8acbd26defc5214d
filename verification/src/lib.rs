//! Modal frequency response of the GMT finite-element structural model.
//!
//! The crate holds the discrete core of the frequency-response pipeline:
//! the reduced modal state-space data model (`B`, `C`, eigenfrequencies,
//! damping), the structural builder with channel gating and eigenfrequency
//! windowing, the optical-sensitivity assembly from the LOM blob, the
//! frequency-grid planner and the result containers.
//!
//! Every numeric entry is carried as the bit pattern of an IEEE-754
//! double-precision number, held in a `u64`. For nonnegative finite
//! doubles the natural order of the bit patterns coincides with the
//! numeric order, so eigenfrequency windowing and range checks are stated
//! and proved exactly over `u64`. Converting between doubles and their bit
//! patterns, and all floating-point arithmetic proper (the per-frequency
//! evaluation of `H(jw)`, magnitudes and phases, grid interpolation),
//! belongs to the unverified application layer around this crate.

use vstd::prelude::*;

pub mod channels;
pub mod data;
pub mod frequency_response;
pub mod lom;
pub mod matrix;
pub mod structural;

verus! {

/// Top-level failure: either the optical sensitivities could not be
/// loaded, or the structural model could not be built.
#[derive(Debug)]
pub enum Error {
    Cli(crate::lom::CliError),
    Structure(crate::structural::StructuralError),
}

impl From<crate::lom::CliError> for Error {
    fn from(e: crate::lom::CliError) -> (r: Self)
        ensures
            (r == Error::Cli(e)),
    {
        Error::Cli(e)
    }
}

impl vstd::std_specs::convert::FromSpecImpl<crate::lom::CliError> for Error {
    open spec fn obeys_from_spec() -> bool {
        true
    }

    open spec fn from_spec(e: crate::lom::CliError) -> Self {
        Error::Cli(e)
    }
}

impl From<crate::structural::StructuralError> for Error {
    fn from(e: crate::structural::StructuralError) -> (r: Self)
        ensures
            (r == Error::Structure(e)),
    {
        Error::Structure(e)
    }
}

impl vstd::std_specs::convert::FromSpecImpl<crate::structural::StructuralError> for Error {
    open spec fn obeys_from_spec() -> bool {
        true
    }

    open spec fn from_spec(e: crate::structural::StructuralError) -> Self {
        Error::Structure(e)
    }
}

} // verus!
