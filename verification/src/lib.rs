//! Arithmetization layer of an incrementally-verifiable computation (IVC)
//! pipeline: turns a backend-agnostic description of an arithmetic circuit
//! step into concrete variable/constraint objects for a rank-1
//! constraint-satisfaction backend, and manages the witness values that flow
//! from one incremental step to the next.

use vstd::prelude::*;

pub mod backend;
pub mod field;
pub mod input;
pub mod ivc;
pub mod program;
pub mod variables;
pub mod witness;

verus! {

/// One unit of work for the interpreter: a program paired with one concrete
/// witness for a single step execution.
#[derive(Clone, Debug, PartialEq)]
pub struct Step<F> {
    pub witness: crate::witness::Witness<F>,
    pub program: crate::program::IVCProgram<F>,
}

/// Failures raised while arithmetizing a step against a backend. The first
/// two mirror what a constraint-satisfaction backend reports; the rest are
/// contract violations that should abort the run.
#[derive(Clone, Copy, Debug, PartialEq, Eq, Structural)]
pub enum SynthesisError {
    /// A constraint references a slot with no allocated variable.
    Unsatisfiable,
    /// A required assignment or allocated variable is missing.
    AssignmentMissing,
    /// The witness key set is not exactly `{0 .. num_witness}`.
    WitnessKeysMismatch,
    /// The supplied public-input variables do not match the declared arity.
    InputCountMismatch,
    /// A public-input identity collides with an already-allocated variable.
    InputCollision,
    /// A produced output value disagrees with the witness.
    OutputValueMismatch,
}

/// An error surfaced while preparing a program or a witness.
#[derive(Clone, Copy, Debug, PartialEq, Eq, Structural)]
pub enum Error {
    /// The program's input/output profile is structurally invalid.
    MalformedProgramError(crate::program::MalformedProgramError),
    /// A requested witness slot (by identity) has no assigned value.
    WitnessNotFound(u32),
}

impl From<crate::program::MalformedProgramError> for Error {
    fn from(value: crate::program::MalformedProgramError) -> Error {
        Error::MalformedProgramError(value)
    }
}

impl vstd::std_specs::convert::FromSpecImpl<crate::program::MalformedProgramError> for Error {
    open spec fn obeys_from_spec() -> bool {
        true
    }

    open spec fn from_spec(value: crate::program::MalformedProgramError) -> Error {
        Error::MalformedProgramError(value)
    }
}

} // verus!
