//! What the system does about each kind of failure.
//!
//! No failure is ever handed to a caller: each one is either recovered from on
//! the spot or ends the run.

use vstd::prelude::*;

verus! {

/// The kinds of failure that the system meets.
#[derive(Clone, Copy, Debug, PartialEq, Eq, Structural)]
pub enum Failure {
    /// A read of the converter gave no sample.
    Sample,
    /// The producer could not be started.
    Launch,
    /// The display or an actuator refused an operation.
    Peripheral,
}

/// What is done about a failure.
#[derive(Clone, Copy, Debug, PartialEq, Eq, Structural)]
pub enum Recovery {
    /// Go on with the last raw value; the next iteration reads again.
    KeepLastValue,
    /// Restart the whole system.
    Reset,
    /// Stop.
    Halt,
}

/// The recovery that each kind of failure calls for.
pub open spec fn recovery_for(failure: Failure) -> Recovery {
    match failure {
        Failure::Sample => Recovery::KeepLastValue,
        Failure::Launch => Recovery::Reset,
        Failure::Peripheral => Recovery::Halt,
    }
}

/// Decides what to do about a failure.
pub fn recover(failure: Failure) -> (recovery: Recovery)
    ensures
        recovery == recovery_for(failure),
{
    match failure {
        Failure::Sample => Recovery::KeepLastValue,
        Failure::Launch => Recovery::Reset,
        Failure::Peripheral => Recovery::Halt,
    }
}

/// Only a failed start of the producer restarts the system, and only a
/// failed sample is passed over.
pub proof fn law_recovery_is_by_kind(failure: Failure)
    ensures
        recovery_for(failure) == Recovery::Reset <==> failure == Failure::Launch,
        recovery_for(failure) == Recovery::KeepLastValue <==> failure == Failure::Sample,
        recovery_for(failure) == Recovery::Halt <==> failure == Failure::Peripheral,
{
}

} // verus!
