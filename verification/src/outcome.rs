//! How one run of an instance ended, as a three-way result.
use vstd::prelude::*;

verus! {

/// What the engine reports when an entry export stops.
#[derive(Clone, Debug, PartialEq, Eq)]
pub enum Termination {
    /// The export returned to its caller.
    Returned,
    /// The export stopped through a trap. `exit_status` is set where the trap
    /// is a request to exit with that code; `reason` describes the trap.
    Trap { exit_status: Option<i32>, reason: String },
}

/// The driver's reading of a termination.
#[derive(Clone, Debug, PartialEq, Eq)]
pub enum ExecutionOutcome {
    CompletedNormally,
    ExitedWithCode(i32),
    Faulted(String),
}

/// A failure as the harness reports it.
#[derive(Clone, Debug, PartialEq, Eq)]
pub enum Failure {
    /// The entry export asked to exit with a code other than zero.
    NonZeroExit(i32),
    /// A trap during execution, with its reason.
    Trap(String),
}

/// The outcome that a termination stands for.
pub open spec fn outcome_of(signal: Termination) -> ExecutionOutcome {
    match signal {
        Termination::Returned => ExecutionOutcome::CompletedNormally,
        Termination::Trap { exit_status: Some(code), reason } => ExecutionOutcome::ExitedWithCode(
            code,
        ),
        Termination::Trap { exit_status: None, reason } => ExecutionOutcome::Faulted(reason),
    }
}

/// Reads a termination: a return is a normal completion, a trap with an exit
/// status is an exit with that code, any other trap is a fault.
pub fn interpret(signal: Termination) -> (outcome: ExecutionOutcome)
    ensures
        outcome == outcome_of(signal),
{
    match signal {
        Termination::Returned => ExecutionOutcome::CompletedNormally,
        Termination::Trap { exit_status: Some(code), reason } => ExecutionOutcome::ExitedWithCode(
            code,
        ),
        Termination::Trap { exit_status: None, reason } => ExecutionOutcome::Faulted(reason),
    }
}

impl ExecutionOutcome {
    /// Success is a normal completion or an exit with code zero.
    pub open spec fn succeeded(self) -> bool {
        self == ExecutionOutcome::CompletedNormally || self == ExecutionOutcome::ExitedWithCode(0)
    }

    /// The failure that this outcome is reported as, if it is one.
    pub open spec fn reported(self) -> Option<Failure> {
        match self {
            ExecutionOutcome::CompletedNormally => None,
            ExecutionOutcome::ExitedWithCode(code) => if code == 0 {
                None
            } else {
                Some(Failure::NonZeroExit(code))
            },
            ExecutionOutcome::Faulted(reason) => Some(Failure::Trap(reason)),
        }
    }

    pub fn is_success(&self) -> (ok: bool)
        ensures
            ok == self.succeeded(),
    {
        match self {
            ExecutionOutcome::CompletedNormally => true,
            ExecutionOutcome::ExitedWithCode(code) => *code == 0,
            ExecutionOutcome::Faulted(_) => false,
        }
    }

    /// `None` on success; otherwise the failure, with the exit code or the
    /// fault's reason.
    pub fn failure(self) -> (failure: Option<Failure>)
        ensures
            failure == self.reported(),
            failure is None <==> self.succeeded(),
    {
        match self {
            ExecutionOutcome::CompletedNormally => None,
            ExecutionOutcome::ExitedWithCode(code) => if code == 0 {
                None
            } else {
                Some(Failure::NonZeroExit(code))
            },
            ExecutionOutcome::Faulted(reason) => Some(Failure::Trap(reason)),
        }
    }
}

} // verus!
