//! The error value every use case of the library returns.
use vstd::prelude::*;

verus! {

/// Stable, machine-readable error codes.
#[derive(Clone, Copy, Debug, PartialEq, Eq, Structural)]
pub enum ErrorCode {
    InternalData,
    InternalError,
    PlanInvalidState,
    ProjectNotFound,
    ProjectMembershipConflict,
    ProjectUpdateViewNoAdditions,
    ProjectUpdateViewSessionTooLarge,
    ProjectUpdateViewPlanNotFound,
    ProjectUpdateViewPlanNotApproved,
    ProjectUpdateViewPlanNotOpen,
    ProjectUpdateViewPlanDigestMismatch,
    ProjectUpdateViewPlanStale,
    ProjectUpdateViewPathConflict,
    ProjectUpdateViewOperationNotCancellable,
}

/// How an error should be presented.
#[derive(Clone, Copy, Debug, PartialEq, Eq, Structural)]
pub enum ErrorSeverity {
    Blocking,
    Warning,
}

/// A failed use case: code, human-readable message, severity, and whether a
/// retry can succeed.
pub struct ContractError {
    pub code: ErrorCode,
    pub message: String,
    pub severity: ErrorSeverity,
    pub retryable: bool,
}

impl ContractError {
    pub fn new(code: ErrorCode, message: String, severity: ErrorSeverity, retryable: bool) -> (e:
        ContractError)
        ensures
            e.code == code,
            e.message == message,
            e.severity == severity,
            e.retryable == retryable,
    {
        ContractError { code, message, severity, retryable }
    }

    /// A blocking, non-retryable error: the shape every Update View refusal takes.
    pub fn blocking(code: ErrorCode, message: String) -> (e: ContractError)
        ensures
            e.code == code,
            e.message == message,
            e.severity == ErrorSeverity::Blocking,
            !e.retryable,
    {
        ContractError { code, message, severity: ErrorSeverity::Blocking, retryable: false }
    }
}

} // verus!
