//! Request admission of the operation-submission surface.
//!
//! The transport lives outside this crate; here stand the plain request and
//! response shapes and the verified admission step: a raw unit id is
//! validated — rejected, never clamped — before anything is scheduled, and a
//! fresh operation id names each accepted submission.

use vstd::prelude::*;

use crate::types::{Operation, OperationStatus, Priority, UnitId, UNIT_COUNT};

verus! {

/// One submitted operation request.
#[derive(Debug, Clone, Copy)]
pub struct OperationRequest {
    /// Operation to execute.
    pub operation: Operation,
    /// Raw target unit id, validated at admission.
    pub unit_id: usize,
    /// Queue priority.
    pub priority: Priority,
}

/// Response to an accepted submission.
#[derive(Debug, Clone)]
pub struct OperationResponse {
    /// Identifier of the accepted operation.
    pub operation_id: String,
    /// Submission status.
    pub status: OperationStatus,
    /// Estimated completion time in milliseconds, if known.
    pub eta: Option<u64>,
}

/// Error response of the submission surface.
#[derive(Debug, Clone)]
pub struct ErrorResponse {
    /// Human-readable message.
    pub message: String,
    /// Machine-readable error code.
    pub code: String,
    /// Additional details, if any.
    pub details: Option<String>,
}

/// Relies on `uuid::Uuid::new_v4` and its display form: a fresh random
/// version-4 UUID, printed in the hyphenated lowercase form, which is always
/// 36 characters.  The value is random; nothing more is assumed of it.
#[verifier::external_body]
fn fresh_operation_id() -> (r: String)
    ensures
        r@.len() == 36,
{
    uuid::Uuid::new_v4().to_string()
}

/// Admit one request: validate the raw unit id — an out-of-range id is
/// rejected with an `INVALID_REQUEST` error, never clamped — and hand back
/// the validated parts for scheduling.
pub fn parse_submission(request: &OperationRequest) -> (r: Result<
    (UnitId, Operation, Priority),
    ErrorResponse,
>)
    ensures
        request.unit_id < UNIT_COUNT ==> r == Ok::<(UnitId, Operation, Priority), ErrorResponse>(
            (UnitId(request.unit_id), request.operation, request.priority),
        ),
        request.unit_id >= UNIT_COUNT ==> (r matches Err(e) && e.code@ == "INVALID_REQUEST"@),
{
    match UnitId::new(request.unit_id) {
        Some(unit) => Ok((unit, request.operation, request.priority)),
        None => Err(
            ErrorResponse {
                message: "invalid unit id".to_owned(),
                code: "INVALID_REQUEST".to_owned(),
                details: Some("unit id is out of range".to_owned()),
            },
        ),
    }
}

/// Build the response for an accepted submission: a fresh operation id, a
/// successful status and the reference completion estimate of one second.
pub fn accepted_response() -> (r: OperationResponse)
    ensures
        r.operation_id@.len() == 36,
        r.status == OperationStatus::Success,
        r.eta == Some(1000u64),
{
    OperationResponse {
        operation_id: fresh_operation_id(),
        status: OperationStatus::Success,
        eta: Some(1000),
    }
}

/// Build the error response for a submission the scheduler refused.
pub fn rejected_response(error: &crate::errors::AccelError) -> (r: ErrorResponse)
    ensures
        r.code@ == "INTERNAL_ERROR"@,
        r.details is Some,
{
    ErrorResponse {
        message: "failed to schedule operation".to_owned(),
        code: "INTERNAL_ERROR".to_owned(),
        details: Some(error.message()),
    }
}

} // verus!
