//! Turning what happened into what is sent back: a status code and an
//! envelope for every outcome of a move, and the answer of the liveness check.

use crate::model::{
    EnvelopeView, GenericResponse, HealthResponse, HealthView, MoveOutcome, OutcomeView,
    Rejection, RejectionView,
};
use crate::platform::{debug_quoted, quote_debug};
use vstd::prelude::*;

verus! {

/// Status code of a successful move and of the liveness check.
pub const STATUS_OK: u16 = 200;

/// Status code of every failure but a bad credential.
pub const STATUS_BAD_REQUEST: u16 = 400;

/// Status code of a missing or wrong credential.
pub const STATUS_FORBIDDEN: u16 = 403;

/// What the liveness check answers when the service runs as `version`.
pub open spec fn health_view(version: Seq<char>) -> HealthView {
    HealthView {
        status: "healthy"@,
        version,
        message: "FileAwayFlow API is up and running."@,
    }
}

/// The status code a rejection is answered with.
pub open spec fn rejection_status(rejection: RejectionView) -> u16 {
    match rejection {
        RejectionView::Unauthorized => STATUS_FORBIDDEN,
        _ => STATUS_BAD_REQUEST,
    }
}

/// The message a rejection is answered with.
pub open spec fn rejection_message(rejection: RejectionView) -> Seq<char> {
    match rejection {
        RejectionView::Unauthorized => "Invalid API key"@,
        RejectionView::SourceNotFound(source) => "File not found: "@ + source,
        RejectionView::TargetExists => "Unhandled rejection: Rejection(FileAlreadyExistsError)"@,
        RejectionView::FilesystemFailure(detail) => {
            "Unhandled rejection: Rejection(FileSystemError("@ + debug_quoted(detail) + "))"@
        },
        RejectionView::MalformedRequest(debug) | RejectionView::Unrecognized(debug) => {
            "Unhandled rejection: "@ + debug
        },
    }
}

/// Status code and envelope for a rejection.
pub open spec fn rejection_reply(rejection: RejectionView) -> (u16, EnvelopeView) {
    (
        rejection_status(rejection),
        EnvelopeView { status: "error"@, message: rejection_message(rejection) },
    )
}

/// The message that confirms a move of `source`.
pub open spec fn success_message(source: Seq<char>) -> Seq<char> {
    "File "@ + source + " moved successfully"@
}

/// Status code and envelope for any outcome of a move.
pub open spec fn outcome_reply(outcome: OutcomeView) -> (u16, EnvelopeView) {
    match outcome {
        OutcomeView::Success(source) => (
            STATUS_OK,
            EnvelopeView { status: "success"@, message: success_message(source) },
        ),
        OutcomeView::Rejected(rejection) => rejection_reply(rejection),
    }
}

/// Answers the liveness check: 200, with an envelope that says the service
/// is up. `version` is the version the service was built as; the rest of the
/// answer is fixed.
pub fn health_checker_handler(version: &str) -> (reply: (u16, HealthResponse))
    ensures
        reply.0 == STATUS_OK,
        reply.1@ == health_view(version@),
{
    (
        STATUS_OK,
        HealthResponse {
            status: String::from_str("healthy"),
            version: String::from_str(version),
            message: String::from_str("FileAwayFlow API is up and running."),
        },
    )
}

/// Maps a rejection to its status code and envelope: 403 with a fixed
/// message for a bad credential, 400 for everything else, with a message
/// that names the source path, the filesystem error, or the failure itself.
pub fn handle_rejection(err: &Rejection) -> (reply: (u16, GenericResponse))
    ensures
        (reply.0, reply.1@) == rejection_reply(err@),
{
    let message = match err {
        Rejection::Unauthorized(_) => String::from_str("Invalid API key"),
        Rejection::SourceNotFound(source) => {
            String::from_str("File not found: ").concat(source.as_str())
        },
        Rejection::TargetExists => {
            String::from_str("Unhandled rejection: Rejection(FileAlreadyExistsError)")
        },
        Rejection::FilesystemFailure(detail) => {
            let quoted = quote_debug(detail.as_str());
            String::from_str("Unhandled rejection: Rejection(FileSystemError(").concat(
                quoted.as_str(),
            ).concat("))")
        },
        Rejection::MalformedRequest(debug) | Rejection::Unrecognized(debug) => {
            String::from_str("Unhandled rejection: ").concat(debug.as_str())
        },
    };
    let status = match err {
        Rejection::Unauthorized(_) => STATUS_FORBIDDEN,
        _ => STATUS_BAD_REQUEST,
    };
    (status, GenericResponse { status: String::from_str("error"), message })
}

/// Maps the outcome of a move to its status code and envelope: 200 and a
/// confirmation that names the source for a success, and what
/// [`handle_rejection`] gives for a rejection.
pub fn respond(outcome: &MoveOutcome) -> (reply: (u16, GenericResponse))
    ensures
        (reply.0, reply.1@) == outcome_reply(outcome@),
{
    match outcome {
        MoveOutcome::Success(source) => {
            let message = String::from_str("File ").concat(source.as_str()).concat(
                " moved successfully",
            );
            (STATUS_OK, GenericResponse { status: String::from_str("success"), message })
        },
        MoveOutcome::Rejected(rejection) => handle_rejection(rejection),
    }
}

} // verus!
