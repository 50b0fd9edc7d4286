//! The values that cross the service boundary: the move request, the two
//! response envelopes, and the ways a request can be turned down.
//!
//! Every type that holds text has a view in which the text is a `Seq<char>`;
//! contracts are stated over those views.

use vstd::prelude::*;

verus! {

/// Body of a move request: where the entry is now, and where it should go.
/// Both paths are taken as the caller wrote them.
#[allow(non_snake_case)]
#[derive(Debug, PartialEq, Eq)]
pub struct FileMoveRequest {
    pub sourcePath: String,
    pub targetPath: String,
}

/// View of a [`FileMoveRequest`].
pub struct MoveRequestView {
    pub source: Seq<char>,
    pub target: Seq<char>,
}

impl Clone for FileMoveRequest {
    fn clone(&self) -> (copy: Self)
        ensures
            copy@ == self@,
    {
        FileMoveRequest {
            sourcePath: self.sourcePath.clone(),
            targetPath: self.targetPath.clone(),
        }
    }
}

impl View for FileMoveRequest {
    type V = MoveRequestView;

    open spec fn view(&self) -> MoveRequestView {
        MoveRequestView { source: self.sourcePath@, target: self.targetPath@ }
    }
}

/// The envelope every move response is sent in.
#[derive(Debug, PartialEq, Eq)]
pub struct GenericResponse {
    pub status: String,
    pub message: String,
}

/// View of a [`GenericResponse`].
pub struct EnvelopeView {
    pub status: Seq<char>,
    pub message: Seq<char>,
}

impl View for GenericResponse {
    type V = EnvelopeView;

    open spec fn view(&self) -> EnvelopeView {
        EnvelopeView { status: self.status@, message: self.message@ }
    }
}

/// The envelope of the liveness check.
#[derive(Debug, PartialEq, Eq)]
pub struct HealthResponse {
    pub status: String,
    pub version: String,
    pub message: String,
}

/// View of a [`HealthResponse`].
pub struct HealthView {
    pub status: Seq<char>,
    pub version: Seq<char>,
    pub message: Seq<char>,
}

impl View for HealthResponse {
    type V = HealthView;

    open spec fn view(&self) -> HealthView {
        HealthView { status: self.status@, version: self.version@, message: self.message@ }
    }
}

/// A request came without the shared secret, or with a wrong one. The value
/// does not say which: a caller learns nothing about the expected key.
#[derive(Debug, Clone, Copy, PartialEq, Eq)]
pub struct ApiKeyError;

/// Why a move request was turned down.
#[derive(Debug, PartialEq, Eq)]
pub enum Rejection {
    /// The credential was missing or wrong.
    Unauthorized(ApiKeyError),
    /// Nothing exists at the source path, which is carried along.
    SourceNotFound(String),
    /// Something already exists at the target path.
    TargetExists,
    /// A filesystem operation failed; the text names the step and the cause.
    FilesystemFailure(String),
    /// The transport could not read the request as a move request; the text
    /// is the debug representation of what it found wrong.
    MalformedRequest(String),
    /// Any other failure, carried as its debug representation.
    Unrecognized(String),
}

/// View of a [`Rejection`].
pub enum RejectionView {
    Unauthorized,
    SourceNotFound(Seq<char>),
    TargetExists,
    FilesystemFailure(Seq<char>),
    MalformedRequest(Seq<char>),
    Unrecognized(Seq<char>),
}

impl View for Rejection {
    type V = RejectionView;

    open spec fn view(&self) -> RejectionView {
        match self {
            Rejection::Unauthorized(_) => RejectionView::Unauthorized,
            Rejection::SourceNotFound(source) => RejectionView::SourceNotFound(source@),
            Rejection::TargetExists => RejectionView::TargetExists,
            Rejection::FilesystemFailure(detail) => RejectionView::FilesystemFailure(detail@),
            Rejection::MalformedRequest(debug) => RejectionView::MalformedRequest(debug@),
            Rejection::Unrecognized(debug) => RejectionView::Unrecognized(debug@),
        }
    }
}

/// How a move request ended.
#[derive(Debug, PartialEq, Eq)]
pub enum MoveOutcome {
    /// The entry that was at the carried source path is now at the target.
    Success(String),
    /// The request was turned down, or the move failed.
    Rejected(Rejection),
}

/// View of a [`MoveOutcome`].
pub enum OutcomeView {
    Success(Seq<char>),
    Rejected(RejectionView),
}

impl View for MoveOutcome {
    type V = OutcomeView;

    open spec fn view(&self) -> OutcomeView {
        match self {
            MoveOutcome::Success(source) => OutcomeView::Success(source@),
            MoveOutcome::Rejected(rejection) => OutcomeView::Rejected(rejection@),
        }
    }
}

} // verus!
