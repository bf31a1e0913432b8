//! The decisions of the standalone and product HTTP servers: which requests
//! pass the host, origin and credential checks, how failures are reported,
//! and how event streams and subscriptions advance.

use vstd::prelude::*;
use crate::auth::{auth_error_text, cookie_lookup, cookie_value, now_unix_ms, text_view, AuthError};
use crate::protocol::{
    unsupported_version_code, unsupported_version_message, CommandResult, Envelope, ResponseEnvelope, StructuredError,
    PROTOCOL_VERSION,
};
use crate::store::{disposition_of, recovered_state, RecoveryDisposition, RunState};
use crate::text::{i64_to_decimal, signed_decimal, str_equals};

verus! {

/// HTTP 400.
pub const STATUS_BAD_REQUEST: u16 = 400;
/// HTTP 401.
pub const STATUS_UNAUTHORIZED: u16 = 401;
/// HTTP 403.
pub const STATUS_FORBIDDEN: u16 = 403;
/// HTTP 404.
pub const STATUS_NOT_FOUND: u16 = 404;
/// HTTP 409.
pub const STATUS_CONFLICT: u16 = 409;
/// HTTP 413.
pub const STATUS_PAYLOAD_TOO_LARGE: u16 = 413;
/// HTTP 500.
pub const STATUS_INTERNAL_SERVER_ERROR: u16 = 500;
/// HTTP 503.
pub const STATUS_SERVICE_UNAVAILABLE: u16 = 503;

/// Most items of each kind in one product snapshot.
pub const SNAPSHOT_LIMIT: usize = 1_000;
/// Events per page of a product event replay.
pub const EVENT_PAGE_SIZE: usize = 100;
/// Events per page of a run's event stream.
pub const SSE_PAGE_SIZE: usize = 100;
/// Largest request body the product server reads.
pub const MAX_PRODUCT_BODY_BYTES: usize = 65_536;
/// How long a worker holds a claimed assignment, in seconds.
pub const WORKER_LEASE_SECS: u64 = 30;

/// A refused request: the HTTP status and the structured error in its body.
#[derive(Debug, Clone, PartialEq, Eq)]
pub struct ApiError {
    pub status: u16,
    pub error: StructuredError,
}

/// The error has this status, code and message, and is not retryable.
pub open spec fn api_error_is(e: ApiError, status: u16, code: Seq<char>, message: Seq<char>) -> bool {
    e.status == status && e.error.code@ == code && e.error.message@ == message && !e.error.retryable
}

impl ApiError {
    /// A refusal with `status`, `code` and `message` that retrying will not
    /// change.
    pub fn new(status: u16, code: &str, message: &str) -> (e: ApiError)
        ensures
            api_error_is(e, status, code@, message@),
    {
        ApiError {
            status,
            error: StructuredError { code: code.to_owned(), message: message.to_owned(), retryable: false },
        }
    }

    /// A 403 refusal.
    pub fn forbidden(code: &str, message: &str) -> (e: ApiError)
        ensures
            api_error_is(e, STATUS_FORBIDDEN, code@, message@),
    {
        ApiError::new(STATUS_FORBIDDEN, code, message)
    }

    /// A 401 refusal.
    pub fn unauthorized(code: &str, message: &str) -> (e: ApiError)
        ensures
            api_error_is(e, STATUS_UNAUTHORIZED, code@, message@),
    {
        ApiError::new(STATUS_UNAUTHORIZED, code, message)
    }

    /// A 500 failure of the server itself.
    pub fn internal(message: &str) -> (e: ApiError)
        ensures
            api_error_is(e, STATUS_INTERNAL_SERVER_ERROR, "internal_server_error"@, message@),
    {
        ApiError::new(STATUS_INTERNAL_SERVER_ERROR, "internal_server_error", message)
    }

    /// A 400 answer carrying the runtime's own structured error.
    pub fn runtime(error: StructuredError) -> (e: ApiError)
        ensures
            e.status == STATUS_BAD_REQUEST,
            e.error == error,
    {
        ApiError { status: STATUS_BAD_REQUEST, error }
    }
}

/// The outcome of checking that a header carries exactly `expected`.
pub open spec fn header_check(
    header: Option<Seq<char>>,
    expected: Seq<char>,
    missing: (Seq<char>, Seq<char>),
    mismatch: (Seq<char>, Seq<char>),
) -> Option<(Seq<char>, Seq<char>)> {
    match header {
        None => Some(missing),
        Some(h) => if h == expected { None } else { Some(mismatch) },
    }
}

fn require_header(
    header: Option<&str>,
    expected: &str,
    missing_code: &str,
    missing_message: &str,
    invalid_code: &str,
    invalid_message: &str,
) -> (r: Result<(), ApiError>)
    ensures
        match header_check(
            crate::auth::text_view(header),
            expected@,
            (missing_code@, missing_message@),
            (invalid_code@, invalid_message@),
        ) {
            None => r is Ok,
            Some((code, message)) => r is Err && api_error_is(r->Err_0, STATUS_FORBIDDEN, code, message),
        },
{
    match header {
        None => Err(ApiError::forbidden(missing_code, missing_message)),
        Some(h) => {
            if str_equals(h, expected) {
                Ok(())
            } else {
                Err(ApiError::forbidden(invalid_code, invalid_message))
            }
        },
    }
}

/// The standalone server answers only requests whose `Host` header names its
/// own listener.
pub fn validate_host(host_header: Option<&str>, authority: &str) -> (r: Result<(), ApiError>)
    ensures
        match header_check(
            crate::auth::text_view(host_header),
            authority@,
            ("missing_host"@, "Host header is required"@),
            ("invalid_host"@, "Host header does not match the local listener"@),
        ) {
            None => r is Ok,
            Some((code, message)) => r is Err && api_error_is(r->Err_0, STATUS_FORBIDDEN, code, message),
        },
{
    require_header(
        host_header,
        authority,
        "missing_host",
        "Host header is required",
        "invalid_host",
        "Host header does not match the local listener",
    )
}

/// The standalone server accepts session exchanges and mutations only from
/// its own origin.
pub fn validate_origin(origin_header: Option<&str>, origin: &str) -> (r: Result<(), ApiError>)
    ensures
        match header_check(
            crate::auth::text_view(origin_header),
            origin@,
            ("missing_origin"@, "Origin header is required"@),
            ("invalid_origin"@, "Origin header does not match the local listener"@),
        ) {
            None => r is Ok,
            Some((code, message)) => r is Err && api_error_is(r->Err_0, STATUS_FORBIDDEN, code, message),
        },
{
    require_header(
        origin_header,
        origin,
        "missing_origin",
        "Origin header is required",
        "invalid_origin",
        "Origin header does not match the local listener",
    )
}

/// The product server answers only requests whose `Host` header names the
/// authority of its public origin.
pub fn validate_product_host(host_header: Option<&str>, authority: &str) -> (r: Result<(), ApiError>)
    ensures
        match header_check(
            crate::auth::text_view(host_header),
            authority@,
            ("missing_host"@, "Host is required"@),
            ("invalid_host"@, "Host does not match the configured public origin"@),
        ) {
            None => r is Ok,
            Some((code, message)) => r is Err && api_error_is(r->Err_0, STATUS_FORBIDDEN, code, message),
        },
{
    require_header(
        host_header,
        authority,
        "missing_host",
        "Host is required",
        "invalid_host",
        "Host does not match the configured public origin",
    )
}

/// The product server accepts logins and mutations only from its public
/// origin.
pub fn validate_product_origin(origin_header: Option<&str>, origin: &str) -> (r: Result<(), ApiError>)
    ensures
        match header_check(
            crate::auth::text_view(origin_header),
            origin@,
            ("missing_origin"@, "Origin is required"@),
            ("invalid_origin"@, "Origin is not allowed"@),
        ) {
            None => r is Ok,
            Some((code, message)) => r is Err && api_error_is(r->Err_0, STATUS_FORBIDDEN, code, message),
        },
{
    require_header(
        origin_header,
        origin,
        "missing_origin",
        "Origin is required",
        "invalid_origin",
        "Origin is not allowed",
    )
}

/// The HTTP status of each local authentication failure: the server's own
/// faults are 500, everything the client presented wrongly is 401.
pub open spec fn auth_error_status(e: AuthError) -> u16 {
    match e {
        AuthError::StateUnavailable | AuthError::RandomnessUnavailable => STATUS_INTERNAL_SERVER_ERROR,
        _ => STATUS_UNAUTHORIZED,
    }
}

/// How a local authentication failure is answered.
pub fn auth_error_response(e: AuthError) -> (r: ApiError)
    ensures
        api_error_is(r, auth_error_status(e), "local_authentication_failed"@, auth_error_text(e)),
{
    let status = match e {
        AuthError::StateUnavailable | AuthError::RandomnessUnavailable => STATUS_INTERNAL_SERVER_ERROR,
        _ => STATUS_UNAUTHORIZED,
    };
    ApiError::new(status, "local_authentication_failed", e.message())
}

/// The failures of the local orchestrator that clients are told apart;
/// every other failure is `Other`.
#[derive(Debug, Clone, Copy, PartialEq, Eq, Structural)]
pub enum OrchestrationError {
    NotFound,
    StaleBase,
    ChangesetNotReviewable,
    StaleChangesetVersion,
    StaleChangesetHead,
    MutationConfirmationMismatch,
    MutationPreviewMismatch,
    ChangesetFinalizationDivergent,
    ChangesetFinalizationCorrupt,
    ApprovalMismatch,
    UnsupportedCommand,
    ResourceLimit,
    ArtifactStoreUnavailable,
    ArtifactDeletionRequiresTerminalRun,
    ArtifactIntegrity,
    MutationLeaseUnavailable,
    NoChangesToFinalize,
    ChangesetFinalizationConflict,
    Other,
}

/// The code, message and retryability clients see for each orchestrator
/// failure. Only an unavailable mutation lease is worth retrying.
pub open spec fn orchestration_error_parts(e: OrchestrationError) -> (Seq<char>, Seq<char>, bool) {
    match e {
        OrchestrationError::NotFound => ("not_found"@, "requested resource was not found"@, false),
        OrchestrationError::StaleBase => ("stale_base"@, "repository base changed"@, false),
        OrchestrationError::ChangesetNotReviewable => (
            "changeset_not_reviewable"@,
            "changeset is not ready to be committed or discarded"@,
            false,
        ),
        OrchestrationError::StaleChangesetVersion => (
            "stale_changeset_version"@,
            "changeset version changed after preview"@,
            false,
        ),
        OrchestrationError::StaleChangesetHead => ("stale_changeset_head"@, "changeset head changed after preview"@, false),
        OrchestrationError::MutationConfirmationMismatch => (
            "mutation_confirmation_mismatch"@,
            "confirmation did not match the exact mutation preview"@,
            false,
        ),
        OrchestrationError::MutationPreviewMismatch => (
            "mutation_preview_mismatch"@,
            "changeset no longer matches the mutation preview"@,
            false,
        ),
        OrchestrationError::ChangesetFinalizationDivergent => (
            "changeset_divergent"@,
            "changeset finalization requires manual resolution"@,
            false,
        ),
        OrchestrationError::ChangesetFinalizationCorrupt => (
            "changeset_finalization_corrupt"@,
            "changeset finalization state is invalid"@,
            false,
        ),
        OrchestrationError::ApprovalMismatch => ("approval_mismatch"@, "approval did not match the pending action"@, false),
        OrchestrationError::UnsupportedCommand => ("unsupported_command"@, "command is not implemented"@, false),
        OrchestrationError::ResourceLimit => ("resource_limit"@, "resource limit exceeded"@, false),
        OrchestrationError::ArtifactStoreUnavailable => (
            "artifact_store_unavailable"@,
            "run artifacts are unavailable"@,
            false,
        ),
        OrchestrationError::ArtifactDeletionRequiresTerminalRun => (
            "artifact_run_active"@,
            "run artifacts cannot be deleted while the run is active"@,
            false,
        ),
        OrchestrationError::ArtifactIntegrity => (
            "artifact_integrity_failed"@,
            "artifact content failed integrity verification"@,
            false,
        ),
        OrchestrationError::MutationLeaseUnavailable => ("mutation_lease_unavailable"@, "mutation lease is unavailable"@, true),
        OrchestrationError::NoChangesToFinalize => ("no_changes_to_finalize"@, "worktree has no changes to finalize"@, false),
        OrchestrationError::ChangesetFinalizationConflict => (
            "changeset_finalization_conflict"@,
            "changeset finalization conflicts with durable state"@,
            false,
        ),
        OrchestrationError::Other => ("runtime_error"@, "local runtime operation failed"@, false),
    }
}

/// The structured error is made of these parts.
pub open spec fn structured_is(e: StructuredError, parts: (Seq<char>, Seq<char>, bool)) -> bool {
    e.code@ == parts.0 && e.message@ == parts.1 && e.retryable == parts.2
}

fn structured(code: &str, message: &str, retryable: bool) -> (e: StructuredError)
    ensures
        structured_is(e, (code@, message@, retryable)),
{
    StructuredError { code: code.to_owned(), message: message.to_owned(), retryable }
}

/// How an orchestrator failure is reported to clients.
pub fn structured_orchestration_error(error: OrchestrationError) -> (e: StructuredError)
    ensures
        structured_is(e, orchestration_error_parts(error)),
{
    let (code, message, retryable) = match error {
        OrchestrationError::NotFound => ("not_found", "requested resource was not found", false),
        OrchestrationError::StaleBase => ("stale_base", "repository base changed", false),
        OrchestrationError::ChangesetNotReviewable => (
            "changeset_not_reviewable",
            "changeset is not ready to be committed or discarded",
            false,
        ),
        OrchestrationError::StaleChangesetVersion => (
            "stale_changeset_version",
            "changeset version changed after preview",
            false,
        ),
        OrchestrationError::StaleChangesetHead => ("stale_changeset_head", "changeset head changed after preview", false),
        OrchestrationError::MutationConfirmationMismatch => (
            "mutation_confirmation_mismatch",
            "confirmation did not match the exact mutation preview",
            false,
        ),
        OrchestrationError::MutationPreviewMismatch => (
            "mutation_preview_mismatch",
            "changeset no longer matches the mutation preview",
            false,
        ),
        OrchestrationError::ChangesetFinalizationDivergent => (
            "changeset_divergent",
            "changeset finalization requires manual resolution",
            false,
        ),
        OrchestrationError::ChangesetFinalizationCorrupt => (
            "changeset_finalization_corrupt",
            "changeset finalization state is invalid",
            false,
        ),
        OrchestrationError::ApprovalMismatch => ("approval_mismatch", "approval did not match the pending action", false),
        OrchestrationError::UnsupportedCommand => ("unsupported_command", "command is not implemented", false),
        OrchestrationError::ResourceLimit => ("resource_limit", "resource limit exceeded", false),
        OrchestrationError::ArtifactStoreUnavailable => (
            "artifact_store_unavailable",
            "run artifacts are unavailable",
            false,
        ),
        OrchestrationError::ArtifactDeletionRequiresTerminalRun => (
            "artifact_run_active",
            "run artifacts cannot be deleted while the run is active",
            false,
        ),
        OrchestrationError::ArtifactIntegrity => (
            "artifact_integrity_failed",
            "artifact content failed integrity verification",
            false,
        ),
        OrchestrationError::MutationLeaseUnavailable => ("mutation_lease_unavailable", "mutation lease is unavailable", true),
        OrchestrationError::NoChangesToFinalize => ("no_changes_to_finalize", "worktree has no changes to finalize", false),
        OrchestrationError::ChangesetFinalizationConflict => (
            "changeset_finalization_conflict",
            "changeset finalization conflicts with durable state",
            false,
        ),
        OrchestrationError::Other => ("runtime_error", "local runtime operation failed", false),
    };
    structured(code, message, retryable)
}

/// The failures of the product control plane that clients are told apart;
/// every other failure is `Other`.
#[derive(Debug, Clone, Copy, PartialEq, Eq, Structural)]
pub enum ControlPlaneError {
    InvalidCredentials,
    InvalidSession,
    InvalidCsrfToken,
    InvalidLaunchToken,
    InvalidWorkerCredential,
    StaleWorkerFence,
    WorkerEventSequence,
    Forbidden,
    VersionConflict,
    NotFound,
    QuotaExceeded,
    InvalidInput,
    Database,
    Other,
}

/// The code, message and retryability clients see for each control-plane
/// failure. Version conflicts and database failures are worth retrying.
pub open spec fn control_plane_error_parts(e: ControlPlaneError) -> (Seq<char>, Seq<char>, bool) {
    match e {
        ControlPlaneError::InvalidCredentials => ("invalid_credentials"@, "Invalid credentials"@, false),
        ControlPlaneError::InvalidSession => ("invalid_session"@, "Session is invalid or expired"@, false),
        ControlPlaneError::InvalidCsrfToken => ("invalid_csrf"@, "CSRF token is invalid"@, false),
        ControlPlaneError::InvalidLaunchToken => ("invalid_launch_token"@, "Launch token is invalid or expired"@, false),
        ControlPlaneError::InvalidWorkerCredential => (
            "invalid_worker_credential"@,
            "Worker credential is invalid or revoked"@,
            false,
        ),
        ControlPlaneError::StaleWorkerFence => ("stale_worker_fence"@, "Worker assignment fencing epoch is stale"@, false),
        ControlPlaneError::WorkerEventSequence => ("worker_event_sequence"@, "Worker event sequence is invalid"@, false),
        ControlPlaneError::Forbidden => ("forbidden"@, "Action is forbidden"@, false),
        ControlPlaneError::VersionConflict => ("version_conflict"@, "Record changed; refresh before retrying"@, true),
        ControlPlaneError::NotFound => ("not_found"@, "Requested resource was not found"@, false),
        ControlPlaneError::QuotaExceeded => ("quota_exceeded"@, "Workspace quota was exceeded"@, false),
        ControlPlaneError::InvalidInput => ("invalid_input"@, "Request input is invalid"@, false),
        ControlPlaneError::Database => ("database_unavailable"@, "Database operation failed"@, true),
        ControlPlaneError::Other => ("control_plane_error"@, "Control-plane operation failed"@, false),
    }
}

/// How a control-plane failure is reported to clients.
pub fn structured_control_plane_error(error: &ControlPlaneError) -> (e: StructuredError)
    ensures
        structured_is(e, control_plane_error_parts(*error)),
{
    let (code, message, retryable) = match error {
        ControlPlaneError::InvalidCredentials => ("invalid_credentials", "Invalid credentials", false),
        ControlPlaneError::InvalidSession => ("invalid_session", "Session is invalid or expired", false),
        ControlPlaneError::InvalidCsrfToken => ("invalid_csrf", "CSRF token is invalid", false),
        ControlPlaneError::InvalidLaunchToken => ("invalid_launch_token", "Launch token is invalid or expired", false),
        ControlPlaneError::InvalidWorkerCredential => (
            "invalid_worker_credential",
            "Worker credential is invalid or revoked",
            false,
        ),
        ControlPlaneError::StaleWorkerFence => ("stale_worker_fence", "Worker assignment fencing epoch is stale", false),
        ControlPlaneError::WorkerEventSequence => ("worker_event_sequence", "Worker event sequence is invalid", false),
        ControlPlaneError::Forbidden => ("forbidden", "Action is forbidden", false),
        ControlPlaneError::VersionConflict => ("version_conflict", "Record changed; refresh before retrying", true),
        ControlPlaneError::NotFound => ("not_found", "Requested resource was not found", false),
        ControlPlaneError::QuotaExceeded => ("quota_exceeded", "Workspace quota was exceeded", false),
        ControlPlaneError::InvalidInput => ("invalid_input", "Request input is invalid", false),
        ControlPlaneError::Database => ("database_unavailable", "Database operation failed", true),
        ControlPlaneError::Other => ("control_plane_error", "Control-plane operation failed", false),
    };
    structured(code, message, retryable)
}

/// The HTTP status of each control-plane failure.
pub open spec fn control_plane_status(e: ControlPlaneError) -> u16 {
    match e {
        ControlPlaneError::InvalidCredentials
        | ControlPlaneError::InvalidSession
        | ControlPlaneError::InvalidCsrfToken
        | ControlPlaneError::InvalidLaunchToken
        | ControlPlaneError::InvalidWorkerCredential => STATUS_UNAUTHORIZED,
        ControlPlaneError::Forbidden => STATUS_FORBIDDEN,
        ControlPlaneError::VersionConflict => STATUS_CONFLICT,
        ControlPlaneError::NotFound => STATUS_NOT_FOUND,
        ControlPlaneError::InvalidInput => STATUS_BAD_REQUEST,
        ControlPlaneError::StaleWorkerFence | ControlPlaneError::WorkerEventSequence => STATUS_CONFLICT,
        ControlPlaneError::QuotaExceeded => STATUS_PAYLOAD_TOO_LARGE,
        _ => STATUS_INTERNAL_SERVER_ERROR,
    }
}

/// How a control-plane failure is answered over HTTP.
pub fn control_plane_response(error: ControlPlaneError) -> (r: ApiError)
    ensures
        r.status == control_plane_status(error),
        structured_is(r.error, control_plane_error_parts(error)),
{
    let status = match error {
        ControlPlaneError::InvalidCredentials
        | ControlPlaneError::InvalidSession
        | ControlPlaneError::InvalidCsrfToken
        | ControlPlaneError::InvalidLaunchToken
        | ControlPlaneError::InvalidWorkerCredential => STATUS_UNAUTHORIZED,
        ControlPlaneError::Forbidden => STATUS_FORBIDDEN,
        ControlPlaneError::VersionConflict => STATUS_CONFLICT,
        ControlPlaneError::NotFound => STATUS_NOT_FOUND,
        ControlPlaneError::InvalidInput => STATUS_BAD_REQUEST,
        ControlPlaneError::StaleWorkerFence | ControlPlaneError::WorkerEventSequence => STATUS_CONFLICT,
        ControlPlaneError::QuotaExceeded => STATUS_PAYLOAD_TOO_LARGE,
        _ => STATUS_INTERNAL_SERVER_ERROR,
    };
    ApiError { status, error: structured_control_plane_error(&error) }
}

/// The response to a product command: its value, or its failure as a
/// structured error, under the request's identifier.
pub fn product_command_response<T>(request_id: u128, result: Result<T, ControlPlaneError>) -> (r: ResponseEnvelope<T>)
    ensures
        r.version@ == crate::protocol::PROTOCOL_VERSION@,
        r.request_id == request_id,
        match result {
            Ok(v) => r.result == CommandResult::<T>::Success(v),
            Err(e) => r.result is Error && structured_is(r.result->Error_0, control_plane_error_parts(e)),
        },
{
    match result {
        Ok(value) => ResponseEnvelope::success(request_id, value),
        Err(error) => ResponseEnvelope::error(request_id, structured_control_plane_error(&error)),
    }
}

/// The response to a local command: its value, or the runtime's structured
/// error, under the request's identifier.
pub fn local_command_response<T>(request_id: u128, result: Result<T, StructuredError>) -> (r: ResponseEnvelope<T>)
    ensures
        r.version@ == crate::protocol::PROTOCOL_VERSION@,
        r.request_id == request_id,
        match result {
            Ok(v) => r.result == CommandResult::<T>::Success(v),
            Err(e) => r.result == CommandResult::<T>::Error(e),
        },
{
    match result {
        Ok(value) => ResponseEnvelope::success(request_id, value),
        Err(error) => ResponseEnvelope::error(request_id, error),
    }
}

/// Why a server could not be set up.
#[derive(Debug, Clone, PartialEq, Eq)]
pub enum ServerError {
    NonLoopbackAddress(String),
    Authentication(AuthError),
    StaticAssets { path: String, source: String },
    MissingStaticIndex(String),
}

/// Why a product server could not be set up.
#[derive(Debug, Clone, PartialEq, Eq)]
pub enum ProductServerError {
    InvalidOrigin(String),
    StaticAssets(String),
}

/// The standalone server's origin for its listener `authority`; it listens
/// only on loopback addresses.
pub fn standalone_origin(authority: &str, is_loopback: bool) -> (r: Result<String, ServerError>)
    ensures
        is_loopback ==> r is Ok && r->Ok_0@ == "http://"@ + authority@,
        !is_loopback ==> r is Err && (r->Err_0 matches ServerError::NonLoopbackAddress(a) && a@ == authority@),
{
    if !is_loopback {
        return Err(ServerError::NonLoopbackAddress(authority.to_owned()));
    }
    let mut origin = String::from_str("http://");
    origin.append(authority);
    Ok(origin)
}

/// `s` without trailing `/` characters.
pub open spec fn trim_trailing_slashes(s: Seq<char>) -> Seq<char>
    decreases s.len(),
{
    if s.len() > 0 && s.last() == '/' {
        trim_trailing_slashes(s.drop_last())
    } else {
        s
    }
}

/// `://` starts at index `i` of `s`.
pub open spec fn scheme_separator_at(s: Seq<char>, i: int) -> bool {
    0 <= i && i + 3 <= s.len() && s[i] == ':' && s[i + 1] == '/' && s[i + 2] == '/'
}

/// `i` is where the first `://` of `s` starts.
pub open spec fn first_scheme_separator(s: Seq<char>, i: int) -> bool {
    scheme_separator_at(s, i) && forall|j: int| 0 <= j < i ==> !scheme_separator_at(s, j)
}

/// The origin and authority of a public origin: trailing slashes dropped,
/// the authority being what follows the first `://`, non-empty and without
/// a path. `None` when the origin has no such authority.
pub open spec fn public_origin_parts(public_origin: Seq<char>) -> Option<(Seq<char>, Seq<char>)> {
    let origin = trim_trailing_slashes(public_origin);
    if exists|i: int| first_scheme_separator(origin, i) {
        let i = choose|i: int| first_scheme_separator(origin, i);
        let authority = origin.skip(i + 3);
        if authority.len() > 0 && forall|k: int| 0 <= k < authority.len() ==> authority[k] != '/' {
            Some((origin, authority))
        } else {
            None
        }
    } else {
        None
    }
}

/// Reads the configured public origin into the origin that requests must
/// come from and the authority their `Host` header must name.
pub fn parse_public_origin(public_origin: &str) -> (r: Result<(String, String), ProductServerError>)
    ensures
        match public_origin_parts(public_origin@) {
            Some((origin, authority)) => r is Ok && r->Ok_0.0@ == origin && r->Ok_0.1@ == authority,
            None => r is Err && (r->Err_0 matches ProductServerError::InvalidOrigin(o) && o@ == public_origin@),
        },
{
    let ghost full = public_origin@;
    let mut end = public_origin.unicode_len();
    assert(full.take(end as int) =~= full);
    while end > 0 && public_origin.get_char(end - 1) == '/'
        invariant
            full == public_origin@,
            end <= full.len(),
            trim_trailing_slashes(full) == trim_trailing_slashes(full.take(end as int)),
        decreases end,
    {
        assert(full.take(end as int).drop_last() =~= full.take(end - 1));
        end = end - 1;
    }
    proof {
        if end == full.len() {
            assert(full.take(end as int) =~= full);
        }
    }
    let origin = public_origin.substring_char(0, end);
    let ghost o = origin@;
    assert(o == trim_trailing_slashes(full));
    let mut i: usize = 0;
    let mut found = false;
    while end >= 3 && i <= end - 3 && !found
        invariant
            o == origin@,
            i <= end,
            o.len() == end,
            found ==> first_scheme_separator(o, i as int),
            !found ==> forall|j: int| 0 <= j < i ==> !scheme_separator_at(o, j),
        decreases end + 1 - i - (if found { 1int } else { 0int }),
    {
        if origin.get_char(i) == ':' && origin.get_char(i + 1) == '/' && origin.get_char(i + 2) == '/' {
            found = true;
        } else {
            i = i + 1;
        }
    }
    if !found {
        proof {
            assert forall|j: int| !first_scheme_separator(o, j) by {
                if first_scheme_separator(o, j) {
                    assert(!scheme_separator_at(o, j));
                }
            }
        }
        return Err(ProductServerError::InvalidOrigin(public_origin.to_owned()));
    }
    proof {
        assert forall|j: int| first_scheme_separator(o, j) implies j == i by {
            if j < i {
                assert(!scheme_separator_at(o, j));
            } else if j > i {
                assert(!scheme_separator_at(o, i as int));
            }
        }
    }
    let authority = origin.substring_char(i + 3, end);
    assert(authority@ =~= o.skip(i + 3));
    let n = authority.unicode_len();
    if n == 0 {
        return Err(ProductServerError::InvalidOrigin(public_origin.to_owned()));
    }
    let mut k: usize = 0;
    while k < n
        invariant
            full == public_origin@,
            o == trim_trailing_slashes(full),
            first_scheme_separator(o, i as int),
            forall|j: int| first_scheme_separator(o, j) ==> j == i,
            authority@ == o.skip(i + 3),
            n == authority@.len(),
            k <= n,
            forall|m: int| 0 <= m < k ==> authority@[m] != '/',
        decreases n - k,
    {
        if authority.get_char(k) == '/' {
            return Err(ProductServerError::InvalidOrigin(public_origin.to_owned()));
        }
        k = k + 1;
    }
    Ok((origin.to_owned(), authority.to_owned()))
}

/// The request's session token and, where required, its CSRF token, or the
/// 401 that a product request without them gets.
pub open spec fn product_credentials_check(cookie_header: Option<Seq<char>>, csrf_header: Option<Seq<char>>, require_csrf: bool) -> Result<(Seq<char>, Option<Seq<char>>), (Seq<char>, Seq<char>)> {
    let token = match cookie_header {
        Some(h) => cookie_lookup(h, "jet_black_session="@),
        None => None,
    };
    match token {
        None => Err(("missing_session"@, "Session is required"@)),
        Some(t) => if !require_csrf {
            Ok((t, None))
        } else {
            match csrf_header {
                None => Err(("missing_csrf"@, "CSRF token is required"@)),
                Some(c) => Ok((t, Some(c))),
            }
        },
    }
}

/// The credentials a product request presents: the session cookie, and the
/// CSRF header where the request mutates.
pub fn product_credentials<'a>(cookie_header: Option<&'a str>, csrf_header: Option<&'a str>, require_csrf: bool) -> (r: Result<(&'a str, Option<&'a str>), ApiError>)
    ensures
        match product_credentials_check(text_view(cookie_header), text_view(csrf_header), require_csrf) {
            Ok((t, c)) => r is Ok && r->Ok_0.0@ == t && text_view(r->Ok_0.1) == c,
            Err((code, message)) => r is Err && api_error_is(r->Err_0, STATUS_UNAUTHORIZED, code, message),
        },
{
    proof {
        reveal_strlit("jet_black_session");
        reveal_strlit("=");
        reveal_strlit("jet_black_session=");
        assert("jet_black_session"@ + "="@ =~= "jet_black_session="@);
    }
    let token = match cookie_header {
        Some(h) => cookie_value(h, "jet_black_session"),
        None => None,
    };
    let token = match token {
        Some(t) => t,
        None => return Err(ApiError::unauthorized("missing_session", "Session is required")),
    };
    if !require_csrf {
        return Ok((token, None));
    }
    match csrf_header {
        Some(c) => Ok((token, Some(c))),
        None => Err(ApiError::unauthorized("missing_csrf", "CSRF token is required")),
    }
}

/// The worker credential of an `Authorization` header: what follows
/// `Bearer `, which must not be empty.
pub open spec fn bearer_token(authorization: Option<Seq<char>>) -> Option<Seq<char>> {
    match authorization {
        Some(a) => {
            let p = "Bearer "@;
            if p.len() < a.len() && a.take(p.len() as int) == p { Some(a.skip(p.len() as int)) } else { None }
        },
        None => None,
    }
}

/// The bearer credential a worker presents, or the 401 for its absence.
pub fn worker_bearer_token<'a>(authorization: Option<&'a str>) -> (r: Result<&'a str, ApiError>)
    ensures
        match bearer_token(text_view(authorization)) {
            Some(t) => r is Ok && r->Ok_0@ == t,
            None => r is Err && api_error_is(
                r->Err_0,
                STATUS_UNAUTHORIZED,
                "missing_worker_credential"@,
                "Worker bearer credential is required"@,
            ),
        },
{
    proof {
        reveal_strlit("Bearer ");
    }
    let missing = "Worker bearer credential is required";
    let value = match authorization {
        Some(v) => v,
        None => return Err(ApiError::unauthorized("missing_worker_credential", missing)),
    };
    let n = value.unicode_len();
    if n <= 7 {
        return Err(ApiError::unauthorized("missing_worker_credential", missing));
    }
    let head = value.substring_char(0, 7);
    if !str_equals(head, "Bearer ") {
        proof {
            assert(value@.take(7) =~= head@);
        }
        return Err(ApiError::unauthorized("missing_worker_credential", missing));
    }
    assert(value@.take(7) =~= head@);
    let token = value.substring_char(7, n);
    assert(token@ =~= value@.skip(7));
    Ok(token)
}

/// Integer division rounding toward zero, as Rust divides.
pub open spec fn div_toward_zero(a: int, b: int) -> int {
    if a >= 0 { a / b } else { -((-a) / b) }
}

/// `a - b`, held within the range of `i64`.
pub open spec fn saturating_sub_i64(a: i64, b: i64) -> int {
    let d = a - b;
    if d > i64::MAX { i64::MAX as int } else if d < i64::MIN { i64::MIN as int } else { d }
}

/// The product session cookie's `Set-Cookie` value at `now_ms`: it lives
/// until the session expires, in whole seconds, and is `Secure` on an
/// HTTPS origin.
pub open spec fn product_cookie_text(token: Seq<char>, expires_at_ms: i64, secure: bool, now_ms: i64) -> Seq<char> {
    "jet_black_session="@ + token + "; HttpOnly; SameSite=Strict; Path=/; Max-Age="@
        + signed_decimal(div_toward_zero(saturating_sub_i64(expires_at_ms, now_ms), 1000))
        + (if secure { "; Secure"@ } else { seq![] })
}

/// The product session cookie for `token` as set at `now_ms`.
pub fn session_cookie_at(token: &str, expires_at_ms: i64, secure: bool, now_ms: i64) -> (c: String)
    ensures
        c@ == product_cookie_text(token@, expires_at_ms, secure, now_ms),
{
    let d: i128 = expires_at_ms as i128 - now_ms as i128;
    let remaining: i128 = if d > i64::MAX as i128 {
        i64::MAX as i128
    } else if d < i64::MIN as i128 {
        i64::MIN as i128
    } else {
        d
    };
    let seconds: i128 = if remaining >= 0 { remaining / 1000 } else { -((-remaining) / 1000) };
    let mut c = String::from_str("jet_black_session=");
    c.append(token);
    c.append("; HttpOnly; SameSite=Strict; Path=/; Max-Age=");
    let digits = i64_to_decimal(seconds as i64);
    c.append(digits.as_str());
    if secure {
        c.append("; Secure");
    } else {
        proof {
            assert(c@ + seq![] =~= c@);
        }
    }
    c
}

/// The product session cookie for `token`, as set now.
pub fn session_cookie(token: &str, expires_at_ms: i64, secure: bool) -> (c: String)
    ensures
        exists|now_ms: i64| c@ == #[trigger] product_cookie_text(token@, expires_at_ms, secure, now_ms),
{
    let now = now_unix_ms();
    session_cookie_at(token, expires_at_ms, secure, now)
}

/// The cookie that ends a product session in the browser.
pub const LOGOUT_COOKIE: &'static str = "jet_black_session=; HttpOnly; SameSite=Strict; Path=/; Max-Age=0";

/// The value of a decimal digit character.
pub open spec fn digit_value(c: char) -> int {
    c as int - '0' as int
}

/// A decimal digit character.
pub open spec fn is_digit(c: char) -> bool {
    '0' <= c && c <= '9'
}

/// The number that a string of decimal digits spells.
pub open spec fn digits_value(s: Seq<char>) -> int
    decreases s.len(),
{
    if s.len() == 0 {
        0
    } else {
        digits_value(s.drop_last()) * 10 + digit_value(s.last())
    }
}

/// The digits of an unsigned number's text: all of it, or what follows a
/// leading `+`.
pub open spec fn unsigned_digits(s: Seq<char>) -> Seq<char> {
    if s.len() > 0 && s[0] == '+' { s.drop_first() } else { s }
}

/// Every character of `s` is a decimal digit.
pub open spec fn all_digits(s: Seq<char>) -> bool {
    forall|i: int| 0 <= i < s.len() ==> is_digit(#[trigger] s[i])
}

/// What `u64::from_str` reads: an optional `+`, then one or more decimal
/// digits whose value fits in 64 bits.
pub open spec fn parse_u64_text(s: Seq<char>) -> Option<u64> {
    let digits = unsigned_digits(s);
    if digits.len() > 0 && all_digits(digits) && digits_value(digits) <= u64::MAX {
        Some(digits_value(digits) as u64)
    } else {
        None
    }
}

/// Digit strings spell non-negative numbers.
pub proof fn lemma_digits_value_nonnegative(s: Seq<char>)
    requires
        forall|i: int| 0 <= i < s.len() ==> is_digit(#[trigger] s[i]),
    ensures
        digits_value(s) >= 0,
    decreases s.len(),
{
    if s.len() > 0 {
        lemma_digits_value_nonnegative(s.drop_last());
        assert(is_digit(s[s.len() - 1]));
    }
}

/// Longer digit strings never spell smaller numbers.
pub proof fn lemma_digits_value_grows(s: Seq<char>, j: int, k: int)
    requires
        0 <= j <= k <= s.len(),
        forall|i: int| 0 <= i < s.len() ==> is_digit(#[trigger] s[i]),
    ensures
        digits_value(s.take(j)) <= digits_value(s.take(k)),
    decreases k - j,
{
    if j < k {
        lemma_digits_value_grows(s, j, k - 1);
        assert(s.take(k).drop_last() =~= s.take(k - 1));
        assert(is_digit(s[k - 1]));
        lemma_digits_value_nonnegative(s.take(k - 1));
    }
}

/// Reads an unsigned decimal number as `u64::from_str` does.
pub fn parse_u64(s: &str) -> (r: Option<u64>)
    ensures
        r == parse_u64_text(s@),
{
    let ghost full = s@;
    let n = s.unicode_len();
    let start: usize = if n > 0 && s.get_char(0) == '+' { 1 } else { 0 };
    let ghost digits = unsigned_digits(full);
    assert(digits =~= full.skip(start as int));
    if start >= n {
        return None;
    }
    let mut value: u64 = 0;
    let mut i: usize = start;
    while i < n
        invariant
            full == s@,
            n == full.len(),
            start <= i <= n,
            start < n,
            digits == full.skip(start as int),
            digits == unsigned_digits(full),
            forall|k: int| 0 <= k < i - start ==> is_digit(#[trigger] digits[k]),
            value == digits_value(digits.take(i - start)),
        decreases n - i,
    {
        let c = s.get_char(i);
        if !('0' <= c && c <= '9') {
            proof {
                assert(digits[i - start] == c);
                assert(!is_digit(digits[i - start]));
            }
            return None;
        }
        let d = (c as u32 - '0' as u32) as u64;
        proof {
            assert(digits.take(i - start + 1).drop_last() =~= digits.take(i - start));
            assert(digits[i - start] == c);
            assert(digits.take(i - start + 1).last() == c);
            assert(d == digit_value(c));
            assert(digits_value(digits.take(i - start + 1)) == value * 10 + d);
        }
        let next = match value.checked_mul(10) {
            Some(v) => v.checked_add(d),
            None => None,
        };
        match next {
            Some(v) => {
                value = v;
            },
            None => {
                proof {
                    assert(digits_value(digits.take(i - start + 1)) > u64::MAX);
                    if all_digits(digits) {
                        lemma_digits_value_grows(digits, i - start + 1, digits.len() as int);
                        assert(digits.take(digits.len() as int) =~= digits);
                    }
                }
                return None;
            },
        }
        i = i + 1;
    }
    proof {
        assert(digits.take(n - start) =~= digits);
    }
    Some(value)
}

/// Where a run's event stream starts: after the later of the requested
/// sequence and the `Last-Event-ID` the client resumes from, each read as
/// zero when absent or unreadable.
pub open spec fn stream_start(after_sequence: Option<u64>, last_event_id: Option<Seq<char>>) -> u64 {
    let requested = match after_sequence { Some(a) => a, None => 0 };
    let resumed = match last_event_id {
        Some(t) => match parse_u64_text(t) { Some(v) => v, None => 0 },
        None => 0,
    };
    if requested >= resumed { requested } else { resumed }
}

/// The sequence after which a run's event stream starts.
pub fn event_stream_start(after_sequence: Option<u64>, last_event_id: Option<&str>) -> (r: u64)
    ensures
        r == stream_start(after_sequence, text_view(last_event_id)),
{
    let requested = match after_sequence {
        Some(a) => a,
        None => 0,
    };
    let resumed = match last_event_id {
        Some(t) => match parse_u64(t) {
            Some(v) => v,
            None => 0,
        },
        None => 0,
    };
    if requested >= resumed { requested } else { resumed }
}

/// A run state after which no further events come.
pub open spec fn is_terminal(state: RunState) -> bool {
    state == RunState::Completed || state == RunState::Interrupted || state == RunState::Failed
}

/// Whether a run has ended: completed, interrupted or failed.
pub fn is_terminal_run_state(state: RunState) -> (r: bool)
    ensures
        r == is_terminal(state),
{
    match state {
        RunState::Completed | RunState::Interrupted | RunState::Failed => true,
        _ => false,
    }
}

/// Some event of the page is a lifecycle change into a terminal state.
pub open spec fn page_terminal(lifecycle: Seq<Option<RunState>>) -> bool {
    exists|i: int| 0 <= i < lifecycle.len() && (#[trigger] lifecycle[i] matches Some(s) && is_terminal(s))
}

/// Whether a page of events ends the run; `lifecycle` holds, per event, the
/// state it changes the run to, if it is a lifecycle event.
pub fn page_reaches_terminal(lifecycle: &[Option<RunState>]) -> (r: bool)
    ensures
        r == page_terminal(lifecycle@),
{
    let mut i: usize = 0;
    while i < lifecycle.len()
        invariant
            i <= lifecycle@.len(),
            forall|k: int| 0 <= k < i ==> !(#[trigger] lifecycle@[k] matches Some(s) && is_terminal(s)),
        decreases lifecycle.len() - i,
    {
        if let Some(state) = lifecycle[i] {
            if is_terminal_run_state(state) {
                assert(lifecycle@[i as int] matches Some(s) && is_terminal(s));
                return true;
            }
        }
        i = i + 1;
    }
    false
}

/// What an event stream does after sending a page.
#[derive(Debug, Clone, Copy, PartialEq, Eq, Structural)]
pub enum StreamStep {
    /// The run has ended: close the stream.
    Stop,
    /// The page was full: fetch the next one at once.
    FetchNow,
    /// Caught up: wait for the poll interval, then fetch again.
    Wait,
}

/// The stream stops once a terminal event was sent, or when a run that had
/// already ended has nothing more; a full page is followed at once.
pub open spec fn stream_step(page_terminal: bool, terminal_at_start: bool, page_len: nat) -> StreamStep {
    if page_terminal || (terminal_at_start && page_len == 0) {
        StreamStep::Stop
    } else if page_len == SSE_PAGE_SIZE {
        StreamStep::FetchNow
    } else {
        StreamStep::Wait
    }
}

/// The next step of a run's event stream after a page of `page_len` events.
pub fn next_stream_step(page_terminal: bool, terminal_at_start: bool, page_len: usize) -> (r: StreamStep)
    ensures
        r == stream_step(page_terminal, terminal_at_start, page_len as nat),
{
    if page_terminal || (terminal_at_start && page_len == 0) {
        StreamStep::Stop
    } else if page_len == SSE_PAGE_SIZE {
        StreamStep::FetchNow
    } else {
        StreamStep::Wait
    }
}

/// A WebSocket's subscription: the workspace and the cursor of the last
/// event sent.
pub type Subscription = Option<(u128, u64)>;

/// An acknowledgement may not claim events beyond the last one sent; it
/// leaves the subscription's cursor where it was.
pub fn acknowledge(subscription: Subscription, cursor: u64) -> (r: Result<Subscription, StructuredError>)
    ensures
        match subscription {
            Some((w, sent)) => if cursor > sent {
                r is Err && structured_is(
                    r->Err_0,
                    ("invalid_acknowledgement"@, "Acknowledgement exceeds the last sent cursor"@, false),
                )
            } else {
                r == Ok::<Subscription, StructuredError>(Some((w, sent)))
            },
            None => r == Ok::<Subscription, StructuredError>(None),
        },
{
    match subscription {
        Some((workspace_id, sent)) => {
            if cursor > sent {
                return Err(structured("invalid_acknowledgement", "Acknowledgement exceeds the last sent cursor", false));
            }
            let kept = if cursor >= sent { cursor } else { sent };
            Ok(Some((workspace_id, kept)))
        },
        None => Ok(None),
    }
}

/// A workspace event signal needs a replay when it is for the subscribed
/// workspace and beyond the cursor already sent.
pub fn signal_needs_replay(subscription: Subscription, workspace_id: u128, cursor: u64) -> (r: bool)
    ensures
        r == (subscription matches Some((w, sent)) && w == workspace_id && cursor > sent),
{
    match subscription {
        Some((w, sent)) => w == workspace_id && cursor > sent,
        None => false,
    }
}

/// After a replay was sent, the subscription's cursor is the page's next
/// cursor.
pub fn after_replay(subscription: Subscription, next_cursor: u64) -> (r: Subscription)
    ensures
        match subscription {
            Some((w, _)) => r == Some((w, next_cursor)),
            None => r is None,
        },
{
    match subscription {
        Some((w, _)) => Some((w, next_cursor)),
        None => None,
    }
}

/// The cursor a subscription confirms: the one reached by its replay.
pub fn subscribed_cursor(subscription: Subscription, after_cursor: u64) -> (r: u64)
    ensures
        match subscription {
            Some((_, c)) => r == c,
            None => r == after_cursor,
        },
{
    match subscription {
        Some((_, c)) => c,
        None => after_cursor,
    }
}

/// A snapshot list holds more items than a snapshot may carry.
pub open spec fn snapshot_overflows(counts: Seq<usize>) -> bool {
    exists|i: int| 0 <= i < counts.len() && #[trigger] counts[i] > SNAPSHOT_LIMIT
}

/// Whether a snapshot must be marked truncated, given how many items of
/// each kind were read (each read asks for one more than the limit).
pub fn snapshot_truncated(counts: &[usize]) -> (r: bool)
    ensures
        r == snapshot_overflows(counts@),
{
    let mut i: usize = 0;
    while i < counts.len()
        invariant
            i <= counts@.len(),
            forall|k: int| 0 <= k < i ==> !(#[trigger] counts@[k] > SNAPSHOT_LIMIT),
        decreases counts.len() - i,
    {
        if counts[i] > SNAPSHOT_LIMIT {
            return true;
        }
        i = i + 1;
    }
    false
}

/// The first `SNAPSHOT_LIMIT` items of a list read for a snapshot.
pub fn snapshot_items<T>(items: Vec<T>) -> (r: Vec<T>)
    ensures
        r@ == if items@.len() <= SNAPSHOT_LIMIT { items@ } else { items@.take(SNAPSHOT_LIMIT as int) },
{
    let mut items = items;
    items.truncate(SNAPSHOT_LIMIT);
    items
}

/// A directory joined with a file name, as `Path::join` does for a relative
/// name.
pub open spec fn join_path(directory: Seq<char>, name: Seq<char>) -> Seq<char> {
    if directory.len() == 0 {
        name
    } else if directory.last() == '/' {
        directory + name
    } else {
        directory + "/"@ + name
    }
}

/// The path of the index page in a static assets directory.
pub fn index_path(directory: &str) -> (p: String)
    ensures
        p@ == join_path(directory@, "index.html"@),
{
    let n = directory.unicode_len();
    if n == 0 {
        return String::from_str("index.html");
    }
    let mut p = directory.to_owned();
    if directory.get_char(n - 1) != '/' {
        p.append("/");
    }
    p.append("index.html");
    p
}

/// A directory of static assets with an index page.
#[derive(Debug, Clone)]
pub struct StaticAssets {
    directory: String,
}

impl StaticAssets {
    /// The canonical directory served.
    pub closed spec fn spec_directory(&self) -> Seq<char> {
        self.directory@
    }

    /// The canonical directory served.
    pub fn directory(&self) -> (d: &str)
        ensures
            d@ == self.spec_directory(),
    {
        self.directory.as_str()
    }

    /// Opens the static assets at `requested`, given what canonicalizing it
    /// gave (the canonical path, or why it failed) and whether its index page
    /// is a regular file.
    pub fn open(requested: &str, canonical: Result<String, String>, index_is_file: bool) -> (r: Result<StaticAssets, ServerError>)
        ensures
            match canonical {
                Err(source) => r is Err && (r->Err_0 matches ServerError::StaticAssets { path, source: s }
                    && path@ == requested@ && s@ == source@),
                Ok(d) => if index_is_file {
                    r is Ok && r->Ok_0.spec_directory() == d@
                } else {
                    r is Err && (r->Err_0 matches ServerError::MissingStaticIndex(p)
                        && p@ == join_path(d@, "index.html"@))
                },
            },
    {
        match canonical {
            Err(source) => Err(ServerError::StaticAssets { path: requested.to_owned(), source }),
            Ok(directory) => {
                if !index_is_file {
                    return Err(ServerError::MissingStaticIndex(index_path(directory.as_str())));
                }
                Ok(StaticAssets { directory })
            },
        }
    }
}

/// A message from a WebSocket client, as read from a text frame.
#[derive(Debug, Clone, Copy, PartialEq, Eq)]
pub enum ClientMessage {
    Subscribe { workspace_id: u128, after_cursor: u64 },
    Command,
    Acknowledge { cursor: u64 },
    Ping,
}

/// What a product WebSocket session received: a frame from the client, or
/// a signal that a workspace has new events.
#[derive(Debug, Clone, Copy, PartialEq, Eq)]
pub enum SocketInput {
    /// A text frame, with the message it holds, or `None` when malformed.
    Text(Option<ClientMessage>),
    PingFrame,
    CloseFrame,
    /// A binary or pong frame.
    IgnoredFrame,
    /// The client stream ended or failed.
    ReceiveEnded,
    Signal { workspace_id: u128, cursor: u64 },
    /// Signals were dropped because the session fell behind.
    Lagged,
    SignalsClosed,
}

/// What a WebSocket session does next.
#[derive(Debug, Clone, PartialEq, Eq)]
pub enum SocketAction {
    Continue,
    Stop,
    SendError(StructuredError),
    /// Answer a ping frame with a pong frame carrying the same bytes.
    PongFrame,
    /// Answer a protocol ping with a protocol pong.
    SendPong,
    /// Check that the user may read the workspace, then decide with
    /// `subscription_decision`.
    CheckSubscription { workspace_id: u128, after_cursor: u64 },
    /// Run the command and send its result.
    Dispatch,
    /// Send the events after the subscription's cursor, then record the
    /// outcome with `replay_outcome`.
    Replay,
}

/// The action is an error to send with this code and message.
pub open spec fn sends_error(a: SocketAction, code: Seq<char>, message: Seq<char>) -> bool {
    a matches SocketAction::SendError(e) && structured_is(e, (code, message, false))
}

/// One step of a product WebSocket session: the new subscription and what
/// to do. A malformed message is answered with an error; pings are
/// answered; closing or failing streams stop the session; a subscription
/// is checked before it is taken; an acknowledgement beyond the events sent
/// is an error; a workspace signal replays only new events of the
/// subscribed workspace, and a lag replays from the cursor.
pub fn socket_step(subscription: Subscription, input: SocketInput) -> (r: (Subscription, SocketAction))
    ensures
        match input {
            SocketInput::Text(None) => r.0 == subscription && sends_error(
                r.1,
                "invalid_message"@,
                "WebSocket message is malformed"@,
            ),
            SocketInput::Text(Some(ClientMessage::Subscribe { workspace_id, after_cursor })) => r == (
                subscription,
                SocketAction::CheckSubscription { workspace_id, after_cursor },
            ),
            SocketInput::Text(Some(ClientMessage::Command)) => r == (subscription, SocketAction::Dispatch),
            SocketInput::Text(Some(ClientMessage::Acknowledge { cursor })) => match subscription {
                Some((w, sent)) => if cursor > sent {
                    r.0 == subscription && sends_error(
                        r.1,
                        "invalid_acknowledgement"@,
                        "Acknowledgement exceeds the last sent cursor"@,
                    )
                } else {
                    r == (subscription, SocketAction::Continue)
                },
                None => r == (subscription, SocketAction::Continue),
            },
            SocketInput::Text(Some(ClientMessage::Ping)) => r == (subscription, SocketAction::SendPong),
            SocketInput::PingFrame => r == (subscription, SocketAction::PongFrame),
            SocketInput::CloseFrame | SocketInput::ReceiveEnded | SocketInput::SignalsClosed => r == (
                subscription,
                SocketAction::Stop,
            ),
            SocketInput::IgnoredFrame => r == (subscription, SocketAction::Continue),
            SocketInput::Signal { workspace_id, cursor } => r == (
                subscription,
                if subscription matches Some((w, sent)) && w == workspace_id && cursor > sent {
                    SocketAction::Replay
                } else {
                    SocketAction::Continue
                },
            ),
            SocketInput::Lagged => r == (subscription, SocketAction::Replay),
        },
{
    match input {
        SocketInput::Text(None) => (
            subscription,
            SocketAction::SendError(structured("invalid_message", "WebSocket message is malformed", false)),
        ),
        SocketInput::Text(Some(message)) => match message {
            ClientMessage::Subscribe { workspace_id, after_cursor } => (
                subscription,
                SocketAction::CheckSubscription { workspace_id, after_cursor },
            ),
            ClientMessage::Command => (subscription, SocketAction::Dispatch),
            ClientMessage::Acknowledge { cursor } => match acknowledge(subscription, cursor) {
                Ok(next) => (next, SocketAction::Continue),
                Err(error) => (subscription, SocketAction::SendError(error)),
            },
            ClientMessage::Ping => (subscription, SocketAction::SendPong),
        },
        SocketInput::PingFrame => (subscription, SocketAction::PongFrame),
        SocketInput::CloseFrame | SocketInput::ReceiveEnded | SocketInput::SignalsClosed => (
            subscription,
            SocketAction::Stop,
        ),
        SocketInput::IgnoredFrame => (subscription, SocketAction::Continue),
        SocketInput::Signal { workspace_id, cursor } => {
            if signal_needs_replay(subscription, workspace_id, cursor) {
                (subscription, SocketAction::Replay)
            } else {
                (subscription, SocketAction::Continue)
            }
        },
        SocketInput::Lagged => (subscription, SocketAction::Replay),
    }
}

/// Takes or refuses a subscription once the user's permission to read the
/// workspace is known: a permitted subscription starts at the requested
/// cursor and is replayed at once.
pub fn subscription_decision(subscription: Subscription, workspace_id: u128, after_cursor: u64, permitted: bool) -> (r: (
    Subscription,
    SocketAction,
))
    ensures
        permitted ==> r == (Some((workspace_id, after_cursor)), SocketAction::Replay),
        !permitted ==> r.0 == subscription && sends_error(r.1, "forbidden"@, "Workspace subscription is forbidden"@),
{
    if !permitted {
        return (subscription, SocketAction::SendError(structured("forbidden", "Workspace subscription is forbidden", false)));
    }
    (Some((workspace_id, after_cursor)), SocketAction::Replay)
}

/// Records a replay: a page read advances the cursor to the page's next
/// cursor; a failed read is reported and leaves the cursor.
pub fn replay_outcome(subscription: Subscription, next_cursor: Option<u64>) -> (r: (Subscription, SocketAction))
    ensures
        match next_cursor {
            Some(c) => r == (
                match subscription { Some((w, _)) => Some((w, c)), None => None },
                SocketAction::Continue,
            ),
            None => r.0 == subscription && sends_error(r.1, "replay_failed"@, "Event replay failed"@),
        },
{
    match next_cursor {
        Some(c) => (after_replay(subscription, c), SocketAction::Continue),
        None => (subscription, SocketAction::SendError(structured("replay_failed", "Event replay failed", false))),
    }
}

/// The refusal of execution requests by a product server without a local
/// execution runtime.
pub fn execution_unavailable() -> (e: ApiError)
    ensures
        api_error_is(
            e,
            STATUS_SERVICE_UNAVAILABLE,
            "execution_unavailable"@,
            "This instance does not provide local execution"@,
        ),
{
    ApiError::new(STATUS_SERVICE_UNAVAILABLE, "execution_unavailable", "This instance does not provide local execution")
}

/// What a successful product command created or changed.
#[derive(Debug, Clone, Copy, PartialEq, Eq)]
pub enum CreatedRecord {
    Workspace { id: u128 },
    Project { workspace_id: u128 },
    /// A ticket, sprint, module, page or intake item, which belongs to a
    /// project.
    InProject { project_id: u128 },
}

/// Where the workspace to signal after a command is found.
#[derive(Debug, Clone, Copy, PartialEq, Eq)]
pub enum WorkspaceSource {
    Known(u128),
    OfProject(u128),
}

/// The workspace whose subscribers learn of a command's result: a
/// workspace itself, a project's workspace, or the workspace of the project
/// that holds the record.
pub fn signal_workspace(record: CreatedRecord) -> (r: WorkspaceSource)
    ensures
        r == match record {
            CreatedRecord::Workspace { id } => WorkspaceSource::Known(id),
            CreatedRecord::Project { workspace_id } => WorkspaceSource::Known(workspace_id),
            CreatedRecord::InProject { project_id } => WorkspaceSource::OfProject(project_id),
        },
{
    match record {
        CreatedRecord::Workspace { id } => WorkspaceSource::Known(id),
        CreatedRecord::Project { workspace_id } => WorkspaceSource::Known(workspace_id),
        CreatedRecord::InProject { project_id } => WorkspaceSource::OfProject(project_id),
    }
}

/// The executor slots an execution command takes.
#[derive(Debug, Clone, Copy, PartialEq, Eq)]
pub struct CommandAdmission {
    /// A run start first takes one of the admitted-run slots.
    pub run_admission: bool,
    /// Reviews run on their own slots, other commands on the command slots.
    pub review_slot: bool,
}

/// The slots an execution command needs: run starts are admitted first,
/// and reviews use the review slots.
pub fn command_admission(starts_run: bool, runs_review: bool) -> (r: CommandAdmission)
    ensures
        r.run_admission == starts_run,
        r.review_slot == runs_review,
{
    CommandAdmission { run_admission: starts_run, review_slot: runs_review }
}

/// The reply a command endpoint gives, before running anything, to a
/// request in another protocol version: the unsupported-version error under
/// the request's identifier. A request in this build's version gets `None`
/// and is dispatched.
pub fn version_rejection<T, R>(envelope: &Envelope<T>) -> (r: Option<ResponseEnvelope<R>>)
    ensures
        envelope.version@ == PROTOCOL_VERSION@ ==> r is None,
        envelope.version@ != PROTOCOL_VERSION@ ==> r is Some && ({
            let reply = r->Some_0;
            &&& reply.version@ == PROTOCOL_VERSION@
            &&& reply.request_id == envelope.request_id
            &&& reply.result is Error
            &&& reply.result->Error_0.code@ == unsupported_version_code()
            &&& reply.result->Error_0.message@ == unsupported_version_message(envelope.version@)
            &&& !reply.result->Error_0.retryable
        }),
{
    match envelope.validate_version() {
        Ok(()) => None,
        Err(error) => Some(ResponseEnvelope::error(envelope.request_id, error)),
    }
}

/// A run has ended exactly when it is completed, interrupted or failed:
/// the states restart recovery leaves alone as finished, and every state it
/// moves an active run into. A page holding a lifecycle event into any of
/// them ends the run's event stream.
pub proof fn lemma_ended_runs_stop_the_stream(
    state: RunState,
    page: Seq<Option<RunState>>,
    i: int,
    terminal_at_start: bool,
    page_len: nat,
)
    ensures
        is_terminal(state) <==> (state == RunState::Completed || state == RunState::Interrupted
            || state == RunState::Failed),
        is_terminal(state) <==> disposition_of(state) == RecoveryDisposition::Terminal,
        recovered_state(state) matches Some(t) ==> is_terminal(t),
        0 <= i < page.len() && (page[i] == Some(RunState::Completed) || page[i] == Some(RunState::Interrupted)
            || page[i] == Some(RunState::Failed)) ==> page_terminal(page) && stream_step(page_terminal(page),
            terminal_at_start, page_len) == StreamStep::Stop,
{
    if 0 <= i < page.len() && (page[i] == Some(RunState::Completed) || page[i] == Some(RunState::Interrupted)
        || page[i] == Some(RunState::Failed)) {
        assert(page[i] matches Some(s) && is_terminal(s));
    }
}

/// A resumed event stream never sends again what the client already has:
/// it starts no earlier than the requested sequence and no earlier than a
/// readable `Last-Event-ID`, and at one of the two. While the run goes on,
/// a full page is followed at once and a shorter one after a wait; a run
/// that had ended before the stream started stops once nothing is left.
pub proof fn lemma_event_streams_resume_and_page(
    after_sequence: u64,
    last_event_id: Option<Seq<char>>,
    terminal_at_start: bool,
    page_len: nat,
)
    ensures
        stream_start(Some(after_sequence), last_event_id) >= after_sequence,
        last_event_id is Some && parse_u64_text(last_event_id->Some_0) is Some ==> stream_start(Some(after_sequence),
            last_event_id) >= parse_u64_text(last_event_id->Some_0)->Some_0,
        stream_start(Some(after_sequence), last_event_id) == after_sequence || (last_event_id is Some
            && parse_u64_text(last_event_id->Some_0) == Some(stream_start(Some(after_sequence), last_event_id))),
        stream_start(None, None) == 0,
        page_len == SSE_PAGE_SIZE ==> stream_step(false, terminal_at_start, page_len) == StreamStep::FetchNow,
        0 < page_len < SSE_PAGE_SIZE ==> stream_step(false, terminal_at_start, page_len) == StreamStep::Wait,
        stream_step(false, true, 0) == StreamStep::Stop,
        stream_step(false, false, 0) == StreamStep::Wait,
{
}

} // verus!
