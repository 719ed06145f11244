//! The error vocabulary every handler answers with.

use vstd::prelude::*;

use crate::ids::{uuid_hyphenated, uuid_to_string};
use crate::text::{join2, quoted, str_debug, string_from};

verus! {

/// Closed vocabulary of machine-readable error codes carried on the
/// wire (`{"code": "..."}`).
#[derive(Debug, Clone, Copy, PartialEq, Eq, Structural)]
pub enum ErrorCode {
    ProjectNotFound,
    NotProjectLead,
    ProjectNameRequired,
    ProjectNameTooLong,
    ProjectDatesInverted,
    ProjectNameTaken,
    ProjectInvalid,
    StaleProjectVersion,
    ProjectIssueNotFound,
    MissingExpectedVersion,
    BulkAddTooLarge,
    InvalidState,
    InvalidGroupBy,
    InvalidFilter,
    InvalidSort,
    ViewNotFound,
    ViewNameTaken,
    InvalidViewName,
    InvalidCategories,
    InvalidReorder,
    MilestoneNotFound,
    MilestoneNotLinked,
    RepoNotLinked,
    RepoNotFound,
    RepoMetadataNotFound,
    OrgNotFound,
    UpstreamValidation,
    UpstreamUnavailable,
    GithubValidationFailed,
    TagNotFound,
    TagScopeMemberRequired,
    TagNameConflict,
    BatchRejected,
    Duplicate,
    DuplicateInBatch,
    NotLinked,
    InvalidUuid,
    InvalidEnum,
    GroupByTagRequiresTags,
    TagsFilterOverCap,
    GroupByTeamUnsupported,
    GroupByTagUnsupported,
    InvalidBody,
    InvalidLimit,
    InvalidMetric,
    InvalidWindow,
    InvalidTimezone,
    ReconcilerUnavailable,
    InvalidRepoSlug,
    CrossOrgRepo,
    RmaNotFound,
    StaleVersion,
    RmaInvalid,
    RmaNumberRequired,
    UnknownSetting,
    SettingUnset,
    ExecSummaryNotFound,
    ExecSummaryStatusConflict,
    Incomplete,
    BlobNotFound,
    BlobForbidden,
    FileTooLarge,
    FieldTooLarge,
    MissingFile,
    BlobBackendError,
    BlobStorageUnavailable,
    MultipartInvalid,
    BlobKeyInvalid,
    BlobSerialise,
    BlobDecode,
    InvalidProjectNodeId,
    RepoProjectLinkNotFound,
    Internal,
}

/// The wire spelling of a code.
pub open spec fn code_name(c: ErrorCode) -> Seq<char> {
    match c {
        ErrorCode::ProjectNotFound => "project_not_found"@,
        ErrorCode::NotProjectLead => "not_project_lead"@,
        ErrorCode::ProjectNameRequired => "project_name_required"@,
        ErrorCode::ProjectNameTooLong => "project_name_too_long"@,
        ErrorCode::ProjectDatesInverted => "project_dates_inverted"@,
        ErrorCode::ProjectNameTaken => "project_name_taken"@,
        ErrorCode::ProjectInvalid => "project_invalid"@,
        ErrorCode::StaleProjectVersion => "stale_project_version"@,
        ErrorCode::ProjectIssueNotFound => "project_issue_not_found"@,
        ErrorCode::MissingExpectedVersion => "missing_expected_version"@,
        ErrorCode::BulkAddTooLarge => "bulk_add_too_large"@,
        ErrorCode::InvalidState => "invalid_state"@,
        ErrorCode::InvalidGroupBy => "invalid_group_by"@,
        ErrorCode::InvalidFilter => "invalid_filter"@,
        ErrorCode::InvalidSort => "invalid_sort"@,
        ErrorCode::ViewNotFound => "view_not_found"@,
        ErrorCode::ViewNameTaken => "view_name_taken"@,
        ErrorCode::InvalidViewName => "invalid_view_name"@,
        ErrorCode::InvalidCategories => "invalid_categories"@,
        ErrorCode::InvalidReorder => "invalid_reorder"@,
        ErrorCode::MilestoneNotFound => "milestone_not_found"@,
        ErrorCode::MilestoneNotLinked => "milestone_not_linked"@,
        ErrorCode::RepoNotLinked => "repo_not_linked"@,
        ErrorCode::RepoNotFound => "repo_not_found"@,
        ErrorCode::RepoMetadataNotFound => "repo_metadata_not_found"@,
        ErrorCode::OrgNotFound => "org_not_found"@,
        ErrorCode::UpstreamValidation => "upstream_validation"@,
        ErrorCode::UpstreamUnavailable => "upstream_unavailable"@,
        ErrorCode::GithubValidationFailed => "github_validation_failed"@,
        ErrorCode::TagNotFound => "tag_not_found"@,
        ErrorCode::TagScopeMemberRequired => "tag_scope_member_required"@,
        ErrorCode::TagNameConflict => "tag_name_conflict"@,
        ErrorCode::BatchRejected => "batch_rejected"@,
        ErrorCode::Duplicate => "duplicate"@,
        ErrorCode::DuplicateInBatch => "duplicate_in_batch"@,
        ErrorCode::NotLinked => "not_linked"@,
        ErrorCode::InvalidUuid => "invalid_uuid"@,
        ErrorCode::InvalidEnum => "invalid_enum"@,
        ErrorCode::GroupByTagRequiresTags => "group_by_tag_requires_tags"@,
        ErrorCode::TagsFilterOverCap => "tags_filter_over_cap"@,
        ErrorCode::GroupByTeamUnsupported => "group_by_team_unsupported"@,
        ErrorCode::GroupByTagUnsupported => "group_by_tag_unsupported"@,
        ErrorCode::InvalidBody => "invalid_body"@,
        ErrorCode::InvalidLimit => "invalid_limit"@,
        ErrorCode::InvalidMetric => "invalid_metric"@,
        ErrorCode::InvalidWindow => "invalid_window"@,
        ErrorCode::InvalidTimezone => "invalid_timezone"@,
        ErrorCode::ReconcilerUnavailable => "reconciler_unavailable"@,
        ErrorCode::InvalidRepoSlug => "invalid_repo_slug"@,
        ErrorCode::CrossOrgRepo => "cross_org_repo"@,
        ErrorCode::RmaNotFound => "rma_not_found"@,
        ErrorCode::StaleVersion => "stale_version"@,
        ErrorCode::RmaInvalid => "rma_invalid"@,
        ErrorCode::RmaNumberRequired => "rma_number_required"@,
        ErrorCode::UnknownSetting => "unknown_setting"@,
        ErrorCode::SettingUnset => "setting_unset"@,
        ErrorCode::ExecSummaryNotFound => "exec_summary_not_found"@,
        ErrorCode::ExecSummaryStatusConflict => "exec_summary_status_conflict"@,
        ErrorCode::Incomplete => "incomplete"@,
        ErrorCode::BlobNotFound => "blob_not_found"@,
        ErrorCode::BlobForbidden => "blob_forbidden"@,
        ErrorCode::FileTooLarge => "file_too_large"@,
        ErrorCode::FieldTooLarge => "field_too_large"@,
        ErrorCode::MissingFile => "missing_file"@,
        ErrorCode::BlobBackendError => "blob_backend_error"@,
        ErrorCode::BlobStorageUnavailable => "blob_storage_unavailable"@,
        ErrorCode::MultipartInvalid => "multipart_invalid"@,
        ErrorCode::BlobKeyInvalid => "blob_key_invalid"@,
        ErrorCode::BlobSerialise => "blob_serialise"@,
        ErrorCode::BlobDecode => "blob_decode"@,
        ErrorCode::InvalidProjectNodeId => "invalid_project_node_id"@,
        ErrorCode::RepoProjectLinkNotFound => "repo_project_link_not_found"@,
        ErrorCode::Internal => "internal"@,
    }
}

impl ErrorCode {
    /// The wire spelling of the code.
    pub fn as_str(&self) -> (r: &'static str)
        ensures
            r@ == code_name(*self),
    {
        match self {
            ErrorCode::ProjectNotFound => "project_not_found",
            ErrorCode::NotProjectLead => "not_project_lead",
            ErrorCode::ProjectNameRequired => "project_name_required",
            ErrorCode::ProjectNameTooLong => "project_name_too_long",
            ErrorCode::ProjectDatesInverted => "project_dates_inverted",
            ErrorCode::ProjectNameTaken => "project_name_taken",
            ErrorCode::ProjectInvalid => "project_invalid",
            ErrorCode::StaleProjectVersion => "stale_project_version",
            ErrorCode::ProjectIssueNotFound => "project_issue_not_found",
            ErrorCode::MissingExpectedVersion => "missing_expected_version",
            ErrorCode::BulkAddTooLarge => "bulk_add_too_large",
            ErrorCode::InvalidState => "invalid_state",
            ErrorCode::InvalidGroupBy => "invalid_group_by",
            ErrorCode::InvalidFilter => "invalid_filter",
            ErrorCode::InvalidSort => "invalid_sort",
            ErrorCode::ViewNotFound => "view_not_found",
            ErrorCode::ViewNameTaken => "view_name_taken",
            ErrorCode::InvalidViewName => "invalid_view_name",
            ErrorCode::InvalidCategories => "invalid_categories",
            ErrorCode::InvalidReorder => "invalid_reorder",
            ErrorCode::MilestoneNotFound => "milestone_not_found",
            ErrorCode::MilestoneNotLinked => "milestone_not_linked",
            ErrorCode::RepoNotLinked => "repo_not_linked",
            ErrorCode::RepoNotFound => "repo_not_found",
            ErrorCode::RepoMetadataNotFound => "repo_metadata_not_found",
            ErrorCode::OrgNotFound => "org_not_found",
            ErrorCode::UpstreamValidation => "upstream_validation",
            ErrorCode::UpstreamUnavailable => "upstream_unavailable",
            ErrorCode::GithubValidationFailed => "github_validation_failed",
            ErrorCode::TagNotFound => "tag_not_found",
            ErrorCode::TagScopeMemberRequired => "tag_scope_member_required",
            ErrorCode::TagNameConflict => "tag_name_conflict",
            ErrorCode::BatchRejected => "batch_rejected",
            ErrorCode::Duplicate => "duplicate",
            ErrorCode::DuplicateInBatch => "duplicate_in_batch",
            ErrorCode::NotLinked => "not_linked",
            ErrorCode::InvalidUuid => "invalid_uuid",
            ErrorCode::InvalidEnum => "invalid_enum",
            ErrorCode::GroupByTagRequiresTags => "group_by_tag_requires_tags",
            ErrorCode::TagsFilterOverCap => "tags_filter_over_cap",
            ErrorCode::GroupByTeamUnsupported => "group_by_team_unsupported",
            ErrorCode::GroupByTagUnsupported => "group_by_tag_unsupported",
            ErrorCode::InvalidBody => "invalid_body",
            ErrorCode::InvalidLimit => "invalid_limit",
            ErrorCode::InvalidMetric => "invalid_metric",
            ErrorCode::InvalidWindow => "invalid_window",
            ErrorCode::InvalidTimezone => "invalid_timezone",
            ErrorCode::ReconcilerUnavailable => "reconciler_unavailable",
            ErrorCode::InvalidRepoSlug => "invalid_repo_slug",
            ErrorCode::CrossOrgRepo => "cross_org_repo",
            ErrorCode::RmaNotFound => "rma_not_found",
            ErrorCode::StaleVersion => "stale_version",
            ErrorCode::RmaInvalid => "rma_invalid",
            ErrorCode::RmaNumberRequired => "rma_number_required",
            ErrorCode::UnknownSetting => "unknown_setting",
            ErrorCode::SettingUnset => "setting_unset",
            ErrorCode::ExecSummaryNotFound => "exec_summary_not_found",
            ErrorCode::ExecSummaryStatusConflict => "exec_summary_status_conflict",
            ErrorCode::Incomplete => "incomplete",
            ErrorCode::BlobNotFound => "blob_not_found",
            ErrorCode::BlobForbidden => "blob_forbidden",
            ErrorCode::FileTooLarge => "file_too_large",
            ErrorCode::FieldTooLarge => "field_too_large",
            ErrorCode::MissingFile => "missing_file",
            ErrorCode::BlobBackendError => "blob_backend_error",
            ErrorCode::BlobStorageUnavailable => "blob_storage_unavailable",
            ErrorCode::MultipartInvalid => "multipart_invalid",
            ErrorCode::BlobKeyInvalid => "blob_key_invalid",
            ErrorCode::BlobSerialise => "blob_serialise",
            ErrorCode::BlobDecode => "blob_decode",
            ErrorCode::InvalidProjectNodeId => "invalid_project_node_id",
            ErrorCode::RepoProjectLinkNotFound => "repo_project_link_not_found",
            ErrorCode::Internal => "internal",
        }
    }
}

/// Failure reported by the persistence layer.
#[derive(Debug, Clone)]
pub enum StoreError {
    /// No row of the named entity (`project`, `project_issue`, ...)
    /// with the given key.
    NotFound { entity: String, id: String },
    /// A uniqueness or CAS (`expected_version`) check failed.
    Conflict(String),
    /// The write violated a domain rule.
    Invalid(String),
    /// Anything else (connection loss, serialisation, ...).
    Other(String),
}

/// One rejected item of an all-or-nothing batch.
#[derive(Debug, Clone, PartialEq, Eq)]
pub struct BatchItemError {
    /// Position of the item in the request's `items` array.
    pub index: usize,
    /// `Duplicate`, `DuplicateInBatch` or `NotLinked`.
    pub code: ErrorCode,
    /// Why the item was rejected.
    pub message: String,
}

/// One section of the executive summary form.
#[derive(Debug, Clone, Copy, PartialEq, Eq, Structural)]
pub enum Section {
    Summary,
    Scope,
    Requirements,
    Hardware,
    Commercial,
    Documents,
    Approval,
    Changelog,
}

/// A failed request: its status, its machine-readable code and a
/// message for people.
#[derive(Debug, Clone)]
pub enum ApiError {
    /// `400`.
    BadRequest { code: ErrorCode, message: String },
    /// `404`.
    NotFound { code: ErrorCode, message: String },
    /// `409`.
    Conflict { code: ErrorCode, message: String },
    /// `403`.
    Forbidden { code: ErrorCode, message: String },
    /// `422` with one entry per rejected batch item.
    Batch { code: ErrorCode, message: String, items: Vec<BatchItemError> },
    /// `400 incomplete`: the executive summary is below the submit
    /// threshold.
    Incomplete { percent: u8, threshold: u8, missing: Vec<Section> },
    /// `502`: an upstream service failed.
    BadGateway { code: ErrorCode, message: String },
    /// `503`: a backend this deployment needs is not wired.
    Unavailable { code: ErrorCode, message: String },
    /// A store failure with no handler-specific mapping (`500`).
    Store(StoreError),
}

/// `e` is a `400` with code `code` and message `m`.
pub open spec fn is_bad(e: ApiError, code: ErrorCode, m: Seq<char>) -> bool {
    e matches ApiError::BadRequest { code: c, message: x } && c == code && x@ == m
}

/// `e` is a `404` with code `code` and message `m`.
pub open spec fn is_not_found(e: ApiError, code: ErrorCode, m: Seq<char>) -> bool {
    e matches ApiError::NotFound { code: c, message: x } && c == code && x@ == m
}

/// `e` is a `403` with code `code` and message `m`.
pub open spec fn is_forbidden(e: ApiError, code: ErrorCode, m: Seq<char>) -> bool {
    e matches ApiError::Forbidden { code: c, message: x } && c == code && x@ == m
}

/// `e` is a `409` with code `code` and message `m`.
pub open spec fn is_conflict(e: ApiError, code: ErrorCode, m: Seq<char>) -> bool {
    e matches ApiError::Conflict { code: c, message: x } && c == code && x@ == m
}

/// `e` is a `502` with code `code` and message `m`.
pub open spec fn is_bad_gateway(e: ApiError, code: ErrorCode, m: Seq<char>) -> bool {
    e matches ApiError::BadGateway { code: c, message: x } && c == code && x@ == m
}

/// `e` is a `503` with code `code` and message `m`.
pub open spec fn is_unavailable(e: ApiError, code: ErrorCode, m: Seq<char>) -> bool {
    e matches ApiError::Unavailable { code: c, message: x } && c == code && x@ == m
}

/// A `503` with the given code and message.
pub fn unavailable(code: ErrorCode, message: String) -> (e: ApiError)
    ensures
        is_unavailable(e, code, message@),
{
    ApiError::Unavailable { code, message }
}

/// The answer when no reconciler scheduler is wired: `503
/// reconciler_unavailable`.
pub fn reconciler_unavailable() -> (e: ApiError)
    ensures
        is_unavailable(e, ErrorCode::ReconcilerUnavailable, "reconciler scheduler not configured"@),
{
    unavailable(ErrorCode::ReconcilerUnavailable, "reconciler scheduler not configured".to_owned())
}

/// A `400` with the given code and message.
pub fn bad_request(code: ErrorCode, message: String) -> (e: ApiError)
    ensures
        is_bad(e, code, message@),
{
    ApiError::BadRequest { code, message }
}

/// A `404` with the given code and message.
pub fn not_found(code: ErrorCode, message: String) -> (e: ApiError)
    ensures
        is_not_found(e, code, message@),
{
    ApiError::NotFound { code, message }
}

/// A `403` with the given code and message.
pub fn forbidden(code: ErrorCode, message: String) -> (e: ApiError)
    ensures
        is_forbidden(e, code, message@),
{
    ApiError::Forbidden { code, message }
}

/// A `409` with the given code and message.
pub fn conflict(code: ErrorCode, message: String) -> (e: ApiError)
    ensures
        is_conflict(e, code, message@),
{
    ApiError::Conflict { code, message }
}

/// `e` is the `400` that `c` (a code and a message) describes.
pub open spec fn is_rejection(e: ApiError, c: (ErrorCode, Seq<char>)) -> bool {
    is_bad(e, c.0, c.1)
}

/// A `400` with `code` whose message is `prefix` then the `{:?}` form
/// of `shown`.
pub fn bad_quoted(code: ErrorCode, prefix: &str, shown: &Vec<char>) -> (e: ApiError)
    ensures
        is_bad(e, code, prefix@ + str_debug(shown@)),
{
    let q = quoted(string_from(shown).as_str());
    bad_request(code, join2(prefix, q.as_str()))
}

/// `no project with id <id>`.
pub open spec fn no_project_text(id: u128) -> Seq<char> {
    "no project with id "@ + uuid_hyphenated(id)
}

/// The answer for a project that does not exist.
pub fn no_project(id: u128) -> (e: ApiError)
    ensures
        is_not_found(e, ErrorCode::ProjectNotFound, no_project_text(id)),
{
    not_found(ErrorCode::ProjectNotFound, join2("no project with id ", uuid_to_string(id).as_str()))
}

/// `no repo with id <id>`.
pub open spec fn no_repo_text(id: u128) -> Seq<char> {
    "no repo with id "@ + uuid_hyphenated(id)
}

/// The answer for a repo that does not exist.
pub fn no_repo(id: u128) -> (e: ApiError)
    ensures
        is_not_found(e, ErrorCode::RepoNotFound, no_repo_text(id)),
{
    not_found(ErrorCode::RepoNotFound, join2("no repo with id ", uuid_to_string(id).as_str()))
}

/// `no org with id <id>`.
pub open spec fn no_org_text(id: u128) -> Seq<char> {
    "no org with id "@ + uuid_hyphenated(id)
}

/// The answer for an org that does not exist.
pub fn no_org(id: u128) -> (e: ApiError)
    ensures
        is_not_found(e, ErrorCode::OrgNotFound, no_org_text(id)),
{
    not_found(ErrorCode::OrgNotFound, join2("no org with id ", uuid_to_string(id).as_str()))
}

} // verus!
