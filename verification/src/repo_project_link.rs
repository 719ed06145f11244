//! Repository ↔ GitHub Projects v2 board links: the link a put
//! stores, and the answers of the board picker.

use vstd::prelude::*;

use crate::error::{bad_request, is_bad, is_not_found, not_found, ApiError, ErrorCode};
use crate::ids::{uuid_hyphenated, uuid_to_string};
use crate::text::join3;
use crate::text::{chars_of, seq_trim, string_from, trim};

verus! {

/// Why the board picker failed.
#[derive(Debug, Clone)]
pub enum ProjectsPickerError {
    /// GitHub's GraphQL API refused the query.
    GraphQl(String),
    /// GitHub could not be reached.
    Transport(String),
    /// No picker backend in this deployment.
    Unconfigured,
}

/// The picker of a deployment without GitHub credentials.
#[derive(Debug, Clone, Copy)]
pub struct UnconfiguredProjectsPicker;

impl UnconfiguredProjectsPicker {
    /// Listing boards fails as unconfigured.
    pub fn list_repo_projects(&self) -> (r: Result<(), ProjectsPickerError>)
        ensures
            r matches Err(ProjectsPickerError::Unconfigured),
    {
        Err(ProjectsPickerError::Unconfigured)
    }
}

/// `projects picker backend not configured`.
pub open spec fn picker_unconfigured_text() -> Seq<char> {
    "projects picker backend not configured"@
}

/// The answer to a failed board listing: `400 upstream_unavailable`
/// when unconfigured or unreachable, `400 github_validation_failed`
/// when GitHub refused the query (with GitHub's text).
pub fn map_picker_error(e: ProjectsPickerError) -> (r: ApiError)
    ensures
        match e {
            ProjectsPickerError::Unconfigured => r matches ApiError::BadRequest { code, message } && code
                == ErrorCode::UpstreamUnavailable && message@ == picker_unconfigured_text(),
            ProjectsPickerError::GraphQl(m) => r matches ApiError::BadRequest { code, message } && code
                == ErrorCode::GithubValidationFailed && message@ == m@,
            ProjectsPickerError::Transport(m) => r matches ApiError::BadRequest { code, message } && code
                == ErrorCode::UpstreamUnavailable && message@ == m@,
        },
{
    match e {
        ProjectsPickerError::Unconfigured => ApiError::BadRequest {
            code: ErrorCode::UpstreamUnavailable,
            message: string_from(&chars_of("projects picker backend not configured")),
        },
        ProjectsPickerError::GraphQl(m) => ApiError::BadRequest { code: ErrorCode::GithubValidationFailed, message: m },
        ProjectsPickerError::Transport(m) => ApiError::BadRequest { code: ErrorCode::UpstreamUnavailable, message: m },
    }
}

/// `PUT /repos/{id}/project-link` body.
#[derive(Debug, Clone)]
pub struct PutRepoProjectLinkRequest {
    pub project_node_id: String,
    pub start_field_node_id: Option<String>,
    pub due_field_node_id: Option<String>,
}

/// A repository's link to a Projects v2 board.
#[derive(Debug, Clone)]
pub struct RepoProjectLink {
    pub repo_id: u128,
    pub project_node_id: String,
    pub start_field_node_id: Option<String>,
    pub due_field_node_id: Option<String>,
}

/// A field id kept only when it is not blank.
pub open spec fn nonblank_field(o: Option<String>) -> Option<String> {
    match o {
        Some(s) => if seq_trim(s@).len() > 0 {
            Some(s)
        } else {
            None
        },
        None => None,
    }
}

fn keep_nonblank(o: Option<String>) -> (r: Option<String>)
    ensures
        r == nonblank_field(o),
{
    match o {
        Some(s) => if trim(s.as_str()).len() > 0 {
            Some(s)
        } else {
            None
        },
        None => None,
    }
}

/// The link a put stores for repository `repo_id`: a blank board id is
/// `invalid_project_node_id`; the board id is kept as sent, blank field
/// ids are dropped.
pub fn project_link_for(repo_id: u128, body: PutRepoProjectLinkRequest) -> (r: Result<RepoProjectLink, ApiError>)
    ensures
        seq_trim(body.project_node_id@).len() == 0 ==> (r matches Err(e) && is_bad(
            e,
            ErrorCode::InvalidProjectNodeId,
            "project_node_id must be non-empty"@,
        )),
        seq_trim(body.project_node_id@).len() > 0 ==> (r matches Ok(l) && l.repo_id == repo_id && l.project_node_id
            == body.project_node_id && l.start_field_node_id == nonblank_field(body.start_field_node_id)
            && l.due_field_node_id == nonblank_field(body.due_field_node_id)),
{
    if trim(body.project_node_id.as_str()).len() == 0 {
        return Err(bad_request(ErrorCode::InvalidProjectNodeId, "project_node_id must be non-empty".to_owned()));
    }
    Ok(RepoProjectLink {
        repo_id,
        project_node_id: body.project_node_id,
        start_field_node_id: keep_nonblank(body.start_field_node_id),
        due_field_node_id: keep_nonblank(body.due_field_node_id),
    })
}

/// Repository `repo_id` without a board link answers `404
/// repo_project_link_not_found`.
pub fn require_link(repo_id: u128, link: Option<RepoProjectLink>) -> (r: Result<RepoProjectLink, ApiError>)
    ensures
        match link {
            Some(l) => r == Ok::<RepoProjectLink, ApiError>(l),
            None => r matches Err(e) && is_not_found(
                e,
                ErrorCode::RepoProjectLinkNotFound,
                "repo "@ + uuid_hyphenated(repo_id) + " is not linked to a Projects v2 board"@,
            ),
        },
{
    match link {
        Some(l) => Ok(l),
        None => Err(
            not_found(
                ErrorCode::RepoProjectLinkNotFound,
                join3("repo ", uuid_to_string(repo_id).as_str(), " is not linked to a Projects v2 board"),
            ),
        ),
    }
}

} // verus!
