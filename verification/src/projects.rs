//! Projects: list paging, name and date validation, the overlay of a
//! partial update onto the stored row, the create defaults, and the
//! CAS error mapping.

use vstd::prelude::*;

use crate::error::{
    bad_request, is_bad, is_conflict, is_not_found, is_rejection, no_project, no_project_text, ApiError, ErrorCode, StoreError,
};
use crate::text::join2;
use crate::repos::{DEFAULT_LIST_LIMIT, MAX_LIST_LIMIT};
use crate::text::{seq_trim, string_from, trim, utf8_len, utf8_len_of};

verus! {

/// Longest project name, in UTF-8 bytes after trimming.
pub const MAX_PROJECT_NAME_BYTES: usize = 200;

/// Project lifecycle state.
#[derive(Debug, Clone, Copy, PartialEq, Eq, Structural)]
pub enum ProjectStatus {
    Active,
    Backlog,
    Done,
    Archived,
}

/// Wire form of [`ProjectStatus`].
#[derive(Debug, Clone, Copy, PartialEq, Eq, Structural)]
pub enum ProjectStatusDto {
    Active,
    Backlog,
    Done,
    Archived,
}

impl From<ProjectStatus> for ProjectStatusDto {
    fn from(s: ProjectStatus) -> (r: Self) {
        match s {
            ProjectStatus::Active => ProjectStatusDto::Active,
            ProjectStatus::Backlog => ProjectStatusDto::Backlog,
            ProjectStatus::Done => ProjectStatusDto::Done,
            ProjectStatus::Archived => ProjectStatusDto::Archived,
        }
    }
}

impl vstd::std_specs::convert::FromSpecImpl<ProjectStatus> for ProjectStatusDto {
    open spec fn obeys_from_spec() -> bool {
        true
    }

    open spec fn from_spec(s: ProjectStatus) -> ProjectStatusDto {
        match s {
            ProjectStatus::Active => ProjectStatusDto::Active,
            ProjectStatus::Backlog => ProjectStatusDto::Backlog,
            ProjectStatus::Done => ProjectStatusDto::Done,
            ProjectStatus::Archived => ProjectStatusDto::Archived,
        }
    }
}

impl From<ProjectStatusDto> for ProjectStatus {
    fn from(s: ProjectStatusDto) -> (r: Self) {
        match s {
            ProjectStatusDto::Active => ProjectStatus::Active,
            ProjectStatusDto::Backlog => ProjectStatus::Backlog,
            ProjectStatusDto::Done => ProjectStatus::Done,
            ProjectStatusDto::Archived => ProjectStatus::Archived,
        }
    }
}

impl vstd::std_specs::convert::FromSpecImpl<ProjectStatusDto> for ProjectStatus {
    open spec fn obeys_from_spec() -> bool {
        true
    }

    open spec fn from_spec(s: ProjectStatusDto) -> ProjectStatus {
        match s {
            ProjectStatusDto::Active => ProjectStatus::Active,
            ProjectStatusDto::Backlog => ProjectStatus::Backlog,
            ProjectStatusDto::Done => ProjectStatus::Done,
            ProjectStatusDto::Archived => ProjectStatus::Archived,
        }
    }
}

/// The wire form of a status.
pub open spec fn status_dto(s: ProjectStatus) -> ProjectStatusDto {
    <ProjectStatusDto as vstd::std_specs::convert::FromSpec<ProjectStatus>>::from_spec(s)
}

/// The status of a wire form.
pub open spec fn status_of(s: ProjectStatusDto) -> ProjectStatus {
    <ProjectStatus as vstd::std_specs::convert::FromSpec<ProjectStatusDto>>::from_spec(s)
}

/// Status and wire form convert one-for-one: each conversion undoes
/// the other.
pub proof fn lemma_status_round_trip(s: ProjectStatus, d: ProjectStatusDto)
    ensures
        status_of(status_dto(s)) == s,
        status_dto(status_of(d)) == d,
{
}

/// A stored project.
#[derive(Debug, Clone)]
pub struct Project {
    pub id: u128,
    pub org_id: u128,
    pub name: String,
    pub description: Option<String>,
    pub lead_user_id: Option<u128>,
    pub status: ProjectStatus,
    /// Microseconds since the Unix epoch (UTC).
    pub start_at: Option<i64>,
    pub due_at: Option<i64>,
    pub issue_count: i32,
    pub closed_issue_count: i32,
    pub version: i64,
    pub created_by: Option<u128>,
    pub created_at: i64,
    pub updated_at: i64,
    pub primary_milestone_id: Option<u128>,
}

/// Wire form of a project.
#[derive(Debug, Clone)]
pub struct ProjectDto {
    pub id: u128,
    pub org_id: u128,
    pub name: String,
    pub description: Option<String>,
    pub lead_user_id: Option<u128>,
    pub status: ProjectStatusDto,
    pub start_at: Option<i64>,
    pub due_at: Option<i64>,
    pub issue_count: i32,
    pub closed_issue_count: i32,
    /// Always 0 until board links are counted.
    pub board_link_count: i32,
    pub version: i64,
    pub created_by: Option<u128>,
    pub created_at: i64,
    pub updated_at: i64,
    pub primary_milestone_id: Option<u128>,
}

/// The wire form of a project.
pub fn project_dto(p: Project) -> (r: ProjectDto)
    ensures
        r.id == p.id && r.org_id == p.org_id && r.name == p.name && r.description == p.description && r.lead_user_id
            == p.lead_user_id && r.status == status_dto(p.status) && r.start_at == p.start_at && r.due_at == p.due_at
            && r.issue_count == p.issue_count && r.closed_issue_count == p.closed_issue_count && r.board_link_count == 0
            && r.version == p.version && r.created_by == p.created_by && r.created_at == p.created_at && r.updated_at
            == p.updated_at && r.primary_milestone_id == p.primary_milestone_id,
{
    ProjectDto {
        id: p.id,
        org_id: p.org_id,
        name: p.name,
        description: p.description,
        lead_user_id: p.lead_user_id,
        status: ProjectStatusDto::from(p.status),
        start_at: p.start_at,
        due_at: p.due_at,
        issue_count: p.issue_count,
        closed_issue_count: p.closed_issue_count,
        board_link_count: 0,
        version: p.version,
        created_by: p.created_by,
        created_at: p.created_at,
        updated_at: p.updated_at,
        primary_milestone_id: p.primary_milestone_id,
    }
}

/// `limit` defaults to 50 and is clamped to `1..=200`; `offset` to
/// `>= 0`.
pub open spec fn spec_pagination(limit: Option<i64>, offset: Option<i64>) -> (i64, i64) {
    let l = match limit {
        Some(n) => n,
        None => DEFAULT_LIST_LIMIT,
    };
    let o = match offset {
        Some(n) => n,
        None => 0,
    };
    (
        if l < 1 {
            1
        } else if l > MAX_LIST_LIMIT {
            MAX_LIST_LIMIT
        } else {
            l
        },
        if o < 0 {
            0
        } else {
            o
        },
    )
}

/// Paging clamps and nothing more: a limit within 1..=200 is kept as
/// sent, one below 1 becomes 1 and one above 200 becomes 200, an absent
/// one 50; an offset of 0 or more is kept, a negative or absent one is 0.
pub proof fn lemma_pagination_clamps(limit: Option<i64>, offset: Option<i64>)
    ensures
        limit is Some && 1 <= limit->0 <= 200 ==> spec_pagination(limit, offset).0 == limit->0,
        limit is Some && limit->0 < 1 ==> spec_pagination(limit, offset).0 == 1,
        limit is Some && limit->0 > 200 ==> spec_pagination(limit, offset).0 == 200,
        limit is None ==> spec_pagination(limit, offset).0 == 50,
        offset is Some && offset->0 >= 0 ==> spec_pagination(limit, offset).1 == offset->0,
        offset is Some && offset->0 < 0 ==> spec_pagination(limit, offset).1 == 0,
        offset is None ==> spec_pagination(limit, offset).1 == 0,
{
}

/// Resolves the list paging parameters.
pub fn resolve_pagination(limit: Option<i64>, offset: Option<i64>) -> (r: (i64, i64))
    ensures
        r == spec_pagination(limit, offset),
        limit is Some && 1 <= limit->0 <= 200 ==> r.0 == limit->0,
        limit is Some && limit->0 < 1 ==> r.0 == 1,
        limit is Some && limit->0 > 200 ==> r.0 == 200,
        limit is None ==> r.0 == 50,
        offset is Some && offset->0 >= 0 ==> r.1 == offset->0,
        offset is Some && offset->0 < 0 ==> r.1 == 0,
        offset is None ==> r.1 == 0,
{
    proof {
        lemma_pagination_clamps(limit, offset);
    }
    let l = match limit {
        Some(n) => n,
        None => DEFAULT_LIST_LIMIT,
    };
    let o = match offset {
        Some(n) => n,
        None => 0,
    };
    (
        if l < 1 {
            1
        } else if l > MAX_LIST_LIMIT {
            MAX_LIST_LIMIT
        } else {
            l
        },
        if o < 0 {
            0
        } else {
            o
        },
    )
}

/// `GET /projects` query.
#[derive(Debug, Clone)]
pub struct ListProjectsQuery {
    pub org_id: Option<u128>,
    pub status: Option<ProjectStatusDto>,
    pub q: Option<String>,
    pub limit: Option<i64>,
    pub offset: Option<i64>,
    /// `1` (any non-zero value) asks for the count alone.
    pub count_only: Option<u8>,
}

/// The store filter and paging of a project list, and whether only the
/// count is wanted (then the answer has no rows and `limit` 0).
pub struct ProjectListPlan {
    pub org_id: Option<u128>,
    pub status: Option<ProjectStatus>,
    pub q: Option<String>,
    pub limit: i64,
    pub offset: i64,
    pub count_only: bool,
}

impl ProjectListPlan {
    /// The `limit` the answer echoes: 0 for a count-only answer.
    pub fn echoed_limit(&self) -> (r: i64)
        ensures
            r == (if self.count_only {
                0
            } else {
                self.limit
            }),
    {
        if self.count_only {
            0
        } else {
            self.limit
        }
    }
}

/// Reads a list query.
pub fn plan_project_list(q: ListProjectsQuery) -> (r: ProjectListPlan)
    ensures
        (r.limit, r.offset) == spec_pagination(q.limit, q.offset),
        r.org_id == q.org_id,
        r.status == (match q.status {
            Some(s) => Some(status_of(s)),
            None => None,
        }),
        r.q == q.q,
        r.count_only == (q.count_only matches Some(n) && n != 0),
{
    let (limit, offset) = resolve_pagination(q.limit, q.offset);
    let count_only = match q.count_only {
        Some(n) => n != 0,
        None => false,
    };
    ProjectListPlan {
        org_id: q.org_id,
        status: match q.status {
            Some(s) => Some(ProjectStatus::from(s)),
            None => None,
        },
        q: q.q,
        limit,
        offset,
        count_only,
    }
}

/// The name rule: non-blank (`project_name_required`) and at most
/// [`MAX_PROJECT_NAME_BYTES`] UTF-8 bytes once trimmed
/// (`project_name_too_long`).
pub open spec fn spec_name_error(name: Seq<char>) -> Option<(ErrorCode, Seq<char>)> {
    if seq_trim(name).len() == 0 {
        Some((ErrorCode::ProjectNameRequired, "project name must be non-empty"@))
    } else if utf8_len(seq_trim(name)) > MAX_PROJECT_NAME_BYTES {
        Some((ErrorCode::ProjectNameTooLong, "project name must be 200 characters or fewer"@))
    } else {
        None
    }
}

/// Checks a project name.
pub fn validate_name(name: &str) -> (r: Result<(), ApiError>)
    ensures
        match spec_name_error(name@) {
            Some(c) => r matches Err(e) && is_rejection(e, c),
            None => r is Ok,
        },
{
    let t = trim(name);
    if t.len() == 0 {
        return Err(bad_request(ErrorCode::ProjectNameRequired, "project name must be non-empty".to_owned()));
    }
    if utf8_len_of(&t) > MAX_PROJECT_NAME_BYTES {
        return Err(bad_request(ErrorCode::ProjectNameTooLong, "project name must be 200 characters or fewer".to_owned()));
    }
    Ok(())
}

/// Both dates set with the start after the due date is
/// `project_dates_inverted`.
pub fn validate_dates(start_at: Option<i64>, due_at: Option<i64>) -> (r: Result<(), ApiError>)
    ensures
        (start_at matches Some(s) && due_at matches Some(d) && s > d) ==> (r matches Err(e) && is_bad(
            e,
            ErrorCode::ProjectDatesInverted,
            "start_at must be <= due_at"@,
        )),
        !(start_at matches Some(s) && due_at matches Some(d) && s > d) ==> r is Ok,
{
    match (start_at, due_at) {
        (Some(s), Some(d)) => if s > d {
            Err(bad_request(ErrorCode::ProjectDatesInverted, "start_at must be <= due_at".to_owned()))
        } else {
            Ok(())
        },
        _ => Ok(()),
    }
}

/// A failed CAS-gated write of project `id`: a missing project is
/// `404 project_not_found`, a version conflict `409
/// stale_project_version`, a rule violation `400 project_invalid`
/// (both with the store's text); anything else passes through.
pub fn map_store_cas_error(id: u128, err: StoreError) -> (r: ApiError)
    ensures
        match err {
            StoreError::NotFound { .. } => is_not_found(r, ErrorCode::ProjectNotFound, no_project_text(id)),
            StoreError::Conflict(m) => is_conflict(r, ErrorCode::StaleProjectVersion, m@),
            StoreError::Invalid(m) => is_bad(r, ErrorCode::ProjectInvalid, m@),
            _ => r == ApiError::Store(err),
        },
{
    match err {
        StoreError::NotFound { .. } => no_project(id),
        StoreError::Conflict(m) => ApiError::Conflict { code: ErrorCode::StaleProjectVersion, message: m },
        StoreError::Invalid(m) => ApiError::BadRequest { code: ErrorCode::ProjectInvalid, message: m },
        e => ApiError::Store(e),
    }
}

/// A failed create: a name already used by an active project of the
/// org is `409 project_name_taken` (saying so, then the store's text),
/// a rule violation `400 project_invalid` (the store's text); anything
/// else passes through.
pub fn map_create_error(err: StoreError) -> (r: ApiError)
    ensures
        match err {
            StoreError::Conflict(m) => is_conflict(
                r,
                ErrorCode::ProjectNameTaken,
                "an active project with this name already exists in the org: "@ + m@,
            ),
            StoreError::Invalid(m) => is_bad(r, ErrorCode::ProjectInvalid, m@),
            _ => r == ApiError::Store(err),
        },
{
    match err {
        StoreError::Conflict(m) => ApiError::Conflict {
            code: ErrorCode::ProjectNameTaken,
            message: join2("an active project with this name already exists in the org: ", m.as_str()),
        },
        StoreError::Invalid(m) => ApiError::BadRequest { code: ErrorCode::ProjectInvalid, message: m },
        e => ApiError::Store(e),
    }
}

/// The full row a create or update writes.
#[derive(Debug, Clone)]
pub struct ProjectUpsert {
    pub org_id: u128,
    pub name: String,
    pub description: Option<String>,
    pub lead_user_id: Option<u128>,
    pub status: ProjectStatus,
    pub start_at: Option<i64>,
    pub due_at: Option<i64>,
    pub created_by: Option<u128>,
}

/// `POST /projects` body.
#[derive(Debug, Clone)]
pub struct CreateProjectRequest {
    pub org_id: u128,
    pub name: String,
    pub description: Option<String>,
    pub lead_user_id: Option<u128>,
    pub status: Option<ProjectStatusDto>,
    pub start_at: Option<i64>,
    pub due_at: Option<i64>,
}

pub open spec fn trimmed_opt(o: Option<String>) -> Option<Seq<char>> {
    match o {
        Some(s) => Some(seq_trim(s@)),
        None => None,
    }
}

pub open spec fn opt_seq(o: Option<String>) -> Option<Seq<char>> {
    match o {
        Some(s) => Some(s@),
        None => None,
    }
}

/// The trimmed copy of an optional string.
fn trim_opt(o: Option<String>) -> (r: Option<String>)
    ensures
        opt_seq(r) == trimmed_opt(o),
{
    match o {
        Some(s) => Some(string_from(&trim(s.as_str()))),
        None => None,
    }
}

/// The row a create writes: the name is checked, then the dates; the
/// name and description are stored trimmed, the status defaults to
/// `Active`, and the caller is the creator.
pub fn create_upsert(body: CreateProjectRequest, actor: u128) -> (r: Result<ProjectUpsert, ApiError>)
    ensures
        match spec_name_error(body.name@) {
            Some(c) => r matches Err(e) && is_rejection(e, c),
            None => if (body.start_at matches Some(s) && body.due_at matches Some(d) && s > d) {
                r matches Err(e) && is_bad(e, ErrorCode::ProjectDatesInverted, "start_at must be <= due_at"@)
            } else {
                r matches Ok(u) && u.org_id == body.org_id && u.name@ == seq_trim(body.name@) && opt_seq(u.description)
                    == trimmed_opt(body.description) && u.lead_user_id == body.lead_user_id && u.status == (match body.status {
                    Some(s) => status_of(s),
                    None => ProjectStatus::Active,
                }) && u.start_at == body.start_at && u.due_at == body.due_at && u.created_by == Some(actor)
            },
        },
{
    validate_name(body.name.as_str())?;
    validate_dates(body.start_at, body.due_at)?;
    Ok(ProjectUpsert {
        org_id: body.org_id,
        name: string_from(&trim(body.name.as_str())),
        description: trim_opt(body.description),
        lead_user_id: body.lead_user_id,
        status: match body.status {
            Some(s) => ProjectStatus::from(s),
            None => ProjectStatus::Active,
        },
        start_at: body.start_at,
        due_at: body.due_at,
        created_by: Some(actor),
    })
}

/// `PATCH /projects/{id}` body: absent fields are left alone,
/// `Some(None)` clears a nullable field.
#[derive(Debug, Clone)]
pub struct PatchProjectRequest {
    pub expected_version: i64,
    pub name: Option<String>,
    pub description: Option<Option<String>>,
    pub lead_user_id: Option<Option<u128>>,
    pub status: Option<ProjectStatusDto>,
    pub start_at: Option<Option<i64>>,
    pub due_at: Option<Option<i64>>,
}

/// A field after the overlay: the patch's value when it carries one.
pub open spec fn overlay<T>(patch: Option<T>, current: T) -> T {
    match patch {
        Some(v) => v,
        None => current,
    }
}

/// The name a patch leaves (before trimming).
pub open spec fn merged_name(body: PatchProjectRequest, current: Project) -> Seq<char> {
    match body.name {
        Some(n) => n@,
        None => current.name@,
    }
}

/// The description a patch leaves: the current one when absent, else
/// the sent one trimmed (or cleared).
pub open spec fn merged_description(body: PatchProjectRequest, current: Project) -> Option<Seq<char>> {
    match body.description {
        None => opt_seq(current.description),
        Some(v) => trimmed_opt(v),
    }
}

/// The row an update writes: the patch laid over the current row. The
/// merged name is checked, then the merged dates; the name is stored
/// trimmed; the organisation and creator stay.
pub fn patch_upsert(body: PatchProjectRequest, current: Project) -> (r: Result<ProjectUpsert, ApiError>)
    ensures
        match spec_name_error(merged_name(body, current)) {
            Some(c) => r matches Err(e) && is_rejection(e, c),
            None => {
                let start = overlay(body.start_at, current.start_at);
                let due = overlay(body.due_at, current.due_at);
                if (start matches Some(s) && due matches Some(d) && s > d) {
                    r matches Err(e) && is_bad(e, ErrorCode::ProjectDatesInverted, "start_at must be <= due_at"@)
                } else {
                    r matches Ok(u) && u.org_id == current.org_id && u.name@ == seq_trim(merged_name(body, current))
                        && opt_seq(u.description) == merged_description(body, current) && u.lead_user_id == overlay(
                        body.lead_user_id,
                        current.lead_user_id,
                    ) && u.status == (match body.status {
                        Some(s) => status_of(s),
                        None => current.status,
                    }) && u.start_at == start && u.due_at == due && u.created_by == current.created_by
                }
            },
        },
{
    let name = match body.name {
        Some(n) => n,
        None => current.name,
    };
    validate_name(name.as_str())?;
    let description = match body.description {
        None => current.description,
        Some(v) => trim_opt(v),
    };
    let lead_user_id = match body.lead_user_id {
        None => current.lead_user_id,
        Some(v) => v,
    };
    let status = match body.status {
        Some(s) => ProjectStatus::from(s),
        None => current.status,
    };
    let start_at = match body.start_at {
        None => current.start_at,
        Some(v) => v,
    };
    let due_at = match body.due_at {
        None => current.due_at,
        Some(v) => v,
    };
    validate_dates(start_at, due_at)?;
    Ok(ProjectUpsert {
        org_id: current.org_id,
        name: string_from(&trim(name.as_str())),
        description,
        lead_user_id,
        status,
        start_at,
        due_at,
        created_by: current.created_by,
    })
}

/// Fields a patch omits are left untouched: with every field absent,
/// the merged row carries the current name, description, lead, status
/// and dates, and the patch is refused exactly when the current row
/// itself would be refused.
pub proof fn lemma_empty_patch_keeps_row(body: PatchProjectRequest, current: Project)
    requires
        body.name is None,
        body.description is None,
        body.lead_user_id is None,
        body.status is None,
        body.start_at is None,
        body.due_at is None,
    ensures
        merged_name(body, current) == current.name@,
        merged_description(body, current) == opt_seq(current.description),
        overlay(body.lead_user_id, current.lead_user_id) == current.lead_user_id,
        overlay(body.start_at, current.start_at) == current.start_at,
        overlay(body.due_at, current.due_at) == current.due_at,
        spec_name_error(merged_name(body, current)) == spec_name_error(current.name@),
{
}

/// `POST /projects/{id}/archive` body.
#[derive(Debug, Clone, Copy)]
pub struct ArchiveProjectRequest {
    pub expected_version: i64,
}

/// Whether an archive writes an audit row, given the status the
/// project had before it.
pub open spec fn archive_audited(before: ProjectStatus) -> bool {
    before != ProjectStatus::Archived
}

/// Whether an archive is audited: re-archiving an archived project is
/// a no-op that writes no audit row.
pub fn archive_is_audited(before: ProjectStatus) -> (r: bool)
    ensures
        r == archive_audited(before),
{
    before != ProjectStatus::Archived
}

/// Archiving twice audits once. An archive leaves the project
/// archived, so a second archive sees `Archived` and writes nothing:
/// of two archives in a row exactly one writes a row when the project
/// was not archived before, and none when it was.
pub proof fn lemma_archive_twice_audits_once(before: ProjectStatus)
    ensures
        !archive_audited(ProjectStatus::Archived),
        archive_audited(before) && !archive_audited(ProjectStatus::Archived) <==> before != ProjectStatus::Archived,
        before == ProjectStatus::Archived ==> !archive_audited(before),
{
}

} // verus!
