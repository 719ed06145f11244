//! The project routes, replayed on the checks, merges and error
//! mappings the library makes for them.

use dp_rest::error::{ApiError, StoreError};
use dp_rest::projects::{
    archive_is_audited, create_upsert, map_create_error, map_store_cas_error, patch_upsert, plan_project_list,
    project_dto, CreateProjectRequest, ListProjectsQuery, PatchProjectRequest, Project, ProjectStatus,
    ProjectStatusDto,
};

const DAY: i64 = 86_400_000_000;

fn create(name: &str) -> CreateProjectRequest {
    CreateProjectRequest {
        org_id: 0x0a,
        name: name.to_string(),
        description: None,
        lead_user_id: None,
        status: None,
        start_at: None,
        due_at: None,
    }
}

fn stored(name: &str, status: ProjectStatus, version: i64) -> Project {
    Project {
        id: 1,
        org_id: 0x0a,
        name: name.to_string(),
        description: None,
        lead_user_id: None,
        status,
        start_at: None,
        due_at: None,
        issue_count: 0,
        closed_issue_count: 0,
        version,
        created_by: Some(0x99),
        created_at: 0,
        updated_at: 0,
        primary_milestone_id: None,
    }
}

fn patch(expected_version: i64) -> PatchProjectRequest {
    PatchProjectRequest {
        expected_version,
        name: None,
        description: None,
        lead_user_id: None,
        status: None,
        start_at: None,
        due_at: None,
    }
}

fn code_of(e: &ApiError) -> (&'static str, &'static str) {
    match e {
        ApiError::BadRequest { code, .. } => ("400", code.as_str()),
        ApiError::NotFound { code, .. } => ("404", code.as_str()),
        ApiError::Conflict { code, .. } => ("409", code.as_str()),
        other => panic!("unexpected {other:?}"),
    }
}

#[test]
fn create_project_persists_row_and_audits() {
    let actor: u128 = 0x99;
    let u = create_upsert(create("Rubix v2 launch"), actor).ok().expect("accepted");
    assert_eq!(u.name, "Rubix v2 launch");
    assert_eq!(u.status, ProjectStatus::Active, "status defaults to active");
    assert_eq!(u.created_by, Some(actor));
    let dto = project_dto(stored(&u.name, u.status, 1));
    assert_eq!(dto.status, ProjectStatusDto::Active);
    assert_eq!(dto.version, 1);
    assert_eq!(dto.issue_count, 0);
    assert_eq!(dto.board_link_count, 0);
}

#[test]
fn create_project_rejects_blank_name_with_400() {
    let e = create_upsert(create("   "), 1).err().expect("rejected");
    assert_eq!(code_of(&e), ("400", "project_name_required"));
    match e {
        ApiError::BadRequest { message, .. } => assert_eq!(message, "project name must be non-empty"),
        _ => unreachable!(),
    }
}

#[test]
fn create_project_rejects_inverted_dates_with_400() {
    let mut body = create("Bad dates");
    body.start_at = Some(20_619 * DAY);
    body.due_at = Some(20_574 * DAY);
    let e = create_upsert(body, 1).err().expect("rejected");
    assert_eq!(code_of(&e), ("400", "project_dates_inverted"));
}

#[test]
fn create_project_rejects_duplicate_with_409() {
    let e = map_create_error(StoreError::Conflict("dup".into()));
    assert_eq!(code_of(&e), ("409", "project_name_taken"));
    match e {
        ApiError::Conflict { message, .. } => {
            assert_eq!(message, "an active project with this name already exists in the org: dup")
        },
        _ => unreachable!(),
    }
}

#[test]
fn list_projects_count_only_returns_total_and_empty_rows() {
    let plan = plan_project_list(ListProjectsQuery {
        org_id: Some(0x0a),
        status: Some(ProjectStatusDto::Active),
        q: None,
        limit: None,
        offset: None,
        count_only: Some(1),
    });
    assert!(plan.count_only);
    assert_eq!(plan.status, Some(ProjectStatus::Active));
    assert_eq!(plan.echoed_limit(), 0);
}

#[test]
fn patch_project_merges_partial_body_and_bumps_version() {
    let mut body = patch(1);
    body.name = Some("name-2".into());
    let u = patch_upsert(body, stored("name-1", ProjectStatus::Active, 1)).ok().expect("accepted");
    assert_eq!(u.name, "name-2");
    assert_eq!(u.status, ProjectStatus::Active, "status preserved");
}

#[test]
fn patch_project_rejects_stale_version_with_409() {
    let e = map_store_cas_error(1, StoreError::Conflict("expected 99, found 1".into()));
    assert_eq!(code_of(&e), ("409", "stale_project_version"));
}

#[test]
fn patch_project_returns_404_when_missing() {
    let e = map_store_cas_error(1, StoreError::NotFound { entity: "project".into(), id: "x".into() });
    assert_eq!(code_of(&e), ("404", "project_not_found"));
    match e {
        ApiError::NotFound { message, .. } => assert_eq!(message, "no project with id 00000000-0000-0000-0000-000000000001"),
        _ => unreachable!(),
    }
}

#[test]
fn archive_project_flips_status_and_audits_once() {
    assert!(archive_is_audited(ProjectStatus::Active));
    assert!(!archive_is_audited(ProjectStatus::Archived), "only the first archive audits");
}

#[test]
fn archive_project_returns_409_on_stale_version() {
    let e = map_store_cas_error(1, StoreError::Conflict("expected 42, found 1".into()));
    assert_eq!(code_of(&e), ("409", "stale_project_version"));
}
