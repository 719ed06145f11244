use dp_rest::error::{ApiError, ErrorCode, StoreError};
use dp_rest::projects::{
    archive_is_audited, create_upsert, map_create_error, map_store_cas_error, patch_upsert, plan_project_list,
    project_dto, resolve_pagination, validate_dates, validate_name, CreateProjectRequest, ListProjectsQuery,
    PatchProjectRequest, Project, ProjectStatus, ProjectStatusDto,
};
use dp_rest::project_repos::{check_same_org, enrich, ProjectRepo};
use dp_rest::rma::{map_rma_cas, rma_create, CreateRmaRequest, RmaStatus, RmaStatusDto};

fn bad_code<T>(r: Result<T, ApiError>) -> Option<ErrorCode> {
    match r {
        Err(ApiError::BadRequest { code, .. }) => Some(code),
        _ => None,
    }
}

fn project() -> Project {
    Project {
        id: 1,
        org_id: 2,
        name: "Apollo".into(),
        description: Some("moon".into()),
        lead_user_id: Some(3),
        status: ProjectStatus::Backlog,
        start_at: Some(10),
        due_at: Some(20),
        issue_count: 4,
        closed_issue_count: 1,
        version: 7,
        created_by: Some(3),
        created_at: 0,
        updated_at: 5,
        primary_milestone_id: None,
    }
}

fn empty_patch() -> PatchProjectRequest {
    PatchProjectRequest {
        expected_version: 7,
        name: None,
        description: None,
        lead_user_id: None,
        status: None,
        start_at: None,
        due_at: None,
    }
}

#[test]
fn status_converts_both_ways() {
    for s in [ProjectStatus::Active, ProjectStatus::Backlog, ProjectStatus::Done, ProjectStatus::Archived] {
        assert_eq!(ProjectStatus::from(ProjectStatusDto::from(s)), s);
    }
    for s in [RmaStatus::Open, RmaStatus::Received, RmaStatus::Closed] {
        assert_eq!(RmaStatus::from(RmaStatusDto::from(s)), s);
    }
}

#[test]
fn pagination_defaults_and_clamps() {
    assert_eq!(resolve_pagination(None, None), (50, 0));
    assert_eq!(resolve_pagination(Some(0), Some(-3)), (1, 0));
    assert_eq!(resolve_pagination(Some(500), Some(9)), (200, 9));
    let p = plan_project_list(ListProjectsQuery { org_id: None, status: Some(ProjectStatusDto::Done), q: None, limit: None, offset: None, count_only: Some(1) });
    assert!(p.count_only);
    assert_eq!(p.status, Some(ProjectStatus::Done));
    assert_eq!(p.echoed_limit(), 0);
    let p = plan_project_list(ListProjectsQuery { org_id: None, status: None, q: None, limit: Some(20), offset: None, count_only: Some(0) });
    assert!(!p.count_only);
    assert_eq!(p.echoed_limit(), 20);
}

#[test]
fn names_must_be_present_and_at_most_200_bytes() {
    assert_eq!(bad_code(validate_name("   ")), Some(ErrorCode::ProjectNameRequired));
    assert!(validate_name(&"a".repeat(200)).is_ok());
    assert_eq!(bad_code(validate_name(&"a".repeat(201))), Some(ErrorCode::ProjectNameTooLong));
    assert!(validate_name(&format!("  {}  ", "a".repeat(200))).is_ok());
    assert_eq!(bad_code(validate_name(&"é".repeat(101))), Some(ErrorCode::ProjectNameTooLong));
    assert!(validate_name(&"é".repeat(100)).is_ok());
}

#[test]
fn dates_must_not_be_inverted() {
    assert_eq!(bad_code(validate_dates(Some(5), Some(4))), Some(ErrorCode::ProjectDatesInverted));
    assert!(validate_dates(Some(4), Some(4)).is_ok());
    assert!(validate_dates(None, Some(1)).is_ok());
}

#[test]
fn create_trims_and_defaults_to_active() {
    let body = CreateProjectRequest {
        org_id: 2,
        name: "  Zeus ".into(),
        description: Some(" d ".into()),
        lead_user_id: None,
        status: None,
        start_at: None,
        due_at: None,
    };
    let u = create_upsert(body, 99).ok().unwrap();
    assert_eq!(u.name, "Zeus");
    assert_eq!(u.description.as_deref(), Some("d"));
    assert_eq!(u.status, ProjectStatus::Active);
    assert_eq!(u.created_by, Some(99));
}

#[test]
fn an_empty_patch_leaves_the_row() {
    let p = project();
    let u = patch_upsert(empty_patch(), p.clone()).ok().unwrap();
    assert_eq!(u.name, p.name);
    assert_eq!(u.description, p.description);
    assert_eq!(u.lead_user_id, p.lead_user_id);
    assert_eq!(u.status, p.status);
    assert_eq!((u.start_at, u.due_at), (p.start_at, p.due_at));
    assert_eq!(u.org_id, p.org_id);
}

#[test]
fn a_patch_overwrites_and_clears_fields() {
    let mut body = empty_patch();
    body.name = Some(" Hermes ".into());
    body.description = Some(None);
    body.lead_user_id = Some(None);
    body.status = Some(ProjectStatusDto::Done);
    body.due_at = Some(None);
    let u = patch_upsert(body, project()).ok().unwrap();
    assert_eq!(u.name, "Hermes");
    assert_eq!(u.description, None);
    assert_eq!(u.lead_user_id, None);
    assert_eq!(u.status, ProjectStatus::Done);
    assert_eq!(u.due_at, None);
    let mut inverted = empty_patch();
    inverted.start_at = Some(Some(30));
    assert_eq!(bad_code(patch_upsert(inverted, project())), Some(ErrorCode::ProjectDatesInverted));
}

#[test]
fn store_errors_map_per_route() {
    assert!(matches!(map_store_cas_error(1, StoreError::Conflict("x".into())), ApiError::Conflict { code: ErrorCode::StaleProjectVersion, .. }));
    assert!(matches!(map_create_error(StoreError::Conflict("x".into())), ApiError::Conflict { code: ErrorCode::ProjectNameTaken, .. }));
    assert!(matches!(map_rma_cas(1, StoreError::Conflict("x".into())), ApiError::Conflict { code: ErrorCode::StaleVersion, .. }));
}

#[test]
fn archiving_twice_audits_once() {
    assert!(archive_is_audited(ProjectStatus::Active));
    assert!(!archive_is_audited(ProjectStatus::Archived));
}

#[test]
fn dto_has_no_board_links_yet() {
    let d = project_dto(project());
    assert_eq!(d.board_link_count, 0);
    assert_eq!(d.status, ProjectStatusDto::Backlog);
}

#[test]
fn repos_join_projects_of_their_own_org() {
    assert!(check_same_org(1, 1).is_ok());
    assert_eq!(bad_code(check_same_org(1, 2)), Some(ErrorCode::CrossOrgRepo));
    let d = enrich(ProjectRepo { project_id: 1, repo_id: 2, added_by: None, added_at: 3 }, None, None);
    assert_eq!((d.repo_org_id, d.repo_name.as_str(), d.repo_org_login.as_str()), (0, "", ""));
}

#[test]
fn rma_numbers_are_required_and_trimmed() {
    let body = CreateRmaRequest { org_id: 1, product_id: 2, unit_id: None, customer_id: None, rma_number: "  ".into(), under_warranty: false, reason: None };
    assert_eq!(bad_code(rma_create(body, 5)), Some(ErrorCode::RmaNumberRequired));
    let body = CreateRmaRequest { org_id: 1, product_id: 2, unit_id: None, customer_id: None, rma_number: " R-1 ".into(), under_warranty: true, reason: None };
    let c = rma_create(body, 5).ok().unwrap();
    assert_eq!(c.rma_number, "R-1");
    assert_eq!(c.status, RmaStatus::Open);
}
