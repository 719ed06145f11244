//! The milestone routes, replayed on the checks, payload reading and
//! error mappings the library makes for them.

use dp_rest::error::{ApiError, StoreError};
use dp_rest::project_milestones::{
    map_adopt_error, milestone_audit_verb, milestone_patch_input, parse_milestone_upsert, plan_create_milestone,
    resolve_project_milestone, CreateMilestoneRequest, JsonScalar, Milestone, MilestoneState, MilestoneVerb,
    PatchMilestoneRequest,
};

const REPO: u128 = 0x2e90;
const PROJECT: u128 = 0x9e;

/// What the write backend answers for a milestone: number, node id,
/// title, state, no due date, and its timestamps.
fn payload(number: i64, title: &str, state: &str) -> Option<Vec<(String, JsonScalar)>> {
    Some(vec![
        ("number".to_string(), JsonScalar::Number(Some(number))),
        ("node_id".to_string(), JsonScalar::Str(format!("MI_{number}"))),
        ("title".to_string(), JsonScalar::Str(title.to_string())),
        ("state".to_string(), JsonScalar::Str(state.to_string())),
        ("due_on".to_string(), JsonScalar::Null),
        ("created_at".to_string(), JsonScalar::Str("2024-01-01T00:00:00Z".to_string())),
        ("updated_at".to_string(), JsonScalar::Str("2024-01-01T00:00:00Z".to_string())),
    ])
}

fn stored(id: u128, title: &str) -> Milestone {
    Milestone {
        id,
        repo_id: REPO,
        github_number: 1,
        title: title.to_string(),
        description: None,
        state: MilestoneState::Open,
        due_on: None,
        open_issues: 0,
        closed_issues: 0,
        created_at: 0,
        updated_at: 0,
        closed_at: None,
    }
}

#[test]
fn adopt_unknown_milestone_returns_400() {
    match map_adopt_error(PROJECT, StoreError::Invalid("milestone is not on a project repo".into())) {
        ApiError::BadRequest { code, message } => {
            assert_eq!(code.as_str(), "milestone_not_linked");
            assert_eq!(message, "milestone is not on a project repo");
        },
        other => panic!("expected a 400, got {other:?}"),
    }
}

#[test]
fn adopt_on_unknown_project_returns_404() {
    let e = map_adopt_error(PROJECT, StoreError::NotFound { entity: "project".into(), id: "x".into() });
    match e {
        ApiError::NotFound { code, message } => {
            assert_eq!(code.as_str(), "project_not_found");
            assert_eq!(message, "no project with id 00000000-0000-0000-0000-00000000009e");
        },
        other => panic!("expected a 404, got {other:?}"),
    }
}

#[test]
fn create_milestone_forwards_to_writer_and_upserts_locally() {
    let body = CreateMilestoneRequest { repo_id: REPO, title: "v0.3".into(), description: None, due_on: None };
    let (title, description) = plan_create_milestone(PROJECT, &body, &vec![REPO]).ok().expect("accepted");
    assert_eq!(title, "v0.3");
    assert_eq!(description, None);
    let row = parse_milestone_upsert(REPO, &payload(42, &title, "open")).ok().expect("payload reads");
    assert_eq!(row.title, "v0.3");
    assert_eq!(row.state, MilestoneState::Open);
    assert_eq!(row.repo_id, REPO);
    assert_eq!(row.github_number, 42);
}

#[test]
fn create_milestone_rejects_repo_not_linked_to_project() {
    let body = CreateMilestoneRequest { repo_id: REPO, title: "x".into(), description: None, due_on: None };
    match plan_create_milestone(PROJECT, &body, &vec![]) {
        Err(ApiError::BadRequest { code, message }) => {
            assert_eq!(code.as_str(), "repo_not_linked");
            assert_eq!(
                message,
                "repo 00000000-0000-0000-0000-000000002e90 is not linked to project 00000000-0000-0000-0000-00000000009e"
            );
        },
        other => panic!("expected a 400, got {other:?}"),
    }
}

#[test]
fn patch_milestone_close_forwards_state_and_audits_close() {
    let body = PatchMilestoneRequest { title: None, state: Some("closed".into()), description: None, due_on: None };
    let input = milestone_patch_input(&body);
    assert_eq!(input.state.as_deref(), Some("closed"));
    assert!(input.title.is_none());
    assert_eq!(milestone_audit_verb(&input.state), MilestoneVerb::Close);
    let row = parse_milestone_upsert(REPO, &payload(1, "orig", "closed")).ok().expect("payload reads");
    assert_eq!(row.state, MilestoneState::Closed);
}

#[test]
fn patch_milestone_unknown_returns_404_and_skips_writer() {
    match resolve_project_milestone(PROJECT, &vec![stored(1, "v1")], 2) {
        Err(ApiError::NotFound { code, message }) => {
            assert_eq!(code.as_str(), "milestone_not_found");
            assert_eq!(
                message,
                "no milestone with id 00000000-0000-0000-0000-000000000002 on project 00000000-0000-0000-0000-00000000009e"
            );
        },
        other => panic!("expected a 404, got {other:?}"),
    }
    assert_eq!(resolve_project_milestone(PROJECT, &vec![stored(1, "v1")], 1).ok(), Some(0));
}
