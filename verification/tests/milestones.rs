use dp_rest::error::{ApiError, ErrorCode};
use dp_rest::project_milestones::{
    milestone_audit_verb, milestone_patch_input, parse_milestone_upsert, payload_error_to_api, plan_create_milestone,
    resolve_project_milestone, CreateMilestoneRequest, JsonScalar, MilestoneState, MilestoneVerb,
    MilestoneWriteError, PatchMilestoneRequest, PayloadError, UnconfiguredMilestoneWriter,
};

fn obj(pairs: Vec<(&str, JsonScalar)>) -> Option<Vec<(String, JsonScalar)>> {
    Some(pairs.into_iter().map(|(k, v)| (k.to_string(), v)).collect())
}

fn s(x: &str) -> JsonScalar {
    JsonScalar::Str(x.to_string())
}

#[test]
fn write_errors_become_upstream_answers() {
    match MilestoneWriteError::Validation("bad title".into()).into_api_error() {
        ApiError::BadRequest { code, message } => {
            assert_eq!(code, ErrorCode::UpstreamValidation);
            assert_eq!(message, "bad title");
        }
        _ => panic!(),
    }
    match MilestoneWriteError::Unconfigured.into_api_error() {
        ApiError::BadGateway { code, message } => {
            assert_eq!(code, ErrorCode::UpstreamUnavailable);
            assert_eq!(message, "milestone write backend not configured");
        }
        _ => panic!(),
    }
    match MilestoneWriteError::Upstream("github is down".into()).into_api_error() {
        ApiError::BadGateway { code, message } => {
            assert_eq!(code, ErrorCode::UpstreamUnavailable);
            assert_eq!(message, "github is down");
        }
        _ => panic!(),
    }
    assert!(matches!(UnconfiguredMilestoneWriter.delete_milestone(), Err(MilestoneWriteError::Unconfigured)));
}

#[test]
fn payload_is_read_with_defaults() {
    let p = obj(vec![
        ("number", JsonScalar::Number(Some(12))),
        ("node_id", s("MI_1")),
        ("title", s("v1.0")),
        ("state", s("open")),
        ("due_on", s("2024-03-01T07:00:00Z")),
        ("created_at", s("2024-01-01T00:00:00Z")),
    ]);
    let u = parse_milestone_upsert(5, &p).ok().unwrap();
    assert_eq!(u.github_number, 12);
    assert_eq!(u.title, "v1.0");
    assert_eq!(u.state, MilestoneState::Open);
    assert_eq!(u.open_issues, 0);
    assert_eq!(u.updated_at, u.created_at);
    assert_eq!(u.created_at, 1_704_067_200_000_000);
    assert_eq!(u.due_on, Some(738_946));
    assert_eq!(u.description, None);
    assert_eq!(u.closed_at, None);
}

#[test]
fn payload_errors_come_in_field_order() {
    assert_eq!(parse_milestone_upsert(5, &None).err(), Some(PayloadError::NotAnObject));
    let p = obj(vec![("node_id", s("x"))]);
    assert_eq!(parse_milestone_upsert(5, &p).err(), Some(PayloadError::MissingNumber));
    let p = obj(vec![("number", JsonScalar::Number(Some(1))), ("node_id", s("x")), ("title", s("t")), ("state", s("merged"))]);
    assert_eq!(parse_milestone_upsert(5, &p).err(), Some(PayloadError::UnknownState("merged".into())));
    assert_eq!(
        PayloadError::UnknownState("merged".into()).text(),
        "milestone payload has unknown state \"merged\""
    );
    let p = obj(vec![
        ("number", JsonScalar::Number(Some(1))),
        ("node_id", s("x")),
        ("title", s("t")),
        ("state", s("closed")),
        ("due_on", s("tomorrow")),
    ]);
    match parse_milestone_upsert(5, &p).err() {
        Some(e @ PayloadError::InvalidDueOn { .. }) => {
            assert!(e.text().starts_with("invalid `due_on` \"tomorrow\": "));
            match payload_error_to_api(e) {
                ApiError::BadGateway { code, message } => {
                    assert_eq!(code, ErrorCode::UpstreamUnavailable);
                    assert!(message.starts_with("could not parse GitHub milestone payload: invalid `due_on` \"tomorrow\": "));
                },
                _ => panic!(),
            }
        },
        other => panic!("expected an invalid due date, got {other:?}"),
    }
    let p = obj(vec![("number", JsonScalar::Number(Some(1))), ("node_id", s("x")), ("title", s("t")), ("state", s("closed"))]);
    assert_eq!(parse_milestone_upsert(5, &p).err(), Some(PayloadError::MissingCreatedAt));
}

#[test]
fn create_needs_a_linked_repo_and_trims() {
    let body = CreateMilestoneRequest { repo_id: 3, title: " v2 ".into(), description: Some("   ".into()), due_on: None };
    assert!(matches!(plan_create_milestone(9, &body, &vec![1, 2]), Err(ApiError::BadRequest { code: ErrorCode::RepoNotLinked, .. })));
    let (t, d) = plan_create_milestone(9, &body, &vec![3]).ok().unwrap();
    assert_eq!(t, "v2");
    assert_eq!(d, None);
}

#[test]
fn patch_input_and_audit_verb() {
    let body = PatchMilestoneRequest { title: Some(" x ".into()), state: Some("closed".into()), description: Some(Some("  ".into())), due_on: None };
    let i = milestone_patch_input(&body);
    assert_eq!(i.title.as_deref(), Some("x"));
    assert_eq!(i.description, Some(None));
    assert_eq!(milestone_audit_verb(&i.state), MilestoneVerb::Close);
    assert_eq!(milestone_audit_verb(&Some("open".into())), MilestoneVerb::Reopen);
    assert_eq!(milestone_audit_verb(&None), MilestoneVerb::Update);
}

#[test]
fn unknown_milestones_are_not_found() {
    assert!(matches!(resolve_project_milestone(9, &vec![], 4), Err(ApiError::NotFound { code: ErrorCode::MilestoneNotFound, .. })));
}
