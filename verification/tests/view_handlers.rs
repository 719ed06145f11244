//! The saved-view routes, replayed on the checks and error mappings the
//! library makes for them.

use dp_rest::error::{ApiError, StoreError};
use dp_rest::project_views::{
    body_to_upsert, map_reorder_error, map_view_write_error, ProjectViewCreateBody, ProjectViewFilterClause,
    ProjectViewVisibility,
};

fn create_body(name: &str) -> ProjectViewCreateBody {
    ProjectViewCreateBody {
        name: name.to_string(),
        group_by: Some("status".into()),
        filter_clauses: vec![Ok(ProjectViewFilterClause::Status { value: "open".into() })],
        sort: "updated_desc".into(),
        start_date: None,
        due_date: None,
        categories: vec![],
    }
}

fn bad(e: ApiError) -> &'static str {
    match e {
        ApiError::BadRequest { code, .. } => code.as_str(),
        other => panic!("expected a 400, got {other:?}"),
    }
}

#[test]
fn create_then_list_returns_position_zero() {
    let u = body_to_upsert(create_body("Active")).ok().expect("accepted");
    assert_eq!(u.name, "Active");
    assert_eq!(u.visibility, ProjectViewVisibility::Private);
    assert_eq!(u.group_by.as_deref(), Some("status"));
    assert_eq!(u.sort, "updated_desc");
    assert_eq!(u.filter_clauses.len(), 1);
}

#[test]
fn duplicate_name_returns_409() {
    match map_view_write_error(StoreError::Conflict("name taken".into())) {
        ApiError::Conflict { code, message } => {
            assert_eq!(code.as_str(), "view_name_taken");
            assert_eq!(message, "a view with that name already exists");
        },
        other => panic!("expected a 409, got {other:?}"),
    }
}

#[test]
fn invalid_group_by_returns_400() {
    let mut body = create_body("X");
    body.group_by = Some("mystery".into());
    assert_eq!(bad(body_to_upsert(body).err().unwrap()), "invalid_group_by");
}

#[test]
fn invalid_filter_dim_returns_400() {
    let mut body = create_body("X");
    body.group_by = None;
    // `{ "dim": "mystery" }` does not have the shape of any chip.
    body.filter_clauses = vec![Err("unknown variant `mystery`".into())];
    let e = body_to_upsert(body).err().unwrap();
    match &e {
        ApiError::BadRequest { message, .. } => assert_eq!(message, "clause #0: unknown variant `mystery`"),
        _ => panic!(),
    }
    assert_eq!(bad(e), "invalid_filter");
}

#[test]
fn invalid_status_value_returns_400() {
    let mut body = create_body("X");
    body.group_by = None;
    body.filter_clauses = vec![Ok(ProjectViewFilterClause::Status { value: "banana".into() })];
    let e = body_to_upsert(body).err().unwrap();
    match &e {
        ApiError::BadRequest { message, .. } => {
            assert_eq!(message, "clause #0: status value must be `open` or `closed`")
        },
        _ => panic!(),
    }
    assert_eq!(bad(e), "invalid_filter");
}

#[test]
fn patch_updates_fields() {
    let body = ProjectViewCreateBody {
        name: "A renamed".into(),
        group_by: None,
        filter_clauses: vec![],
        sort: "title_asc".into(),
        start_date: None,
        due_date: None,
        categories: vec![],
    };
    let u = body_to_upsert(body).ok().expect("accepted");
    assert_eq!(u.name, "A renamed");
    assert!(u.group_by.is_none());
    assert_eq!(u.sort, "title_asc");
    assert!(u.filter_clauses.is_empty());
}

#[test]
fn reorder_set_mismatch_returns_400() {
    let e = map_reorder_error(StoreError::Invalid("set mismatch".into()));
    match &e {
        ApiError::BadRequest { message, .. } => assert_eq!(message, "set mismatch"),
        _ => panic!(),
    }
    assert_eq!(bad(e), "invalid_reorder");
}
