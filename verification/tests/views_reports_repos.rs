use dp_rest::error::{ApiError, ErrorCode};
use dp_rest::project_views::{
    tag_key_from_group_by, validate_categories, validate_filter_clauses, validate_group_by, validate_name,
    validate_sort, view_clause_to_filter, ProjectViewFilterClause,
};
use dp_rest::project_issues::FilterClause;
use dp_rest::reports::{
    activity_kept, csv_uuid_field, home_org_split_rows, issue_report_orgs, parse_metric, parse_uuid_list, portfolio_statuses, portfolio_total,
    validate_tag_filter, with_member, IssueMetric,
};
use dp_rest::projects::ProjectStatus;
use dp_rest::repos::{clamp_limit, clamp_offset, default_tz, repo_slug, resolve_repo_by_name, resolve_window, validate_sync_request, NamedRow, RepoSyncByNameRequest, DAY_MICROS};
use dp_rest::repo_project_link::{project_link_for, PutRepoProjectLinkRequest};

fn bad_code<T>(r: Result<T, ApiError>) -> Option<ErrorCode> {
    match r {
        Err(ApiError::BadRequest { code, .. }) => Some(code),
        _ => None,
    }
}

fn message_of<T>(r: Result<T, ApiError>) -> Option<String> {
    match r {
        Err(ApiError::BadRequest { message, .. }) | Err(ApiError::NotFound { message, .. }) => Some(message),
        _ => None,
    }
}

#[test]
fn view_names_sorts_and_group_bys() {
    assert_eq!(validate_name("  Triage ").ok().as_deref(), Some("Triage"));
    assert_eq!(bad_code(validate_name("   ")), Some(ErrorCode::InvalidViewName));
    assert!(validate_name(&"é".repeat(60)).is_ok());
    assert_eq!(bad_code(validate_name(&"é".repeat(61))), Some(ErrorCode::InvalidViewName));
    assert!(validate_sort("title_asc").is_ok());
    assert_eq!(bad_code(validate_sort("newest")), Some(ErrorCode::InvalidSort));
    assert!(validate_group_by(Some("status")).is_ok());
    assert!(validate_group_by(Some("tag:gate")).is_ok());
    assert_eq!(bad_code(validate_group_by(Some("tag:"))), Some(ErrorCode::InvalidGroupBy));
    assert_eq!(tag_key_from_group_by("tag:gate").map(|k| k.into_iter().collect::<String>()).as_deref(), Some("gate"));
}

#[test]
fn categories_are_normalised_slugs() {
    let ok = validate_categories(&vec![" fw ".into(), "hw-2".into()]).ok().unwrap();
    assert_eq!(ok, vec!["fw".to_string(), "hw-2".to_string()]);
    // A repeat is dropped, the first occurrence keeping its place.
    assert_eq!(validate_categories(&vec!["ops".into(), "ops".into()]).ok(), Some(vec!["ops".to_string()]));
    assert_eq!(
        validate_categories(&vec!["fw".into(), "hw".into(), " fw".into()]).ok(),
        Some(vec!["fw".to_string(), "hw".to_string()])
    );
    // ASCII upper case is lower-cased before the slug check.
    assert_eq!(validate_categories(&vec!["Fw".into(), "FW ".into()]).ok(), Some(vec!["fw".to_string()]));
    assert_eq!(bad_code(validate_categories(&vec!["".into()])), Some(ErrorCode::InvalidCategories));
    assert_eq!(bad_code(validate_categories(&vec!["a".repeat(51)])), Some(ErrorCode::InvalidCategories));
    assert_eq!(bad_code(validate_categories(&(0..33).map(|i| format!("c{i}")).collect())), Some(ErrorCode::InvalidCategories));
    assert_eq!(
        message_of(validate_categories(&(0..33).map(|i| format!("c{i}")).collect())).as_deref(),
        Some("too many categories: 33 (max 32)")
    );
    // Thirty-two entries that reduce to one are accepted.
    assert_eq!(validate_categories(&vec!["x".to_string(); 32]).ok(), Some(vec!["x".to_string()]));
    assert_eq!(message_of(validate_categories(&vec!["fw".into(), " ".into()])).as_deref(), Some("category #1 is empty"));
    assert_eq!(message_of(validate_categories(&vec!["f w".into()])).as_deref(), Some("category #0 `f w` must match [a-z0-9_-]"));
    // Length is counted in bytes: 26 two-byte characters exceed 50.
    let wide = "é".repeat(26);
    assert_eq!(
        message_of(validate_categories(&vec![wide.clone()])),
        Some(format!("category #0 `{wide}` exceeds 50 chars"))
    );
}

#[test]
fn stored_chips_are_checked_and_milestones_canonicalised() {
    let raw = vec![
        Ok(ProjectViewFilterClause::Status { value: "open".into() }),
        Ok(ProjectViewFilterClause::Milestone { value: "67E55044-10B1-426F-9247-BB680E5FE0C8".into() }),
    ];
    let out = validate_filter_clauses(&raw).ok().unwrap();
    match &out[1] {
        ProjectViewFilterClause::Milestone { value } => assert_eq!(value, "67e55044-10b1-426f-9247-bb680e5fe0c8"),
        _ => panic!(),
    }
    let bad = vec![
        Ok(ProjectViewFilterClause::Label { value: "bug".into() }),
        Ok(ProjectViewFilterClause::Assignee { value: "  ".into() }),
    ];
    assert_eq!(message_of(validate_filter_clauses(&bad)).as_deref(), Some("clause #1: value must be non-empty"));
    assert_eq!(bad_code(validate_filter_clauses(&bad)), Some(ErrorCode::InvalidFilter));
    assert_eq!(bad_code(validate_filter_clauses(&vec![Err("missing field `dim`".into())])), Some(ErrorCode::InvalidFilter));
    let tag = vec![Ok(ProjectViewFilterClause::Tag { key: "Bad".into(), value: "v".into() })];
    assert_eq!(message_of(validate_filter_clauses(&tag)).as_deref(), Some("clause #0: bad tag key `Bad`"));
    assert!(view_clause_to_filter(&ProjectViewFilterClause::Status { value: "x".into() }).is_none());
    assert!(matches!(
        view_clause_to_filter(&ProjectViewFilterClause::Label { value: "bug".into() }),
        Some(FilterClause::Label(_))
    ));
}

#[test]
fn report_id_lists() {
    let ids = parse_uuid_list(Some(" 00000000-0000-0000-0000-000000000001 ,,00000000-0000-0000-0000-000000000002"), "orgs").ok().unwrap();
    assert_eq!(ids, vec![1, 2]);
    assert_eq!(bad_code(parse_uuid_list(Some("nope"), "users")), Some(ErrorCode::InvalidUuid));
    assert_eq!(
        message_of(parse_uuid_list(Some("00000000-0000-0000-0000-000000000001, nope ,x"), "users")).as_deref(),
        Some("users contains invalid uuid:  nope ")
    );
    assert!(parse_uuid_list(None, "users").ok().unwrap().is_empty());
    assert_eq!(csv_uuid_field(&Some("nope, 00000000-0000-0000-0000-000000000003".into())), vec![3]);
    assert_eq!(with_member(vec![1, 2], 2), vec![1, 2]);
    assert_eq!(with_member(vec![1], 2), vec![1, 2]);
}

#[test]
fn tag_grouping_rules() {
    assert_eq!(bad_code(validate_tag_filter(true, 0, 5)), Some(ErrorCode::GroupByTagRequiresTags));
    assert_eq!(bad_code(validate_tag_filter(true, 6, 5)), Some(ErrorCode::TagsFilterOverCap));
    assert!(validate_tag_filter(false, 0, 5).is_ok());
    assert!(validate_tag_filter(true, 5, 5).is_ok());
}

#[test]
fn home_org_split_counts_distinct_events_in_order() {
    let buckets = vec![((2u128, 1u128), vec![5u128, 5, 6]), ((1u128, 9u128), vec![1u128]), ((1u128, 3u128), vec![])];
    let rows = home_org_split_rows(&buckets);
    let v: Vec<(u128, u128, i64)> = rows.iter().map(|r| (r.user_id, r.org_id, r.count)).collect();
    assert_eq!(v, vec![(1, 3, 0), (1, 9, 1), (2, 1, 2)]);
}

#[test]
fn portfolio_defaults() {
    assert_eq!(portfolio_statuses(vec![]), vec![ProjectStatus::Active, ProjectStatus::Backlog]);
    assert_eq!(portfolio_total(Some(-1)), u32::MAX);
    assert_eq!(portfolio_total(Some(5_000_000_000)), u32::MAX);
    assert_eq!(portfolio_total(Some(7)), 7);
    assert_eq!(portfolio_total(None), 0);
    assert_eq!(parse_metric(None).ok(), Some(IssueMetric::Throughput));
    assert_eq!(bad_code(parse_metric(Some("velocity"))), Some(ErrorCode::InvalidMetric));
}

#[test]
fn repo_paging_and_windows() {
    assert_eq!(clamp_limit(None), 50);
    assert_eq!(clamp_limit(Some(0)), 50);
    assert_eq!(clamp_limit(Some(999)), 200);
    assert_eq!(clamp_offset(Some(-2)), 0);
    let now = 1_000 * DAY_MICROS;
    assert_eq!(resolve_window(None, None, now).ok(), Some((now - 90 * DAY_MICROS, now)));
    assert_eq!(bad_code(resolve_window(Some(now), None, now)), Some(ErrorCode::InvalidWindow));
    assert_eq!(bad_code(resolve_window(Some(now - 367 * DAY_MICROS), None, now)), Some(ErrorCode::InvalidWindow));
    assert!(resolve_window(Some(now - 366 * DAY_MICROS), None, now).is_ok());
    assert_eq!(message_of(resolve_window(Some(now), None, now)).as_deref(), Some("since must be < until"));
    assert_eq!(
        message_of(resolve_window(Some(now - 367 * DAY_MICROS), None, now)).as_deref(),
        Some("window span exceeds the 366-day cap")
    );
}

#[test]
fn timezones_are_checked() {
    assert_eq!(default_tz(None).ok().as_deref(), Some("UTC"));
    assert_eq!(default_tz(Some("America/Los_Angeles")).ok().as_deref(), Some("America/Los_Angeles"));
    assert_eq!(bad_code(default_tz(Some("Mars/Base"))), Some(ErrorCode::InvalidTimezone));
    assert_eq!(message_of(default_tz(Some("Mars/Base"))).as_deref(), Some("'Mars/Base' is not a recognised IANA timezone"));
}

#[test]
fn sync_by_name_resolves_case_insensitively() {
    let body = RepoSyncByNameRequest { org: " Acme ".into(), name: "".into() };
    assert_eq!(bad_code(validate_sync_request(&body)), Some(ErrorCode::InvalidRepoSlug));
    let body = RepoSyncByNameRequest { org: " Acme ".into(), name: "Widget".into() };
    let (o, n) = validate_sync_request(&body).ok().unwrap();
    let orgs = vec![NamedRow { id: 1, org_id: 1, name: "acme".into() }];
    let repos = vec![NamedRow { id: 7, org_id: 1, name: "WIDGET".into() }];
    assert_eq!(resolve_repo_by_name(&o, &n, &orgs, &repos).ok(), Some((1, 7)));
    assert!(matches!(
        resolve_repo_by_name(&o, &n, &vec![], &repos),
        Err(ApiError::NotFound { code: ErrorCode::OrgNotFound, .. })
    ));
    assert_eq!(message_of(resolve_repo_by_name(&o, &n, &vec![], &repos)).as_deref(), Some("no org with login 'Acme'"));
    assert_eq!(message_of(resolve_repo_by_name(&o, &n, &orgs, &vec![])).as_deref(), Some("no repo 'Acme/Widget'"));
    assert_eq!(message_of(validate_sync_request(&RepoSyncByNameRequest { org: "".into(), name: "x".into() })).as_deref(), Some("both `org` and `name` are required"));
}

#[test]
fn board_links_drop_blank_fields() {
    let body = PutRepoProjectLinkRequest { project_node_id: "PVT_1".into(), start_field_node_id: Some(" ".into()), due_field_node_id: Some("F".into()) };
    let l = project_link_for(3, body).ok().unwrap();
    assert_eq!(l.start_field_node_id, None);
    assert_eq!(l.due_field_node_id.as_deref(), Some("F"));
    let body = PutRepoProjectLinkRequest { project_node_id: " ".into(), start_field_node_id: None, due_field_node_id: None };
    assert_eq!(bad_code(project_link_for(3, body)), Some(ErrorCode::InvalidProjectNodeId));
}

#[test]
fn validated_categories_validate_to_themselves() {
    let once = validate_categories(&vec!["  fw".into(), "HW-2 ".into(), "ops_x".into(), "fw".into()]).ok().unwrap();
    assert_eq!(once, vec!["fw".to_string(), "hw-2".to_string(), "ops_x".to_string()]);
    let twice = validate_categories(&once).ok().unwrap();
    assert_eq!(twice, once);
}

#[test]
fn repo_slug_joins_login_and_name() {
    assert_eq!(repo_slug("acme", "rocket"), "acme/rocket");
    assert_eq!(repo_slug("", "x"), "/x");
}

#[test]
fn every_kind_counts_without_activity_types() {
    assert!(activity_kept(&vec![], "push"));
    let asked = vec!["issue_opened".to_string(), "pr_merged".to_string()];
    assert!(activity_kept(&asked, "pr_merged"));
    assert!(!activity_kept(&asked, "push"));
}

#[test]
fn issue_report_scope_is_the_callers_orgs() {
    let mine = vec![10u128, 20, 30];
    // Nothing requested: every organisation of the caller.
    assert_eq!(issue_report_orgs(&vec![], &mine), Some(vec![10, 20, 30]));
    // Requested ones are kept, in request order, only where the caller belongs.
    assert_eq!(issue_report_orgs(&vec![30, 99, 10], &mine), Some(vec![30, 10]));
    // Nothing of the caller's requested, or a caller without organisations: no scope.
    assert_eq!(issue_report_orgs(&vec![99], &mine), None);
    assert_eq!(issue_report_orgs(&vec![], &vec![]), None);
    assert_eq!(issue_report_orgs(&vec![10], &vec![]), None);
}
