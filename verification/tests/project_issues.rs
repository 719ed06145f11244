use dp_rest::error::{ApiError, ErrorCode, StoreError};
use dp_rest::issue_buckets::{bucket_keys_for, build_buckets};
use dp_rest::issue_list::{list_issue_rows, plan_issue_list, ListProjectIssuesQuery};
use dp_rest::project_issues::{
    apply_filter_clauses, apply_sort, classify_view_adds, group_by_options, is_valid_tag_key, map_cas_error,
    parse_filter, parse_group_by, parse_sort, parse_state, route_bulk_add, route_remove, title_case_dim,
    BulkAddIssuesRequest, FilterClause, GroupBy, Issue, IssueState, MembershipTarget, RemoveIssueQuery, SortOrder,
};
use dp_rest::project_milestones::{Milestone, MilestoneState};

fn issue(id: u128, state: IssueState, title: &str, updated_at: i64) -> Issue {
    Issue {
        id,
        org_id: 1,
        repo_id: 10,
        state,
        title: title.to_string(),
        assignees: vec!["Alice".to_string()],
        labels: vec!["bug".to_string()],
        milestone: None,
        updated_at,
    }
}

fn bad_code(e: &ApiError) -> Option<ErrorCode> {
    match e {
        ApiError::BadRequest { code, .. } => Some(*code),
        _ => None,
    }
}

fn chars(s: &str) -> Vec<char> {
    s.chars().collect()
}

#[test]
fn tag_keys_follow_the_grammar() {
    assert!(is_valid_tag_key(&chars("gate")));
    assert!(is_valid_tag_key(&chars("9-lives")));
    assert!(!is_valid_tag_key(&chars("")));
    assert!(!is_valid_tag_key(&chars("-x")));
    assert!(!is_valid_tag_key(&chars("Gate")));
    assert!(!is_valid_tag_key(&chars(&"a".repeat(51))));
    assert!(is_valid_tag_key(&chars(&"a".repeat(50))));
}

#[test]
fn group_by_parses_status_and_tags() {
    assert!(matches!(parse_group_by(None), Ok(None)));
    assert!(matches!(parse_group_by(Some("  ")), Ok(None)));
    assert!(matches!(parse_group_by(Some("status")), Ok(Some(GroupBy::Status))));
    match parse_group_by(Some("tag:gate")) {
        Ok(Some(GroupBy::Tag { key })) => assert_eq!(key, "gate"),
        _ => panic!("expected tag group-by"),
    }
    let e = parse_group_by(Some("tag:Bad")).err().unwrap();
    assert_eq!(bad_code(&e), Some(ErrorCode::InvalidGroupBy));
    let e = parse_group_by(Some("milestone")).err().unwrap();
    assert_eq!(bad_code(&e), Some(ErrorCode::InvalidGroupBy));
}

#[test]
fn filter_chips_parse_in_order() {
    let v = parse_filter(Some("status:open; assignee:bob;;tag:team:backend:v2")).ok().unwrap();
    assert_eq!(v.len(), 3);
    assert!(matches!(v[0], FilterClause::Status(IssueState::Open)));
    match &v[1] {
        FilterClause::Assignee(a) => assert_eq!(a, "bob"),
        _ => panic!(),
    }
    match &v[2] {
        FilterClause::Tag { key, value } => {
            assert_eq!(key, "team");
            assert_eq!(value, "backend:v2");
        }
        _ => panic!(),
    }
    assert!(parse_filter(None).ok().unwrap().is_empty());
    for bad in ["nocolon", "status:maybe", "tag:Key:v", "tag:key:", "tag:key", "color:red", "milestone:xyz", "label: "] {
        let e = parse_filter(Some(bad)).err().unwrap();
        assert_eq!(bad_code(&e), Some(ErrorCode::InvalidFilter), "{bad}");
    }
    let m = parse_filter(Some("milestone:67e55044-10b1-426f-9247-bb680e5fe0c8")).ok().unwrap();
    match m[0] {
        FilterClause::Milestone(u) => assert_eq!(u, 0x67e55044_10b1_426f_9247_bb680e5fe0c8),
        _ => panic!(),
    }
}

#[test]
fn sort_and_state_params() {
    assert!(matches!(parse_sort(None), Ok(SortOrder::UpdatedDesc)));
    assert!(matches!(parse_sort(Some(" title_asc ")), Ok(SortOrder::TitleAsc)));
    assert_eq!(bad_code(&parse_sort(Some("newest")).err().unwrap()), Some(ErrorCode::InvalidSort));
    assert!(matches!(parse_state(Some("all")), Ok(None)));
    assert!(matches!(parse_state(Some("")), Ok(None)));
    assert!(matches!(parse_state(Some("closed")), Ok(Some(IssueState::Closed))));
    assert_eq!(bad_code(&parse_state(Some("Open")).err().unwrap()), Some(ErrorCode::InvalidState));
}

#[test]
fn sort_is_stable_and_orders_titles_case_insensitively() {
    let issues = vec![
        issue(1, IssueState::Open, "beta", 5),
        issue(2, IssueState::Open, "Alpha", 5),
        issue(3, IssueState::Open, "alpha", 9),
        issue(4, IssueState::Open, "Gamma", 1),
    ];
    let by_title: Vec<u128> = apply_sort(&issues, SortOrder::TitleAsc).iter().map(|i| i.id).collect();
    assert_eq!(by_title, vec![2, 3, 1, 4]);
    let desc: Vec<u128> = apply_sort(&issues, SortOrder::UpdatedDesc).iter().map(|i| i.id).collect();
    assert_eq!(desc, vec![3, 1, 2, 4]);
    let asc: Vec<u128> = apply_sort(&issues, SortOrder::UpdatedAsc).iter().map(|i| i.id).collect();
    assert_eq!(asc, vec![4, 1, 2, 3]);
}

#[test]
fn chips_filter_issues() {
    let mut a = issue(1, IssueState::Open, "a", 1);
    a.milestone = Some("v1".into());
    let mut b = issue(2, IssueState::Closed, "b", 2);
    b.assignees = vec!["BOB".into()];
    let issues = vec![a, b];
    let clauses = vec![FilterClause::Assignee("bob".into())];
    let kept = apply_filter_clauses(&clauses, &vec![vec![]], &vec![], &issues);
    assert_eq!(kept.iter().map(|i| i.id).collect::<Vec<_>>(), vec![2]);
    let tag = vec![FilterClause::Tag { key: "gate".into(), value: "g1".into() }];
    let rows = vec![vec![(1u128, "g1".to_string()), (2u128, "g2".to_string())]];
    let kept = apply_filter_clauses(&tag, &rows, &vec![], &issues);
    assert_eq!(kept.iter().map(|i| i.id).collect::<Vec<_>>(), vec![1]);
    let ms = vec![Milestone {
        id: 77,
        repo_id: 10,
        github_number: 1,
        title: "v1".into(),
        description: None,
        state: MilestoneState::Open,
        due_on: None,
        open_issues: 0,
        closed_issues: 0,
        created_at: 0,
        updated_at: 0,
        closed_at: None,
    }];
    let kept = apply_filter_clauses(&vec![FilterClause::Milestone(77)], &vec![vec![]], &ms, &issues);
    assert_eq!(kept.iter().map(|i| i.id).collect::<Vec<_>>(), vec![1]);
    let none = apply_filter_clauses(&vec![FilterClause::Milestone(78)], &vec![vec![]], &ms, &issues);
    assert!(none.is_empty());
}

#[test]
fn status_buckets_hide_empty_sections() {
    let issues = vec![issue(1, IssueState::Closed, "a", 1), issue(2, IssueState::Closed, "b", 1)];
    let b = build_buckets(&GroupBy::Status, &issues, &vec![]);
    assert_eq!(b.len(), 1);
    assert_eq!(b[0].key.as_deref(), Some("closed"));
    assert_eq!(b[0].label, "Closed");
    assert_eq!((b[0].open, b[0].closed), (0, 2));
    let keys = bucket_keys_for(&GroupBy::Status, &issues, &vec![], 2);
    assert_eq!(keys, vec![Some("closed".to_string())]);
}

#[test]
fn tag_buckets_count_desc_then_key_and_pin_no_key_last() {
    let issues = vec![
        issue(1, IssueState::Open, "a", 1),
        issue(2, IssueState::Closed, "b", 1),
        issue(3, IssueState::Open, "c", 1),
        issue(4, IssueState::Open, "d", 1),
    ];
    let rows = vec![
        (1u128, "hw".to_string()),
        (2u128, "fw".to_string()),
        (1u128, "fw".to_string()),
        (3u128, "alpha".to_string()),
        (9u128, "ghost".to_string()),
    ];
    let g = GroupBy::Tag { key: "category".into() };
    let b = build_buckets(&g, &issues, &rows);
    let keys: Vec<Option<String>> = b.iter().map(|x| x.key.clone()).collect();
    assert_eq!(keys, vec![Some("fw".into()), Some("alpha".into()), Some("hw".into()), None]);
    assert_eq!((b[0].open, b[0].closed), (1, 1));
    assert_eq!(b[0].label, "category:fw");
    assert_eq!(b[3].label, "No category");
    assert_eq!((b[3].open, b[3].closed), (1, 0));
    assert_eq!(bucket_keys_for(&g, &issues, &rows, 1), vec![Some("hw".to_string()), Some("fw".to_string())]);
    assert_eq!(bucket_keys_for(&g, &issues, &rows, 4), vec![None]);
}

#[test]
fn no_key_bucket_is_omitted_when_every_issue_has_a_value() {
    let issues = vec![issue(1, IssueState::Open, "a", 1)];
    let rows = vec![(1u128, "x".to_string())];
    let b = build_buckets(&GroupBy::Tag { key: "k".into() }, &issues, &rows);
    assert_eq!(b.len(), 1);
    assert_eq!(b[0].key.as_deref(), Some("x"));
}

#[test]
fn list_filters_sorts_and_pages() {
    let q = ListProjectIssuesQuery {
        state: Some("open".into()),
        q: Some("  FIX ".into()),
        limit: Some(1),
        offset: Some(1),
        group_by: Some("status".into()),
        filter: None,
        sort: Some("updated_asc".into()),
        view: None,
    };
    let plan = plan_issue_list(&q).ok().unwrap();
    assert_eq!(plan.limit, 1);
    let issues = vec![
        issue(1, IssueState::Open, "Fix login", 3),
        issue(2, IssueState::Closed, "fix logout", 1),
        issue(3, IssueState::Open, "prefix things", 2),
        issue(4, IssueState::Open, "other", 0),
    ];
    let out = list_issue_rows(&plan, issues, &vec![], &vec![], &vec![]);
    assert_eq!(out.total, 2);
    assert_eq!(out.rows.iter().map(|i| i.id).collect::<Vec<_>>(), vec![1]);
    let buckets = out.buckets.unwrap();
    assert_eq!(buckets.len(), 1);
    assert_eq!(buckets[0].open, 2);
    assert_eq!(out.bucket_keys.unwrap(), vec![vec![Some("open".to_string())]]);
}

#[test]
fn list_query_reports_the_first_bad_parameter() {
    let mut q = ListProjectIssuesQuery {
        state: Some("bogus".into()),
        q: None,
        limit: None,
        offset: None,
        group_by: Some("bogus".into()),
        filter: None,
        sort: None,
        view: None,
    };
    assert_eq!(bad_code(&plan_issue_list(&q).err().unwrap()), Some(ErrorCode::InvalidState));
    q.state = None;
    assert_eq!(bad_code(&plan_issue_list(&q).err().unwrap()), Some(ErrorCode::InvalidGroupBy));
    q.group_by = None;
    q.sort = Some("x".into());
    assert_eq!(bad_code(&plan_issue_list(&q).err().unwrap()), Some(ErrorCode::InvalidSort));
    q.sort = None;
    q.limit = Some(0);
    q.offset = Some(-4);
    let p = plan_issue_list(&q).ok().unwrap();
    assert_eq!((p.limit, p.offset), (50, 0));
}

#[test]
fn bulk_add_routes_and_caps() {
    let mut body = BulkAddIssuesRequest { expected_version: None, issue_ids: vec![1; 101], view_id: None };
    assert_eq!(bad_code(&route_bulk_add(&body).err().unwrap()), Some(ErrorCode::BulkAddTooLarge));
    body.issue_ids = vec![1; 100];
    assert_eq!(bad_code(&route_bulk_add(&body).err().unwrap()), Some(ErrorCode::MissingExpectedVersion));
    body.expected_version = Some(3);
    assert_eq!(route_bulk_add(&body).ok(), Some(MembershipTarget::Project(3)));
    body.view_id = Some(9);
    assert_eq!(route_bulk_add(&body).ok(), Some(MembershipTarget::View(9)));
    let q = RemoveIssueQuery { expected_version: None, view: None };
    assert_eq!(bad_code(&route_remove(&q).err().unwrap()), Some(ErrorCode::MissingExpectedVersion));
    let q = RemoveIssueQuery { expected_version: Some(2), view: None };
    assert_eq!(route_remove(&q).ok(), Some(MembershipTarget::Project(2)));
}

#[test]
fn view_adds_skip_unknown_and_cross_org_issues() {
    let found = vec![(1u128, Some(7u128)), (2u128, None), (3u128, Some(8u128)), (4u128, Some(7u128))];
    let r = classify_view_adds(&found, 7);
    assert_eq!(r.added, vec![1, 4]);
    assert_eq!(r.skipped.len(), 2);
    assert_eq!((r.skipped[0].issue_id, r.skipped[0].reason.as_str()), (2, "unknown_issue"));
    assert_eq!((r.skipped[1].issue_id, r.skipped[1].reason.as_str()), (3, "cross_org"));
}

#[test]
fn cas_errors_map_to_codes() {
    let e = map_cas_error(7, StoreError::NotFound { entity: "project_issue".into(), id: "x".into() });
    assert!(matches!(e, ApiError::NotFound { code: ErrorCode::ProjectIssueNotFound, .. }));
    match &e {
        ApiError::NotFound { message, .. } => {
            assert_eq!(message, "issue x is not attached to project 00000000-0000-0000-0000-000000000007")
        },
        _ => panic!(),
    }
    let e = map_cas_error(7, StoreError::NotFound { entity: "project".into(), id: "x".into() });
    assert!(matches!(e, ApiError::NotFound { code: ErrorCode::ProjectNotFound, .. }));
    assert!(matches!(
        map_cas_error(7, StoreError::NotFound { entity: "tag".into(), id: "x".into() }),
        ApiError::Store(StoreError::NotFound { .. })
    ));
    match map_cas_error(7, StoreError::Conflict("v9".into())) {
        ApiError::Conflict { code, message } => {
            assert_eq!(code, ErrorCode::StaleProjectVersion);
            assert_eq!(message, "v9");
        }
        _ => panic!(),
    }
    assert!(matches!(map_cas_error(7, StoreError::Invalid("r".into())), ApiError::BadRequest { code: ErrorCode::ProjectInvalid, .. }));
    assert!(matches!(map_cas_error(7, StoreError::Other("db".into())), ApiError::Store(_)));
}

#[test]
fn group_by_options_title_case_their_keys() {
    assert_eq!(title_case_dim("gate"), "Gate");
    assert_eq!(title_case_dim(""), "");
    assert_eq!(title_case_dim("ßx"), "SSx");
    let r = group_by_options(&vec!["priority".to_string(), "9x".to_string()]);
    let dims: Vec<(String, String)> = r.dims.into_iter().map(|d| (d.id, d.label)).collect();
    assert_eq!(
        dims,
        vec![
            ("status".to_string(), "Status".to_string()),
            ("tag:priority".to_string(), "Priority".to_string()),
            ("tag:9x".to_string(), "9x".to_string()),
        ]
    );
}

#[test]
fn filter_texts_concatenate() {
    let a = " status:open; assignee:bob";
    let b = "label:bug ;tag:team:backend:v2 ";
    let mut both = parse_filter(Some(a)).ok().unwrap();
    both.extend(parse_filter(Some(b)).ok().unwrap());
    let joined = parse_filter(Some(&format!("{a};{b}"))).ok().unwrap();
    assert_eq!(format!("{joined:?}"), format!("{both:?}"));
    assert_eq!(joined.len(), 4);
    let doubled = parse_filter(Some(&format!("{a};;{b}"))).ok().unwrap();
    assert_eq!(format!("{doubled:?}"), format!("{both:?}"));
    // The first malformed chip decides the error, wherever it stands.
    let e = parse_filter(Some(&format!("{a};bogus;{b}"))).err().unwrap();
    assert_eq!(bad_code(&e), Some(ErrorCode::InvalidFilter));
    // Absent, empty and blank filters have no clauses.
    assert!(parse_filter(None).ok().unwrap().is_empty());
    assert!(parse_filter(Some("")).ok().unwrap().is_empty());
    assert!(parse_filter(Some("  ")).ok().unwrap().is_empty());
    assert!(parse_filter(Some(" ; ;")).ok().unwrap().is_empty());
}
