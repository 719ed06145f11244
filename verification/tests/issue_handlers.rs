//! The project issue list and membership routes, replayed on the
//! decisions the library makes for them: the query is planned, the
//! members are filtered, grouped, sorted and paged, and membership
//! writes are routed.

use dp_rest::error::{ApiError, ErrorCode};
use dp_rest::issue_list::{list_issue_rows, plan_issue_list, IssueListing, ListProjectIssuesQuery};
use dp_rest::project_issues::{
    classify_view_adds, group_by_options, route_bulk_add, route_remove, BulkAddIssuesRequest, Issue, IssueState,
    MembershipTarget, RemoveIssueQuery,
};

const ORG: u128 = 0x0a;

fn issue(id: u128, state: IssueState, title: &str) -> Issue {
    Issue {
        id,
        org_id: ORG,
        repo_id: 10,
        state,
        title: title.to_string(),
        assignees: vec![],
        labels: vec![],
        milestone: None,
        updated_at: 1_700_000_000_000_000,
    }
}

fn issue_with(id: u128, state: IssueState, title: &str, assignees: &[&str], labels: &[&str]) -> Issue {
    let mut i = issue(id, state, title);
    i.assignees = assignees.iter().map(|s| s.to_string()).collect();
    i.labels = labels.iter().map(|s| s.to_string()).collect();
    i
}

fn query() -> ListProjectIssuesQuery {
    ListProjectIssuesQuery {
        state: None,
        q: None,
        limit: None,
        offset: None,
        group_by: None,
        filter: None,
        sort: None,
        view: None,
    }
}

/// Plans `q` and lists `issues` with no tag links and no milestones.
fn list(q: &ListProjectIssuesQuery, issues: Vec<Issue>) -> IssueListing {
    let plan = plan_issue_list(q).ok().expect("query is valid");
    let tag_rows: Vec<Vec<(u128, String)>> = plan.clauses.iter().map(|_| vec![]).collect();
    list_issue_rows(&plan, issues, &tag_rows, &vec![], &vec![])
}

fn bad_code(e: ApiError) -> ErrorCode {
    match e {
        ApiError::BadRequest { code, .. } => code,
        other => panic!("expected a 400, got {other:?}"),
    }
}

fn bad_message(e: ApiError) -> String {
    match e {
        ApiError::BadRequest { message, .. } => message,
        other => panic!("expected a 400, got {other:?}"),
    }
}

fn titles(l: &IssueListing) -> Vec<String> {
    l.rows.iter().map(|i| i.title.clone()).collect()
}

#[test]
fn list_project_issues_filters_by_state_and_query() {
    let mut q = query();
    q.state = Some("open".into());
    q.q = Some("alpha".into());
    let out = list(
        &q,
        vec![
            issue(1, IssueState::Open, "Alpha rollout"),
            issue(2, IssueState::Closed, "Alpha cleanup"),
            issue(3, IssueState::Open, "Beta scout"),
        ],
    );
    assert_eq!(out.total, 1);
    assert_eq!(titles(&out), vec!["Alpha rollout".to_string()]);
}

#[test]
fn group_by_status_returns_open_and_closed_buckets() {
    let mut q = query();
    q.group_by = Some("status".into());
    let out = list(
        &q,
        vec![
            issue(1, IssueState::Open, "open A"),
            issue(2, IssueState::Open, "open B"),
            issue(3, IssueState::Closed, "closed A"),
        ],
    );
    let buckets = out.buckets.expect("buckets sidecar");
    assert_eq!(buckets.len(), 2);
    assert_eq!(buckets[0].key.as_deref(), Some("open"));
    assert_eq!((buckets[0].open, buckets[0].closed), (2, 0));
    assert_eq!(buckets[1].key.as_deref(), Some("closed"));
    assert_eq!(buckets[1].closed, 1);
    let keys = out.bucket_keys.expect("bucket_keys");
    assert_eq!(keys.len(), out.rows.len());
    for (row, k) in out.rows.iter().zip(keys.iter()) {
        let expected = if row.state == IssueState::Open { "open" } else { "closed" };
        assert_eq!(k, &vec![Some(expected.to_string())]);
    }
}

#[test]
fn group_by_tag_with_no_links_yields_no_key_bucket() {
    let mut q = query();
    q.group_by = Some("tag:gate".into());
    let out = list(&q, vec![issue(1, IssueState::Open, "untagged")]);
    let buckets = out.buckets.expect("buckets sidecar");
    assert_eq!(buckets.len(), 1);
    assert!(buckets[0].key.is_none());
    assert_eq!(buckets[0].label, "No gate");
    assert_eq!(buckets[0].open, 1);
    assert_eq!(out.bucket_keys.unwrap(), vec![vec![None]]);
}

#[test]
fn group_by_rejects_unknown_dim_with_400() {
    let mut q = query();
    q.group_by = Some("assignee".into());
    let e = plan_issue_list(&q).err().expect("rejected");
    assert_eq!(bad_code(e).as_str(), "invalid_group_by");
}

#[test]
fn group_by_rejects_invalid_tag_key_with_400() {
    let mut q = query();
    q.group_by = Some("tag:Bad_Key".into());
    let e = plan_issue_list(&q).err().expect("rejected");
    assert_eq!(bad_code(e).as_str(), "invalid_group_by");
}

#[test]
fn no_group_by_omits_buckets_field() {
    let out = list(&query(), vec![issue(1, IssueState::Open, "x")]);
    assert!(out.buckets.is_none());
    assert!(out.bucket_keys.is_none());
}

#[test]
fn group_by_options_includes_status_by_default() {
    let r = group_by_options(&vec![]);
    assert!(r.dims.iter().any(|d| d.id == "status"));
}

#[test]
fn filter_by_status_and_assignee_anded() {
    let mut q = query();
    q.filter = Some("status:open;assignee:alice".into());
    let out = list(
        &q,
        vec![
            issue_with(1, IssueState::Open, "match", &["alice"], &[]),
            issue_with(2, IssueState::Closed, "closed", &["alice"], &[]),
            issue_with(3, IssueState::Open, "wrong assignee", &["bob"], &[]),
        ],
    );
    assert_eq!(out.total, 1);
    assert_eq!(titles(&out), vec!["match".to_string()]);
}

#[test]
fn filter_by_label_case_insensitive() {
    let mut q = query();
    q.filter = Some("label:bug".into());
    let out = list(
        &q,
        vec![
            issue_with(1, IssueState::Open, "with bug label", &[], &["Bug"]),
            issue_with(2, IssueState::Open, "feature", &[], &["feature"]),
        ],
    );
    assert_eq!(out.total, 1);
    assert_eq!(titles(&out), vec!["with bug label".to_string()]);
}

#[test]
fn filter_rejects_unknown_dim_with_400() {
    let mut q = query();
    q.filter = Some("mystery:42".into());
    let e = plan_issue_list(&q).err().expect("rejected");
    assert_eq!(bad_code(e).as_str(), "invalid_filter");
}

#[test]
fn filter_milestone_rejects_non_uuid_value() {
    let mut q = query();
    q.filter = Some("milestone:not-a-uuid".into());
    let e = plan_issue_list(&q).err().expect("rejected");
    assert_eq!(bad_code(e).as_str(), "invalid_filter");
}

#[test]
fn filter_milestone_unknown_id_collapses_to_empty() {
    let mut q = query();
    q.filter = Some("milestone:67e55044-10b1-426f-9247-bb680e5fe0c8".into());
    let mut i = issue(1, IssueState::Open, "needs-milestone");
    i.milestone = Some("v1".into());
    let out = list(&q, vec![i]);
    assert_eq!(out.total, 0);
    assert!(out.rows.is_empty());
}

#[test]
fn filter_tag_clause_preserves_colon_inside_value() {
    let mut q = query();
    q.filter = Some("tag:team:backend:v2".into());
    let plan = plan_issue_list(&q).ok().expect("accepted");
    assert_eq!(plan.clauses.len(), 1);
    let out = list(&q, vec![]);
    assert_eq!(out.total, 0);
}

#[test]
fn sort_title_asc_orders_by_lowercase_title() {
    let mut q = query();
    q.sort = Some("title_asc".into());
    let out = list(&q, vec![issue(1, IssueState::Open, "banana"), issue(2, IssueState::Open, "Apple")]);
    assert_eq!(titles(&out), vec!["Apple".to_string(), "banana".to_string()]);
}

#[test]
fn sort_rejects_unknown_with_400() {
    let mut q = query();
    q.sort = Some("oldest".into());
    let e = plan_issue_list(&q).err().expect("rejected");
    assert_eq!(bad_code(e).as_str(), "invalid_sort");
}

#[test]
fn bulk_add_rejects_over_cap_with_400() {
    let body = BulkAddIssuesRequest { expected_version: Some(1), issue_ids: (0..101u128).collect(), view_id: None };
    let e = route_bulk_add(&body).err().expect("rejected");
    assert_eq!(bad_code(e).as_str(), "bulk_add_too_large");
}

#[test]
fn bulk_add_empty_list_is_noop() {
    let body = BulkAddIssuesRequest { expected_version: Some(1), issue_ids: vec![], view_id: None };
    assert_eq!(route_bulk_add(&body).ok(), Some(MembershipTarget::Project(1)));
    let r = classify_view_adds(&vec![], ORG);
    assert!(r.added.is_empty());
    assert!(r.skipped.is_empty());
}

#[test]
fn bulk_add_with_view_id_rejects_cross_org_issue() {
    let view_id: u128 = 0x77;
    let body = BulkAddIssuesRequest { expected_version: None, issue_ids: vec![5], view_id: Some(view_id) };
    assert_eq!(route_bulk_add(&body).ok(), Some(MembershipTarget::View(view_id)));
    let r = classify_view_adds(&vec![(5u128, Some(0x0bu128))], ORG);
    assert!(r.added.is_empty());
    assert_eq!(r.skipped[0].reason, "cross_org");
}

#[test]
fn delete_with_view_scope_removes_only_from_view() {
    let q = RemoveIssueQuery { expected_version: None, view: Some(0x77) };
    assert_eq!(route_remove(&q).ok(), Some(MembershipTarget::View(0x77)));
}

#[test]
fn delete_without_view_still_requires_expected_version() {
    let q = RemoveIssueQuery { expected_version: None, view: None };
    let e = route_remove(&q).err().expect("rejected");
    assert_eq!(bad_code(e).as_str(), "missing_expected_version");
}

#[test]
fn rejected_parameters_name_the_bad_value() {
    let mut q = query();
    q.group_by = Some("assignee".into());
    assert_eq!(bad_message(plan_issue_list(&q).err().unwrap()), "unsupported group_by dimension: \"assignee\"");
    q.group_by = Some(" tag:Bad_Key ".into());
    assert_eq!(bad_message(plan_issue_list(&q).err().unwrap()), "invalid tag key in group_by: \"Bad_Key\"");
    q.group_by = None;
    q.sort = Some("oldest".into());
    assert_eq!(bad_message(plan_issue_list(&q).err().unwrap()), "unknown sort: \"oldest\"");
    q.sort = None;
    q.state = Some("Open".into());
    assert_eq!(bad_message(plan_issue_list(&q).err().unwrap()), "invalid state filter: Open");
    q.state = None;
    for (filter, message) in [
        ("mystery", "filter clause missing ':' separator: \"mystery\""),
        ("label: ", "filter clause has empty value: \"label:\""),
        ("status:maybe", "status filter must be 'open' or 'closed', got \"maybe\""),
        ("milestone:not-a-uuid", "milestone filter value must be a milestone UUID, got \"not-a-uuid\""),
        ("tag:team", "tag filter must be 'tag:<key>:<value>', got \"tag:team\""),
        ("tag:Team:x", "invalid tag key in filter: \"Team\""),
        ("tag:team:", "tag filter has empty value: \"tag:team:\""),
        ("mystery:42", "unknown filter dim: \"mystery\""),
    ] {
        q.filter = Some(filter.into());
        assert_eq!(bad_message(plan_issue_list(&q).err().unwrap()), message, "{filter}");
    }
}

#[test]
fn membership_refusals_explain_themselves() {
    let body = BulkAddIssuesRequest { expected_version: Some(1), issue_ids: (0..101u128).collect(), view_id: None };
    assert_eq!(bad_message(route_bulk_add(&body).err().unwrap()), "issue_ids is capped at 100; got 101");
    let body = BulkAddIssuesRequest { expected_version: None, issue_ids: vec![1], view_id: None };
    assert_eq!(bad_message(route_bulk_add(&body).err().unwrap()), "expected_version is required for project-level bulk add");
    let q = RemoveIssueQuery { expected_version: None, view: None };
    assert_eq!(
        bad_message(route_remove(&q).err().unwrap()),
        "expected_version query param is required for project-level detach"
    );
}
