//! The report routes, replayed on the query checks the library makes
//! before the report engine runs.

use dp_rest::error::ApiError;
use dp_rest::reports::{
    check_portfolio_limit, count_key, parse_uuid_list, portfolio_total, validate_tag_filter, ReportGroupBy,
};

/// The most tags a tag-grouped report accepts.
const TAG_CAP: usize = 50;

fn bad(e: ApiError) -> &'static str {
    match e {
        ApiError::BadRequest { code, .. } => code.as_str(),
        other => panic!("expected a 400, got {other:?}"),
    }
}

#[test]
fn invalid_uuid_in_orgs_query_returns_400() {
    match parse_uuid_list(Some("not-a-uuid"), "orgs").err().unwrap() {
        ApiError::BadRequest { code, message } => {
            assert_eq!(code.as_str(), "invalid_uuid");
            assert_eq!(message, "orgs contains invalid uuid: not-a-uuid");
        },
        other => panic!("expected a 400, got {other:?}"),
    }
}

#[test]
fn group_by_tag_without_tags_filter_returns_400() {
    let tags = parse_uuid_list(None, "tags").ok().unwrap();
    assert_eq!(bad(validate_tag_filter(true, tags.len(), TAG_CAP).err().unwrap()), "group_by_tag_requires_tags");
}

#[test]
fn group_by_tag_with_too_many_tags_returns_400_with_cap_code() {
    let csv: Vec<String> = (1..=51u128).map(|i| format!("00000000-0000-0000-0000-{i:012x}")).collect();
    let tags = parse_uuid_list(Some(&csv.join(",")), "tags").ok().unwrap();
    assert_eq!(tags.len(), 51);
    assert_eq!(bad(validate_tag_filter(true, tags.len(), TAG_CAP).err().unwrap()), "tags_filter_over_cap");
}

#[test]
fn group_by_tag_with_valid_tags_falls_through_to_unsupported_400() {
    assert!(validate_tag_filter(true, 1, TAG_CAP).is_ok());
    assert_eq!(bad(count_key(Some(ReportGroupBy::Tag)).err().unwrap()), "group_by_tag_unsupported");
}

#[test]
fn project_portfolio_empty_store_returns_zeroed_envelope() {
    assert!(check_portfolio_limit(50, 1_000).is_ok());
    assert_eq!(portfolio_total(None), 0);
}

#[test]
fn project_portfolio_rejects_limit_over_max() {
    // Any cap the engine sets lies well below ten thousand.
    assert_eq!(bad(check_portfolio_limit(10_000, 1_000).err().unwrap()), "invalid_limit");
}

#[test]
fn project_portfolio_rejects_zero_limit() {
    assert_eq!(bad(check_portfolio_limit(0, 1_000).err().unwrap()), "invalid_limit");
}
