//! The tag routes, replayed on the access gate, batch planning,
//! archive transitions and paging the library decides for them.

use dp_rest::audit::{inserted_link_target, tag_create_target};
use dp_rest::error::{ApiError, ErrorCode, StoreError};
use dp_rest::tags::{
    archive_update, build_links, check_tag_access, filter_visible_links, link_warning, links_page, map_tag_write_error,
    new_tag, plan_link_batch, plan_unlink_batch, tag_dto, CreateTagRequest, LinkRequestItem, Tag, TagLink, TagLinkKind,
    TagLinkKindDto, TagScopeKind, TagScopeKindDto, ViewerVisibility,
};

const ACTOR: u128 = 0x0ac7;
const ORG: u128 = 0x0a;
const OTHER_ORG: u128 = 0x0b;
const TAG: u128 = 0x7a9;

fn viewer() -> ViewerVisibility {
    ViewerVisibility { viewer_user_id: ACTOR, visible_org_ids: vec![ORG] }
}

fn org_tag(id: u128, org: u128, name: &str) -> Tag {
    Tag {
        id,
        scope_kind: TagScopeKind::Org,
        scope_user_id: None,
        scope_team_id: None,
        scope_org_id: Some(org),
        name: name.to_string(),
        color: "#888888".into(),
        description: None,
        created_by: ACTOR,
        created_at: 0,
        archived_at: None,
    }
}

fn link(id: u128, kind: TagLinkKind, target: u128) -> TagLink {
    let mut l = TagLink {
        id,
        tag_id: TAG,
        kind,
        target_repo_id: None,
        target_issue_id: None,
        target_user_id: None,
        target_team_id: None,
        added_by: ACTOR,
        added_at: 0,
    };
    match kind {
        TagLinkKind::Repo => l.target_repo_id = Some(target),
        TagLinkKind::Issue => l.target_issue_id = Some(target),
        TagLinkKind::User => l.target_user_id = Some(target),
        TagLinkKind::Team => l.target_team_id = Some(target),
    }
    l
}

fn repo(target: u128) -> LinkRequestItem {
    LinkRequestItem { kind: TagLinkKindDto::Repo, target_id: target }
}

fn batch_items(e: ApiError) -> Vec<(usize, &'static str)> {
    match e {
        ApiError::Batch { code, items, .. } => {
            assert_eq!(code.as_str(), "batch_rejected");
            items.into_iter().map(|i| (i.index, i.code.as_str())).collect()
        }
        other => panic!("expected a 422, got {other:?}"),
    }
}

#[test]
fn list_tags_filters_to_visible_scope() {
    let v = viewer();
    let visible = org_tag(1, ORG, "Visible");
    let hidden = org_tag(2, OTHER_ORG, "Hidden");
    let listed: Vec<u128> = [visible, hidden].iter().filter(|t| v.can_see(t, &vec![])).map(|t| t.id).collect();
    assert_eq!(listed, vec![1]);
    assert_eq!(tag_dto(org_tag(1, ORG, "Visible"), 0).scope_kind, TagScopeKindDto::Org);
}

#[test]
fn create_tag_succeeds_for_scope_member_and_audits() {
    let body = CreateTagRequest {
        scope_kind: TagScopeKindDto::Org,
        scope_id: ORG,
        name: "Phoenix".into(),
        color: "#ff0000".into(),
        description: None,
    };
    let t = new_tag(&viewer(), &vec![], body, TAG, 5).ok().expect("accepted");
    assert!(tag_create_target(&t).starts_with("org:"));
    let dto = tag_dto(t, 0);
    assert_eq!(dto.scope_kind, TagScopeKindDto::Org);
    assert_eq!(dto.scope_id, ORG);
    assert_eq!(dto.name, "Phoenix");
    assert_eq!(dto.visible_link_count, 0);
}

#[test]
fn create_tag_rejects_non_member_with_403() {
    let body = CreateTagRequest {
        scope_kind: TagScopeKindDto::Org,
        scope_id: OTHER_ORG,
        name: "Phoenix".into(),
        color: "#ff0000".into(),
        description: None,
    };
    match new_tag(&viewer(), &vec![], body, TAG, 5) {
        Err(ApiError::Forbidden { code, message }) => {
            assert_eq!(code.as_str(), "tag_scope_member_required");
            assert_eq!(message, "caller is not a member of org 00000000-0000-0000-0000-00000000000b");
        },
        other => panic!("expected a 403, got {other:?}"),
    }
}

#[test]
fn create_tag_returns_409_on_name_conflict() {
    match map_tag_write_error(TAG, StoreError::Conflict("name taken".into())) {
        ApiError::Conflict { code, message } => {
            assert_eq!(code.as_str(), "tag_name_conflict");
            assert_eq!(message, "tag name not unique within scope: name taken");
        },
        other => panic!("expected a 409, got {other:?}"),
    }
}

#[test]
fn update_tag_archive_uses_archive_verb() {
    let (archived_at, archive_verb) = archive_update(Some(true), None, 1_700_000_000_000_000);
    assert_eq!(archived_at, Some(Some(1_700_000_000_000_000)));
    assert!(archive_verb);
}

#[test]
fn update_tag_returns_404_when_invisible() {
    let t = org_tag(TAG, OTHER_ORG, "Phoenix");
    match check_tag_access(&viewer(), &t, &vec![], true) {
        Err(ApiError::NotFound { code, message }) => {
            assert_eq!(code, ErrorCode::TagNotFound);
            assert_eq!(message, "no tag 00000000-0000-0000-0000-0000000007a9 visible to caller");
        },
        other => panic!("expected a 404, got {other:?}"),
    }
}

#[test]
fn link_targets_attaches_and_audits_per_link() {
    let keys = plan_link_batch(&vec![], &vec![repo(0x71), repo(0x72)]).ok().expect("accepted");
    let links = build_links(TAG, &keys, ACTOR, 9);
    assert_eq!(links.len(), 2);
    assert_eq!(link_warning(0, links.len()), None);
    for l in &links {
        assert!(inserted_link_target(TAG, l).contains(":repo:"));
    }
}

#[test]
fn link_targets_rejects_duplicates_with_per_item_errors_and_commits_nothing() {
    let existing = vec![link(1, TagLinkKind::Repo, 0x70)];
    let e = plan_link_batch(&existing, &vec![repo(0x71), repo(0x70), repo(0x71)]).err().expect("rejected");
    match &e {
        ApiError::Batch { message, items, .. } => {
            assert_eq!(message, "2 of 3 items rejected");
            assert_eq!(items[0].message, "tag already links repo 00000000-0000-0000-0000-000000000070");
            assert_eq!(items[1].message, "repo 00000000-0000-0000-0000-000000000071 appears more than once in this batch");
        },
        _ => panic!(),
    }
    assert_eq!(batch_items(e), vec![(1, "duplicate"), (2, "duplicate_in_batch")]);
}

#[test]
fn link_targets_returns_403_for_non_scope_member() {
    let t = org_tag(TAG, OTHER_ORG, "Phoenix");
    assert!(matches!(
        check_tag_access(&viewer(), &t, &vec![], true),
        Err(ApiError::NotFound { code: ErrorCode::TagNotFound, .. })
    ));
}

#[test]
fn link_targets_warns_above_threshold() {
    assert_eq!(link_warning(500, 1).as_deref(), Some("tag_link_count_high"));
}

#[test]
fn unlink_targets_detaches_and_audits_per_link() {
    let existing = vec![link(1, TagLinkKind::Repo, 0x71), link(2, TagLinkKind::Repo, 0x72)];
    let ids = plan_unlink_batch(&existing, &vec![repo(0x71), repo(0x72)]).ok().expect("accepted");
    assert_eq!(ids, vec![1, 2]);
}

#[test]
fn unlink_targets_rejects_unknown_with_per_item_errors() {
    let existing = vec![link(1, TagLinkKind::Repo, 0x71)];
    let e = plan_unlink_batch(&existing, &vec![repo(0x71), repo(0x99)]).err().expect("rejected");
    match &e {
        ApiError::Batch { message, items, .. } => {
            assert_eq!(message, "1 of 2 items rejected");
            assert_eq!(items[0].message, "tag does not link repo 00000000-0000-0000-0000-000000000099");
        },
        _ => panic!(),
    }
    assert_eq!(batch_items(e), vec![(1, "not_linked")]);
}

#[test]
fn get_tag_paginates_links() {
    let links = vec![link(1, TagLinkKind::User, 0x51), link(2, TagLinkKind::User, 0x52), link(3, TagLinkKind::User, 0x53)];
    let visible = filter_visible_links(&links, &vec![], &vec![]);
    assert_eq!(visible.len(), 3);
    assert_eq!(links_page(&visible, 0).len(), 3);
    assert_eq!(tag_dto(org_tag(TAG, ORG, "Phoenix"), visible.len() as u32).visible_link_count, 3);
}
