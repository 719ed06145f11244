use dp_rest::error::{ApiError, ErrorCode, StoreError};
use dp_rest::tags::{
    archive_update, build_links, check_tag_access, filter_visible_links, link_race_error, link_warning, links_page,
    map_tag_write_error, new_tag, plan_link_batch, plan_unlink_batch, CreateTagRequest, LinkRequestItem, Tag, TagLink,
    TagLinkKind, TagLinkKindDto, TagScopeKind, TagScopeKindDto, ViewerVisibility,
};

fn link(id: u128, kind: TagLinkKind, target: u128) -> TagLink {
    let mut l = TagLink {
        id,
        tag_id: 1,
        kind,
        target_repo_id: None,
        target_issue_id: None,
        target_user_id: None,
        target_team_id: None,
        added_by: 0,
        added_at: 0,
    };
    match kind {
        TagLinkKind::Repo => l.target_repo_id = Some(target),
        TagLinkKind::Issue => l.target_issue_id = Some(target),
        TagLinkKind::User => l.target_user_id = Some(target),
        TagLinkKind::Team => l.target_team_id = Some(target),
    }
    l
}

fn item(kind: TagLinkKindDto, target: u128) -> LinkRequestItem {
    LinkRequestItem { kind, target_id: target }
}

fn batch_items(e: ApiError) -> Vec<(usize, ErrorCode)> {
    match e {
        ApiError::Batch { code, items, .. } => {
            assert_eq!(code, ErrorCode::BatchRejected);
            items.into_iter().map(|i| (i.index, i.code)).collect()
        }
        _ => panic!("expected a batch rejection"),
    }
}

fn tag(kind: TagScopeKind, owner: u128) -> Tag {
    Tag {
        id: 5,
        scope_kind: kind,
        scope_user_id: if kind == TagScopeKind::User { Some(owner) } else { None },
        scope_team_id: if kind == TagScopeKind::Team { Some(owner) } else { None },
        scope_org_id: if kind == TagScopeKind::Org { Some(owner) } else { None },
        name: "n".into(),
        color: "#fff".into(),
        description: None,
        created_by: 0,
        created_at: 0,
        archived_at: None,
    }
}

#[test]
fn kinds_convert_both_ways() {
    for k in [TagScopeKind::User, TagScopeKind::Team, TagScopeKind::Org] {
        assert_eq!(TagScopeKind::from(TagScopeKindDto::from(k)), k);
    }
    for k in [TagLinkKind::Repo, TagLinkKind::Issue, TagLinkKind::User, TagLinkKind::Team] {
        assert_eq!(TagLinkKind::from(TagLinkKindDto::from(k)), k);
    }
}

#[test]
fn link_batch_rejects_existing_and_repeated_items() {
    let existing = vec![link(1, TagLinkKind::Repo, 100)];
    let items = vec![
        item(TagLinkKindDto::Repo, 100),
        item(TagLinkKindDto::Issue, 100),
        item(TagLinkKindDto::Issue, 100),
        item(TagLinkKindDto::Team, 5),
    ];
    let errs = batch_items(plan_link_batch(&existing, &items).err().unwrap());
    assert_eq!(errs, vec![(0, ErrorCode::Duplicate), (2, ErrorCode::DuplicateInBatch)]);
    let ok = plan_link_batch(&existing, &vec![item(TagLinkKindDto::User, 3), item(TagLinkKindDto::Repo, 101)]).ok().unwrap();
    assert_eq!(ok, vec![(TagLinkKind::User, 3), (TagLinkKind::Repo, 101)]);
}

#[test]
fn unlink_batch_resolves_link_ids_or_rejects() {
    let existing = vec![link(11, TagLinkKind::Repo, 100), link(12, TagLinkKind::User, 7)];
    let ids = plan_unlink_batch(&existing, &vec![item(TagLinkKindDto::User, 7), item(TagLinkKindDto::Repo, 100)]).ok().unwrap();
    assert_eq!(ids, vec![12, 11]);
    let errs = batch_items(
        plan_unlink_batch(
            &existing,
            &vec![item(TagLinkKindDto::User, 7), item(TagLinkKindDto::User, 7), item(TagLinkKindDto::Team, 1)],
        )
        .err()
        .unwrap(),
    );
    assert_eq!(errs, vec![(1, ErrorCode::DuplicateInBatch), (2, ErrorCode::NotLinked)]);
}

#[test]
fn new_links_get_fresh_ids_and_their_target_column() {
    let links = build_links(9, &vec![(TagLinkKind::Team, 4), (TagLinkKind::Issue, 4)], 3, 77);
    assert_eq!(links.len(), 2);
    assert_ne!(links[0].id, links[1].id);
    assert_eq!(links[0].target_team_id, Some(4));
    assert_eq!(links[0].target_issue_id, None);
    assert_eq!(links[1].target_issue_id, Some(4));
    assert_eq!((links[1].tag_id, links[1].added_by, links[1].added_at), (9, 3, 77));
}

#[test]
fn warning_above_five_hundred_links() {
    assert_eq!(link_warning(400, 100), None);
    assert_eq!(link_warning(400, 101).as_deref(), Some("tag_link_count_high"));
}

#[test]
fn visibility_hides_foreign_team_and_unlisted_repo_links() {
    let links = vec![
        link(1, TagLinkKind::Repo, 100),
        link(2, TagLinkKind::Issue, 5),
        link(3, TagLinkKind::Team, 8),
        link(4, TagLinkKind::Team, 9),
        link(5, TagLinkKind::User, 1),
    ];
    let v = filter_visible_links(&links, &vec![9], &vec![]);
    assert_eq!(v.iter().map(|l| l.id).collect::<Vec<_>>(), vec![2, 4, 5]);
}

#[test]
fn links_are_paged_by_one_hundred() {
    let links: Vec<TagLink> = (0..250u128).map(|i| link(i, TagLinkKind::Issue, i)).collect();
    assert_eq!(links_page(&links, 0).len(), 100);
    let p2 = links_page(&links, 2);
    assert_eq!(p2.len(), 50);
    assert_eq!(p2[0].id, 200);
    assert!(links_page(&links, 3).is_empty());
    assert!(links_page(&links, u32::MAX).is_empty());
}

#[test]
fn archive_transitions() {
    assert_eq!(archive_update(Some(true), None, 42), (Some(Some(42)), true));
    assert_eq!(archive_update(Some(true), Some(1), 42), (None, true));
    assert_eq!(archive_update(Some(false), Some(1), 42), (Some(None), false));
    assert_eq!(archive_update(None, None, 42), (None, false));
}

#[test]
fn access_gate_hides_invisible_tags() {
    let viewer = ViewerVisibility { viewer_user_id: 1, visible_org_ids: vec![50] };
    let mine = tag(TagScopeKind::User, 1);
    assert!(check_tag_access(&viewer, &mine, &vec![], true).is_ok());
    let other = tag(TagScopeKind::User, 2);
    assert!(matches!(
        check_tag_access(&viewer, &other, &vec![], false),
        Err(ApiError::NotFound { code: ErrorCode::TagNotFound, .. })
    ));
    let org = tag(TagScopeKind::Org, 50);
    assert!(check_tag_access(&viewer, &org, &vec![], true).is_ok());
    let team = tag(TagScopeKind::Team, 7);
    assert!(check_tag_access(&viewer, &team, &vec![7], true).is_ok());
    assert!(check_tag_access(&viewer, &team, &vec![], true).is_err());
}

#[test]
fn create_requires_scope_membership() {
    let viewer = ViewerVisibility { viewer_user_id: 1, visible_org_ids: vec![50] };
    let body = CreateTagRequest { scope_kind: TagScopeKindDto::Org, scope_id: 51, name: "x".into(), color: "c".into(), description: None };
    assert!(matches!(
        new_tag(&viewer, &vec![], body, 9, 0),
        Err(ApiError::Forbidden { code: ErrorCode::TagScopeMemberRequired, .. })
    ));
    let body = CreateTagRequest { scope_kind: TagScopeKindDto::Org, scope_id: 50, name: "x".into(), color: "c".into(), description: None };
    let t = new_tag(&viewer, &vec![], body, 9, 33).ok().unwrap();
    assert_eq!((t.id, t.scope_org_id, t.scope_user_id, t.created_by, t.created_at), (9, Some(50), None, 1, 33));
    assert_eq!(t.scope_id(), Some(50));
}

#[test]
fn write_errors_and_races() {
    assert!(matches!(
        map_tag_write_error(5, StoreError::Conflict("dup".into())),
        ApiError::Conflict { code: ErrorCode::TagNameConflict, .. }
    ));
    match link_race_error("raced".into()) {
        ApiError::Batch { code, message, items } => {
            assert_eq!(code, ErrorCode::BatchRejected);
            assert_eq!(message, "concurrent insert raced this batch: raced");
            assert_eq!(items[0].message, "raced");
            assert_eq!(items.len(), 1);
            assert_eq!((items[0].index, items[0].code), (0, ErrorCode::Duplicate));
        }
        _ => panic!(),
    }
}

#[test]
fn unlinking_what_was_just_linked_is_accepted() {
    let existing = vec![link(10, TagLinkKind::Repo, 5)];
    let items = vec![item(TagLinkKindDto::Issue, 7), item(TagLinkKindDto::Team, 8)];
    let keys = plan_link_batch(&existing, &items).ok().unwrap();
    let built = build_links(1, &keys, 42, 100);
    let mut all = existing.clone();
    all.extend(built.iter().cloned());
    let removed = plan_unlink_batch(&all, &items).ok().unwrap();
    assert_eq!(removed, built.iter().map(|l| l.id).collect::<Vec<_>>());
}
