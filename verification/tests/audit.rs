use dp_rest::audit::{
    adopt_target, decimal_string, inserted_link_target, milestone_create_target, pair_target, tag_create_target,
    tag_link_target, tag_update_target, view_member_target,
};
use dp_rest::tags::{Tag, TagLink, TagLinkKind, TagScopeKind};

const P: u128 = 0x1111_1111_2222_3333_4444_5555_5555_5555;
const I: u128 = 7;
const V: u128 = 0xabcdef;

const P_TEXT: &str = "11111111-2222-3333-4444-555555555555";
const I_TEXT: &str = "00000000-0000-0000-0000-000000000007";
const V_TEXT: &str = "00000000-0000-0000-0000-000000abcdef";
const NIL_TEXT: &str = "00000000-0000-0000-0000-000000000000";

#[test]
fn pair_target_joins_parent_and_child() {
    assert_eq!(pair_target(P, I), format!("{P_TEXT}:{I_TEXT}"));
}

#[test]
fn view_member_target_names_the_view() {
    assert_eq!(view_member_target(P, I, V), format!("{P_TEXT}:{I_TEXT}:view={V_TEXT}"));
}

#[test]
fn adopt_target_leaves_a_trailing_colon_when_cleared() {
    assert_eq!(adopt_target(P, Some(I)), format!("{P_TEXT}:{I_TEXT}"));
    assert_eq!(adopt_target(P, None), format!("{P_TEXT}:"));
}

#[test]
fn milestone_create_target_carries_the_number() {
    assert_eq!(milestone_create_target(P, V, 42), format!("{P_TEXT}:{V_TEXT}#42"));
    assert_eq!(milestone_create_target(P, V, -7), format!("{P_TEXT}:{V_TEXT}#-7"));
}

#[test]
fn decimal_string_matches_display() {
    for n in [0i64, 9, 10, 12345, -1, -900, i64::MAX, i64::MIN] {
        assert_eq!(decimal_string(n), n.to_string());
    }
}

fn tag(kind: TagScopeKind, scope: Option<u128>) -> Tag {
    Tag {
        id: I,
        scope_kind: kind,
        scope_user_id: if kind == TagScopeKind::User { scope } else { None },
        scope_team_id: if kind == TagScopeKind::Team { scope } else { None },
        scope_org_id: if kind == TagScopeKind::Org { scope } else { None },
        name: "phoenix".to_string(),
        color: "#ff0000".to_string(),
        description: None,
        created_by: 1,
        created_at: 0,
        archived_at: None,
    }
}

#[test]
fn tag_create_target_names_kind_scope_and_tag() {
    assert_eq!(tag_create_target(&tag(TagScopeKind::Team, Some(V))), format!("team:{V_TEXT}:{I_TEXT}"));
    assert_eq!(tag_create_target(&tag(TagScopeKind::Org, None)), format!("org:{NIL_TEXT}:{I_TEXT}"));
    assert_eq!(tag_create_target(&tag(TagScopeKind::User, Some(P))), format!("user:{P_TEXT}:{I_TEXT}"));
}

#[test]
fn tag_update_target_is_prefixed() {
    assert_eq!(tag_update_target(P), format!("tag:{P_TEXT}"));
}

#[test]
fn tag_link_targets_name_the_kind() {
    assert_eq!(tag_link_target(P, TagLinkKind::Repo, V), format!("{P_TEXT}:repo:{V_TEXT}"));
    assert_eq!(tag_link_target(P, TagLinkKind::Issue, V), format!("{P_TEXT}:issue:{V_TEXT}"));
    let l = TagLink {
        id: 3,
        tag_id: P,
        kind: TagLinkKind::Team,
        target_repo_id: None,
        target_issue_id: None,
        target_user_id: None,
        target_team_id: Some(I),
        added_by: 0,
        added_at: 0,
    };
    assert_eq!(inserted_link_target(P, &l), format!("{P_TEXT}:team:{I_TEXT}"));
    let orphan = TagLink { target_team_id: None, ..l };
    assert_eq!(inserted_link_target(P, &orphan), format!("{P_TEXT}:team:{NIL_TEXT}"));
}
