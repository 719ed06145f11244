//! Tags: scopes and visibility, the all-or-nothing link / unlink
//! batches, the high-link-count warning, the paged link list and the
//! archive transition of a tag update.

use vstd::prelude::*;

use crate::audit::{decimal, decimal_count, link_kind_name, scope_kind_name};
use crate::error::{
    conflict, forbidden, is_conflict, is_forbidden, is_not_found, not_found, ApiError, BatchItemError, ErrorCode, StoreError,
};
use crate::ids::{fresh_id, uuid_hyphenated, uuid_to_string};
use crate::issue_list::page_of;
use crate::project_issues::filter_seq;
use crate::text::{chars_of, join2, join3, join4, string_from};

verus! {

/// Soft cap: above this many links a link batch answers with a
/// `tag_link_count_high` warning.
pub const TAG_LINK_WARN_THRESHOLD: usize = 500;

/// Page size of the link list of `GET /tags/{id}`.
pub const LINKS_PAGE_SIZE: u32 = 100;

/// Who a tag belongs to.
#[derive(Debug, Clone, Copy, PartialEq, Eq, Structural)]
pub enum TagScopeKind {
    User,
    Team,
    Org,
}

/// What a tag link points at.
#[derive(Debug, Clone, Copy, PartialEq, Eq, Structural)]
pub enum TagLinkKind {
    Repo,
    Issue,
    User,
    Team,
}

/// Wire form of [`TagScopeKind`]: `user | team | org`.
#[derive(Debug, Clone, Copy, PartialEq, Eq, Structural)]
pub enum TagScopeKindDto {
    User,
    Team,
    Org,
}

/// Wire form of [`TagLinkKind`]: `repo | issue | user | team`.
#[derive(Debug, Clone, Copy, PartialEq, Eq, Structural)]
pub enum TagLinkKindDto {
    Repo,
    Issue,
    User,
    Team,
}

impl From<TagScopeKind> for TagScopeKindDto {
    fn from(k: TagScopeKind) -> (r: Self) {
        match k {
            TagScopeKind::User => TagScopeKindDto::User,
            TagScopeKind::Team => TagScopeKindDto::Team,
            TagScopeKind::Org => TagScopeKindDto::Org,
        }
    }
}

impl vstd::std_specs::convert::FromSpecImpl<TagScopeKind> for TagScopeKindDto {
    open spec fn obeys_from_spec() -> bool {
        true
    }

    open spec fn from_spec(k: TagScopeKind) -> TagScopeKindDto {
        match k {
            TagScopeKind::User => TagScopeKindDto::User,
            TagScopeKind::Team => TagScopeKindDto::Team,
            TagScopeKind::Org => TagScopeKindDto::Org,
        }
    }
}

impl From<TagScopeKindDto> for TagScopeKind {
    fn from(k: TagScopeKindDto) -> (r: Self) {
        match k {
            TagScopeKindDto::User => TagScopeKind::User,
            TagScopeKindDto::Team => TagScopeKind::Team,
            TagScopeKindDto::Org => TagScopeKind::Org,
        }
    }
}

impl vstd::std_specs::convert::FromSpecImpl<TagScopeKindDto> for TagScopeKind {
    open spec fn obeys_from_spec() -> bool {
        true
    }

    open spec fn from_spec(k: TagScopeKindDto) -> TagScopeKind {
        match k {
            TagScopeKindDto::User => TagScopeKind::User,
            TagScopeKindDto::Team => TagScopeKind::Team,
            TagScopeKindDto::Org => TagScopeKind::Org,
        }
    }
}

impl From<TagLinkKind> for TagLinkKindDto {
    fn from(k: TagLinkKind) -> (r: Self) {
        match k {
            TagLinkKind::Repo => TagLinkKindDto::Repo,
            TagLinkKind::Issue => TagLinkKindDto::Issue,
            TagLinkKind::User => TagLinkKindDto::User,
            TagLinkKind::Team => TagLinkKindDto::Team,
        }
    }
}

impl vstd::std_specs::convert::FromSpecImpl<TagLinkKind> for TagLinkKindDto {
    open spec fn obeys_from_spec() -> bool {
        true
    }

    open spec fn from_spec(k: TagLinkKind) -> TagLinkKindDto {
        match k {
            TagLinkKind::Repo => TagLinkKindDto::Repo,
            TagLinkKind::Issue => TagLinkKindDto::Issue,
            TagLinkKind::User => TagLinkKindDto::User,
            TagLinkKind::Team => TagLinkKindDto::Team,
        }
    }
}

impl From<TagLinkKindDto> for TagLinkKind {
    fn from(k: TagLinkKindDto) -> (r: Self) {
        match k {
            TagLinkKindDto::Repo => TagLinkKind::Repo,
            TagLinkKindDto::Issue => TagLinkKind::Issue,
            TagLinkKindDto::User => TagLinkKind::User,
            TagLinkKindDto::Team => TagLinkKind::Team,
        }
    }
}

impl vstd::std_specs::convert::FromSpecImpl<TagLinkKindDto> for TagLinkKind {
    open spec fn obeys_from_spec() -> bool {
        true
    }

    open spec fn from_spec(k: TagLinkKindDto) -> TagLinkKind {
        match k {
            TagLinkKindDto::Repo => TagLinkKind::Repo,
            TagLinkKindDto::Issue => TagLinkKind::Issue,
            TagLinkKindDto::User => TagLinkKind::User,
            TagLinkKindDto::Team => TagLinkKind::Team,
        }
    }
}

/// The wire form of a scope kind.
pub open spec fn scope_kind_dto(k: TagScopeKind) -> TagScopeKindDto {
    <TagScopeKindDto as vstd::std_specs::convert::FromSpec<TagScopeKind>>::from_spec(k)
}

/// The scope kind of a wire form.
pub open spec fn scope_kind_of(k: TagScopeKindDto) -> TagScopeKind {
    <TagScopeKind as vstd::std_specs::convert::FromSpec<TagScopeKindDto>>::from_spec(k)
}

/// The wire form of a link kind.
pub open spec fn link_kind_dto(k: TagLinkKind) -> TagLinkKindDto {
    <TagLinkKindDto as vstd::std_specs::convert::FromSpec<TagLinkKind>>::from_spec(k)
}

/// The link kind of a wire form.
pub open spec fn link_kind_of(k: TagLinkKindDto) -> TagLinkKind {
    <TagLinkKind as vstd::std_specs::convert::FromSpec<TagLinkKindDto>>::from_spec(k)
}

/// The wire forms and the domain kinds convert one-for-one: each
/// conversion undoes the other.
pub proof fn lemma_kind_round_trips(s: TagScopeKind, sd: TagScopeKindDto, l: TagLinkKind, ld: TagLinkKindDto)
    ensures
        scope_kind_of(scope_kind_dto(s)) == s,
        scope_kind_dto(scope_kind_of(sd)) == sd,
        link_kind_of(link_kind_dto(l)) == l,
        link_kind_dto(link_kind_of(ld)) == ld,
{
}


/// A tag, scoped to one user, team or organisation.
#[derive(Debug, Clone)]
pub struct Tag {
    pub id: u128,
    pub scope_kind: TagScopeKind,
    pub scope_user_id: Option<u128>,
    pub scope_team_id: Option<u128>,
    pub scope_org_id: Option<u128>,
    pub name: String,
    pub color: String,
    pub description: Option<String>,
    pub created_by: u128,
    /// Microseconds since the Unix epoch (UTC).
    pub created_at: i64,
    pub archived_at: Option<i64>,
}

/// The owner id of the column the scope kind names.
pub open spec fn spec_scope_id(t: Tag) -> Option<u128> {
    match t.scope_kind {
        TagScopeKind::User => t.scope_user_id,
        TagScopeKind::Team => t.scope_team_id,
        TagScopeKind::Org => t.scope_org_id,
    }
}

impl Tag {
    /// The owner of the tag.
    pub fn scope_id(&self) -> (r: Option<u128>)
        ensures
            r == spec_scope_id(*self),
    {
        match self.scope_kind {
            TagScopeKind::User => self.scope_user_id,
            TagScopeKind::Team => self.scope_team_id,
            TagScopeKind::Org => self.scope_org_id,
        }
    }
}

/// One link of a tag to a repository, issue, user or team.
#[derive(Debug, Clone, Copy)]
pub struct TagLink {
    pub id: u128,
    pub tag_id: u128,
    pub kind: TagLinkKind,
    pub target_repo_id: Option<u128>,
    pub target_issue_id: Option<u128>,
    pub target_user_id: Option<u128>,
    pub target_team_id: Option<u128>,
    pub added_by: u128,
    /// Microseconds since the Unix epoch (UTC).
    pub added_at: i64,
}

/// The target id of the column the link kind names.
pub open spec fn spec_target_id(l: TagLink) -> Option<u128> {
    match l.kind {
        TagLinkKind::Repo => l.target_repo_id,
        TagLinkKind::Issue => l.target_issue_id,
        TagLinkKind::User => l.target_user_id,
        TagLinkKind::Team => l.target_team_id,
    }
}

impl TagLink {
    /// What the link points at.
    pub fn target_id(&self) -> (r: Option<u128>)
        ensures
            r == spec_target_id(*self),
    {
        match self.kind {
            TagLinkKind::Repo => self.target_repo_id,
            TagLinkKind::Issue => self.target_issue_id,
            TagLinkKind::User => self.target_user_id,
            TagLinkKind::Team => self.target_team_id,
        }
    }
}

/// What the viewer can see: their id and the organisations they hold
/// a membership in.
#[derive(Debug, Clone)]
pub struct ViewerVisibility {
    pub viewer_user_id: u128,
    pub visible_org_ids: Vec<u128>,
}

/// The viewer sees a user tag they own, a team tag of a visible team,
/// an org tag of one of their organisations.
pub open spec fn spec_can_see(viewer: u128, orgs: Seq<u128>, t: Tag, teams: Seq<u128>) -> bool {
    match t.scope_kind {
        TagScopeKind::User => t.scope_user_id == Some(viewer),
        TagScopeKind::Team => match t.scope_team_id {
            Some(x) => teams.contains(x),
            None => false,
        },
        TagScopeKind::Org => match t.scope_org_id {
            Some(x) => orgs.contains(x),
            None => false,
        },
    }
}

/// Whether `v` holds `x`.
pub fn contains_id(v: &Vec<u128>, x: u128) -> (r: bool)
    ensures
        r == v@.contains(x),
{
    let mut k: usize = 0;
    while k < v.len()
        invariant
            k <= v.len(),
            forall|j: int| 0 <= j < k ==> v@[j] != x,
        decreases v.len() - k,
    {
        if v[k] == x {
            return true;
        }
        k = k + 1;
    }
    false
}

impl ViewerVisibility {
    /// Whether the viewer can see the tag; `teams` are the teams they
    /// can see.
    pub fn can_see(&self, tag: &Tag, teams: &Vec<u128>) -> (r: bool)
        ensures
            r == spec_can_see(self.viewer_user_id, self.visible_org_ids@, *tag, teams@),
    {
        match tag.scope_kind {
            TagScopeKind::User => tag.scope_user_id == Some(self.viewer_user_id),
            TagScopeKind::Team => match tag.scope_team_id {
                Some(x) => contains_id(teams, x),
                None => false,
            },
            TagScopeKind::Org => match tag.scope_org_id {
                Some(x) => contains_id(&self.visible_org_ids, x),
                None => false,
            },
        }
    }

    /// Whether the viewer may edit, link and unlink the tag. Team
    /// membership is read as membership of the team's organisation,
    /// so this is the visibility rule.
    pub fn is_scope_member(&self, tag: &Tag, teams: &Vec<u128>) -> (r: bool)
        ensures
            r == spec_can_see(self.viewer_user_id, self.visible_org_ids@, *tag, teams@),
    {
        self.can_see(tag, teams)
    }
}

/// The viewer sees a repo link to a visible repo, every issue and user
/// link, and a team link to a visible team.
pub open spec fn link_visible(teams: Seq<u128>, repos: Seq<u128>) -> spec_fn(TagLink) -> bool {
    |l: TagLink|
        match l.kind {
            TagLinkKind::Repo => match l.target_repo_id {
                Some(r) => repos.contains(r),
                None => false,
            },
            TagLinkKind::Issue => true,
            TagLinkKind::User => true,
            TagLinkKind::Team => match l.target_team_id {
                Some(t) => teams.contains(t),
                None => false,
            },
        }
}

/// The links the viewer may see, in order.
pub fn filter_visible_links(links: &Vec<TagLink>, teams: &Vec<u128>, repos: &Vec<u128>) -> (r: Vec<TagLink>)
    ensures
        r@ == filter_seq(links@, link_visible(teams@, repos@)),
        forall|l: TagLink|
            links@.contains(l) && l.kind == TagLinkKind::Repo && l.target_repo_id is Some && repos@.contains(
                l.target_repo_id->0,
            ) ==> #[trigger] r@.contains(l),
        forall|l: TagLink|
            #[trigger] r@.contains(l) && l.kind == TagLinkKind::Repo ==> l.target_repo_id is Some && repos@.contains(
                l.target_repo_id->0,
            ),
{
    proof {
        lemma_visible_links_by_kind(links@, teams@, repos@);
    }
    let ghost p = link_visible(teams@, repos@);
    let mut out: Vec<TagLink> = Vec::new();
    let mut k: usize = 0;
    while k < links.len()
        invariant
            k <= links.len(),
            p == link_visible(teams@, repos@),
            out@ == filter_seq(links@.take(k as int), p),
        decreases links.len() - k,
    {
        let l = links[k];
        assert(links@.take(k + 1).drop_last() =~= links@.take(k as int));
        assert(links@.take(k + 1).last() == l);
        let keep = match l.kind {
            TagLinkKind::Repo => match l.target_repo_id {
                Some(r) => contains_id(repos, r),
                None => false,
            },
            TagLinkKind::Issue => true,
            TagLinkKind::User => true,
            TagLinkKind::Team => match l.target_team_id {
                Some(t) => contains_id(teams, t),
                None => false,
            },
        };
        assert(keep == p(l));
        if keep {
            out.push(l);
        }
        k = k + 1;
    }
    assert(links@.take(links.len() as int) =~= links@);
    out
}

/// The page `page` of the visible links, [`LINKS_PAGE_SIZE`] long.
pub fn links_page(visible: &Vec<TagLink>, page: u32) -> (r: Vec<TagLink>)
    ensures
        r@ == page_of(visible@, page * LINKS_PAGE_SIZE, LINKS_PAGE_SIZE as int),
{
    let start: u64 = (page as u64) * (LINKS_PAGE_SIZE as u64);
    let mut out: Vec<TagLink> = Vec::new();
    if start >= visible.len() as u64 {
        assert(out@ =~= page_of(visible@, page * LINKS_PAGE_SIZE, LINKS_PAGE_SIZE as int));
        return out;
    }
    let s = start as usize;
    let end: usize = if (start as u128) + (LINKS_PAGE_SIZE as u128) < visible.len() as u128 {
        s + (LINKS_PAGE_SIZE as usize)
    } else {
        visible.len()
    };
    let mut k: usize = s;
    while k < end
        invariant
            s <= k <= end,
            end <= visible.len(),
            out@ == visible@.subrange(s as int, k as int),
        decreases end - k,
    {
        out.push(visible[k]);
        assert(visible@.subrange(s as int, k + 1) =~= visible@.subrange(s as int, k as int).push(visible@[k as int]));
        k = k + 1;
    }
    assert(out@ =~= page_of(visible@, page * LINKS_PAGE_SIZE, LINKS_PAGE_SIZE as int));
    out
}

/// `no tag <id> visible to caller`.
pub open spec fn tag_not_found_text(id: u128) -> Seq<char> {
    "no tag "@ + uuid_hyphenated(id) + " visible to caller"@
}

/// `404 tag_not_found`: tag `id` does not exist or is hidden from the
/// caller.
pub fn tag_not_found(id: u128) -> (e: ApiError)
    ensures
        is_not_found(e, ErrorCode::TagNotFound, tag_not_found_text(id)),
{
    not_found(ErrorCode::TagNotFound, join3("no tag ", uuid_to_string(id).as_str(), " visible to caller"))
}

/// `caller is not a member of <kind> <scope>`.
pub open spec fn not_member_text(kind: TagScopeKind, scope: u128) -> Seq<char> {
    "caller is not a member of "@ + scope_kind_name(kind) + " "@ + uuid_hyphenated(scope)
}

/// `403 tag_scope_member_required`, naming the scope the caller is
/// outside of.
pub fn not_a_member(kind: TagScopeKind, scope: u128) -> (e: ApiError)
    ensures
        is_forbidden(e, ErrorCode::TagScopeMemberRequired, not_member_text(kind, scope)),
{
    forbidden(
        ErrorCode::TagScopeMemberRequired,
        join4("caller is not a member of ", kind.as_str(), " ", uuid_to_string(scope).as_str()),
    )
}

/// `403 tag_scope_member_required` for a write to `tag`, naming its
/// scope (the nil identifier when it names none).
pub fn scope_member_required(tag: &Tag) -> (e: ApiError)
    ensures
        is_forbidden(
            e,
            ErrorCode::TagScopeMemberRequired,
            not_member_text(
                tag.scope_kind,
                match spec_scope_id(*tag) {
                    Some(s) => s,
                    None => 0,
                },
            ),
        ),
{
    let scope = match tag.scope_id() {
        Some(s) => s,
        None => 0,
    };
    not_a_member(tag.scope_kind, scope)
}

/// Access to an existing tag: a tag the caller
/// cannot see is `404 tag_not_found`; for writes a tag whose scope the
/// caller is not a member of is `403 tag_scope_member_required`.
pub fn check_tag_access(viewer: &ViewerVisibility, tag: &Tag, teams: &Vec<u128>, write: bool) -> (r: Result<(), ApiError>)
    ensures
        !spec_can_see(viewer.viewer_user_id, viewer.visible_org_ids@, *tag, teams@) ==> (r matches Err(e) && is_not_found(
            e,
            ErrorCode::TagNotFound,
            tag_not_found_text(tag.id),
        )),
        spec_can_see(viewer.viewer_user_id, viewer.visible_org_ids@, *tag, teams@) ==> r is Ok,
{
    if !viewer.can_see(tag, teams) {
        return Err(tag_not_found(tag.id));
    }
    if write && !viewer.is_scope_member(tag, teams) {
        return Err(scope_member_required(tag));
    }
    Ok(())
}

/// `POST /tags` body.
#[derive(Debug, Clone)]
pub struct CreateTagRequest {
    pub scope_kind: TagScopeKindDto,
    pub scope_id: u128,
    pub name: String,
    pub color: String,
    pub description: Option<String>,
}

/// The creator of a tag must be a member of its scope: its owner for a
/// user tag, a viewer of the team or a member of the organisation.
pub open spec fn may_create(viewer: u128, orgs: Seq<u128>, teams: Seq<u128>, kind: TagScopeKind, scope_id: u128) -> bool {
    match kind {
        TagScopeKind::User => scope_id == viewer,
        TagScopeKind::Team => teams.contains(scope_id),
        TagScopeKind::Org => orgs.contains(scope_id),
    }
}

/// The tag a create request makes, with identifier `id` and creation
/// time `now`: the scope id in the column the kind names, not
/// archived. A caller outside the scope is `403
/// tag_scope_member_required`.
pub fn new_tag(viewer: &ViewerVisibility, teams: &Vec<u128>, body: CreateTagRequest, id: u128, now: i64) -> (r: Result<Tag, ApiError>)
    ensures
        ({
            let kind = scope_kind_of(body.scope_kind);
            if may_create(viewer.viewer_user_id, viewer.visible_org_ids@, teams@, kind, body.scope_id) {
                r matches Ok(t) && t.id == id && t.scope_kind == kind && spec_scope_id(t) == Some(body.scope_id)
                    && t.scope_user_id == (if kind == TagScopeKind::User { Some(body.scope_id) } else { None })
                    && t.scope_team_id == (if kind == TagScopeKind::Team { Some(body.scope_id) } else { None })
                    && t.scope_org_id == (if kind == TagScopeKind::Org { Some(body.scope_id) } else { None })
                    && t.name == body.name && t.color == body.color && t.description == body.description
                    && t.created_by == viewer.viewer_user_id && t.created_at == now && t.archived_at is None
            } else {
                r matches Err(e) && is_forbidden(e, ErrorCode::TagScopeMemberRequired, not_member_text(kind, body.scope_id))
            }
        }),
{
    let kind = TagScopeKind::from(body.scope_kind);
    let allowed = match kind {
        TagScopeKind::User => body.scope_id == viewer.viewer_user_id,
        TagScopeKind::Team => contains_id(teams, body.scope_id),
        TagScopeKind::Org => contains_id(&viewer.visible_org_ids, body.scope_id),
    };
    if !allowed {
        return Err(not_a_member(kind, body.scope_id));
    }
    let (u, t, o) = match kind {
        TagScopeKind::User => (Some(body.scope_id), None, None),
        TagScopeKind::Team => (None, Some(body.scope_id), None),
        TagScopeKind::Org => (None, None, Some(body.scope_id)),
    };
    Ok(Tag {
        id,
        scope_kind: kind,
        scope_user_id: u,
        scope_team_id: t,
        scope_org_id: o,
        name: body.name,
        color: body.color,
        description: body.description,
        created_by: viewer.viewer_user_id,
        created_at: now,
        archived_at: None,
    })
}

/// A name clash of a created or renamed tag is `409 tag_name_conflict`
/// (saying so, then the store's text); a renamed tag `id` that is gone
/// is `404 tag_not_found`; other store failures pass through.
pub fn map_tag_write_error(id: u128, err: StoreError) -> (r: ApiError)
    ensures
        match err {
            StoreError::Conflict(m) => is_conflict(r, ErrorCode::TagNameConflict, "tag name not unique within scope: "@ + m@),
            StoreError::NotFound { .. } => is_not_found(r, ErrorCode::TagNotFound, tag_not_found_text(id)),
            _ => r == ApiError::Store(err),
        },
{
    match err {
        StoreError::Conflict(m) => conflict(ErrorCode::TagNameConflict, join2("tag name not unique within scope: ", m.as_str())),
        StoreError::NotFound { .. } => tag_not_found(id),
        e => ApiError::Store(e),
    }
}

/// `PATCH /tags/{id}` body.
#[derive(Debug, Clone)]
pub struct UpdateTagRequest {
    pub name: Option<String>,
    pub color: Option<String>,
    /// `Some(None)` clears the description.
    pub description: Option<Option<String>>,
    pub archived: Option<bool>,
}

/// The archive column update of a tag patch and whether it is audited
/// as an archive: `archived: true` stamps `now` unless the tag is
/// already archived (then the column is left as is), `false` clears
/// it, absence leaves it. Every patch with `archived: true` is audited
/// as `tag.archive`, whatever else it changes; every other patch as
/// `tag.update`.
pub fn archive_update(archived: Option<bool>, current: Option<i64>, now: i64) -> (r: (Option<Option<i64>>, bool))
    ensures
        r.1 == (archived == Some(true)),
        r.0 == match archived {
            Some(true) => if current is Some {
                None::<Option<i64>>
            } else {
                Some(Some(now))
            },
            Some(false) => Some(None::<i64>),
            None => None::<Option<i64>>,
        },
{
    match archived {
        Some(true) => if current.is_some() {
            (None, true)
        } else {
            (Some(Some(now)), true)
        },
        Some(false) => (Some(None), false),
        None => (None, false),
    }
}

/// `GET /tags/{id}` query.
#[derive(Debug, Clone, Copy)]
pub struct TagDetailQuery {
    pub links_page: Option<u32>,
}

/// `GET /tags` query.
#[derive(Debug, Clone, Copy)]
pub struct ListTagsQuery {
    pub include_archived: Option<bool>,
}


/// One requested link or unlink.
#[derive(Debug, Clone, Copy)]
pub struct LinkRequestItem {
    pub kind: TagLinkKindDto,
    pub target_id: u128,
}

/// `(kind, target)` of a requested item.
pub open spec fn item_key(it: LinkRequestItem) -> (TagLinkKind, u128) {
    (link_kind_of(it.kind), it.target_id)
}

/// `(kind, target)` of a stored link, when it names its target.
pub open spec fn link_key(l: TagLink) -> Option<(TagLinkKind, u128)> {
    match spec_target_id(l) {
        Some(t) => Some((l.kind, t)),
        None => None,
    }
}

/// The tag already links `key`.
pub open spec fn existing_has(existing: Seq<TagLink>, key: (TagLinkKind, u128)) -> bool {
    exists|i: int| 0 <= i < existing.len() && link_key(#[trigger] existing[i]) == Some(key)
}

/// An earlier item of the batch has the same `(kind, target)`.
pub open spec fn repeated_before(items: Seq<LinkRequestItem>, i: int) -> bool {
    exists|j: int| 0 <= j < i && item_key(#[trigger] items[j]) == item_key(items[i])
}

/// `<prefix><kind> <target><suffix>`: the message of a rejected item.
pub open spec fn item_text(prefix: Seq<char>, key: (TagLinkKind, u128), suffix: Seq<char>) -> Seq<char> {
    prefix + link_kind_name(key.0) + " "@ + uuid_hyphenated(key.1) + suffix
}

/// The message of a rejected item.
fn item_message(prefix: &str, kind: TagLinkKind, target: u128, suffix: &str) -> (r: String)
    ensures
        r@ == item_text(prefix@, (kind, target), suffix@),
{
    let a = join3(prefix, kind.as_str(), " ");
    join3(a.as_str(), uuid_to_string(target).as_str(), suffix)
}

/// Why item `i` of a link batch is rejected: the tag already links
/// it (`duplicate`), or an earlier item names it (`duplicate_in_batch`).
pub open spec fn link_item_error(existing: Seq<TagLink>, items: Seq<LinkRequestItem>, i: int) -> Option<
    (ErrorCode, Seq<char>),
> {
    if existing_has(existing, item_key(items[i])) {
        Some((ErrorCode::Duplicate, item_text("tag already links "@, item_key(items[i]), ""@)))
    } else if repeated_before(items, i) {
        Some((ErrorCode::DuplicateInBatch, item_text(""@, item_key(items[i]), " appears more than once in this batch"@)))
    } else {
        None
    }
}

/// Why item `i` of an unlink batch is rejected: an earlier item names
/// it (`duplicate_in_batch`), or the tag does not link it
/// (`not_linked`).
pub open spec fn unlink_item_error(existing: Seq<TagLink>, items: Seq<LinkRequestItem>, i: int) -> Option<
    (ErrorCode, Seq<char>),
> {
    if repeated_before(items, i) {
        Some((ErrorCode::DuplicateInBatch, item_text(""@, item_key(items[i]), " appears more than once in this batch"@)))
    } else if !existing_has(existing, item_key(items[i])) {
        Some((ErrorCode::NotLinked, item_text("tag does not link "@, item_key(items[i]), ""@)))
    } else {
        None
    }
}

/// The `(index, code, message)` of each rejected item among the first
/// `n`, in order.
pub open spec fn batch_errors(f: spec_fn(int) -> Option<(ErrorCode, Seq<char>)>, n: int) -> Seq<(int, ErrorCode, Seq<char>)>
    decreases n,
{
    if n <= 0 {
        Seq::empty()
    } else {
        let p = batch_errors(f, n - 1);
        match f(n - 1) {
            Some(c) => p.push((n - 1, c.0, c.1)),
            None => p,
        }
    }
}

pub open spec fn batch_views(v: Seq<BatchItemError>) -> Seq<(int, ErrorCode, Seq<char>)> {
    v.map_values(|e: BatchItemError| (e.index as int, e.code, e.message@))
}

/// `<rejected> of <total> items rejected`.
pub open spec fn rejected_text(rejected: int, total: int) -> Seq<char> {
    decimal(rejected) + " of "@ + decimal(total) + " items rejected"@
}

/// The answer to a rejected batch of `total` items: `422
/// batch_rejected` counting and listing every rejected item; nothing
/// is written.
pub open spec fn is_batch_rejection(e: ApiError, errs: Seq<(int, ErrorCode, Seq<char>)>, total: int) -> bool {
    e matches ApiError::Batch { code, message, items } && code == ErrorCode::BatchRejected && message@ == rejected_text(
        errs.len() as int,
        total,
    ) && batch_views(items@) == errs
}

/// The answer to a rejected batch.
fn batch_rejection(errors: Vec<BatchItemError>, total: usize) -> (r: ApiError)
    ensures
        is_batch_rejection(r, batch_views(errors@), total as int),
{
    let a = decimal_count(errors.len());
    let b = decimal_count(total);
    ApiError::Batch {
        code: ErrorCode::BatchRejected,
        message: join4(a.as_str(), " of ", b.as_str(), " items rejected"),
        items: errors,
    }
}

/// Whether the tag already links `key`.
fn existing_has_exec(existing: &Vec<TagLink>, kind: TagLinkKind, target: u128) -> (r: bool)
    ensures
        r == existing_has(existing@, (kind, target)),
{
    let mut k: usize = 0;
    while k < existing.len()
        invariant
            k <= existing.len(),
            forall|j: int| 0 <= j < k ==> link_key(#[trigger] existing@[j]) != Some((kind, target)),
        decreases existing.len() - k,
    {
        let l = existing[k];
        if l.kind == kind && l.target_id() == Some(target) {
            assert(link_key(existing@[k as int]) == Some((kind, target)));
            return true;
        }
        k = k + 1;
    }
    false
}

/// Whether an item before `i` names the same `(kind, target)`.
fn repeated_before_exec(items: &Vec<LinkRequestItem>, i: usize) -> (r: bool)
    requires
        i < items.len(),
    ensures
        r == repeated_before(items@, i as int),
{
    let key_kind = TagLinkKind::from(items[i].kind);
    let key_target = items[i].target_id;
    let mut j: usize = 0;
    while j < i
        invariant
            j <= i,
            i < items.len(),
            (key_kind, key_target) == item_key(items@[i as int]),
            forall|m: int| 0 <= m < j ==> item_key(#[trigger] items@[m]) != item_key(items@[i as int]),
        decreases i - j,
    {
        let k2 = TagLinkKind::from(items[j].kind);
        if k2 == key_kind && items[j].target_id == key_target {
            assert(item_key(items@[j as int]) == item_key(items@[i as int]));
            return true;
        }
        j = j + 1;
    }
    false
}

/// Validates a link batch against the tag's links: all or nothing.
/// With no rejected item it answers each item's `(kind, target)`, in
/// order.
pub fn plan_link_batch(existing: &Vec<TagLink>, items: &Vec<LinkRequestItem>) -> (r: Result<Vec<(TagLinkKind, u128)>, ApiError>)
    ensures
        ({
            let errs = batch_errors(|i: int| link_item_error(existing@, items@, i), items.len() as int);
            if errs.len() == 0 {
                r matches Ok(keys) && keys@ == items@.map_values(|it: LinkRequestItem| item_key(it))
            } else {
                r matches Err(e) && is_batch_rejection(e, errs, items.len() as int)
            }
        }),
{
    let ghost f = |i: int| link_item_error(existing@, items@, i);
    let mut errors: Vec<BatchItemError> = Vec::new();
    let mut keys: Vec<(TagLinkKind, u128)> = Vec::new();
    let mut i: usize = 0;
    while i < items.len()
        invariant
            i <= items.len(),
            f == (|i: int| link_item_error(existing@, items@, i)),
            batch_views(errors@) == batch_errors(f, i as int),
            keys@ == items@.take(i as int).map_values(|it: LinkRequestItem| item_key(it)),
        decreases items.len() - i,
    {
        let kind = TagLinkKind::from(items[i].kind);
        let target = items[i].target_id;
        let ghost before = batch_views(errors@);
        if existing_has_exec(existing, kind, target) {
            let m = item_message("tag already links ", kind, target, "");
            errors.push(BatchItemError { index: i, code: ErrorCode::Duplicate, message: m });
            assert(batch_views(errors@) =~= before.push((i as int, ErrorCode::Duplicate, m@)));
        } else if repeated_before_exec(items, i) {
            let m = item_message("", kind, target, " appears more than once in this batch");
            errors.push(BatchItemError { index: i, code: ErrorCode::DuplicateInBatch, message: m });
            assert(batch_views(errors@) =~= before.push((i as int, ErrorCode::DuplicateInBatch, m@)));
        }
        keys.push((kind, target));
        assert(items@.take(i + 1).map_values(|it: LinkRequestItem| item_key(it)) =~= items@.take(i as int).map_values(
            |it: LinkRequestItem| item_key(it),
        ).push(item_key(items@[i as int])));
        i = i + 1;
    }
    assert(items@.take(items.len() as int) =~= items@);
    if errors.len() > 0 {
        return Err(batch_rejection(errors, items.len()));
    }
    Ok(keys)
}

/// The id of the last link of the tag with `key`, as a map built from
/// the links in order keeps it.
pub open spec fn last_link_id(existing: Seq<TagLink>, key: (TagLinkKind, u128)) -> Option<u128>
    decreases existing.len(),
{
    if existing.len() == 0 {
        None
    } else if link_key(existing.last()) == Some(key) {
        Some(existing.last().id)
    } else {
        last_link_id(existing.drop_last(), key)
    }
}

/// The id of the last link with `key`.
fn last_link_id_exec(existing: &Vec<TagLink>, kind: TagLinkKind, target: u128) -> (r: Option<u128>)
    ensures
        r == last_link_id(existing@, (kind, target)),
{
    let mut k: usize = existing.len();
    assert(existing@.take(existing.len() as int) =~= existing@);
    while k > 0
        invariant
            k <= existing.len(),
            last_link_id(existing@, (kind, target)) == last_link_id(existing@.take(k as int), (kind, target)),
        decreases k,
    {
        assert(existing@.take(k as int).drop_last() =~= existing@.take(k - 1));
        assert(existing@.take(k as int).last() == existing@[k - 1]);
        let l = existing[k - 1];
        if l.kind == kind && l.target_id() == Some(target) {
            return Some(l.id);
        }
        k = k - 1;
    }
    None
}

/// Validates an unlink batch against the tag's links: all or nothing.
/// With no rejected item it answers, per item in order, the id of the
/// link to remove.
pub fn plan_unlink_batch(existing: &Vec<TagLink>, items: &Vec<LinkRequestItem>) -> (r: Result<Vec<u128>, ApiError>)
    ensures
        ({
            let errs = batch_errors(|i: int| unlink_item_error(existing@, items@, i), items.len() as int);
            if errs.len() == 0 {
                r matches Ok(ids) && ids.len() == items.len() && forall|k: int|
                    0 <= k < ids.len() ==> last_link_id(existing@, item_key(items@[k])) == Some(#[trigger] ids@[k])
            } else {
                r matches Err(e) && is_batch_rejection(e, errs, items.len() as int)
            }
        }),
{
    let ghost f = |i: int| unlink_item_error(existing@, items@, i);
    let mut errors: Vec<BatchItemError> = Vec::new();
    let mut ids: Vec<u128> = Vec::new();
    let mut i: usize = 0;
    while i < items.len()
        invariant
            i <= items.len(),
            f == (|i: int| unlink_item_error(existing@, items@, i)),
            batch_views(errors@) == batch_errors(f, i as int),
            errors.len() == 0 ==> ids.len() == i && forall|k: int|
                0 <= k < ids.len() ==> last_link_id(existing@, item_key(items@[k])) == Some(#[trigger] ids@[k]),
        decreases items.len() - i,
    {
        let kind = TagLinkKind::from(items[i].kind);
        let target = items[i].target_id;
        let ghost before = batch_views(errors@);
        if repeated_before_exec(items, i) {
            let m = item_message("", kind, target, " appears more than once in this batch");
            errors.push(BatchItemError { index: i, code: ErrorCode::DuplicateInBatch, message: m });
            assert(batch_views(errors@) =~= before.push((i as int, ErrorCode::DuplicateInBatch, m@)));
        } else {
            match last_link_id_exec(existing, kind, target) {
                Some(id) => {
                    proof {
                        lemma_last_link_id_some(existing@, (kind, target));
                    }
                    ids.push(id);
                },
                None => {
                    proof {
                        lemma_last_link_id_some(existing@, (kind, target));
                    }
                    let m = item_message("tag does not link ", kind, target, "");
                    errors.push(BatchItemError { index: i, code: ErrorCode::NotLinked, message: m });
                    assert(batch_views(errors@) =~= before.push((i as int, ErrorCode::NotLinked, m@)));
                },
            }
        }
        i = i + 1;
    }
    if errors.len() > 0 {
        return Err(batch_rejection(errors, items.len()));
    }
    Ok(ids)
}

proof fn lemma_last_link_id_some(existing: Seq<TagLink>, key: (TagLinkKind, u128))
    ensures
        last_link_id(existing, key) is Some <==> existing_has(existing, key),
    decreases existing.len(),
{
    if existing.len() > 0 {
        lemma_last_link_id_some(existing.drop_last(), key);
        if existing_has(existing, key) && link_key(existing.last()) != Some(key) {
            let i = choose|i: int| 0 <= i < existing.len() && link_key(#[trigger] existing[i]) == Some(key);
            assert(existing.drop_last()[i] == existing[i]);
        }
        if existing_has(existing.drop_last(), key) {
            let i = choose|i: int| 0 <= i < existing.drop_last().len() && link_key(#[trigger] existing.drop_last()[i]) == Some(key);
            assert(existing[i] == existing.drop_last()[i]);
        }
    }
}

/// The links a checked batch inserts, one per `(kind, target)`, each
/// with a fresh random id, added by `actor` at `now`.
pub fn build_links(tag_id: u128, keys: &Vec<(TagLinkKind, u128)>, actor: u128, now: i64) -> (r: Vec<TagLink>)
    ensures
        r.len() == keys.len(),
        forall|k: int|
            0 <= k < r.len() ==> {
                let l = #[trigger] r@[k];
                &&& l.tag_id == tag_id
                &&& l.kind == keys@[k].0
                &&& spec_target_id(l) == Some(keys@[k].1)
                &&& l.target_repo_id == (if l.kind == TagLinkKind::Repo { Some(keys@[k].1) } else { None })
                &&& l.target_issue_id == (if l.kind == TagLinkKind::Issue { Some(keys@[k].1) } else { None })
                &&& l.target_user_id == (if l.kind == TagLinkKind::User { Some(keys@[k].1) } else { None })
                &&& l.target_team_id == (if l.kind == TagLinkKind::Team { Some(keys@[k].1) } else { None })
                &&& l.added_by == actor
                &&& l.added_at == now
            },
{
    let mut out: Vec<TagLink> = Vec::new();
    let mut k: usize = 0;
    while k < keys.len()
        invariant
            k <= keys.len(),
            out.len() == k,
            forall|j: int|
                0 <= j < k ==> {
                    let l = #[trigger] out@[j];
                    &&& l.tag_id == tag_id
                    &&& l.kind == keys@[j].0
                    &&& spec_target_id(l) == Some(keys@[j].1)
                    &&& l.target_repo_id == (if l.kind == TagLinkKind::Repo { Some(keys@[j].1) } else { None })
                    &&& l.target_issue_id == (if l.kind == TagLinkKind::Issue { Some(keys@[j].1) } else { None })
                    &&& l.target_user_id == (if l.kind == TagLinkKind::User { Some(keys@[j].1) } else { None })
                    &&& l.target_team_id == (if l.kind == TagLinkKind::Team { Some(keys@[j].1) } else { None })
                    &&& l.added_by == actor
                    &&& l.added_at == now
                },
        decreases keys.len() - k,
    {
        let (kind, target) = keys[k];
        let id = fresh_id();
        let (r, i, u, t) = match kind {
            TagLinkKind::Repo => (Some(target), None, None, None),
            TagLinkKind::Issue => (None, Some(target), None, None),
            TagLinkKind::User => (None, None, Some(target), None),
            TagLinkKind::Team => (None, None, None, Some(target)),
        };
        out.push(TagLink {
            id,
            tag_id,
            kind,
            target_repo_id: r,
            target_issue_id: i,
            target_user_id: u,
            target_team_id: t,
            added_by: actor,
            added_at: now,
        });
        k = k + 1;
    }
    out
}

/// The warning of a committed link batch: `tag_link_count_high` when
/// the tag now has more than [`TAG_LINK_WARN_THRESHOLD`] links.
pub fn link_warning(existing: usize, inserted: usize) -> (r: Option<String>)
    ensures
        match r {
            Some(w) => existing + inserted > TAG_LINK_WARN_THRESHOLD && w@ == seq![
                't', 'a', 'g', '_', 'l', 'i', 'n', 'k', '_', 'c', 'o', 'u', 'n', 't', '_', 'h', 'i', 'g', 'h'
            ],
            None => existing + inserted <= TAG_LINK_WARN_THRESHOLD,
        },
{
    if (existing as u128) + (inserted as u128) > TAG_LINK_WARN_THRESHOLD as u128 {
        let w = string_from(&chars_of("tag_link_count_high"));
        proof {
            reveal_strlit("tag_link_count_high");
            assert(w@ =~= seq!['t', 'a', 'g', '_', 'l', 'i', 'n', 'k', '_', 'c', 'o', 'u', 'n', 't', '_', 'h', 'i', 'g', 'h']);
        }
        Some(w)
    } else {
        None
    }
}

/// A link insert that lost a race with a concurrent batch: `422
/// batch_rejected` saying so with the store's text, and item 0 as
/// `duplicate` with the store's text.
pub fn link_race_error(msg: String) -> (r: ApiError)
    ensures
        r matches ApiError::Batch { code, message, items } && code == ErrorCode::BatchRejected && message@
            == "concurrent insert raced this batch: "@ + msg@ && batch_views(items@) == seq![
            (0int, ErrorCode::Duplicate, msg@),
        ],
{
    let message = join2("concurrent insert raced this batch: ", msg.as_str());
    let ghost m = msg@;
    let mut items: Vec<BatchItemError> = Vec::new();
    items.push(BatchItemError { index: 0, code: ErrorCode::Duplicate, message: msg });
    assert(batch_views(items@) =~= seq![(0int, ErrorCode::Duplicate, m)]);
    ApiError::Batch { code: ErrorCode::BatchRejected, message, items }
}

/// A link that vanished while its unlink batch ran: `422
/// batch_rejected` with item 0 as `not_linked`.
pub fn unlink_race_error() -> (r: ApiError)
    ensures
        r matches ApiError::Batch { code, message, items } && code == ErrorCode::BatchRejected && message@
            == "one or more links vanished mid-batch"@ && batch_views(items@) == seq![
            (0int, ErrorCode::NotLinked, "link vanished mid-batch (concurrent unlink)"@),
        ],
{
    let m = "link vanished mid-batch (concurrent unlink)".to_owned();
    let ghost mv = m@;
    let mut items: Vec<BatchItemError> = Vec::new();
    items.push(BatchItemError { index: 0, code: ErrorCode::NotLinked, message: m });
    assert(batch_views(items@) =~= seq![(0int, ErrorCode::NotLinked, mv)]);
    ApiError::Batch { code: ErrorCode::BatchRejected, message: "one or more links vanished mid-batch".to_owned(), items }
}


/// Wire form of a tag with the number of links its viewer sees.
#[derive(Debug, Clone)]
pub struct TagDto {
    pub id: u128,
    pub scope_kind: TagScopeKindDto,
    pub scope_id: u128,
    pub name: String,
    pub color: String,
    pub description: Option<String>,
    pub created_by: u128,
    pub created_at: i64,
    pub archived_at: Option<i64>,
    pub visible_link_count: u32,
}

/// The wire form of a tag; every stored tag names its owner in the
/// column its kind names.
pub fn tag_dto(t: Tag, count: u32) -> (r: TagDto)
    requires
        spec_scope_id(t) is Some,
    ensures
        r.id == t.id && r.scope_kind == scope_kind_dto(t.scope_kind) && Some(r.scope_id) == spec_scope_id(t)
            && r.name == t.name && r.color == t.color && r.description == t.description && r.created_by
            == t.created_by && r.created_at == t.created_at && r.archived_at == t.archived_at && r.visible_link_count
            == count,
{
    let scope_id = match t.scope_id() {
        Some(x) => x,
        None => 0,
    };
    TagDto {
        id: t.id,
        scope_kind: TagScopeKindDto::from(t.scope_kind),
        scope_id,
        name: t.name,
        color: t.color,
        description: t.description,
        created_by: t.created_by,
        created_at: t.created_at,
        archived_at: t.archived_at,
        visible_link_count: count,
    }
}

/// Wire form of a tag link.
#[derive(Debug, Clone, Copy)]
pub struct TagLinkDto {
    pub id: u128,
    pub tag_id: u128,
    pub kind: TagLinkKindDto,
    pub target_id: u128,
    pub added_by: u128,
    pub added_at: i64,
}

/// The wire form of a link; every stored link names its target in
/// the column its kind names.
pub fn tag_link_dto(l: TagLink) -> (r: TagLinkDto)
    requires
        spec_target_id(l) is Some,
    ensures
        r.id == l.id && r.tag_id == l.tag_id && r.kind == link_kind_dto(l.kind) && Some(r.target_id) == spec_target_id(l)
            && r.added_by == l.added_by && r.added_at == l.added_at,
{
    let target_id = match l.target_id() {
        Some(x) => x,
        None => 0,
    };
    TagLinkDto { id: l.id, tag_id: l.tag_id, kind: TagLinkKindDto::from(l.kind), target_id, added_by: l.added_by, added_at: l.added_at }
}


proof fn lemma_no_errors_none(f: spec_fn(int) -> Option<(ErrorCode, Seq<char>)>, n: int)
    requires
        batch_errors(f, n).len() == 0,
    ensures
        forall|i: int| 0 <= i < n ==> (#[trigger] f(i)) is None,
    decreases n,
{
    if n > 0 {
        lemma_no_errors_none(f, n - 1);
    }
}

/// A link batch that is accepted adds only new targets, each once:
/// none is linked already and no two items name the same target.
pub proof fn lemma_accepted_link_batch(existing: Seq<TagLink>, items: Seq<LinkRequestItem>)
    requires
        batch_errors(|i: int| link_item_error(existing, items, i), items.len() as int).len() == 0,
    ensures
        forall|i: int| 0 <= i < items.len() ==> !existing_has(existing, item_key(#[trigger] items[i])),
        forall|i: int, j: int| 0 <= i < j < items.len() ==> item_key(#[trigger] items[i]) != item_key(#[trigger] items[j]),
{
    let f = |i: int| link_item_error(existing, items, i);
    lemma_no_errors_none(f, items.len() as int);
    assert forall|i: int| 0 <= i < items.len() implies !existing_has(existing, item_key(#[trigger] items[i])) by {
        assert(f(i) is None);
    }
    assert forall|i: int, j: int| 0 <= i < j < items.len() implies item_key(#[trigger] items[i]) != item_key(
        #[trigger] items[j],
    ) by {
        assert(f(j) is None);
        if item_key(items[i]) == item_key(items[j]) {
            assert(repeated_before(items, j));
        }
    }
}

/// An unlink batch that is accepted removes only linked targets, each
/// once.
pub proof fn lemma_accepted_unlink_batch(existing: Seq<TagLink>, items: Seq<LinkRequestItem>)
    requires
        batch_errors(|i: int| unlink_item_error(existing, items, i), items.len() as int).len() == 0,
    ensures
        forall|i: int| 0 <= i < items.len() ==> existing_has(existing, item_key(#[trigger] items[i])),
        forall|i: int, j: int| 0 <= i < j < items.len() ==> item_key(#[trigger] items[i]) != item_key(#[trigger] items[j]),
{
    let f = |i: int| unlink_item_error(existing, items, i);
    lemma_no_errors_none(f, items.len() as int);
    assert forall|i: int| 0 <= i < items.len() implies existing_has(existing, item_key(#[trigger] items[i])) by {
        assert(f(i) is None);
    }
    assert forall|i: int, j: int| 0 <= i < j < items.len() implies item_key(#[trigger] items[i]) != item_key(
        #[trigger] items[j],
    ) by {
        assert(f(j) is None);
        if item_key(items[i]) == item_key(items[j]) {
            assert(repeated_before(items, j));
        }
    }
}

proof fn lemma_none_no_errors(f: spec_fn(int) -> Option<(ErrorCode, Seq<char>)>, n: int)
    requires
        forall|i: int| 0 <= i < n ==> (#[trigger] f(i)) is None,
    ensures
        batch_errors(f, n).len() == 0,
    decreases n,
{
    if n > 0 {
        lemma_none_no_errors(f, n - 1);
        assert(f(n - 1) is None);
    }
}

/// Unlinking what a batch just linked is accepted: after an accepted
/// link batch, the links it built (one per item, naming that item's
/// kind and target) added to the tag's links, the same items unlink
/// without error.
pub proof fn lemma_link_then_unlink_accepted(
    existing: Seq<TagLink>,
    items: Seq<LinkRequestItem>,
    built: Seq<TagLink>,
)
    requires
        batch_errors(|i: int| link_item_error(existing, items, i), items.len() as int).len() == 0,
        built.len() == items.len(),
        forall|k: int| 0 <= k < built.len() ==> link_key(#[trigger] built[k]) == Some(item_key(items[k])),
    ensures
        batch_errors(|i: int| unlink_item_error(existing + built, items, i), items.len() as int).len() == 0,
{
    lemma_accepted_link_batch(existing, items);
    let all = existing + built;
    let g = |i: int| unlink_item_error(all, items, i);
    assert forall|i: int| 0 <= i < items.len() implies (#[trigger] g(i)) is None by {
        if repeated_before(items, i) {
            let j = choose|j: int| 0 <= j < i && item_key(#[trigger] items[j]) == item_key(items[i]);
            assert(item_key(items[j]) != item_key(items[i]));
        }
        let w = existing.len() + i;
        assert(all[w] == built[i]);
        assert(link_key(all[w]) == Some(item_key(items[i])));
        assert(existing_has(all, item_key(items[i])));
    }
    lemma_none_no_errors(g, items.len() as int);
}

/// Which links the viewer sees, kind by kind: a repo link exactly when
/// its repository is among the visible ones, a team link exactly when
/// its team is, and every issue and user link.
pub proof fn lemma_visible_links_by_kind(links: Seq<TagLink>, teams: Seq<u128>, repos: Seq<u128>)
    ensures
        forall|l: TagLink|
            links.contains(l) && l.kind == TagLinkKind::Repo && l.target_repo_id is Some && repos.contains(
                l.target_repo_id->0,
            ) ==> #[trigger] filter_seq(links, link_visible(teams, repos)).contains(l),
        forall|l: TagLink|
            #[trigger] filter_seq(links, link_visible(teams, repos)).contains(l) && l.kind == TagLinkKind::Repo
                ==> l.target_repo_id is Some && repos.contains(l.target_repo_id->0),
        forall|l: TagLink|
            links.contains(l) && l.kind == TagLinkKind::Team && l.target_team_id is Some && teams.contains(
                l.target_team_id->0,
            ) ==> #[trigger] filter_seq(links, link_visible(teams, repos)).contains(l),
        forall|l: TagLink|
            #[trigger] filter_seq(links, link_visible(teams, repos)).contains(l) && l.kind == TagLinkKind::Team
                ==> l.target_team_id is Some && teams.contains(l.target_team_id->0),
        forall|l: TagLink|
            links.contains(l) && (l.kind == TagLinkKind::Issue || l.kind == TagLinkKind::User)
                ==> #[trigger] filter_seq(links, link_visible(teams, repos)).contains(l),
{
    let p = link_visible(teams, repos);
    crate::project_issues::lemma_filter_seq_sound(links, p);
    crate::project_issues::lemma_filter_seq_complete(links, p);
}

/// The viewer only ever sees links the tag has, in their order: every
/// visible link is one of the tag's links and passes the visibility
/// rule.
pub proof fn lemma_visible_links_sound(links: Seq<TagLink>, teams: Seq<u128>, repos: Seq<u128>)
    ensures
        forall|l: TagLink|
            filter_seq(links, link_visible(teams, repos)).contains(l) ==> links.contains(l) && link_visible(teams, repos)(
                l,
            ),
{
    crate::project_issues::lemma_filter_seq_sound(links, link_visible(teams, repos));
}

} // verus!
