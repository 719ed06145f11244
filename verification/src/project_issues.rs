//! Project ↔ issue membership: the query parsing, filtering,
//! grouping, sorting and pagination behind `GET /projects/{id}/issues`,
//! and the decisions of the bulk add / detach routes.

use vstd::prelude::*;

use crate::audit::{decimal, decimal_count};
use crate::error::{
    bad_quoted, bad_request, is_bad, is_conflict, is_not_found, is_rejection, not_found, ApiError, ErrorCode, StoreError,
};
use crate::ids::{uuid_hyphenated, uuid_to_string};
use crate::ids::{parse_uuid, uuid_parse};
use crate::project_milestones::{milestone_views, Milestone, MilestoneModel};
use crate::text::{
    char_views, chars_eq, chars_eq_str, chars_of, lemma_split_concat, lemma_split_empty, lemma_split_trim, spec_is_whitespace, trim_equiv, eq_ignore_ascii_case, spec_eq_ignore_ascii_case, seq_split, seq_split_once, seq_trim,
    spec_is_ascii_digit, spec_is_ascii_lowercase, split_chars, split_once, str_eq, string_from,
    subvec, trim, trim_chars, join2, join3, join4, quoted, str_debug, seq_lt, lt_chars, unicode_lowercase, to_lowercase, unicode_uppercase, to_uppercase, lemma_seq_lt_irreflexive, lemma_seq_lt_transitive,
};

verus! {

/// Hard cap on `issue_ids` per bulk-add request.
pub const BULK_ADD_ISSUE_CAP: usize = 100;

/// Issue lifecycle state.
#[derive(Debug, Clone, Copy, PartialEq, Eq, Structural)]
pub enum IssueState {
    Open,
    Closed,
}

/// The issue fields the membership surface reads.
#[derive(Debug, Clone)]
pub struct Issue {
    pub id: u128,
    pub org_id: u128,
    pub repo_id: u128,
    pub state: IssueState,
    pub title: String,
    pub assignees: Vec<String>,
    pub labels: Vec<String>,
    /// Title of the GitHub milestone the issue points at.
    pub milestone: Option<String>,
    /// Last update, microseconds since the Unix epoch (UTC).
    pub updated_at: i64,
}

pub struct IssueModel {
    pub id: u128,
    pub org_id: u128,
    pub repo_id: u128,
    pub state: IssueState,
    pub title: Seq<char>,
    pub assignees: Seq<Seq<char>>,
    pub labels: Seq<Seq<char>>,
    pub milestone: Option<Seq<char>>,
    pub updated_at: i64,
}

/// The character sequences held by a sequence of strings.
pub open spec fn string_views(v: Seq<String>) -> Seq<Seq<char>> {
    v.map_values(|s: String| s@)
}

pub open spec fn opt_string_view(o: Option<String>) -> Option<Seq<char>> {
    match o {
        Some(s) => Some(s@),
        None => None,
    }
}

impl View for Issue {
    type V = IssueModel;

    open spec fn view(&self) -> IssueModel {
        IssueModel {
            id: self.id,
            org_id: self.org_id,
            repo_id: self.repo_id,
            state: self.state,
            title: self.title@,
            assignees: string_views(self.assignees@),
            labels: string_views(self.labels@),
            milestone: opt_string_view(self.milestone),
            updated_at: self.updated_at,
        }
    }
}

/// The models of a sequence of issues.
pub open spec fn issue_views(v: Seq<Issue>) -> Seq<IssueModel> {
    v.map_values(|i: Issue| i@)
}

// ---------------------------------------------------------------------------
// Tag keys
// ---------------------------------------------------------------------------

/// kv tag keys are `[a-z0-9][a-z0-9-]*`, 1 to 50 characters.
pub open spec fn spec_is_valid_tag_key(s: Seq<char>) -> bool {
    &&& 0 < s.len() <= 50
    &&& (spec_is_ascii_lowercase(s[0]) || spec_is_ascii_digit(s[0]))
    &&& forall|i: int|
        1 <= i < s.len() ==> (spec_is_ascii_lowercase(#[trigger] s[i]) || spec_is_ascii_digit(s[i])
            || s[i] == '-')
}

/// Whether `s` is a valid kv tag key.
pub fn is_valid_tag_key(s: &Vec<char>) -> (r: bool)
    ensures
        r == spec_is_valid_tag_key(s@),
{
    if s.len() == 0 || s.len() > 50 {
        return false;
    }
    let first = s[0];
    if !(('a' <= first && first <= 'z') || ('0' <= first && first <= '9')) {
        return false;
    }
    let mut i: usize = 1;
    while i < s.len()
        invariant
            1 <= i <= s.len(),
            forall|k: int|
                1 <= k < i ==> (spec_is_ascii_lowercase(#[trigger] s@[k]) || spec_is_ascii_digit(
                    s@[k],
                ) || s@[k] == '-'),
        decreases s.len() - i,
    {
        let c = s[i];
        if !(('a' <= c && c <= 'z') || ('0' <= c && c <= '9') || c == '-') {
            return false;
        }
        i = i + 1;
    }
    true
}

/// `s` starts with `p`.
pub open spec fn has_prefix(s: Seq<char>, p: Seq<char>) -> bool {
    p.len() <= s.len() && s.take(p.len() as int) == p
}

/// Strips the literal prefix `lit` from `v`.
pub fn strip_prefix(v: &Vec<char>, lit: &str) -> (r: Option<Vec<char>>)
    ensures
        match r {
            Some(rest) => has_prefix(v@, lit@) && rest@ == v@.skip(lit@.len() as int),
            None => !has_prefix(v@, lit@),
        },
{
    let p = chars_of(lit);
    if p.len() > v.len() {
        return None;
    }
    let head = subvec(v, 0, p.len());
    if !chars_eq(&head, &p) {
        assert(head@ =~= v@.take(p@.len() as int));
        return None;
    }
    assert(head@ =~= v@.take(p@.len() as int));
    let rest = subvec(v, p.len(), v.len());
    assert(rest@ =~= v@.skip(p@.len() as int));
    Some(rest)
}

// ---------------------------------------------------------------------------
// group_by
// ---------------------------------------------------------------------------

/// Parsed group-by dimension.
#[derive(Debug, Clone)]
pub enum GroupBy {
    /// Two buckets, `open` and `closed`.
    Status,
    /// One bucket per value of the kv tag `key`, plus "No <key>".
    Tag { key: String },
}

pub enum GroupByModel {
    Status,
    Tag { key: Seq<char> },
}

impl View for GroupBy {
    type V = GroupByModel;

    open spec fn view(&self) -> GroupByModel {
        match self {
            GroupBy::Status => GroupByModel::Status,
            GroupBy::Tag { key } => GroupByModel::Tag { key: key@ },
        }
    }
}

/// The trimmed parameter, or `None` when it is absent or blank.
pub open spec fn nonblank(raw: Option<Seq<char>>) -> Option<Seq<char>> {
    match raw {
        Some(s) => if seq_trim(s).len() > 0 {
            Some(seq_trim(s))
        } else {
            None
        },
        None => None,
    }
}

/// What `?group_by=` means: absent/blank, `status`, or `tag:<key>`
/// with a valid key; anything else is `invalid_group_by`, naming the
/// bad key or the whole parameter.
pub open spec fn spec_parse_group_by(raw: Option<Seq<char>>) -> Result<Option<GroupByModel>, (ErrorCode, Seq<char>)> {
    match nonblank(raw) {
        None => Ok(None),
        Some(t) => if t == "status"@ {
            Ok(Some(GroupByModel::Status))
        } else if has_prefix(t, "tag:"@) {
            if spec_is_valid_tag_key(t.skip(4)) {
                Ok(Some(GroupByModel::Tag { key: t.skip(4) }))
            } else {
                Err((ErrorCode::InvalidGroupBy, "invalid tag key in group_by: "@ + str_debug(t.skip(4))))
            }
        } else {
            Err((ErrorCode::InvalidGroupBy, "unsupported group_by dimension: "@ + str_debug(t)))
        },
    }
}

/// Trims an optional parameter and drops it when blank.
pub fn nonblank_param(raw: Option<&str>) -> (r: Option<Vec<char>>)
    ensures
        match r {
            Some(v) => nonblank(opt_str_view(raw)) == Some(v@),
            None => nonblank(opt_str_view(raw)) is None,
        },
{
    match raw {
        None => None,
        Some(s) => {
            let t = trim(s);
            if t.len() == 0 {
                None
            } else {
                Some(t)
            }
        },
    }
}

pub open spec fn opt_str_view(o: Option<&str>) -> Option<Seq<char>> {
    match o {
        Some(s) => Some(s@),
        None => None,
    }
}

/// Parses `?group_by=`.
pub fn parse_group_by(raw: Option<&str>) -> (r: Result<Option<GroupBy>, ApiError>)
    ensures
        match (r, spec_parse_group_by(opt_str_view(raw))) {
            (Ok(Some(g)), Ok(Some(m))) => g@ == m,
            (Ok(None), Ok(None)) => true,
            (Err(e), Err(c)) => is_rejection(e, c),
            _ => false,
        },
{
    let t = match nonblank_param(raw) {
        None => return Ok(None),
        Some(t) => t,
    };
    proof {
        reveal_strlit("tag:");
    }
    if chars_eq_str(&t, "status") {
        return Ok(Some(GroupBy::Status));
    }
    match strip_prefix(&t, "tag:") {
        Some(key) => {
            if is_valid_tag_key(&key) {
                Ok(Some(GroupBy::Tag { key: string_from(&key) }))
            } else {
                Err(bad_quoted(ErrorCode::InvalidGroupBy, "invalid tag key in group_by: ", &key))
            }
        },
        None => Err(bad_quoted(ErrorCode::InvalidGroupBy, "unsupported group_by dimension: ", &t)),
    }
}

// ---------------------------------------------------------------------------
// sort
// ---------------------------------------------------------------------------

/// Sort order of the issue list.
#[derive(Debug, Clone, Copy, PartialEq, Eq, Structural)]
pub enum SortOrder {
    UpdatedDesc,
    UpdatedAsc,
    TitleAsc,
}

/// `updated_desc` (default), `updated_asc`, `title_asc`; anything
/// else is `invalid_sort`.
pub open spec fn spec_parse_sort(raw: Option<Seq<char>>) -> Result<SortOrder, (ErrorCode, Seq<char>)> {
    match nonblank(raw) {
        None => Ok(SortOrder::UpdatedDesc),
        Some(t) => if t == "updated_desc"@ {
            Ok(SortOrder::UpdatedDesc)
        } else if t == "updated_asc"@ {
            Ok(SortOrder::UpdatedAsc)
        } else if t == "title_asc"@ {
            Ok(SortOrder::TitleAsc)
        } else {
            Err((ErrorCode::InvalidSort, "unknown sort: "@ + str_debug(t)))
        },
    }
}

/// Parses `?sort=`.
pub fn parse_sort(raw: Option<&str>) -> (r: Result<SortOrder, ApiError>)
    ensures
        match (r, spec_parse_sort(opt_str_view(raw))) {
            (Ok(s), Ok(m)) => s == m,
            (Err(e), Err(c)) => is_rejection(e, c),
            _ => false,
        },
{
    let t = match nonblank_param(raw) {
        None => return Ok(SortOrder::UpdatedDesc),
        Some(t) => t,
    };
    if chars_eq_str(&t, "updated_desc") {
        Ok(SortOrder::UpdatedDesc)
    } else if chars_eq_str(&t, "updated_asc") {
        Ok(SortOrder::UpdatedAsc)
    } else if chars_eq_str(&t, "title_asc") {
        Ok(SortOrder::TitleAsc)
    } else {
        Err(bad_quoted(ErrorCode::InvalidSort, "unknown sort: ", &t))
    }
}

// ---------------------------------------------------------------------------
// state
// ---------------------------------------------------------------------------

/// `?state=`: absent, empty or `all` ⇒ no filter; `open` / `closed`;
/// anything else is `invalid_state`. Not trimmed.
pub open spec fn spec_parse_state(raw: Option<Seq<char>>) -> Result<Option<IssueState>, (ErrorCode, Seq<char>)> {
    match raw {
        None => Ok(None),
        Some(s) => if s.len() == 0 || s == "all"@ {
            Ok(None)
        } else if s == "open"@ {
            Ok(Some(IssueState::Open))
        } else if s == "closed"@ {
            Ok(Some(IssueState::Closed))
        } else {
            Err((ErrorCode::InvalidState, "invalid state filter: "@ + s))
        },
    }
}

/// Parses `?state=`.
pub fn parse_state(raw: Option<&str>) -> (r: Result<Option<IssueState>, ApiError>)
    ensures
        match (r, spec_parse_state(opt_str_view(raw))) {
            (Ok(s), Ok(m)) => s == m,
            (Err(e), Err(c)) => is_rejection(e, c),
            _ => false,
        },
{
    match raw {
        None => Ok(None),
        Some(s) => {
            if s.is_empty() || str_eq(s, "all") {
                Ok(None)
            } else if str_eq(s, "open") {
                Ok(Some(IssueState::Open))
            } else if str_eq(s, "closed") {
                Ok(Some(IssueState::Closed))
            } else {
                Err(bad_request(ErrorCode::InvalidState, join2("invalid state filter: ", s)))
            }
        },
    }
}

// ---------------------------------------------------------------------------
// filter
// ---------------------------------------------------------------------------

/// One filter chip; chips are AND-combined.
#[derive(Debug, Clone)]
pub enum FilterClause {
    Status(IssueState),
    Assignee(String),
    Label(String),
    Tag { key: String, value: String },
    /// A milestone adopted by the project, by its identifier.
    Milestone(u128),
}

pub enum FilterClauseModel {
    Status(IssueState),
    Assignee(Seq<char>),
    Label(Seq<char>),
    Tag { key: Seq<char>, value: Seq<char> },
    Milestone(u128),
}

impl View for FilterClause {
    type V = FilterClauseModel;

    open spec fn view(&self) -> FilterClauseModel {
        match self {
            FilterClause::Status(s) => FilterClauseModel::Status(*s),
            FilterClause::Assignee(a) => FilterClauseModel::Assignee(a@),
            FilterClause::Label(l) => FilterClauseModel::Label(l@),
            FilterClause::Tag { key, value } => FilterClauseModel::Tag { key: key@, value: value@ },
            FilterClause::Milestone(m) => FilterClauseModel::Milestone(*m),
        }
    }
}

pub open spec fn clause_views(v: Seq<FilterClause>) -> Seq<FilterClauseModel> {
    v.map_values(|c: FilterClause| c@)
}

/// Meaning of one non-blank, trimmed chip `<dim>:<value>`. The value
/// is everything after the first `:`, trimmed; a tag value is split
/// again at its first `:` into key and value.
#[verifier::opaque]
pub open spec fn spec_parse_clause(chunk: Seq<char>) -> Result<FilterClauseModel, (ErrorCode, Seq<char>)> {
    match seq_split_once(chunk, ':') {
        None => Err((ErrorCode::InvalidFilter, "filter clause missing ':' separator: "@ + str_debug(chunk))),
        Some((d, v)) => {
            let dim = seq_trim(d);
            let value = seq_trim(v);
            if value.len() == 0 {
                Err((ErrorCode::InvalidFilter, "filter clause has empty value: "@ + str_debug(chunk)))
            } else if dim == "status"@ {
                if value == "open"@ {
                    Ok(FilterClauseModel::Status(IssueState::Open))
                } else if value == "closed"@ {
                    Ok(FilterClauseModel::Status(IssueState::Closed))
                } else {
                    Err((ErrorCode::InvalidFilter, "status filter must be 'open' or 'closed', got "@ + str_debug(value)))
                }
            } else if dim == "assignee"@ {
                Ok(FilterClauseModel::Assignee(value))
            } else if dim == "label"@ {
                Ok(FilterClauseModel::Label(value))
            } else if dim == "milestone"@ {
                match uuid_parse(value) {
                    Some(u) => Ok(FilterClauseModel::Milestone(u)),
                    None => Err((
                        ErrorCode::InvalidFilter,
                        "milestone filter value must be a milestone UUID, got "@ + str_debug(value),
                    )),
                }
            } else if dim == "tag"@ {
                match seq_split_once(value, ':') {
                    None => Err((ErrorCode::InvalidFilter, "tag filter must be 'tag:<key>:<value>', got "@ + str_debug(chunk))),
                    Some((k, tv)) => if !spec_is_valid_tag_key(k) {
                        Err((ErrorCode::InvalidFilter, "invalid tag key in filter: "@ + str_debug(k)))
                    } else if tv.len() == 0 {
                        Err((ErrorCode::InvalidFilter, "tag filter has empty value: "@ + str_debug(chunk)))
                    } else {
                        Ok(FilterClauseModel::Tag { key: k, value: tv })
                    },
                }
            } else {
                Err((ErrorCode::InvalidFilter, "unknown filter dim: "@ + str_debug(dim)))
            }
        },
    }
}

/// Meaning of the `;`-separated chips, in order; blank chips are
/// skipped and the first malformed chip decides the error.
#[verifier::opaque]
pub open spec fn spec_parse_chunks(cs: Seq<Seq<char>>) -> Result<Seq<FilterClauseModel>, (ErrorCode, Seq<char>)>
    decreases cs.len(),
{
    if cs.len() == 0 {
        Ok(Seq::empty())
    } else {
        let c = seq_trim(cs[0]);
        if c.len() == 0 {
            spec_parse_chunks(cs.drop_first())
        } else {
            match spec_parse_clause(c) {
                Err(e) => Err(e),
                Ok(x) => match spec_parse_chunks(cs.drop_first()) {
                    Ok(rest) => Ok(seq![x] + rest),
                    Err(e) => Err(e),
                },
            }
        }
    }
}

/// Meaning of `?filter=`.
pub open spec fn spec_parse_filter(raw: Option<Seq<char>>) -> Result<Seq<FilterClauseModel>, (ErrorCode, Seq<char>)> {
    match nonblank(raw) {
        None => Ok(Seq::empty()),
        Some(t) => spec_parse_chunks(seq_split(t, ';')),
    }
}

/// Parses one non-blank, trimmed chip.
pub fn parse_clause(chunk: &Vec<char>) -> (r: Result<FilterClause, ApiError>)
    ensures
        match (r, spec_parse_clause(chunk@)) {
            (Ok(c), Ok(m)) => c@ == m,
            (Err(e), Err(c)) => is_rejection(e, c),
            _ => false,
        },
{
    reveal(spec_parse_clause);
    let (d, v) = match split_once(chunk, ':') {
        None => return Err(bad_quoted(ErrorCode::InvalidFilter, "filter clause missing ':' separator: ", chunk)),
        Some(p) => p,
    };
    let dim = trim_chars(&d);
    let value = trim_chars(&v);
    if value.len() == 0 {
        return Err(bad_quoted(ErrorCode::InvalidFilter, "filter clause has empty value: ", chunk));
    }
    if chars_eq_str(&dim, "status") {
        if chars_eq_str(&value, "open") {
            Ok(FilterClause::Status(IssueState::Open))
        } else if chars_eq_str(&value, "closed") {
            Ok(FilterClause::Status(IssueState::Closed))
        } else {
            Err(bad_quoted(ErrorCode::InvalidFilter, "status filter must be 'open' or 'closed', got ", &value))
        }
    } else if chars_eq_str(&dim, "assignee") {
        Ok(FilterClause::Assignee(string_from(&value)))
    } else if chars_eq_str(&dim, "label") {
        Ok(FilterClause::Label(string_from(&value)))
    } else if chars_eq_str(&dim, "milestone") {
        match parse_uuid(&value) {
            Some(u) => Ok(FilterClause::Milestone(u)),
            None => Err(bad_quoted(ErrorCode::InvalidFilter, "milestone filter value must be a milestone UUID, got ", &value)),
        }
    } else if chars_eq_str(&dim, "tag") {
        match split_once(&value, ':') {
            None => Err(bad_quoted(ErrorCode::InvalidFilter, "tag filter must be 'tag:<key>:<value>', got ", chunk)),
            Some((k, tv)) => {
                if !is_valid_tag_key(&k) {
                    Err(bad_quoted(ErrorCode::InvalidFilter, "invalid tag key in filter: ", &k))
                } else if tv.len() == 0 {
                    Err(bad_quoted(ErrorCode::InvalidFilter, "tag filter has empty value: ", chunk))
                } else {
                    Ok(FilterClause::Tag { key: string_from(&k), value: string_from(&tv) })
                }
            },
        }
    } else {
        Err(bad_quoted(ErrorCode::InvalidFilter, "unknown filter dim: ", &dim))
    }
}

proof fn lemma_parse_chunks_unfold(cs: Seq<Seq<char>>)
    requires
        cs.len() > 0,
    ensures
        spec_parse_chunks(cs) == (if seq_trim(cs[0]).len() == 0 {
            spec_parse_chunks(cs.drop_first())
        } else {
            match spec_parse_clause(seq_trim(cs[0])) {
                Err(e) => Err(e),
                Ok(x) => match spec_parse_chunks(cs.drop_first()) {
                    Ok(rest) => Ok(seq![x] + rest),
                    Err(e) => Err(e),
                },
            }
        }),
{
    reveal(spec_parse_chunks);
}

proof fn lemma_parse_chunks_empty(cs: Seq<Seq<char>>)
    requires
        cs.len() == 0,
    ensures
        spec_parse_chunks(cs) == Ok::<Seq<FilterClauseModel>, (ErrorCode, Seq<char>)>(Seq::empty()),
{
    reveal(spec_parse_chunks);
}

/// Prepends already-parsed clauses to the meaning of the rest.
pub open spec fn prepend_parsed(
    pre: Seq<FilterClauseModel>,
    rest: Result<Seq<FilterClauseModel>, (ErrorCode, Seq<char>)>,
) -> Result<Seq<FilterClauseModel>, (ErrorCode, Seq<char>)> {
    match rest {
        Ok(r) => Ok(pre + r),
        Err(e) => Err(e),
    }
}

/// Parses `?filter=` (`<dim>:<value>;<dim>:<value>;…`).
pub fn parse_filter(raw: Option<&str>) -> (r: Result<Vec<FilterClause>, ApiError>)
    ensures
        match (r, spec_parse_filter(opt_str_view(raw))) {
            (Ok(v), Ok(m)) => clause_views(v@) == m,
            (Err(e), Err(c)) => is_rejection(e, c),
            _ => false,
        },
{
    let t = match nonblank_param(raw) {
        None => {
            let out: Vec<FilterClause> = Vec::new();
            assert(clause_views(out@) =~= Seq::<FilterClauseModel>::empty());
            return Ok(out);
        },
        Some(t) => t,
    };
    let chunks = split_chars(&t, ';');
    let ghost cs = char_views(chunks@);
    assert(spec_parse_filter(opt_str_view(raw)) == spec_parse_chunks(cs));
    let mut out: Vec<FilterClause> = Vec::new();
    let mut i: usize = 0;
    assert(cs.skip(0) =~= cs);
    assert(clause_views(out@) =~= Seq::<FilterClauseModel>::empty());
    while i < chunks.len()
        invariant
            cs == char_views(chunks@),
            cs == seq_split(t@, ';'),
            spec_parse_filter(opt_str_view(raw)) == spec_parse_chunks(cs),
            i <= chunks.len(),
            spec_parse_chunks(cs) == prepend_parsed(clause_views(out@), spec_parse_chunks(cs.skip(i as int))),
        decreases chunks.len() - i,
    {
        let ghost rest = cs.skip(i as int);
        assert(rest[0] == chunks@[i as int]@);
        assert(rest.drop_first() =~= cs.skip(i + 1));
        proof {
            lemma_parse_chunks_unfold(rest);
        }
        let c = trim_chars(&chunks[i]);
        assert(c@ == seq_trim(rest[0]));
        if c.len() == 0 {
            i = i + 1;
        } else {
            match parse_clause(&c) {
                Err(e) => {
                    assert(spec_parse_chunks(rest) is Err);
                    return Err(e);
                },
                Ok(x) => {
                    let ghost pre = clause_views(out@);
                    let ghost xm = x@;
                    out.push(x);
                    proof {
                        assert(clause_views(out@) =~= pre.push(xm));
                        match spec_parse_chunks(cs.skip(i + 1)) {
                            Ok(r2) => {
                                assert(pre + (seq![xm] + r2) =~= pre.push(xm) + r2);
                            },
                            Err(_) => {},
                        }
                    }
                    i = i + 1;
                },
            }
        }
    }
    proof {
        lemma_parse_chunks_empty(cs.skip(i as int));
        assert(clause_views(out@) + Seq::<FilterClauseModel>::empty() =~= clause_views(out@));
    }
    Ok(out)
}

/// Chips that agree once trimmed mean the same.
proof fn lemma_parse_chunks_trim_equiv(xs: Seq<Seq<char>>, ys: Seq<Seq<char>>)
    requires
        trim_equiv(xs, ys),
    ensures
        spec_parse_chunks(xs) == spec_parse_chunks(ys),
    decreases xs.len(),
{
    if xs.len() == 0 {
        lemma_parse_chunks_empty(xs);
        lemma_parse_chunks_empty(ys);
    } else {
        lemma_parse_chunks_unfold(xs);
        lemma_parse_chunks_unfold(ys);
        assert(seq_trim(xs[0]) == seq_trim(ys[0]));
        let (xt, yt) = (xs.drop_first(), ys.drop_first());
        assert forall|i: int| 0 <= i < xt.len() implies seq_trim(#[trigger] xt[i]) == seq_trim(yt[i]) by {
            assert(xt[i] == xs[i + 1]);
            assert(yt[i] == ys[i + 1]);
        }
        lemma_parse_chunks_trim_equiv(xt, yt);
    }
}

/// The chips of two lists in a row mean the clauses of the first
/// followed by those of the second; the first error wins.
proof fn lemma_parse_chunks_append(xs: Seq<Seq<char>>, ys: Seq<Seq<char>>)
    ensures
        spec_parse_chunks(xs + ys) == match spec_parse_chunks(xs) {
            Ok(x) => prepend_parsed(x, spec_parse_chunks(ys)),
            Err(e) => Err(e),
        },
    decreases xs.len(),
{
    if xs.len() == 0 {
        lemma_parse_chunks_empty(xs);
        assert(xs + ys =~= ys);
        match spec_parse_chunks(ys) {
            Ok(y) => {
                assert(Seq::<FilterClauseModel>::empty() + y =~= y);
            },
            Err(_) => {},
        }
    } else {
        lemma_parse_chunks_unfold(xs);
        lemma_parse_chunks_unfold(xs + ys);
        assert((xs + ys)[0] == xs[0]);
        assert((xs + ys).drop_first() =~= xs.drop_first() + ys);
        lemma_parse_chunks_append(xs.drop_first(), ys);
        if seq_trim(xs[0]).len() > 0 {
            match spec_parse_clause(seq_trim(xs[0])) {
                Ok(c) => match spec_parse_chunks(xs.drop_first()) {
                    Ok(r) => match spec_parse_chunks(ys) {
                        Ok(y) => {
                            assert(seq![c] + (r + y) =~= (seq![c] + r) + y);
                        },
                        Err(_) => {},
                    },
                    Err(_) => {},
                },
                Err(_) => {},
            }
        }
    }
}

/// `?filter=` means the chips of the text as it stands: trimming it
/// first, or finding it blank, changes nothing.
proof fn lemma_parse_filter_chunks(t: Seq<char>)
    ensures
        spec_parse_filter(Some(t)) == spec_parse_chunks(seq_split(t, ';')),
{
    assert(!spec_is_whitespace(';'));
    lemma_split_trim(t, ';');
    lemma_parse_chunks_trim_equiv(seq_split(seq_trim(t), ';'), seq_split(t, ';'));
    if seq_trim(t).len() == 0 {
        lemma_split_empty(';');
        assert(seq_trim(t) =~= Seq::<char>::empty());
        let one = seq![Seq::<char>::empty()];
        lemma_parse_chunks_unfold(one);
        assert(seq_trim(one[0]) =~= Seq::<char>::empty());
        lemma_parse_chunks_empty(one.drop_first());
    }
}

/// Filter texts concatenate: the clauses of `a;b` are those of `a`
/// followed by those of `b` (the first malformed chip still decides
/// the error), an empty chip between them (`a;;b`) changes nothing,
/// and an absent filter has no clauses.
pub proof fn lemma_filter_concat(a: Seq<char>, b: Seq<char>)
    ensures
        spec_parse_filter(Some(a + seq![';'] + b)) == match spec_parse_filter(Some(a)) {
            Ok(x) => prepend_parsed(x, spec_parse_filter(Some(b))),
            Err(e) => Err(e),
        },
        spec_parse_filter(Some(a + seq![';', ';'] + b)) == spec_parse_filter(Some(a + seq![';'] + b)),
        spec_parse_filter(None) == Ok::<Seq<FilterClauseModel>, (ErrorCode, Seq<char>)>(Seq::empty()),
{
    lemma_parse_filter_chunks(a);
    lemma_parse_filter_chunks(b);
    lemma_parse_filter_chunks(a + seq![';'] + b);
    lemma_parse_filter_chunks(a + seq![';', ';'] + b);
    lemma_split_concat(a, b, ';');
    lemma_parse_chunks_append(seq_split(a, ';'), seq_split(b, ';'));
    // `a;;b` is `a`, `;`, and `;b`, whose pieces are an empty chip and those of `b`.
    let sb = seq![';'] + b;
    assert(a + seq![';', ';'] + b =~= a + seq![';'] + sb);
    lemma_split_concat(a, sb, ';');
    assert(Seq::<char>::empty() + seq![';'] + b =~= sb);
    lemma_split_concat(Seq::<char>::empty(), b, ';');
    lemma_split_empty(';');
    let pb = seq_split(sb, ';');
    assert(pb == seq![Seq::<char>::empty()] + seq_split(b, ';'));
    lemma_parse_chunks_unfold(pb);
    assert(seq_trim(pb[0]) =~= Seq::<char>::empty());
    assert(pb.drop_first() =~= seq_split(b, ';'));
    lemma_parse_chunks_append(seq_split(a, ';'), pb);
}

// ---------------------------------------------------------------------------
// Applying filters
// ---------------------------------------------------------------------------

/// The elements of `s` that satisfy `p`, in order.
pub open spec fn filter_seq<A>(s: Seq<A>, p: spec_fn(A) -> bool) -> Seq<A>
    decreases s.len(),
{
    if s.len() == 0 {
        Seq::empty()
    } else if p(s.last()) {
        filter_seq(s.drop_last(), p).push(s.last())
    } else {
        filter_seq(s.drop_last(), p)
    }
}

/// Filtering never lengthens a sequence.
pub proof fn lemma_filter_seq_len<A>(s: Seq<A>, p: spec_fn(A) -> bool)
    ensures
        filter_seq(s, p).len() <= s.len(),
    decreases s.len(),
{
    if s.len() > 0 {
        lemma_filter_seq_len(s.drop_last(), p);
    }
}

/// A filter keeps every element of its input that passes the
/// predicate.
pub proof fn lemma_filter_seq_complete<A>(s: Seq<A>, p: spec_fn(A) -> bool)
    ensures
        forall|x: A| s.contains(x) && p(x) ==> #[trigger] filter_seq(s, p).contains(x),
    decreases s.len(),
{
    if s.len() > 0 {
        let q = s.drop_last();
        lemma_filter_seq_complete(q, p);
        let f2 = filter_seq(q, p);
        assert forall|x: A| s.contains(x) && p(x) implies filter_seq(s, p).contains(x) by {
            let k = choose|k: int| 0 <= k < s.len() && s[k] == x;
            if k == s.len() - 1 {
                let f = f2.push(s.last());
                assert(f[f.len() - 1] == x);
            } else {
                assert(q[k] == x);
                assert(q.contains(x));
                assert(f2.contains(x));
                let j = choose|j: int| 0 <= j < f2.len() && f2[j] == x;
                if p(s.last()) {
                    assert(f2.push(s.last())[j] == x);
                }
            }
        }
    }
}

/// What a filter keeps comes from its input and passes the
/// predicate.
pub proof fn lemma_filter_seq_sound<A>(s: Seq<A>, p: spec_fn(A) -> bool)
    ensures
        forall|x: A| #[trigger] filter_seq(s, p).contains(x) ==> s.contains(x) && p(x),
    decreases s.len(),
{
    if s.len() > 0 {
        lemma_filter_seq_sound(s.drop_last(), p);
        let f2 = filter_seq(s.drop_last(), p);
        assert(filter_seq(s, p) == if p(s.last()) {
            f2.push(s.last())
        } else {
            f2
        });
        assert forall|x: A| filter_seq(s, p).contains(x) implies s.contains(x) && p(x) by {
            let f = filter_seq(s, p);
            let k = choose|k: int| 0 <= k < f.len() && f[k] == x;
            if p(s.last()) && k == f.len() - 1 {
                assert(s[s.len() - 1] == x);
            } else {
                assert(f2[k] == x);
                assert(f2.contains(x));
                assert(s.drop_last().contains(x));
                let j = choose|j: int| 0 <= j < s.drop_last().len() && s.drop_last()[j] == x;
                assert(s[j] == x);
            }
        }
    }
}

/// Every issue the chips keep satisfies every chip, and is one of the
/// listed issues.
pub proof fn lemma_chips_keep_only_matches(
    cs: Seq<FilterClauseModel>,
    rows: Seq<Seq<(u128, Seq<char>)>>,
    ms: Seq<MilestoneModel>,
    issues: Seq<IssueModel>,
)
    ensures
        forall|i: IssueModel|
            filter_seq(issues, keeps_all(cs, rows, ms)).contains(i) ==> issues.contains(i) && forall|k: int|
                0 <= k < cs.len() ==> #[trigger] clause_keeps(cs[k], rows[k], ms, i),
{
    lemma_filter_seq_sound(issues, keeps_all(cs, rows, ms));
}

/// The index of the first milestone with identifier `mid`, found by
/// recursion.
proof fn first_milestone_index(ms: Seq<MilestoneModel>, mid: u128) -> (r: Option<int>)
    ensures
        match r {
            Some(k) => 0 <= k < ms.len() && ms[k].id == mid && forall|j: int| 0 <= j < k ==> ms[j].id != mid,
            None => forall|j: int| 0 <= j < ms.len() ==> ms[j].id != mid,
        },
    decreases ms.len(),
{
    if ms.len() == 0 {
        None
    } else {
        let p = ms.drop_last();
        match first_milestone_index(p, mid) {
            Some(k) => {
                assert(ms[k] == p[k]);
                assert forall|j: int| 0 <= j < k implies ms[j].id != mid by {
                    assert(ms[j] == p[j]);
                }
                Some(k)
            },
            None => {
                assert forall|j: int| 0 <= j < ms.len() - 1 implies ms[j].id != mid by {
                    assert(ms[j] == p[j]);
                }
                if ms.last().id == mid {
                    Some(ms.len() - 1)
                } else {
                    None
                }
            },
        }
    }
}

/// A milestone chip keeps an issue exactly when the issue sits in the
/// repository of the first adopted milestone with that identifier and
/// carries that milestone's title (titles are only unique per
/// repository); an unknown milestone keeps nothing.
pub proof fn lemma_milestone_chip_keeps(
    mid: u128,
    pairs: Seq<(u128, Seq<char>)>,
    ms: Seq<MilestoneModel>,
    i: IssueModel,
)
    ensures
        clause_keeps(FilterClauseModel::Milestone(mid), pairs, ms, i) <==> exists|k: int|
            0 <= k < ms.len() && (#[trigger] ms[k]).id == mid && (forall|j: int| 0 <= j < k ==> ms[j].id != mid)
                && i.repo_id == ms[k].repo_id && i.milestone == Some(ms[k].title),
        (forall|j: int| 0 <= j < ms.len() ==> ms[j].id != mid) ==> !clause_keeps(
            FilterClauseModel::Milestone(mid),
            pairs,
            ms,
            i,
        ),
{
    match first_milestone_index(ms, mid) {
        Some(k0) => {
            assert(exists|k: int| 0 <= k < ms.len() && ms[k].id == mid);
            let k1 = choose|k: int|
                0 <= k < ms.len() && ms[k].id == mid && forall|j: int| 0 <= j < k ==> ms[j].id != mid;
            if k1 < k0 {
                assert(ms[k1].id != mid);
            }
            if k0 < k1 {
                assert(ms[k0].id != mid);
            }
            assert(k1 == k0);
            assert(find_milestone(ms, mid) == Some(ms[k0]));
            if clause_keeps(FilterClauseModel::Milestone(mid), pairs, ms, i) {
                assert(ms[k0].id == mid);
            }
            assert forall|k: int|
                0 <= k < ms.len() && (#[trigger] ms[k]).id == mid && (forall|j: int| 0 <= j < k ==> ms[j].id != mid)
                    && i.repo_id == ms[k].repo_id && i.milestone == Some(ms[k].title) implies clause_keeps(
                FilterClauseModel::Milestone(mid),
                pairs,
                ms,
                i,
            ) by {
                if k < k0 {
                    assert(ms[k].id != mid);
                }
                if k0 < k {
                    assert(ms[k0].id != mid);
                }
            }
        },
        None => {
            assert(!(exists|k: int| 0 <= k < ms.len() && ms[k].id == mid));
        },
    }
}

/// Every issue a milestone chip lets through the list filter is in
/// that milestone's repository and carries its title.
pub proof fn lemma_milestone_filter_same_repo(
    cs: Seq<FilterClauseModel>,
    rows: Seq<Seq<(u128, Seq<char>)>>,
    ms: Seq<MilestoneModel>,
    issues: Seq<IssueModel>,
    i: IssueModel,
    k: int,
    mid: u128,
)
    requires
        filter_seq(issues, keeps_all(cs, rows, ms)).contains(i),
        0 <= k < cs.len(),
        cs[k] == FilterClauseModel::Milestone(mid),
    ensures
        exists|m: int|
            0 <= m < ms.len() && (#[trigger] ms[m]).id == mid && i.repo_id == ms[m].repo_id && i.milestone == Some(
                ms[m].title,
            ),
{
    lemma_filter_seq_sound(issues, keeps_all(cs, rows, ms));
    assert(keeps_all(cs, rows, ms)(i));
    assert(all_clauses_keep(cs, rows, ms, i));
    assert(clause_keeps(cs[k], rows[k], ms, i));
    lemma_milestone_chip_keeps(mid, rows[k], ms, i);
}

/// A status chip names the state it spells: the chip `status:open`
/// keeps open issues and `status:closed` closed ones (dimension and
/// value trimmed), and every parsed status chip came from such a
/// chip.
pub proof fn lemma_status_chip_names_its_state(chunk: Seq<char>)
    ensures
        seq_split_once(chunk, ':') matches Some((d, v)) && seq_trim(d) == "status"@ && seq_trim(v) == "open"@
            ==> spec_parse_clause(chunk) == Ok::<FilterClauseModel, (ErrorCode, Seq<char>)>(
            FilterClauseModel::Status(IssueState::Open),
        ),
        seq_split_once(chunk, ':') matches Some((d, v)) && seq_trim(d) == "status"@ && seq_trim(v) == "closed"@
            ==> spec_parse_clause(chunk) == Ok::<FilterClauseModel, (ErrorCode, Seq<char>)>(
            FilterClauseModel::Status(IssueState::Closed),
        ),
        spec_parse_clause(chunk) matches Ok(FilterClauseModel::Status(s)) ==> (seq_split_once(chunk, ':') matches Some(
            (d, v),
        ) && seq_trim(d) == "status"@ && (s == IssueState::Open <==> seq_trim(v) == "open"@) && (s
            == IssueState::Closed <==> seq_trim(v) == "closed"@)),
{
    reveal(spec_parse_clause);
    reveal_strlit("open");
    reveal_strlit("closed");
    reveal_strlit("status");
    reveal_strlit("assignee");
    reveal_strlit("label");
    reveal_strlit("milestone");
    reveal_strlit("tag");
    assert("open"@ != "closed"@) by {
        assert("open"@.len() != "closed"@.len());
    }
}

/// `(issue_id, tag value)` pairs as models.
pub open spec fn pair_views(v: Seq<(u128, String)>) -> Seq<(u128, Seq<char>)> {
    v.map_values(|p: (u128, String)| (p.0, p.1@))
}

/// The first milestone with identifier `mid`, if any.
pub open spec fn find_milestone(ms: Seq<MilestoneModel>, mid: u128) -> Option<MilestoneModel> {
    if exists|k: int| 0 <= k < ms.len() && ms[k].id == mid {
        let k = choose|k: int|
            0 <= k < ms.len() && ms[k].id == mid && forall|j: int| 0 <= j < k ==> ms[j].id != mid;
        Some(ms[k])
    } else {
        None
    }
}

/// Whether one chip keeps an issue. Tag chips read the
/// `(issue_id, value)` links of their key; milestone chips read the
/// project's milestones and keep the issues of that milestone's repo
/// whose milestone title matches (an unknown milestone keeps none).
pub open spec fn clause_keeps(
    c: FilterClauseModel,
    pairs: Seq<(u128, Seq<char>)>,
    ms: Seq<MilestoneModel>,
    i: IssueModel,
) -> bool {
    match c {
        FilterClauseModel::Status(s) => i.state == s,
        FilterClauseModel::Assignee(l) => exists|k: int|
            0 <= k < i.assignees.len() && spec_eq_ignore_ascii_case(#[trigger] i.assignees[k], l),
        FilterClauseModel::Label(l) => exists|k: int|
            0 <= k < i.labels.len() && spec_eq_ignore_ascii_case(#[trigger] i.labels[k], l),
        FilterClauseModel::Tag { key, value } => exists|k: int|
            0 <= k < pairs.len() && (#[trigger] pairs[k]).0 == i.id && pairs[k].1 == value,
        FilterClauseModel::Milestone(mid) => match find_milestone(ms, mid) {
            None => false,
            Some(m) => i.repo_id == m.repo_id && i.milestone == Some(m.title),
        },
    }
}

/// Whether every chip keeps the issue; `rows[k]` are the links the
/// k-th chip reads.
pub open spec fn all_clauses_keep(
    cs: Seq<FilterClauseModel>,
    rows: Seq<Seq<(u128, Seq<char>)>>,
    ms: Seq<MilestoneModel>,
    i: IssueModel,
) -> bool {
    forall|k: int| 0 <= k < cs.len() ==> #[trigger] clause_keeps(cs[k], rows[k], ms, i)
}

/// The filter predicate of a list of chips.
pub open spec fn keeps_all(
    cs: Seq<FilterClauseModel>,
    rows: Seq<Seq<(u128, Seq<char>)>>,
    ms: Seq<MilestoneModel>,
) -> spec_fn(IssueModel) -> bool {
    |i: IssueModel| all_clauses_keep(cs, rows, ms, i)
}

pub open spec fn rows_views(v: Seq<Vec<(u128, String)>>) -> Seq<Seq<(u128, Seq<char>)>> {
    v.map_values(|r: Vec<(u128, String)>| pair_views(r@))
}

/// A copy of an issue.
pub fn clone_issue(i: &Issue) -> (r: Issue)
    ensures
        r@ == i@,
{
    let assignees = i.assignees.clone();
    let labels = i.labels.clone();
    proof {
        assert(string_views(assignees@) =~= string_views(i.assignees@));
        assert(string_views(labels@) =~= string_views(i.labels@));
    }
    Issue {
        id: i.id,
        org_id: i.org_id,
        repo_id: i.repo_id,
        state: i.state,
        title: i.title.clone(),
        assignees,
        labels,
        milestone: match &i.milestone {
            Some(m) => Some(m.clone()),
            None => None,
        },
        updated_at: i.updated_at,
    }
}

/// Whether some string of `v` equals `needle` ignoring ASCII case.
fn any_eq_ignore_case(v: &Vec<String>, needle: &Vec<char>) -> (r: bool)
    ensures
        r == exists|k: int|
            0 <= k < v@.len() && spec_eq_ignore_ascii_case(#[trigger] string_views(v@)[k], needle@),
{
    let mut k: usize = 0;
    while k < v.len()
        invariant
            k <= v.len(),
            forall|j: int|
                0 <= j < k ==> !spec_eq_ignore_ascii_case(#[trigger] string_views(v@)[j], needle@),
        decreases v.len() - k,
    {
        let a = chars_of(v[k].as_str());
        if eq_ignore_ascii_case(&a, needle) {
            assert(string_views(v@)[k as int] == a@);
            return true;
        }
        assert(string_views(v@)[k as int] == a@);
        k = k + 1;
    }
    false
}

proof fn lemma_find_milestone(ms: Seq<MilestoneModel>, mid: u128, k: int)
    requires
        0 <= k < ms.len(),
        ms[k].id == mid,
        forall|j: int| 0 <= j < k ==> ms[j].id != mid,
    ensures
        find_milestone(ms, mid) == Some(ms[k]),
{
    let c = choose|c: int|
        0 <= c < ms.len() && ms[c].id == mid && forall|j: int| 0 <= j < c ==> ms[j].id != mid;
    assert(0 <= c < ms.len() && ms[c].id == mid && forall|j: int| 0 <= j < c ==> ms[j].id != mid);
    if c < k {
        assert(ms[c].id != mid);
    }
    if k < c {
        assert(ms[k].id != mid);
    }
}

/// Finds the first milestone with the identifier.
fn find_milestone_exec(ms: &Vec<Milestone>, mid: u128) -> (r: Option<usize>)
    ensures
        match r {
            Some(k) => k < ms.len() && find_milestone(milestone_views(ms@), mid) == Some(
                milestone_views(ms@)[k as int],
            ),
            None => find_milestone(milestone_views(ms@), mid) is None,
        },
{
    let ghost mv = milestone_views(ms@);
    let mut k: usize = 0;
    while k < ms.len()
        invariant
            k <= ms.len(),
            mv == milestone_views(ms@),
            forall|j: int| 0 <= j < k ==> (#[trigger] mv[j]).id != mid,
        decreases ms.len() - k,
    {
        assert(mv[k as int].id == ms@[k as int].id);
        if ms[k].id == mid {
            proof {
                lemma_find_milestone(mv, mid, k as int);
            }
            return Some(k);
        }
        k = k + 1;
    }
    None
}

/// Whether some `(issue_id, value)` link names the issue with the value.
fn any_pair_matches(pairs: &Vec<(u128, String)>, id: u128, value: &String) -> (r: bool)
    ensures
        r == exists|k: int|
            0 <= k < pairs@.len() && (#[trigger] pair_views(pairs@)[k]).0 == id && pair_views(pairs@)[k].1
                == value@,
{
    let ghost pv = pair_views(pairs@);
    let mut k: usize = 0;
    while k < pairs.len()
        invariant
            k <= pairs.len(),
            pv == pair_views(pairs@),
            forall|j: int| 0 <= j < k ==> !((#[trigger] pv[j]).0 == id && pv[j].1 == value@),
        decreases pairs.len() - k,
    {
        assert(pv[k as int] == (pairs@[k as int].0, pairs@[k as int].1@));
        if pairs[k].0 == id && pairs[k].1 == *value {
            assert(pv[k as int].0 == id && pv[k as int].1 == value@);
            return true;
        }
        k = k + 1;
    }
    false
}

/// Whether one chip keeps the issue.
fn clause_keeps_exec(
    c: &FilterClause,
    pairs: &Vec<(u128, String)>,
    ms: &Vec<Milestone>,
    i: &Issue,
) -> (r: bool)
    ensures
        r == clause_keeps(c@, pair_views(pairs@), milestone_views(ms@), i@),
{
    let ghost pv = pair_views(pairs@);
    let ghost mv = milestone_views(ms@);
    match c {
        FilterClause::Status(s) => {
            let r = i.state == *s;
            assert(r == clause_keeps(c@, pv, mv, i@));
            r
        },
        FilterClause::Assignee(l) => {
            let needle = chars_of(l.as_str());
            let r = any_eq_ignore_case(&i.assignees, &needle);
            assert(needle@ == l@);
            assert(string_views(i.assignees@).len() == i.assignees@.len());
            assert(c@ == FilterClauseModel::Assignee(l@));
            assert(i@.assignees == string_views(i.assignees@));
            proof {
                if r {
                    let k = choose|k: int|
                        0 <= k < i.assignees@.len() && spec_eq_ignore_ascii_case(
                            #[trigger] string_views(i.assignees@)[k],
                            needle@,
                        );
                    assert(spec_eq_ignore_ascii_case(i@.assignees[k], l@));
                }
            }
            assert(r == clause_keeps(c@, pv, mv, i@));
            r
        },
        FilterClause::Label(l) => {
            let needle = chars_of(l.as_str());
            let r = any_eq_ignore_case(&i.labels, &needle);
            assert(needle@ == l@);
            assert(string_views(i.labels@).len() == i.labels@.len());
            assert(c@ == FilterClauseModel::Label(l@));
            assert(i@.labels == string_views(i.labels@));
            proof {
                if r {
                    let k = choose|k: int|
                        0 <= k < i.labels@.len() && spec_eq_ignore_ascii_case(
                            #[trigger] string_views(i.labels@)[k],
                            needle@,
                        );
                    assert(spec_eq_ignore_ascii_case(i@.labels[k], l@));
                }
            }
            assert(r == clause_keeps(c@, pv, mv, i@));
            r
        },
        FilterClause::Tag { key, value } => {
            let r = any_pair_matches(pairs, i.id, value);
            assert(r == clause_keeps(c@, pv, mv, i@));
            r
        },
        FilterClause::Milestone(mid) => {
            match find_milestone_exec(ms, *mid) {
                None => false,
                Some(k) => {
                    let m = &ms[k];
                    assert(mv[k as int] == m@);
                    if i.repo_id != m.repo_id {
                        return false;
                    }
                    match &i.milestone {
                        None => false,
                        Some(t) => {
                            assert(i@.milestone == Some(t@));
                            let r = *t == m.title;
                            assert(r == clause_keeps(c@, pv, mv, i@));
                            r
                        },
                    }
                },
            }
        },
    }
}

/// Whether every chip keeps the issue.
pub fn issue_passes(
    clauses: &Vec<FilterClause>,
    tag_rows: &Vec<Vec<(u128, String)>>,
    ms: &Vec<Milestone>,
    i: &Issue,
) -> (r: bool)
    requires
        tag_rows.len() == clauses.len(),
    ensures
        r == all_clauses_keep(clause_views(clauses@), rows_views(tag_rows@), milestone_views(ms@), i@),
{
    let ghost cs = clause_views(clauses@);
    let ghost rs = rows_views(tag_rows@);
    let mut k: usize = 0;
    while k < clauses.len()
        invariant
            k <= clauses.len(),
            tag_rows.len() == clauses.len(),
            cs == clause_views(clauses@),
            rs == rows_views(tag_rows@),
            forall|j: int| 0 <= j < k ==> #[trigger] clause_keeps(cs[j], rs[j], milestone_views(ms@), i@),
        decreases clauses.len() - k,
    {
        if !clause_keeps_exec(&clauses[k], &tag_rows[k], ms, i) {
            assert(!clause_keeps(cs[k as int], rs[k as int], milestone_views(ms@), i@));
            return false;
        }
        k = k + 1;
    }
    true
}

/// Keeps the issues every chip keeps, in their order. `tag_rows[k]`
/// holds the `(issue_id, value)` links of the key of chip `k` (empty
/// for other chips); `milestones` are the project's milestones.
pub fn apply_filter_clauses(
    clauses: &Vec<FilterClause>,
    tag_rows: &Vec<Vec<(u128, String)>>,
    milestones: &Vec<Milestone>,
    issues: &Vec<Issue>,
) -> (r: Vec<Issue>)
    requires
        tag_rows.len() == clauses.len(),
    ensures
        issue_views(r@) == filter_seq(
            issue_views(issues@),
            keeps_all(clause_views(clauses@), rows_views(tag_rows@), milestone_views(milestones@)),
        ),
{
    let ghost p = keeps_all(clause_views(clauses@), rows_views(tag_rows@), milestone_views(milestones@));
    let ghost iv = issue_views(issues@);
    let mut out: Vec<Issue> = Vec::new();
    let mut k: usize = 0;
    assert(issue_views(out@) =~= filter_seq(iv.take(0), p));
    while k < issues.len()
        invariant
            k <= issues.len(),
            tag_rows.len() == clauses.len(),
            iv == issue_views(issues@),
            p == keeps_all(clause_views(clauses@), rows_views(tag_rows@), milestone_views(milestones@)),
            issue_views(out@) == filter_seq(iv.take(k as int), p),
        decreases issues.len() - k,
    {
        assert(iv.take(k + 1).drop_last() =~= iv.take(k as int));
        assert(iv.take(k + 1).last() == issues@[k as int]@);
        let keep = issue_passes(clauses, tag_rows, milestones, &issues[k]);
        assert(iv[k as int] == issues@[k as int]@);
        assert(keep == p(iv[k as int]));
        assert(filter_seq(iv.take(k + 1), p) == if p(iv[k as int]) {
            filter_seq(iv.take(k as int), p).push(iv[k as int])
        } else {
            filter_seq(iv.take(k as int), p)
        });
        if keep {
            let c = clone_issue(&issues[k]);
            let ghost before = issue_views(out@);
            out.push(c);
            assert(issue_views(out@) =~= before.push(issues@[k as int]@));
        }
        k = k + 1;
    }
    assert(iv.take(issues.len() as int) =~= iv);
    out
}


// ---------------------------------------------------------------------------
// Sorting
// ---------------------------------------------------------------------------

/// Whether `a` comes strictly before `b` under the sort order. Titles
/// compare by their Unicode lower-casing, as strings.
pub open spec fn issue_precedes(sort: SortOrder, a: IssueModel, b: IssueModel) -> bool {
    match sort {
        SortOrder::UpdatedDesc => a.updated_at > b.updated_at,
        SortOrder::UpdatedAsc => a.updated_at < b.updated_at,
        SortOrder::TitleAsc => seq_lt(unicode_lowercase(a.title), unicode_lowercase(b.title)),
    }
}

/// Where a stable insertion puts `x` into `s`: before the first
/// element that `x` strictly precedes, after all others.
pub open spec fn insert_pos(s: Seq<IssueModel>, x: IssueModel, sort: SortOrder) -> int
    decreases s.len(),
{
    if s.len() == 0 {
        0
    } else if issue_precedes(sort, x, s[0]) {
        0
    } else {
        1 + insert_pos(s.drop_first(), x, sort)
    }
}

/// The stable sort of `s`: each element in turn is inserted after
/// every earlier element it does not strictly precede.
pub open spec fn sort_issues(s: Seq<IssueModel>, sort: SortOrder) -> Seq<IssueModel>
    decreases s.len(),
{
    if s.len() == 0 {
        s
    } else {
        let r = sort_issues(s.drop_last(), sort);
        r.insert(insert_pos(r, s.last(), sort), s.last())
    }
}

/// Sorting keeps the length.
pub proof fn lemma_sort_issues_len(s: Seq<IssueModel>, sort: SortOrder)
    ensures
        sort_issues(s, sort).len() == s.len(),
    decreases s.len(),
{
    if s.len() > 0 {
        lemma_sort_issues_len(s.drop_last(), sort);
        lemma_insert_pos_bounds(sort_issues(s.drop_last(), sort), s.last(), sort);
    }
}

proof fn lemma_insert_pos_bounds(s: Seq<IssueModel>, x: IssueModel, sort: SortOrder)
    ensures
        0 <= insert_pos(s, x, sort) <= s.len(),
    decreases s.len(),
{
    if s.len() > 0 {
        lemma_insert_pos_bounds(s.drop_first(), x, sort);
    }
}

proof fn lemma_insert_pos(s: Seq<IssueModel>, x: IssueModel, sort: SortOrder, j: int)
    requires
        0 <= j <= s.len(),
        forall|m: int| 0 <= m < j ==> !issue_precedes(sort, x, #[trigger] s[m]),
        j == s.len() || issue_precedes(sort, x, s[j]),
    ensures
        insert_pos(s, x, sort) == j,
    decreases j,
{
    if j > 0 {
        assert(!issue_precedes(sort, x, s[0]));
        assert forall|m: int| 0 <= m < j - 1 implies !issue_precedes(
            sort,
            x,
            #[trigger] s.drop_first()[m],
        ) by {
            assert(s.drop_first()[m] == s[m + 1]);
        }
        if j < s.len() {
            assert(s.drop_first()[j - 1] == s[j]);
        }
        lemma_insert_pos(s.drop_first(), x, sort, j - 1);
    }
}

/// `issue_precedes` on the executable values; `al` and `bl` are the
/// lower-cased titles.
fn precedes_exec(sort: SortOrder, a: &Issue, al: &Vec<char>, b: &Issue, bl: &Vec<char>) -> (r: bool)
    requires
        al@ == unicode_lowercase(a.title@),
        bl@ == unicode_lowercase(b.title@),
    ensures
        r == issue_precedes(sort, a@, b@),
{
    match sort {
        SortOrder::UpdatedDesc => a.updated_at > b.updated_at,
        SortOrder::UpdatedAsc => a.updated_at < b.updated_at,
        SortOrder::TitleAsc => lt_chars(al, bl),
    }
}

/// The issues in sort order; equal keys keep their input order.
pub fn apply_sort(issues: &Vec<Issue>, sort: SortOrder) -> (r: Vec<Issue>)
    ensures
        issue_views(r@) == sort_issues(issue_views(issues@), sort),
{
    let ghost iv = issue_views(issues@);
    let mut out: Vec<Issue> = Vec::new();
    let mut lows: Vec<Vec<char>> = Vec::new();
    let mut k: usize = 0;
    assert(iv.take(0) =~= Seq::<IssueModel>::empty());
    while k < issues.len()
        invariant
            k <= issues.len(),
            iv == issue_views(issues@),
            lows.len() == out.len(),
            forall|j: int| 0 <= j < out.len() ==> (#[trigger] lows@[j])@ == unicode_lowercase(out@[j].title@),
            issue_views(out@) == sort_issues(iv.take(k as int), sort),
        decreases issues.len() - k,
    {
        let x = &issues[k];
        let xl = chars_of(to_lowercase(x.title.as_str()).as_str());
        let ghost ov = issue_views(out@);
        let mut p: usize = 0;
        while p < out.len()
            invariant
                p <= out.len(),
                lows.len() == out.len(),
                ov == issue_views(out@),
                xl@ == unicode_lowercase(x.title@),
                forall|j: int| 0 <= j < out.len() ==> (#[trigger] lows@[j])@ == unicode_lowercase(out@[j].title@),
                forall|m: int| 0 <= m < p ==> !issue_precedes(sort, x@, #[trigger] ov[m]),
            ensures
                p <= out.len(),
                forall|m: int| 0 <= m < p ==> !issue_precedes(sort, x@, #[trigger] ov[m]),
                p == out.len() || issue_precedes(sort, x@, ov[p as int]),
            decreases out.len() - p,
        {
            assert(ov[p as int] == out@[p as int]@);
            if precedes_exec(sort, x, &xl, &out[p], &lows[p]) {
                break;
            }
            p = p + 1;
        }
        proof {
            if p < out.len() {
                assert(ov[p as int] == out@[p as int]@);
            }
            lemma_insert_pos(ov, x@, sort, p as int);
            assert(iv.take(k + 1).drop_last() =~= iv.take(k as int));
            assert(iv.take(k + 1).last() == x@);
        }
        let c = clone_issue(x);
        let ghost lows_before = lows@;
        out.insert(p, c);
        lows.insert(p, xl);
        proof {
            assert(issue_views(out@) =~= ov.insert(p as int, x@));
            assert forall|j: int| 0 <= j < out.len() implies (#[trigger] lows@[j])@ == unicode_lowercase(
                out@[j].title@,
            ) by {
                if j < p {
                } else if j == p {
                } else {
                    assert(lows@[j] == lows_before[j - 1]);
                }
            }
        }
        k = k + 1;
    }
    assert(iv.take(issues.len() as int) =~= iv);
    out
}


// ---------------------------------------------------------------------------
// Membership writes
// ---------------------------------------------------------------------------

/// `POST /projects/{id}/issues` body.
#[derive(Debug, Clone)]
pub struct BulkAddIssuesRequest {
    /// The project version the caller saw; required unless `view_id`.
    pub expected_version: Option<i64>,
    pub issue_ids: Vec<u128>,
    /// Saved view to attach to instead of the project.
    pub view_id: Option<u128>,
}

/// One issue a bulk add did not attach.
#[derive(Debug, Clone)]
pub struct BulkAddSkipDto {
    pub issue_id: u128,
    /// `unknown_issue`, `cross_org`, or the store's reason.
    pub reason: String,
    /// The project already holding the issue, when that is the reason.
    pub existing_project_id: Option<u128>,
}

/// Per-row outcome of a bulk add.
#[derive(Debug, Clone)]
pub struct BulkAddResult {
    pub added: Vec<u128>,
    pub skipped: Vec<BulkAddSkipDto>,
}

/// Where a membership write goes.
#[derive(Debug, Clone, Copy, PartialEq, Eq, Structural)]
pub enum MembershipTarget {
    /// A saved view's own membership; no version check.
    View(u128),
    /// The project, CAS-gated on the caller's version.
    Project(i64),
}

/// `issue_ids is capped at 100; got <n>`.
pub open spec fn bulk_add_too_large_text(n: int) -> Seq<char> {
    "issue_ids is capped at 100; got "@ + decimal(n)
}

/// The target of a bulk add: at most [`BULK_ADD_ISSUE_CAP`] ids
/// (else `bulk_add_too_large`); the view when one is named; else the
/// project, which needs `expected_version` (else
/// `missing_expected_version`).
pub fn route_bulk_add(body: &BulkAddIssuesRequest) -> (r: Result<MembershipTarget, ApiError>)
    ensures
        body.issue_ids.len() > BULK_ADD_ISSUE_CAP ==> (r matches Err(e) && is_bad(
            e,
            ErrorCode::BulkAddTooLarge,
            bulk_add_too_large_text(body.issue_ids.len() as int),
        )),
        body.issue_ids.len() <= BULK_ADD_ISSUE_CAP ==> match body.view_id {
            Some(v) => r == Ok::<MembershipTarget, ApiError>(MembershipTarget::View(v)),
            None => match body.expected_version {
                Some(ev) => r == Ok::<MembershipTarget, ApiError>(MembershipTarget::Project(ev)),
                None => r matches Err(e) && is_bad(
                    e,
                    ErrorCode::MissingExpectedVersion,
                    "expected_version is required for project-level bulk add"@,
                ),
            },
        },
{
    if body.issue_ids.len() > BULK_ADD_ISSUE_CAP {
        let n = decimal_count(body.issue_ids.len());
        return Err(bad_request(ErrorCode::BulkAddTooLarge, join2("issue_ids is capped at 100; got ", n.as_str())));
    }
    match body.view_id {
        Some(v) => Ok(MembershipTarget::View(v)),
        None => match body.expected_version {
            Some(ev) => Ok(MembershipTarget::Project(ev)),
            None => Err(
                bad_request(
                    ErrorCode::MissingExpectedVersion,
                    "expected_version is required for project-level bulk add".to_owned(),
                ),
            ),
        },
    }
}

/// `DELETE /projects/{id}/issues/{issue_id}` query.
#[derive(Debug, Clone, Copy)]
pub struct RemoveIssueQuery {
    pub expected_version: Option<i64>,
    pub view: Option<u128>,
}

/// The target of a detach: the view when named, else the project,
/// which needs `expected_version`.
pub fn route_remove(q: &RemoveIssueQuery) -> (r: Result<MembershipTarget, ApiError>)
    ensures
        match q.view {
            Some(v) => r == Ok::<MembershipTarget, ApiError>(MembershipTarget::View(v)),
            None => match q.expected_version {
                Some(ev) => r == Ok::<MembershipTarget, ApiError>(MembershipTarget::Project(ev)),
                None => r matches Err(e) && is_bad(
                    e,
                    ErrorCode::MissingExpectedVersion,
                    "expected_version query param is required for project-level detach"@,
                ),
            },
        },
{
    match q.view {
        Some(v) => Ok(MembershipTarget::View(v)),
        None => match q.expected_version {
            Some(ev) => Ok(MembershipTarget::Project(ev)),
            None => Err(
                bad_request(
                    ErrorCode::MissingExpectedVersion,
                    "expected_version query param is required for project-level detach".to_owned(),
                ),
            ),
        },
    }
}

/// Why an issue cannot join a saved view: it does not exist, or it
/// belongs to another organisation than the project.
pub open spec fn view_skip_reason(org: Option<u128>) -> Seq<char> {
    match org {
        None => seq!['u', 'n', 'k', 'n', 'o', 'w', 'n', '_', 'i', 's', 's', 'u', 'e'],
        Some(_) => seq!['c', 'r', 'o', 's', 's', '_', 'o', 'r', 'g'],
    }
}

/// Issues that can join a view of a project of organisation `org`.
pub open spec fn joins_view(org: u128) -> spec_fn((u128, Option<u128>)) -> bool {
    |x: (u128, Option<u128>)| x.1 == Some(org)
}

pub open spec fn skip_views(v: Seq<BulkAddSkipDto>) -> Seq<(u128, Seq<char>, Option<u128>)> {
    v.map_values(|s: BulkAddSkipDto| (s.issue_id, s.reason@, s.existing_project_id))
}

/// Splits a saved-view bulk add. `found[k]` is the `k`-th requested
/// issue with the organisation of its stored row (`None` when there
/// is none). Issues of the project's organisation are added, in
/// order; the others are skipped, in order, as `unknown_issue` or
/// `cross_org`.
pub fn classify_view_adds(found: &Vec<(u128, Option<u128>)>, project_org: u128) -> (r: BulkAddResult)
    ensures
        r.added@ == filter_seq(found@, joins_view(project_org)).map_values(|x: (u128, Option<u128>)| x.0),
        skip_views(r.skipped@) == filter_seq(found@, |x: (u128, Option<u128>)| !joins_view(project_org)(x)).map_values(
            |x: (u128, Option<u128>)| (x.0, view_skip_reason(x.1), None::<u128>),
        ),
{
    let ghost pj = joins_view(project_org);
    let ghost pn = |x: (u128, Option<u128>)| !joins_view(project_org)(x);
    let mut added: Vec<u128> = Vec::new();
    let mut skipped: Vec<BulkAddSkipDto> = Vec::new();
    let mut k: usize = 0;
    while k < found.len()
        invariant
            k <= found.len(),
            pj == joins_view(project_org),
            pn == (|x: (u128, Option<u128>)| !joins_view(project_org)(x)),
            added@ == filter_seq(found@.take(k as int), pj).map_values(|x: (u128, Option<u128>)| x.0),
            skip_views(skipped@) == filter_seq(found@.take(k as int), pn).map_values(
                |x: (u128, Option<u128>)| (x.0, view_skip_reason(x.1), None::<u128>),
            ),
        decreases found.len() - k,
    {
        let (id, org) = found[k];
        let ghost x = found@[k as int];
        assert(found@.take(k + 1).drop_last() =~= found@.take(k as int));
        assert(found@.take(k + 1).last() == x);
        if org == Some(project_org) {
            let ghost before = added@;
            added.push(id);
            assert(pj(x) && !pn(x));
            assert(added@ =~= filter_seq(found@.take(k + 1), pj).map_values(|x: (u128, Option<u128>)| x.0));
            assert(skip_views(skipped@) =~= filter_seq(found@.take(k + 1), pn).map_values(
                |x: (u128, Option<u128>)| (x.0, view_skip_reason(x.1), None::<u128>),
            ));
        } else {
            let reason = match org {
                None => string_from(&chars_of("unknown_issue")),
                Some(_) => string_from(&chars_of("cross_org")),
            };
            proof {
                reveal_strlit("unknown_issue");
                reveal_strlit("cross_org");
                assert(reason@ =~= view_skip_reason(org));
            }
            let ghost before = skip_views(skipped@);
            skipped.push(BulkAddSkipDto { issue_id: id, reason, existing_project_id: None });
            assert(!pj(x) && pn(x));
            assert(skip_views(skipped@) =~= before.push((id, view_skip_reason(org), None::<u128>)));
            assert(skip_views(skipped@) =~= filter_seq(found@.take(k + 1), pn).map_values(
                |x: (u128, Option<u128>)| (x.0, view_skip_reason(x.1), None::<u128>),
            ));
            assert(added@ =~= filter_seq(found@.take(k + 1), pj).map_values(|x: (u128, Option<u128>)| x.0));
        }
        k = k + 1;
    }
    assert(found@.take(found.len() as int) =~= found@);
    BulkAddResult { added, skipped }
}

/// `issue <id> is not attached to project <project>`.
pub open spec fn not_attached_text(id: Seq<char>, project_id: u128) -> Seq<char> {
    "issue "@ + id + " is not attached to project "@ + uuid_hyphenated(project_id)
}

/// The answer to a failed CAS-gated membership write on project
/// `project_id`: a missing project or attachment is `404
/// project_not_found` / `project_issue_not_found`, a version conflict
/// `409 stale_project_version` and a rule violation `400
/// project_invalid` (both with the store's text); anything else
/// passes through.
pub fn map_cas_error(project_id: u128, err: StoreError) -> (r: ApiError)
    ensures
        match err {
            StoreError::NotFound { entity, id } => if entity@ == "project"@ {
                is_not_found(r, ErrorCode::ProjectNotFound, crate::error::no_project_text(project_id))
            } else if entity@ == "project_issue"@ {
                is_not_found(r, ErrorCode::ProjectIssueNotFound, not_attached_text(id@, project_id))
            } else {
                r == ApiError::Store(err)
            },
            StoreError::Conflict(m) => is_conflict(r, ErrorCode::StaleProjectVersion, m@),
            StoreError::Invalid(m) => is_bad(r, ErrorCode::ProjectInvalid, m@),
            _ => r == ApiError::Store(err),
        },
{
    match err {
        StoreError::NotFound { entity, id } => if str_eq(entity.as_str(), "project") {
            crate::error::no_project(project_id)
        } else if str_eq(entity.as_str(), "project_issue") {
            let p = uuid_to_string(project_id);
            not_found(
                ErrorCode::ProjectIssueNotFound,
                join4("issue ", id.as_str(), " is not attached to project ", p.as_str()),
            )
        } else {
            ApiError::Store(StoreError::NotFound { entity, id })
        },
        StoreError::Conflict(m) => ApiError::Conflict { code: ErrorCode::StaleProjectVersion, message: m },
        StoreError::Invalid(m) => ApiError::BadRequest { code: ErrorCode::ProjectInvalid, message: m },
        e => ApiError::Store(e),
    }
}

// ---------------------------------------------------------------------------
// Group-by options
// ---------------------------------------------------------------------------

/// One entry of the Group-by dropdown.
#[derive(Debug, Clone)]
pub struct GroupByOptionDto {
    /// `status` or `tag:<key>`, passed back as `?group_by=`.
    pub id: String,
    pub label: String,
}

/// `GET /projects/{id}/group-by-options` body.
#[derive(Debug, Clone)]
pub struct GroupByOptionsResponse {
    pub dims: Vec<GroupByOptionDto>,
}

/// `key` with its first character upper-cased (`gate` → `Gate`).
pub open spec fn spec_title_case_dim(key: Seq<char>) -> Seq<char> {
    if key.len() == 0 {
        key
    } else {
        unicode_uppercase(key[0]) + key.drop_first()
    }
}

/// Upper-cases the first character of a kv key.
pub fn title_case_dim(key: &str) -> (r: String)
    ensures
        r@ == spec_title_case_dim(key@),
{
    let k = chars_of(key);
    if k.len() == 0 {
        return String::new();
    }
    let head = chars_of(to_uppercase(k[0]).as_str());
    let mut out = head;
    let mut j: usize = 1;
    let ghost h = out@;
    while j < k.len()
        invariant
            1 <= j <= k.len(),
            out@ == h + k@.subrange(1, j as int),
        decreases k.len() - j,
    {
        out.push(k[j]);
        assert(k@.subrange(1, j + 1) =~= k@.subrange(1, j as int).push(k@[j as int]));
        j = j + 1;
    }
    assert(k@.subrange(1, k.len() as int) =~= k@.drop_first());
    string_from(&out)
}

pub open spec fn option_views(v: Seq<GroupByOptionDto>) -> Seq<(Seq<char>, Seq<char>)> {
    v.map_values(|o: GroupByOptionDto| (o.id@, o.label@))
}

/// The dropdown: `status` first, then one `tag:<key>` per key, in the
/// order given, labelled by [`title_case_dim`].
pub fn group_by_options(keys: &Vec<String>) -> (r: GroupByOptionsResponse)
    ensures
        option_views(r.dims@) == seq![(seq!['s', 't', 'a', 't', 'u', 's'], seq!['S', 't', 'a', 't', 'u', 's'])]
            + string_views(keys@).map_values(
            |k: Seq<char>| (seq!['t', 'a', 'g', ':'] + k, spec_title_case_dim(k)),
        ),
{
    let mut dims: Vec<GroupByOptionDto> = Vec::new();
    dims.push(GroupByOptionDto { id: string_from(&chars_of("status")), label: string_from(&chars_of("Status")) });
    proof {
        reveal_strlit("status");
        reveal_strlit("Status");
        reveal_strlit("tag:");
    }
    let ghost kv = string_views(keys@);
    let ghost f = |k: Seq<char>| (seq!['t', 'a', 'g', ':'] + k, spec_title_case_dim(k));
    assert(dims@[0].id@ =~= seq!['s', 't', 'a', 't', 'u', 's']);
    assert(dims@[0].label@ =~= seq!['S', 't', 'a', 't', 'u', 's']);
    assert(option_views(dims@) =~= seq![(seq!['s', 't', 'a', 't', 'u', 's'], seq!['S', 't', 'a', 't', 'u', 's'])] + kv.take(0).map_values(f));
    let mut j: usize = 0;
    while j < keys.len()
        invariant
            j <= keys.len(),
            kv == string_views(keys@),
            f == (|k: Seq<char>| (seq!['t', 'a', 'g', ':'] + k, spec_title_case_dim(k))),
            option_views(dims@) == seq![(seq!['s', 't', 'a', 't', 'u', 's'], seq!['S', 't', 'a', 't', 'u', 's'])] + kv.take(
                j as int,
            ).map_values(f),
        decreases keys.len() - j,
    {
        let mut id = chars_of("tag:");
        let key = chars_of(keys[j].as_str());
        let ghost id0 = id@;
        let mut m: usize = 0;
        while m < key.len()
            invariant
                m <= key.len(),
                id@ == id0 + key@.take(m as int),
            decreases key.len() - m,
        {
            id.push(key[m]);
            assert(key@.take(m + 1) =~= key@.take(m as int).push(key@[m as int]));
            m = m + 1;
        }
        assert(key@.take(key.len() as int) =~= key@);
        let label = title_case_dim(keys[j].as_str());
        let ghost before = option_views(dims@);
        dims.push(GroupByOptionDto { id: string_from(&id), label });
        proof {
            assert(kv[j as int] == keys@[j as int]@);
            reveal_strlit("tag:");
            assert(id0 =~= seq!['t', 'a', 'g', ':']);
            assert(option_views(dims@) =~= before.push(f(kv[j as int])));
            assert(kv.take(j + 1).map_values(f) =~= kv.take(j as int).map_values(f).push(f(kv[j as int])));
        }
        j = j + 1;
    }
    assert(kv.take(keys.len() as int) =~= kv);
    GroupByOptionsResponse { dims }
}


/// No later issue strictly precedes an earlier one.
pub open spec fn issues_sorted(r: Seq<IssueModel>, sort: SortOrder) -> bool {
    forall|i: int, j: int| 0 <= i < j < r.len() ==> !issue_precedes(sort, #[trigger] r[j], #[trigger] r[i])
}

proof fn lemma_precedes_transitive(sort: SortOrder, a: IssueModel, b: IssueModel, c: IssueModel)
    requires
        issue_precedes(sort, a, b),
        issue_precedes(sort, b, c),
    ensures
        issue_precedes(sort, a, c),
{
    if sort == SortOrder::TitleAsc {
        lemma_seq_lt_transitive(unicode_lowercase(a.title), unicode_lowercase(b.title), unicode_lowercase(c.title));
    }
}

proof fn lemma_precedes_irreflexive(sort: SortOrder, a: IssueModel)
    ensures
        !issue_precedes(sort, a, a),
{
    if sort == SortOrder::TitleAsc {
        lemma_seq_lt_irreflexive(unicode_lowercase(a.title));
    }
}

proof fn lemma_insert_pos_props(s: Seq<IssueModel>, x: IssueModel, sort: SortOrder)
    ensures
        0 <= insert_pos(s, x, sort) <= s.len(),
        forall|m: int| 0 <= m < insert_pos(s, x, sort) ==> !issue_precedes(sort, x, #[trigger] s[m]),
        insert_pos(s, x, sort) < s.len() ==> issue_precedes(sort, x, s[insert_pos(s, x, sort)]),
    decreases s.len(),
{
    if s.len() > 0 && !issue_precedes(sort, x, s[0]) {
        let t = s.drop_first();
        lemma_insert_pos_props(t, x, sort);
        assert forall|m: int| 0 <= m < insert_pos(s, x, sort) implies !issue_precedes(sort, x, #[trigger] s[m]) by {
            if m > 0 {
                assert(s[m] == t[m - 1]);
            }
        }
        if insert_pos(s, x, sort) < s.len() {
            assert(s[insert_pos(s, x, sort)] == t[insert_pos(t, x, sort)]);
        }
    }
}

proof fn lemma_insert_keeps_sorted(s: Seq<IssueModel>, x: IssueModel, sort: SortOrder)
    requires
        issues_sorted(s, sort),
    ensures
        issues_sorted(s.insert(insert_pos(s, x, sort), x), sort),
{
    lemma_insert_pos_props(s, x, sort);
    let p = insert_pos(s, x, sort);
    let n = s.insert(p, x);
    assert forall|i: int, j: int| 0 <= i < j < n.len() implies !issue_precedes(sort, #[trigger] n[j], #[trigger] n[i]) by {
        if j < p {
            assert(n[i] == s[i] && n[j] == s[j]);
        } else if j == p {
            assert(n[i] == s[i] && n[j] == x);
        } else if i == p {
            assert(n[i] == x && n[j] == s[j - 1]);
            if issue_precedes(sort, s[j - 1], x) {
                if j - 1 == p {
                    lemma_precedes_transitive(sort, s[p], x, s[p]);
                    lemma_precedes_irreflexive(sort, s[p]);
                } else {
                    lemma_precedes_transitive(sort, s[j - 1], x, s[p]);
                }
            }
        } else if i < p {
            assert(n[i] == s[i] && n[j] == s[j - 1]);
        } else {
            assert(n[i] == s[i - 1] && n[j] == s[j - 1]);
        }
    }
}

/// The sorted list is in order: no issue strictly precedes one shown
/// before it.
pub proof fn lemma_sort_issues_sorted(s: Seq<IssueModel>, sort: SortOrder)
    ensures
        issues_sorted(sort_issues(s, sort), sort),
    decreases s.len(),
{
    if s.len() > 0 {
        lemma_sort_issues_sorted(s.drop_last(), sort);
        lemma_insert_keeps_sorted(sort_issues(s.drop_last(), sort), s.last(), sort);
    }
}

/// Sorting neither drops nor duplicates an issue: the sorted list is a
/// permutation of the input.
pub proof fn lemma_sort_issues_permutes(s: Seq<IssueModel>, sort: SortOrder)
    ensures
        sort_issues(s, sort).to_multiset() == s.to_multiset(),
    decreases s.len(),
{
    if s.len() > 0 {
        let r = sort_issues(s.drop_last(), sort);
        lemma_sort_issues_permutes(s.drop_last(), sort);
        lemma_insert_pos_bounds(r, s.last(), sort);
        vstd::seq_lib::to_multiset_insert(r, insert_pos(r, s.last(), sort), s.last());
        vstd::seq_lib::to_multiset_build(s.drop_last(), s.last());
        assert(s.drop_last().push(s.last()) =~= s);
    }
}

} // verus!
