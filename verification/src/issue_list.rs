//! `GET /projects/{id}/issues`: the query is parsed into a plan before
//! any store read, and the issues the store returns are filtered,
//! grouped, sorted and paged by the plan.

use vstd::prelude::*;

use crate::error::{is_rejection, ApiError};
use crate::issue_buckets::{bucket_keys, bucket_keys_for, bucket_views, build_buckets, opt_string_views, status_buckets, tag_buckets_ok, IssueBucket};
use crate::project_issues::{
    apply_filter_clauses, apply_sort, lemma_filter_seq_len, lemma_sort_issues_len, clause_views, clone_issue, filter_seq, issue_views, keeps_all,
    pair_views, parse_filter, parse_group_by, parse_sort, parse_state, rows_views, sort_issues, spec_parse_filter,
    spec_parse_group_by, spec_parse_sort, spec_parse_state, FilterClause, FilterClauseModel, GroupBy, GroupByModel,
    Issue, IssueModel, IssueState, SortOrder,
};
use crate::project_milestones::{milestone_views, Milestone};
use crate::repos::{clamp_limit, clamp_offset, spec_clamp_limit};
use crate::text::{chars_of, contains, seq_contains, seq_trim, string_from, to_lowercase, trim, unicode_lowercase};

verus! {

/// Query of `GET /projects/{id}/issues`.
#[derive(Debug, Clone)]
pub struct ListProjectIssuesQuery {
    /// `open | closed | all` (default all).
    pub state: Option<String>,
    /// Case-insensitive substring of the title.
    pub q: Option<String>,
    pub limit: Option<i64>,
    pub offset: Option<i64>,
    pub group_by: Option<String>,
    pub filter: Option<String>,
    pub sort: Option<String>,
    /// Saved view whose membership replaces the project's.
    pub view: Option<u128>,
}

/// What the list route does once the query has been read.
pub struct IssueListPlan {
    pub state: Option<IssueState>,
    /// Lower-cased, trimmed search text; `None` when blank.
    pub needle: Option<Vec<char>>,
    pub group_by: Option<GroupBy>,
    pub clauses: Vec<FilterClause>,
    pub sort: SortOrder,
    pub limit: i64,
    pub offset: i64,
}

/// The search text the list matches titles against.
pub open spec fn spec_needle(q: Option<Seq<char>>) -> Option<Seq<char>> {
    match q {
        Some(s) => if unicode_lowercase(seq_trim(s)).len() > 0 {
            Some(unicode_lowercase(seq_trim(s)))
        } else {
            None
        },
        None => None,
    }
}

pub open spec fn opt_chars(o: Option<Vec<char>>) -> Option<Seq<char>> {
    match o {
        Some(v) => Some(v@),
        None => None,
    }
}

pub open spec fn opt_view(o: Option<String>) -> Option<Seq<char>> {
    match o {
        Some(s) => Some(s@),
        None => None,
    }
}

/// Reads the query: `state`, then `group_by`, `filter` and `sort`;
/// the first malformed one answers its `400`.
pub fn plan_issue_list(q: &ListProjectIssuesQuery) -> (r: Result<IssueListPlan, ApiError>)
    ensures
        match spec_parse_state(opt_view(q.state)) {
            Err(c) => r matches Err(e) && is_rejection(e, c),
            Ok(st) => match spec_parse_group_by(opt_view(q.group_by)) {
                Err(c) => r matches Err(e) && is_rejection(e, c),
                Ok(g) => match spec_parse_filter(opt_view(q.filter)) {
                    Err(c) => r matches Err(e) && is_rejection(e, c),
                    Ok(cs) => match spec_parse_sort(opt_view(q.sort)) {
                        Err(c) => r matches Err(e) && is_rejection(e, c),
                        Ok(so) => r matches Ok(p) && {
                            &&& p.state == st
                            &&& match (p.needle, spec_needle(opt_view(q.q))) {
                                (Some(n), Some(m)) => n@ == m,
                                (None, None) => true,
                                _ => false,
                            }
                            &&& match (p.group_by, g) {
                                (Some(x), Some(y)) => x@ == y,
                                (None, None) => true,
                                _ => false,
                            }
                            &&& clause_views(p.clauses@) == cs
                            &&& p.sort == so
                            &&& p.limit == spec_clamp_limit(q.limit)
                            &&& p.offset == if q.offset matches Some(n) && n > 0 {
                                q.offset->0
                            } else {
                                0
                            }
                        },
                    },
                },
            },
        },
{
    let state = parse_state(match &q.state {
        Some(s) => Some(s.as_str()),
        None => None,
    })?;
    let needle = match &q.q {
        Some(s) => {
            let t = string_from(&trim(s.as_str()));
            let l = chars_of(to_lowercase(t.as_str()).as_str());
            if l.len() > 0 {
                Some(l)
            } else {
                None
            }
        },
        None => None,
    };
    let group_by = parse_group_by(match &q.group_by {
        Some(s) => Some(s.as_str()),
        None => None,
    })?;
    let clauses = parse_filter(match &q.filter {
        Some(s) => Some(s.as_str()),
        None => None,
    })?;
    let sort = parse_sort(match &q.sort {
        Some(s) => Some(s.as_str()),
        None => None,
    })?;
    Ok(IssueListPlan { state, needle, group_by, clauses, sort, limit: clamp_limit(q.limit), offset: clamp_offset(q.offset) })
}

/// Keeps the issues of state `st`, if any is named.
pub open spec fn state_keeps(st: Option<IssueState>) -> spec_fn(IssueModel) -> bool {
    |i: IssueModel| match st {
        Some(s) => i.state == s,
        None => true,
    }
}

/// Keeps the issues whose lower-cased title contains the needle.
pub open spec fn title_keeps(needle: Option<Seq<char>>) -> spec_fn(IssueModel) -> bool {
    |i: IssueModel| match needle {
        Some(n) => seq_contains(unicode_lowercase(i.title), n),
        None => true,
    }
}

/// The page `[offset, offset + limit)` of `s`.
pub open spec fn page_of<A>(s: Seq<A>, offset: int, limit: int) -> Seq<A> {
    if offset >= s.len() {
        Seq::empty()
    } else if offset + limit < s.len() {
        s.subrange(offset, offset + limit)
    } else {
        s.subrange(offset, s.len() as int)
    }
}

/// One page of the project issue list.
pub struct IssueListing {
    /// The rows of the page, in sort order.
    pub rows: Vec<Issue>,
    /// Per row, its bucket keys, when the list is grouped.
    pub bucket_keys: Option<Vec<Vec<Option<String>>>>,
    /// Issues across all pages.
    pub total: i64,
    pub limit: i64,
    pub offset: i64,
    pub buckets: Option<Vec<IssueBucket>>,
}

/// The issues that survive the state, title and chip filters, in
/// membership order.
pub open spec fn kept_issues(
    plan_state: Option<IssueState>,
    needle: Option<Seq<char>>,
    clauses: Seq<FilterClauseModel>,
    tag_rows: Seq<Seq<(u128, Seq<char>)>>,
    ms: Seq<crate::project_milestones::MilestoneModel>,
    issues: Seq<IssueModel>,
) -> Seq<IssueModel> {
    filter_seq(
        filter_seq(filter_seq(issues, state_keeps(plan_state)), title_keeps(needle)),
        keeps_all(clauses, tag_rows, ms),
    )
}

/// Keeps the issues the predicate keeps (the state or title filter).
fn retain_issues(issues: Vec<Issue>, st: Option<IssueState>, needle: &Option<Vec<char>>) -> (r: Vec<Issue>)
    ensures
        issue_views(r@) == filter_seq(
            filter_seq(issue_views(issues@), state_keeps(st)),
            title_keeps(opt_chars(*needle)),
        ),
{
    let ghost nd = opt_chars(*needle);
    let ghost p1 = state_keeps(st);
    let ghost p2 = title_keeps(nd);
    let ghost iv = issue_views(issues@);
    let mut by_state: Vec<Issue> = Vec::new();
    let mut k: usize = 0;
    while k < issues.len()
        invariant
            k <= issues.len(),
            iv == issue_views(issues@),
            p1 == state_keeps(st),
            issue_views(by_state@) == filter_seq(iv.take(k as int), p1),
        decreases issues.len() - k,
    {
        assert(iv.take(k + 1).drop_last() =~= iv.take(k as int));
        assert(iv.take(k + 1).last() == issues@[k as int]@);
        let keep = match st {
            Some(s) => issues[k].state == s,
            None => true,
        };
        if keep {
            let ghost before = issue_views(by_state@);
            by_state.push(clone_issue(&issues[k]));
            assert(issue_views(by_state@) =~= before.push(issues@[k as int]@));
        }
        k = k + 1;
    }
    assert(iv.take(issues.len() as int) =~= iv);
    let ghost bv = issue_views(by_state@);
    let mut out: Vec<Issue> = Vec::new();
    let mut k: usize = 0;
    while k < by_state.len()
        invariant
            k <= by_state.len(),
            bv == issue_views(by_state@),
            p2 == title_keeps(nd),
            nd == opt_chars(*needle),
            issue_views(out@) == filter_seq(bv.take(k as int), p2),
        decreases by_state.len() - k,
    {
        assert(bv.take(k + 1).drop_last() =~= bv.take(k as int));
        assert(bv.take(k + 1).last() == by_state@[k as int]@);
        let keep = match needle {
            Some(n) => {
                let t = chars_of(to_lowercase(by_state[k].title.as_str()).as_str());
                contains(&t, n)
            },
            None => true,
        };
        if keep {
            let ghost before = issue_views(out@);
            out.push(clone_issue(&by_state[k]));
            assert(issue_views(out@) =~= before.push(by_state@[k as int]@));
        }
        k = k + 1;
    }
    assert(bv.take(by_state.len() as int) =~= bv);
    out
}

/// The page of `s` at `offset`, at most `limit` long.
fn page(s: &Vec<Issue>, offset: i64, limit: i64) -> (r: Vec<Issue>)
    requires
        offset >= 0,
        limit >= 0,
    ensures
        issue_views(r@) == page_of(issue_views(s@), offset as int, limit as int),
{
    let ghost sv = issue_views(s@);
    let mut out: Vec<Issue> = Vec::new();
    if offset as i128 >= s.len() as i128 {
        assert(issue_views(out@) =~= page_of(sv, offset as int, limit as int));
        return out;
    }
    let start = offset as usize;
    let end: usize = if (offset as i128) + (limit as i128) < s.len() as i128 {
        ((offset as i128) + (limit as i128)) as usize
    } else {
        s.len()
    };
    let mut k: usize = start;
    while k < end
        invariant
            start <= k <= end,
            end <= s.len(),
            sv == issue_views(s@),
            issue_views(out@) == sv.subrange(start as int, k as int),
        decreases end - k,
    {
        let ghost before = issue_views(out@);
        out.push(clone_issue(&s[k]));
        assert(issue_views(out@) =~= before.push(sv[k as int]));
        assert(sv.subrange(start as int, k + 1) =~= sv.subrange(start as int, k as int).push(sv[k as int]));
        k = k + 1;
    }
    assert(issue_views(out@) =~= page_of(sv, offset as int, limit as int));
    out
}

/// Filters, groups, sorts and pages the project's issues. `issues` are
/// the resolved members in membership order; `tag_rows[k]` are the
/// `(issue_id, value)` links of the key of chip `k` (empty for other
/// chips); `milestones` the project's milestones; `group_rows` the
/// links of the group-by tag key (unread when not grouping by a tag).
/// Buckets count the filtered issues before sorting and paging; the
/// total counts every page.
pub fn list_issue_rows(
    plan: &IssueListPlan,
    issues: Vec<Issue>,
    tag_rows: &Vec<Vec<(u128, String)>>,
    milestones: &Vec<Milestone>,
    group_rows: &Vec<(u128, String)>,
) -> (r: IssueListing)
    requires
        tag_rows.len() == plan.clauses.len(),
        issues.len() < 0x7fff_ffff_ffff_ffff,
        group_rows.len() < 0x7fff_ffff_ffff_ffff,
        plan.limit >= 0,
        plan.offset >= 0,
    ensures
        ({
            let kept = kept_issues(
                plan.state,
                opt_chars(plan.needle),
                clause_views(plan.clauses@),
                rows_views(tag_rows@),
                milestone_views(milestones@),
                issue_views(issues@),
            );
            let sorted = sort_issues(kept, plan.sort);
            &&& issue_views(r.rows@) == page_of(sorted, plan.offset as int, plan.limit as int)
            &&& r.total == sorted.len()
            &&& r.limit == plan.limit
            &&& r.offset == plan.offset
            &&& match plan.group_by {
                None => r.buckets is None && r.bucket_keys is None,
                Some(g) => {
                    &&& r.buckets matches Some(bs) && match g@ {
                        GroupByModel::Status => bucket_views(bs@) == status_buckets(kept),
                        GroupByModel::Tag { key } => tag_buckets_ok(key, kept, pair_views(group_rows@), bucket_views(bs@)),
                    }
                    &&& r.bucket_keys matches Some(ks) && ks.len() == r.rows.len() && forall|k: int|
                        0 <= k < ks.len() ==> opt_string_views(#[trigger] ks@[k]@) == bucket_keys(
                            g@,
                            kept,
                            pair_views(group_rows@),
                            r.rows@[k].id,
                        )
                },
            }
        }),
{
    let first = retain_issues(issues, plan.state, &plan.needle);
    let kept = apply_filter_clauses(&plan.clauses, tag_rows, milestones, &first);
    proof {
        let iv = issue_views(issues@);
        let nd = opt_chars(plan.needle);
        lemma_filter_seq_len(iv, state_keeps(plan.state));
        lemma_filter_seq_len(filter_seq(iv, state_keeps(plan.state)), title_keeps(nd));
        lemma_filter_seq_len(
            issue_views(first@),
            keeps_all(clause_views(plan.clauses@), rows_views(tag_rows@), milestone_views(milestones@)),
        );
    }
    let buckets = match &plan.group_by {
        Some(g) => Some(build_buckets(g, &kept, group_rows)),
        None => None,
    };
    let sorted = apply_sort(&kept, plan.sort);
    proof {
        lemma_sort_issues_len(issue_views(kept@), plan.sort);
    }
    let rows = page(&sorted, plan.offset, plan.limit);
    let bucket_keys = match &plan.group_by {
        Some(g) => {
            let mut ks: Vec<Vec<Option<String>>> = Vec::new();
            let mut k: usize = 0;
            while k < rows.len()
                invariant
                    k <= rows.len(),
                    ks.len() == k,
                    forall|j: int|
                        0 <= j < k ==> opt_string_views(#[trigger] ks@[j]@) == bucket_keys(
                            g@,
                            issue_views(kept@),
                            pair_views(group_rows@),
                            rows@[j].id,
                        ),
                decreases rows.len() - k,
            {
                ks.push(bucket_keys_for(g, &kept, group_rows, rows[k].id));
                k = k + 1;
            }
            Some(ks)
        },
        None => None,
    };
    IssueListing { total: sorted.len() as i64, rows, bucket_keys, limit: plan.limit, offset: plan.offset, buckets }
}

} // verus!
