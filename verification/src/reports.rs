//! Reports: the id lists of a report query, the tag-filter and
//! grouping rules, the home-org split rows, the portfolio paging and
//! the issue-metrics parameters.

use vstd::prelude::*;

use crate::audit::{decimal, decimal_count};
use crate::error::{bad_request, is_bad, ApiError, ErrorCode};
use crate::ids::{parse_uuid, uuid_parse};
use crate::project_issues::{filter_seq, lemma_filter_seq_complete, lemma_filter_seq_sound};
use crate::projects::ProjectStatus;
use crate::text::{char_views, chars_of, join2, join3, join4, seq_split, seq_trim, split_chars, str_eq, string_from, trim_chars};

verus! {

/// One `(key, count)` row of a grouped report.
#[derive(Debug, Clone)]
pub struct CountRow {
    pub key: String,
    pub count: i64,
}

/// The non-empty comma-separated pieces of a list parameter.
pub open spec fn list_pieces(s: Seq<char>) -> Seq<Seq<char>> {
    filter_seq(seq_split(s, ','), |p: Seq<char>| p.len() > 0)
}

/// Every piece names an id once trimmed.
pub open spec fn all_parse(ps: Seq<Seq<char>>) -> bool {
    forall|k: int| 0 <= k < ps.len() ==> uuid_parse(seq_trim(#[trigger] ps[k])) is Some
}

/// The non-empty pieces of `s`, in order.
fn nonempty_pieces(s: &str) -> (r: Vec<Vec<char>>)
    ensures
        char_views(r@) == list_pieces(s@),
{
    let parts = split_chars(&chars_of(s), ',');
    let ghost pv = char_views(parts@);
    let ghost p = |q: Seq<char>| q.len() > 0;
    let mut out: Vec<Vec<char>> = Vec::new();
    let mut k: usize = 0;
    while k < parts.len()
        invariant
            k <= parts.len(),
            pv == char_views(parts@),
            p == (|q: Seq<char>| q.len() > 0),
            char_views(out@) == filter_seq(pv.take(k as int), p),
        decreases parts.len() - k,
    {
        assert(pv.take(k + 1).drop_last() =~= pv.take(k as int));
        assert(pv.take(k + 1).last() == parts@[k as int]@);
        if parts[k].len() > 0 {
            let ghost before = char_views(out@);
            out.push(parts[k].clone());
            assert(char_views(out@) =~= before.push(parts@[k as int]@));
        }
        k = k + 1;
    }
    assert(pv.take(parts.len() as int) =~= pv);
    out
}

/// The first piece from index `k` on that does not name an id once
/// trimmed.
pub open spec fn first_bad_piece(ps: Seq<Seq<char>>, k: nat) -> Option<Seq<char>>
    decreases ps.len() - k,
{
    if k >= ps.len() {
        None
    } else if uuid_parse(seq_trim(ps[k as int])) is None {
        Some(ps[k as int])
    } else {
        first_bad_piece(ps, k + 1)
    }
}

/// Parses the comma-separated id list of parameter `field` (`orgs`,
/// `users`, ...): absent is empty; empty pieces are skipped, the others
/// trimmed; the first that is not an id is `invalid_uuid`, naming the
/// parameter and the piece.
pub fn parse_uuid_list(s: Option<&str>, field: &str) -> (r: Result<Vec<u128>, ApiError>)
    ensures
        match s {
            None => r matches Ok(v) && v@.len() == 0,
            Some(t) => match first_bad_piece(list_pieces(t@), 0) {
                None => r matches Ok(v) && v@ == list_pieces(t@).map_values(|p: Seq<char>| uuid_parse(seq_trim(p))->0),
                Some(p) => r matches Err(e) && is_bad(e, ErrorCode::InvalidUuid, field@ + " contains invalid uuid: "@ + p),
            },
        },
        s matches Some(t) ==> (first_bad_piece(list_pieces(t@), 0) is None <==> all_parse(list_pieces(t@))),
{
    let t = match s {
        None => return Ok(Vec::new()),
        Some(t) => t,
    };
    let pieces = nonempty_pieces(t);
    let ghost ps = list_pieces(t@);
    let mut out: Vec<u128> = Vec::new();
    let mut k: usize = 0;
    while k < pieces.len()
        invariant
            k <= pieces.len(),
            s == Some(t),
            ps == list_pieces(t@),
            ps == char_views(pieces@),
            forall|j: int| 0 <= j < k ==> uuid_parse(seq_trim(#[trigger] ps[j])) is Some,
            out@ == ps.take(k as int).map_values(|p: Seq<char>| uuid_parse(seq_trim(p))->0),
            first_bad_piece(ps, 0) == first_bad_piece(ps, k as nat),
        decreases pieces.len() - k,
    {
        assert(ps[k as int] == pieces@[k as int]@);
        match parse_uuid(&trim_chars(&pieces[k])) {
            None => {
                assert(!all_parse(ps));
                let p = string_from(&pieces[k]);
                return Err(bad_request(ErrorCode::InvalidUuid, join3(field, " contains invalid uuid: ", p.as_str())));
            },
            Some(u) => {
                out.push(u);
                assert(ps.take(k + 1).map_values(|p: Seq<char>| uuid_parse(seq_trim(p))->0) =~= ps.take(k as int).map_values(
                    |p: Seq<char>| uuid_parse(seq_trim(p))->0,
                ).push(u));
            },
        }
        k = k + 1;
    }
    assert(ps.take(pieces.len() as int) =~= ps);
    Ok(out)
}

/// The ids of a lenient comma-separated list: trimmed non-empty pieces
/// that parse, in order; the others are dropped.
pub open spec fn lenient_from(ps: Seq<Seq<char>>) -> Seq<u128>
    decreases ps.len(),
{
    if ps.len() == 0 {
        Seq::empty()
    } else {
        let prev = lenient_from(ps.drop_last());
        let t = seq_trim(ps.last());
        if t.len() > 0 && uuid_parse(t) is Some {
            prev.push(uuid_parse(t)->0)
        } else {
            prev
        }
    }
}

/// Parses the `org_id` / `repo_id` lists of the issue-metrics report.
pub fn csv_uuid_field(s: &Option<String>) -> (r: Vec<u128>)
    ensures
        match s {
            None => r@.len() == 0,
            Some(t) => r@ == lenient_from(seq_split(t@, ',')),
        },
{
    let t = match s {
        None => return Vec::new(),
        Some(t) => t,
    };
    let parts = split_chars(&chars_of(t.as_str()), ',');
    let ghost pv = char_views(parts@);
    let mut out: Vec<u128> = Vec::new();
    let mut k: usize = 0;
    while k < parts.len()
        invariant
            k <= parts.len(),
            pv == char_views(parts@),
            out@ == lenient_from(pv.take(k as int)),
        decreases parts.len() - k,
    {
        assert(pv.take(k + 1).drop_last() =~= pv.take(k as int));
        assert(pv.take(k + 1).last() == parts@[k as int]@);
        let piece = trim_chars(&parts[k]);
        if piece.len() > 0 {
            match parse_uuid(&piece) {
                Some(u) => out.push(u),
                None => {},
            }
        }
        k = k + 1;
    }
    assert(pv.take(parts.len() as int) =~= pv);
    out
}

/// `tags filter has <n> entries, max is <max> when group_by=tag`.
pub open spec fn over_cap_text(tags: int, max_tags: int) -> Seq<char> {
    "tags filter has "@ + decimal(tags) + " entries, max is "@ + decimal(max_tags) + " when group_by=tag"@
}

/// Grouping by tag needs a tags filter (`group_by_tag_requires_tags`)
/// of at most `max_tags` entries, the report engine's cap
/// (`tags_filter_over_cap`); other groupings take any filter.
pub fn validate_tag_filter(group_by_tag: bool, tags: usize, max_tags: usize) -> (r: Result<(), ApiError>)
    ensures
        group_by_tag && tags == 0 ==> (r matches Err(e) && is_bad(
            e,
            ErrorCode::GroupByTagRequiresTags,
            "group_by=tag requires a non-empty tags filter"@,
        )),
        group_by_tag && tags > max_tags && tags != 0 ==> (r matches Err(e) && is_bad(
            e,
            ErrorCode::TagsFilterOverCap,
            over_cap_text(tags as int, max_tags as int),
        )),
        !group_by_tag || (0 < tags && tags <= max_tags) ==> r is Ok,
{
    if group_by_tag {
        if tags == 0 {
            return Err(bad_request(ErrorCode::GroupByTagRequiresTags, "group_by=tag requires a non-empty tags filter".to_owned()));
        }
        if tags > max_tags {
            let a = join3("tags filter has ", decimal_count(tags).as_str(), " entries, max is ");
            let m = join3(a.as_str(), decimal_count(max_tags).as_str(), " when group_by=tag");
            return Err(bad_request(ErrorCode::TagsFilterOverCap, m));
        }
    }
    Ok(())
}

/// Whether an event of kind `kind` counts: every kind does when no
/// activity type is asked for, else only the kinds asked for.
pub fn activity_kept(activity_types: &Vec<String>, kind: &str) -> (r: bool)
    ensures
        r == (activity_types.len() == 0 || exists|k: int|
            0 <= k < activity_types.len() && (#[trigger] activity_types@[k])@ == kind@),
{
    if activity_types.len() == 0 {
        return true;
    }
    let mut k: usize = 0;
    while k < activity_types.len()
        invariant
            k <= activity_types.len(),
            forall|j: int| 0 <= j < k ==> (#[trigger] activity_types@[j])@ != kind@,
        decreases activity_types.len() - k,
    {
        if str_eq(activity_types[k].as_str(), kind) {
            return true;
        }
        k = k + 1;
    }
    false
}

/// `list` with `id` added at the end unless it holds it.
pub fn with_member(mut list: Vec<u128>, id: u128) -> (r: Vec<u128>)
    ensures
        r@ == if list@.contains(id) {
            list@
        } else {
            list@.push(id)
        },
{
    let ghost l = list@;
    let mut k: usize = 0;
    while k < list.len()
        invariant
            k <= list.len(),
            list@ == l,
            forall|j: int| 0 <= j < k ==> list@[j] != id,
        decreases list.len() - k,
    {
        if list[k] == id {
            assert(l[k as int] == id);
            return list;
        }
        k = k + 1;
    }
    list.push(id);
    list
}

/// The organisations an issue report covers: those requested that the
/// caller belongs to, in the order requested, or all of the caller's
/// when none are requested.
pub open spec fn issue_org_scope(requested: Seq<u128>, caller: Seq<u128>) -> Seq<u128> {
    if requested.len() == 0 {
        caller
    } else {
        filter_seq(requested, |o: u128| caller.contains(o))
    }
}

/// An issue report never reaches past the caller's organisations:
/// every organisation in its scope is one the caller belongs to, and
/// each requested one of them stays in scope.
pub proof fn lemma_issue_scope_within_caller(requested: Seq<u128>, caller: Seq<u128>)
    ensures
        forall|o: u128| issue_org_scope(requested, caller).contains(o) ==> caller.contains(o),
        forall|o: u128|
            requested.contains(o) && caller.contains(o) ==> issue_org_scope(requested, caller).contains(o),
{
    if requested.len() > 0 {
        let p = |o: u128| caller.contains(o);
        lemma_filter_seq_sound(requested, p);
        lemma_filter_seq_complete(requested, p);
        assert forall|o: u128| issue_org_scope(requested, caller).contains(o) implies caller.contains(o) by {
            assert(filter_seq(requested, p).contains(o));
            assert(p(o));
        }
    }
}

/// Narrows an issue report to the caller's organisations. `None` when
/// nothing is left in scope: the report then has no rows (an empty
/// organisation filter would otherwise read every organisation).
pub fn issue_report_orgs(requested: &Vec<u128>, caller: &Vec<u128>) -> (r: Option<Vec<u128>>)
    ensures
        match r {
            Some(orgs) => orgs@ == issue_org_scope(requested@, caller@) && orgs@.len() > 0,
            None => issue_org_scope(requested@, caller@).len() == 0,
        },
{
    let mut out: Vec<u128> = Vec::new();
    if requested.len() == 0 {
        let mut k: usize = 0;
        while k < caller.len()
            invariant
                k <= caller.len(),
                out@ == caller@.take(k as int),
            decreases caller.len() - k,
        {
            out.push(caller[k]);
            assert(caller@.take(k + 1) =~= caller@.take(k as int).push(caller@[k as int]));
            k = k + 1;
        }
        assert(caller@.take(caller.len() as int) =~= caller@);
    } else {
        let ghost p = |o: u128| caller@.contains(o);
        let mut k: usize = 0;
        while k < requested.len()
            invariant
                k <= requested.len(),
                p == (|o: u128| caller@.contains(o)),
                out@ == filter_seq(requested@.take(k as int), p),
            decreases requested.len() - k,
        {
            let o = requested[k];
            let mut member = false;
            let mut j: usize = 0;
            while j < caller.len()
                invariant
                    j <= caller.len(),
                    member == exists|m: int| 0 <= m < j && caller@[m] == o,
                decreases caller.len() - j,
            {
                if caller[j] == o {
                    member = true;
                }
                j = j + 1;
            }
            assert(requested@.take(k + 1).drop_last() =~= requested@.take(k as int));
            assert(requested@.take(k + 1).last() == o);
            assert(member == caller@.contains(o));
            if member {
                out.push(o);
            }
            k = k + 1;
        }
        assert(requested@.take(requested.len() as int) =~= requested@);
    }
    if out.len() == 0 {
        None
    } else {
        Some(out)
    }
}

/// How a report groups its rows.
#[derive(Debug, Clone, Copy, PartialEq, Eq, Structural)]
pub enum ReportGroupBy {
    User,
    Team,
    Repo,
    Org,
    Tag,
    Day,
    Week,
    Month,
}

/// What a grouped count runs on.
#[derive(Debug, Clone, Copy, PartialEq, Eq, Structural)]
pub enum CountKey {
    User,
    Repo,
    Org,
    Day,
    Week,
    Month,
}

/// The count a report runs: by user when ungrouped; grouping by team
/// (`group_by_team_unsupported`) or by tag (`group_by_tag_unsupported`)
/// is not available.
pub fn count_key(g: Option<ReportGroupBy>) -> (r: Result<CountKey, ApiError>)
    ensures
        match g {
            None => r == Ok::<CountKey, ApiError>(CountKey::User),
            Some(ReportGroupBy::User) => r == Ok::<CountKey, ApiError>(CountKey::User),
            Some(ReportGroupBy::Repo) => r == Ok::<CountKey, ApiError>(CountKey::Repo),
            Some(ReportGroupBy::Org) => r == Ok::<CountKey, ApiError>(CountKey::Org),
            Some(ReportGroupBy::Day) => r == Ok::<CountKey, ApiError>(CountKey::Day),
            Some(ReportGroupBy::Week) => r == Ok::<CountKey, ApiError>(CountKey::Week),
            Some(ReportGroupBy::Month) => r == Ok::<CountKey, ApiError>(CountKey::Month),
            Some(ReportGroupBy::Team) => r matches Err(e) && is_bad(
                e,
                ErrorCode::GroupByTeamUnsupported,
                "group_by=team requires a user→team resolver not wired in Phase 4 stage 3"@,
            ),
            Some(ReportGroupBy::Tag) => r matches Err(e) && is_bad(
                e,
                ErrorCode::GroupByTagUnsupported,
                "group_by=tag requires a tag-aware row builder not wired in this stage"@,
            ),
        },
{
    match g {
        None => Ok(CountKey::User),
        Some(ReportGroupBy::User) => Ok(CountKey::User),
        Some(ReportGroupBy::Repo) => Ok(CountKey::Repo),
        Some(ReportGroupBy::Org) => Ok(CountKey::Org),
        Some(ReportGroupBy::Day) => Ok(CountKey::Day),
        Some(ReportGroupBy::Week) => Ok(CountKey::Week),
        Some(ReportGroupBy::Month) => Ok(CountKey::Month),
        Some(ReportGroupBy::Team) => Err(
            bad_request(
                ErrorCode::GroupByTeamUnsupported,
                "group_by=team requires a user→team resolver not wired in Phase 4 stage 3".to_owned(),
            ),
        ),
        Some(ReportGroupBy::Tag) => Err(
            bad_request(
                ErrorCode::GroupByTagUnsupported,
                "group_by=tag requires a tag-aware row builder not wired in this stage".to_owned(),
            ),
        ),
    }
}

/// One `(user, home org)` row of the home-org split.
#[derive(Debug, Clone, Copy, PartialEq, Eq, Structural)]
pub struct HomeOrgSplitRow {
    pub user_id: u128,
    pub org_id: u128,
    pub count: i64,
}

/// The number of distinct values in `s`.
pub open spec fn distinct_count(s: Seq<u128>) -> nat
    decreases s.len(),
{
    if s.len() == 0 {
        0
    } else {
        distinct_count(s.drop_last()) + if s.drop_last().contains(s.last()) {
            0nat
        } else {
            1nat
        }
    }
}

proof fn lemma_distinct_count_le(s: Seq<u128>)
    ensures
        distinct_count(s) <= s.len(),
    decreases s.len(),
{
    if s.len() > 0 {
        lemma_distinct_count_le(s.drop_last());
    }
}

/// Distinct event ids of one bucket.
fn count_distinct(ids: &Vec<u128>) -> (r: i64)
    requires
        ids.len() <= i64::MAX,
    ensures
        r == distinct_count(ids@),
{
    let mut n: i64 = 0;
    let mut k: usize = 0;
    while k < ids.len()
        invariant
            k <= ids.len(),
            ids.len() <= i64::MAX,
            n == distinct_count(ids@.take(k as int)),
            n <= k,
        decreases ids.len() - k,
    {
        assert(ids@.take(k + 1).drop_last() =~= ids@.take(k as int));
        assert(ids@.take(k + 1).last() == ids@[k as int]);
        let mut j: usize = 0;
        let mut seen = false;
        while j < k
            invariant
                j <= k,
                k < ids.len(),
                seen == exists|m: int| 0 <= m < j && ids@[m] == ids@[k as int],
            decreases k - j,
        {
            if ids[j] == ids[k] {
                seen = true;
            }
            j = j + 1;
        }
        proof {
            if seen {
                let m = choose|m: int| 0 <= m < k && ids@[m] == ids@[k as int];
                assert(ids@.take(k as int)[m] == ids@[k as int]);
            } else {
                assert forall|m: int| 0 <= m < k implies ids@.take(k as int)[m] != ids@[k as int] by {
                    assert(ids@.take(k as int)[m] == ids@[m]);
                }
            }
        }
        if !seen {
            n = n + 1;
        }
        k = k + 1;
    }
    assert(ids@.take(ids.len() as int) =~= ids@);
    n
}

/// `(user, org)` order.
pub open spec fn row_before(a: HomeOrgSplitRow, b: HomeOrgSplitRow) -> bool {
    a.user_id < b.user_id || (a.user_id == b.user_id && a.org_id < b.org_id)
}

/// The home-org split: per `(user, home org)` bucket the number of
/// distinct events, sorted by user then org. `buckets` holds each key
/// once.
pub fn home_org_split_rows(buckets: &Vec<((u128, u128), Vec<u128>)>) -> (r: Vec<HomeOrgSplitRow>)
    requires
        forall|i: int, j: int| 0 <= i < j < buckets.len() ==> buckets@[i].0 != buckets@[j].0,
        forall|i: int| 0 <= i < buckets.len() ==> (#[trigger] buckets@[i]).1.len() <= i64::MAX,
    ensures
        r.len() == buckets.len(),
        forall|i: int, j: int| 0 <= i < j < r.len() ==> row_before(#[trigger] r@[i], #[trigger] r@[j]),
        forall|x: HomeOrgSplitRow|
            r@.contains(x) <==> exists|k: int|
                0 <= k < buckets.len() && x == (HomeOrgSplitRow {
                    user_id: (#[trigger] buckets@[k]).0.0,
                    org_id: buckets@[k].0.1,
                    count: distinct_count(buckets@[k].1@) as i64,
                }),
{
    let mut out: Vec<HomeOrgSplitRow> = Vec::new();
    let mut k: usize = 0;
    while k < buckets.len()
        invariant
            k <= buckets.len(),
            out.len() == k,
            forall|i: int, j: int| 0 <= i < j < buckets.len() ==> buckets@[i].0 != buckets@[j].0,
            forall|i: int| 0 <= i < buckets.len() ==> (#[trigger] buckets@[i]).1.len() <= i64::MAX,
            forall|i: int, j: int| 0 <= i < j < out.len() ==> row_before(#[trigger] out@[i], #[trigger] out@[j]),
            forall|x: HomeOrgSplitRow|
                out@.contains(x) <==> exists|m: int|
                    0 <= m < k && x == (HomeOrgSplitRow {
                        user_id: (#[trigger] buckets@[m]).0.0,
                        org_id: buckets@[m].0.1,
                        count: distinct_count(buckets@[m].1@) as i64,
                    }),
            forall|i: int|
                0 <= i < out.len() ==> exists|m: int|
                    0 <= m < k && (#[trigger] out@[i]).user_id == (#[trigger] buckets@[m]).0.0 && out@[i].org_id
                        == buckets@[m].0.1,
        decreases buckets.len() - k,
    {
        let count = count_distinct(&buckets[k].1);
        let row = HomeOrgSplitRow { user_id: buckets[k].0.0, org_id: buckets[k].0.1, count };
        let ghost o = out@;
        let mut p: usize = 0;
        while p < out.len()
            invariant
                p <= out.len(),
                o == out@,
                forall|m: int| 0 <= m < p ==> row_before(#[trigger] o[m], row),
            ensures
                p <= out.len(),
                forall|m: int| 0 <= m < p ==> row_before(#[trigger] o[m], row),
                p == out.len() || !row_before(o[p as int], row),
            decreases out.len() - p,
        {
            let x = out[p];
            if !(x.user_id < row.user_id || (x.user_id == row.user_id && x.org_id < row.org_id)) {
                break;
            }
            p = p + 1;
        }
        out.insert(p, row);
        proof {
            let n = out@;
            assert(n =~= o.insert(p as int, row));
            assert forall|m: int| 0 <= m < o.len() implies o[m].user_id != row.user_id || o[m].org_id != row.org_id by {
                let b = choose|b: int|
                    0 <= b < k && (#[trigger] o[m]).user_id == (#[trigger] buckets@[b]).0.0 && o[m].org_id
                        == buckets@[b].0.1;
                assert(buckets@[b].0 != buckets@[k as int].0);
            }
            assert forall|i: int, j: int| 0 <= i < j < n.len() implies row_before(#[trigger] n[i], #[trigger] n[j]) by {
                if j < p {
                    assert(n[i] == o[i] && n[j] == o[j]);
                } else if j == p {
                    assert(n[i] == o[i]);
                } else if i == p {
                    assert(n[j] == o[j - 1]);
                    assert(o[p as int].user_id != row.user_id || o[p as int].org_id != row.org_id);
                    if j - 1 > p {
                        assert(row_before(o[p as int], o[j - 1]));
                    }
                } else if i < p {
                    assert(n[i] == o[i] && n[j] == o[j - 1]);
                } else {
                    assert(n[i] == o[i - 1] && n[j] == o[j - 1]);
                }
            }
            assert forall|x: HomeOrgSplitRow| n.contains(x) <==> exists|m: int|
                0 <= m < k + 1 && x == (HomeOrgSplitRow {
                    user_id: (#[trigger] buckets@[m]).0.0,
                    org_id: buckets@[m].0.1,
                    count: distinct_count(buckets@[m].1@) as i64,
                }) by {
                if n.contains(x) {
                    let i = choose|i: int| 0 <= i < n.len() && n[i] == x;
                    if i < p {
                        assert(o[i] == x);
                        assert(o.contains(x));
                    } else if i > p {
                        assert(o[i - 1] == x);
                        assert(o.contains(x));
                    } else {
                        assert(x == row);
                    }
                }
                if exists|m: int|
                    0 <= m < k + 1 && x == (HomeOrgSplitRow {
                        user_id: (#[trigger] buckets@[m]).0.0,
                        org_id: buckets@[m].0.1,
                        count: distinct_count(buckets@[m].1@) as i64,
                    }) {
                    let m = choose|m: int|
                        0 <= m < k + 1 && x == (HomeOrgSplitRow {
                            user_id: (#[trigger] buckets@[m]).0.0,
                            org_id: buckets@[m].0.1,
                            count: distinct_count(buckets@[m].1@) as i64,
                        });
                    if m < k {
                        assert(o.contains(x));
                        let i = choose|i: int| 0 <= i < o.len() && o[i] == x;
                        if i < p {
                            assert(n[i] == x);
                        } else {
                            assert(n[i + 1] == x);
                        }
                    } else {
                        assert(n[p as int] == x);
                    }
                }
            }
            assert forall|i: int| 0 <= i < n.len() implies exists|m: int|
                0 <= m < k + 1 && (#[trigger] n[i]).user_id == (#[trigger] buckets@[m]).0.0 && n[i].org_id
                    == buckets@[m].0.1 by {
                if i < p {
                    assert(n[i] == o[i]);
                    let b = choose|b: int|
                        0 <= b < k && (#[trigger] o[i]).user_id == (#[trigger] buckets@[b]).0.0 && o[i].org_id
                            == buckets@[b].0.1;
                } else if i > p {
                    assert(n[i] == o[i - 1]);
                    let b = choose|b: int|
                        0 <= b < k && (#[trigger] o[i - 1]).user_id == (#[trigger] buckets@[b]).0.0 && o[i - 1].org_id
                            == buckets@[b].0.1;
                } else {
                    assert(n[i].user_id == buckets@[k as int].0.0);
                }
            }
        }
        k = k + 1;
    }
    out
}

/// A portfolio page size must be 1 to `max`, the report engine's cap;
/// else `invalid_limit`, saying which bound it broke.
pub fn check_portfolio_limit(limit: u32, max: u32) -> (r: Result<(), ApiError>)
    ensures
        (1 <= limit && limit <= max) ==> r is Ok,
        limit == 0 ==> (r matches Err(e) && is_bad(e, ErrorCode::InvalidLimit, "limit must be >= 1"@)),
        limit != 0 && limit > max ==> (r matches Err(e) && is_bad(
            e,
            ErrorCode::InvalidLimit,
            "limit "@ + decimal(limit as int) + " exceeds maximum "@ + decimal(max as int),
        )),
{
    if limit == 0 {
        Err(bad_request(ErrorCode::InvalidLimit, "limit must be >= 1".to_owned()))
    } else if limit > max {
        let a = decimal_count(limit as usize);
        let b = decimal_count(max as usize);
        Err(bad_request(ErrorCode::InvalidLimit, join4("limit ", a.as_str(), " exceeds maximum ", b.as_str())))
    } else {
        Ok(())
    }
}

/// The statuses a portfolio lists: as asked, or active and backlog.
pub fn portfolio_statuses(statuses: Vec<ProjectStatus>) -> (r: Vec<ProjectStatus>)
    ensures
        r@ == if statuses@.len() == 0 {
            seq![ProjectStatus::Active, ProjectStatus::Backlog]
        } else {
            statuses@
        },
{
    if statuses.len() == 0 {
        let mut v: Vec<ProjectStatus> = Vec::new();
        v.push(ProjectStatus::Active);
        v.push(ProjectStatus::Backlog);
        assert(v@ =~= seq![ProjectStatus::Active, ProjectStatus::Backlog]);
        v
    } else {
        statuses
    }
}

/// The portfolio total: the first row's window total as a `u32`, a
/// value outside `u32` becoming `u32::MAX`; 0 without rows.
pub fn portfolio_total(first_total: Option<i64>) -> (r: u32)
    ensures
        r == match first_total {
            Some(t) => if 0 <= t && t <= u32::MAX {
                t as u32
            } else {
                u32::MAX
            },
            None => 0,
        },
{
    match first_total {
        Some(t) => if 0 <= t && t <= u32::MAX as i64 {
            t as u32
        } else {
            u32::MAX
        },
        None => 0,
    }
}

/// Issue metrics.
#[derive(Debug, Clone, Copy, PartialEq, Eq, Structural)]
pub enum IssueMetric {
    Throughput,
    LeadTime,
    Wip,
    Stale,
    Untriaged,
}

/// Groupings of issue metrics.
#[derive(Debug, Clone, Copy, PartialEq, Eq, Structural)]
pub enum IssueMetricGroupBy {
    Repo,
    Org,
    Assignee,
    Week,
    Day,
}

/// `metric`: throughput by default; an unknown name is
/// `invalid_metric`.
pub fn parse_metric(m: Option<&str>) -> (r: Result<IssueMetric, ApiError>)
    ensures
        ({
            let s = match m {
                Some(x) => x@,
                None => "throughput"@,
            };
            if s == "throughput"@ {
                r == Ok::<IssueMetric, ApiError>(IssueMetric::Throughput)
            } else if s == "lead_time"@ {
                r == Ok::<IssueMetric, ApiError>(IssueMetric::LeadTime)
            } else if s == "wip"@ {
                r == Ok::<IssueMetric, ApiError>(IssueMetric::Wip)
            } else if s == "stale"@ {
                r == Ok::<IssueMetric, ApiError>(IssueMetric::Stale)
            } else if s == "untriaged"@ {
                r == Ok::<IssueMetric, ApiError>(IssueMetric::Untriaged)
            } else {
                r matches Err(e) && is_bad(e, ErrorCode::InvalidMetric, "unknown metric: "@ + s)
            }
        }),
{
    let s: &str = match m {
        Some(x) => x,
        None => "throughput",
    };
    if str_eq(s, "throughput") {
        Ok(IssueMetric::Throughput)
    } else if str_eq(s, "lead_time") {
        Ok(IssueMetric::LeadTime)
    } else if str_eq(s, "wip") {
        Ok(IssueMetric::Wip)
    } else if str_eq(s, "stale") {
        Ok(IssueMetric::Stale)
    } else if str_eq(s, "untriaged") {
        Ok(IssueMetric::Untriaged)
    } else {
        Err(bad_request(ErrorCode::InvalidMetric, join2("unknown metric: ", s)))
    }
}

/// `group_by` of the issue metrics: repo by default; an unknown name
/// is `invalid_group_by`.
pub fn parse_metric_group_by(g: Option<&str>) -> (r: Result<IssueMetricGroupBy, ApiError>)
    ensures
        ({
            let s = match g {
                Some(x) => x@,
                None => "repo"@,
            };
            if s == "repo"@ {
                r == Ok::<IssueMetricGroupBy, ApiError>(IssueMetricGroupBy::Repo)
            } else if s == "org"@ {
                r == Ok::<IssueMetricGroupBy, ApiError>(IssueMetricGroupBy::Org)
            } else if s == "assignee"@ {
                r == Ok::<IssueMetricGroupBy, ApiError>(IssueMetricGroupBy::Assignee)
            } else if s == "week"@ {
                r == Ok::<IssueMetricGroupBy, ApiError>(IssueMetricGroupBy::Week)
            } else if s == "day"@ {
                r == Ok::<IssueMetricGroupBy, ApiError>(IssueMetricGroupBy::Day)
            } else {
                r matches Err(e) && is_bad(e, ErrorCode::InvalidGroupBy, "unknown group_by: "@ + s)
            }
        }),
{
    let s: &str = match g {
        Some(x) => x,
        None => "repo",
    };
    if str_eq(s, "repo") {
        Ok(IssueMetricGroupBy::Repo)
    } else if str_eq(s, "org") {
        Ok(IssueMetricGroupBy::Org)
    } else if str_eq(s, "assignee") {
        Ok(IssueMetricGroupBy::Assignee)
    } else if str_eq(s, "week") {
        Ok(IssueMetricGroupBy::Week)
    } else if str_eq(s, "day") {
        Ok(IssueMetricGroupBy::Day)
    } else {
        Err(bad_request(ErrorCode::InvalidGroupBy, join2("unknown group_by: ", s)))
    }
}

} // verus!
