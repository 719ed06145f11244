//! Saved project views: validation of a view body, the lowering of
//! stored filter chips to list filters, the per-tab issue counts and
//! the error mapping of the view routes.

use vstd::prelude::*;

use crate::audit::{decimal, decimal_count};
use crate::error::{bad_request, conflict, is_bad, is_conflict, is_not_found, not_found, ApiError, ErrorCode, StoreError};
use crate::ids::{parse_uuid, uuid_hyphenated, uuid_parse, uuid_to_string};
use crate::project_issues::{
    apply_filter_clauses, clause_views, filter_seq, has_prefix, is_valid_tag_key, issue_views, keeps_all,
    lemma_filter_seq_len, rows_views, spec_is_valid_tag_key, strip_prefix, FilterClause, FilterClauseModel, Issue,
    IssueModel, IssueState,
};
use crate::project_milestones::{milestone_views, Milestone};
use crate::text::{
    ascii_lower, chars_eq, chars_of, join2, join3, join4, seq_trim, spec_ascii_lower, str_eq, string_from, trim, trim_start, utf8_len,
    utf8_len_of, utf8_width,
};

verus! {

/// Longest view name, in characters after trimming.
pub const MAX_VIEW_NAME_CHARS: usize = 60;

/// Most categories a view may carry.
pub const MAX_CATEGORIES: usize = 32;

/// Longest category slug.
pub const MAX_CATEGORY_LEN: usize = 50;

/// A filter chip as a saved view stores it.
#[derive(Debug, Clone)]
pub enum ProjectViewFilterClause {
    Status { value: String },
    Assignee { value: String },
    Label { value: String },
    Tag { key: String, value: String },
    Milestone { value: String },
}

pub enum ViewClauseModel {
    Status(Seq<char>),
    Assignee(Seq<char>),
    Label(Seq<char>),
    Tag(Seq<char>, Seq<char>),
    Milestone(Seq<char>),
}

impl View for ProjectViewFilterClause {
    type V = ViewClauseModel;

    open spec fn view(&self) -> ViewClauseModel {
        match self {
            ProjectViewFilterClause::Status { value } => ViewClauseModel::Status(value@),
            ProjectViewFilterClause::Assignee { value } => ViewClauseModel::Assignee(value@),
            ProjectViewFilterClause::Label { value } => ViewClauseModel::Label(value@),
            ProjectViewFilterClause::Tag { key, value } => ViewClauseModel::Tag(key@, value@),
            ProjectViewFilterClause::Milestone { value } => ViewClauseModel::Milestone(value@),
        }
    }
}

pub open spec fn view_clause_views(v: Seq<ProjectViewFilterClause>) -> Seq<ViewClauseModel> {
    v.map_values(|c: ProjectViewFilterClause| c@)
}

/// The sort a view body defaults to.
pub fn default_sort() -> (r: String)
    ensures
        r@ == seq!['u', 'p', 'd', 'a', 't', 'e', 'd', '_', 'd', 'e', 's', 'c'],
{
    let s = string_from(&chars_of("updated_desc"));
    proof {
        reveal_strlit("updated_desc");
        assert(s@ =~= seq!['u', 'p', 'd', 'a', 't', 'e', 'd', '_', 'd', 'e', 's', 'c']);
    }
    s
}

/// The kv key of a `tag:<key>` group-by, when the key is valid.
pub open spec fn spec_tag_key(spec: Seq<char>) -> Option<Seq<char>> {
    if has_prefix(spec, seq!['t', 'a', 'g', ':']) && spec_is_valid_tag_key(spec.skip(4)) {
        Some(spec.skip(4))
    } else {
        None
    }
}

/// The key of a `tag:<key>` group-by.
pub fn tag_key_from_group_by(spec: &str) -> (r: Option<Vec<char>>)
    ensures
        match r {
            Some(k) => spec_tag_key(spec@) == Some(k@),
            None => spec_tag_key(spec@) is None,
        },
{
    let v = chars_of(spec);
    proof {
        reveal_strlit("tag:");
        assert("tag:"@ =~= seq!['t', 'a', 'g', ':']);
    }
    match strip_prefix(&v, "tag:") {
        Some(key) => if is_valid_tag_key(&key) {
            Some(key)
        } else {
            None
        },
        None => None,
    }
}

/// A view's group-by is absent, `status`, or `tag:<key>` with a valid
/// key; anything else is `invalid_group_by`.
pub fn validate_group_by(spec: Option<&str>) -> (r: Result<(), ApiError>)
    ensures
        match spec {
            None => r is Ok,
            Some(s) => if s@ == seq!['s', 't', 'a', 't', 'u', 's'] || spec_tag_key(s@) is Some {
                r is Ok
            } else {
                r matches Err(e) && is_bad(e, ErrorCode::InvalidGroupBy, "unknown group_by `"@ + s@ + "`"@)
            },
        },
{
    proof {
        reveal_strlit("status");
        assert("status"@ =~= seq!['s', 't', 'a', 't', 'u', 's']);
    }
    match spec {
        None => Ok(()),
        Some(s) => if str_eq(s, "status") {
            Ok(())
        } else if tag_key_from_group_by(s).is_some() {
            Ok(())
        } else {
            Err(bad_request(ErrorCode::InvalidGroupBy, join3("unknown group_by `", s, "`")))
        },
    }
}

/// The sorts a view may name.
pub open spec fn allowed_sort(s: Seq<char>) -> bool {
    s == seq!['u', 'p', 'd', 'a', 't', 'e', 'd', '_', 'd', 'e', 's', 'c'] || s == seq![
        'u', 'p', 'd', 'a', 't', 'e', 'd', '_', 'a', 's', 'c'
    ] || s == seq!['t', 'i', 't', 'l', 'e', '_', 'a', 's', 'c']
}

/// A view's sort is one of `updated_desc`, `updated_asc`, `title_asc`;
/// anything else is `invalid_sort`.
pub fn validate_sort(sort: &str) -> (r: Result<(), ApiError>)
    ensures
        allowed_sort(sort@) ==> r is Ok,
        !allowed_sort(sort@) ==> (r matches Err(e) && is_bad(e, ErrorCode::InvalidSort, "unknown sort `"@ + sort@ + "`"@)),
{
    proof {
        reveal_strlit("updated_desc");
        reveal_strlit("updated_asc");
        reveal_strlit("title_asc");
        assert("updated_desc"@ =~= seq!['u', 'p', 'd', 'a', 't', 'e', 'd', '_', 'd', 'e', 's', 'c']);
        assert("updated_asc"@ =~= seq!['u', 'p', 'd', 'a', 't', 'e', 'd', '_', 'a', 's', 'c']);
        assert("title_asc"@ =~= seq!['t', 'i', 't', 'l', 'e', '_', 'a', 's', 'c']);
    }
    if str_eq(sort, "updated_desc") || str_eq(sort, "updated_asc") || str_eq(sort, "title_asc") {
        Ok(())
    } else {
        Err(bad_request(ErrorCode::InvalidSort, join3("unknown sort `", sort, "`")))
    }
}

/// A view name is 1 to 60 characters once trimmed (else
/// `invalid_view_name`); the trimmed name is kept.
pub fn validate_name(name: &str) -> (r: Result<String, ApiError>)
    ensures
        (1 <= seq_trim(name@).len() <= MAX_VIEW_NAME_CHARS) ==> (r matches Ok(s) && s@ == seq_trim(name@)),
        !(1 <= seq_trim(name@).len() <= MAX_VIEW_NAME_CHARS) ==> (r matches Err(e) && is_bad(
            e,
            ErrorCode::InvalidViewName,
            "view name must be 1..=60 chars after trim"@,
        )),
{
    let t = trim(name);
    if t.len() < 1 || t.len() > MAX_VIEW_NAME_CHARS {
        return Err(bad_request(ErrorCode::InvalidViewName, "view name must be 1..=60 chars after trim".to_owned()));
    }
    Ok(string_from(&t))
}

/// What is wrong with a chip, if anything: a status other than `open`
/// or `closed`; a blank assignee, label or tag value; a bad tag key
/// (checked before the tag value); a milestone value the `uuid` crate
/// does not parse.
pub open spec fn clause_problem(c: ViewClauseModel) -> Option<Seq<char>> {
    match c {
        ViewClauseModel::Status(v) => if v == seq!['o', 'p', 'e', 'n'] || v == seq!['c', 'l', 'o', 's', 'e', 'd'] {
            None
        } else {
            Some("status value must be `open` or `closed`"@)
        },
        ViewClauseModel::Assignee(v) => if seq_trim(v).len() > 0 {
            None
        } else {
            Some("value must be non-empty"@)
        },
        ViewClauseModel::Label(v) => if seq_trim(v).len() > 0 {
            None
        } else {
            Some("value must be non-empty"@)
        },
        ViewClauseModel::Tag(k, v) => if !spec_is_valid_tag_key(k) {
            Some("bad tag key `"@ + k + "`"@)
        } else if seq_trim(v).len() == 0 {
            Some("tag value must be non-empty"@)
        } else {
            None
        },
        ViewClauseModel::Milestone(v) => if uuid_parse(v) is Some {
            None
        } else {
            Some("milestone value must be a UUID"@)
        },
    }
}

/// Whether a stored chip is well formed.
pub open spec fn view_clause_ok(c: ViewClauseModel) -> bool {
    clause_problem(c) is None
}

/// The stored form of a well-formed chip: as sent, but a milestone in
/// its canonical hyphenated spelling.
pub open spec fn canonical_clause(c: ViewClauseModel) -> ViewClauseModel {
    match c {
        ViewClauseModel::Milestone(v) => ViewClauseModel::Milestone(uuid_hyphenated(uuid_parse(v)->0)),
        _ => c,
    }
}

/// Checks one chip and canonicalises it; a bad chip answers what is
/// wrong with it.
fn validate_clause(c: &ProjectViewFilterClause) -> (r: Result<ProjectViewFilterClause, String>)
    ensures
        match r {
            Ok(x) => view_clause_ok(c@) && x@ == canonical_clause(c@),
            Err(m) => clause_problem(c@) == Some(m@),
        },
{
    proof {
        reveal_strlit("open");
        reveal_strlit("closed");
        assert("open"@ =~= seq!['o', 'p', 'e', 'n']);
        assert("closed"@ =~= seq!['c', 'l', 'o', 's', 'e', 'd']);
    }
    match c {
        ProjectViewFilterClause::Status { value } => if str_eq(value.as_str(), "open") || str_eq(
            value.as_str(),
            "closed",
        ) {
            Ok(ProjectViewFilterClause::Status { value: value.clone() })
        } else {
            Err("status value must be `open` or `closed`".to_owned())
        },
        ProjectViewFilterClause::Assignee { value } => if trim(value.as_str()).len() > 0 {
            Ok(ProjectViewFilterClause::Assignee { value: value.clone() })
        } else {
            Err("value must be non-empty".to_owned())
        },
        ProjectViewFilterClause::Label { value } => if trim(value.as_str()).len() > 0 {
            Ok(ProjectViewFilterClause::Label { value: value.clone() })
        } else {
            Err("value must be non-empty".to_owned())
        },
        ProjectViewFilterClause::Tag { key, value } => {
            let k = chars_of(key.as_str());
            if !is_valid_tag_key(&k) {
                Err(join3("bad tag key `", key.as_str(), "`"))
            } else if trim(value.as_str()).len() == 0 {
                Err("tag value must be non-empty".to_owned())
            } else {
                Ok(ProjectViewFilterClause::Tag { key: key.clone(), value: value.clone() })
            }
        },
        ProjectViewFilterClause::Milestone { value } => match parse_uuid(&chars_of(value.as_str())) {
            Some(u) => Ok(ProjectViewFilterClause::Milestone { value: uuid_to_string(u) }),
            None => Err("milestone value must be a UUID".to_owned()),
        },
    }
}

/// What is wrong with a chip as read from a body: the reader's error
/// when it did not have the shape of a chip, else the chip's problem.
pub open spec fn raw_problem(o: Result<ProjectViewFilterClause, String>) -> Option<Seq<char>> {
    match o {
        Ok(c) => clause_problem(c@),
        Err(t) => Some(t@),
    }
}

/// Chip as read from a body is present and well formed.
pub open spec fn raw_ok(o: Result<ProjectViewFilterClause, String>) -> bool {
    raw_problem(o) is None
}

/// The chip a body entry holds (meaningful when it was read).
pub open spec fn raw_clause(o: Result<ProjectViewFilterClause, String>) -> ViewClauseModel {
    match o {
        Ok(c) => c@,
        Err(_) => ViewClauseModel::Status(Seq::empty()),
    }
}

/// The message for the first bad chip from index `k` on:
/// `clause #<k>: <problem>`.
pub open spec fn first_clause_error(raw: Seq<Result<ProjectViewFilterClause, String>>, k: nat) -> Option<Seq<char>>
    decreases raw.len() - k,
{
    if k >= raw.len() {
        None
    } else {
        match raw_problem(raw[k as int]) {
            Some(m) => Some("clause #"@ + decimal(k as int) + ": "@ + m),
            None => first_clause_error(raw, k + 1),
        }
    }
}

/// Validates the chips of a view body. `raw[k]` is chip `k` as read
/// from the body, or the reader's error when it did not have the shape
/// of a chip. The first bad chip is `invalid_filter`, saying which and
/// why; the good ones are kept, in order, milestones canonicalised.
pub fn validate_filter_clauses(raw: &Vec<Result<ProjectViewFilterClause, String>>) -> (r: Result<
    Vec<ProjectViewFilterClause>,
    ApiError,
>)
    ensures
        match first_clause_error(raw@, 0) {
            None => r matches Ok(out) && out.len() == raw.len() && forall|k: int|
                0 <= k < out.len() ==> (#[trigger] out@[k])@ == canonical_clause(raw_clause(raw@[k])),
            Some(m) => r matches Err(e) && is_bad(e, ErrorCode::InvalidFilter, m),
        },
        first_clause_error(raw@, 0) is None <==> (forall|k: int| 0 <= k < raw.len() ==> raw_ok(#[trigger] raw@[k])),
{
    let mut out: Vec<ProjectViewFilterClause> = Vec::new();
    let mut k: usize = 0;
    while k < raw.len()
        invariant
            k <= raw.len(),
            out.len() == k,
            forall|j: int| 0 <= j < k ==> raw_ok(#[trigger] raw@[j]),
            forall|j: int| 0 <= j < k ==> (#[trigger] out@[j])@ == canonical_clause(raw_clause(raw@[j])),
            first_clause_error(raw@, 0) == first_clause_error(raw@, k as nat),
        decreases raw.len() - k,
    {
        let problem = match &raw[k] {
            Err(t) => Some(t.clone()),
            Ok(c) => match validate_clause(c) {
                Err(m) => Some(m),
                Ok(x) => {
                    out.push(x);
                    None
                },
            },
        };
        match problem {
            Some(m) => {
                let n = decimal_count(k);
                proof {
                    assert(raw_problem(raw@[k as int]) == Some(m@));
                    assert(!raw_ok(raw@[k as int]));
                }
                return Err(bad_request(ErrorCode::InvalidFilter, join4("clause #", n.as_str(), ": ", m.as_str())));
            },
            None => {},
        }
        assert(raw_ok(raw@[k as int]));
        k = k + 1;
    }
    Ok(out)
}

/// A category slug: ASCII lower-case letters, digits, `_` and `-`.
pub open spec fn slug_char(c: char) -> bool {
    ('a' <= c && c <= 'z') || ('0' <= c && c <= '9') || c == '_' || c == '-'
}

/// A category as it is stored: trimmed and ASCII lower-cased.
pub open spec fn norm_category(s: Seq<char>) -> Seq<char> {
    seq_trim(s).map_values(|c: char| spec_ascii_lower(c))
}

/// The first occurrence of each value, in order.
pub open spec fn dedup(s: Seq<Seq<char>>) -> Seq<Seq<char>>
    decreases s.len(),
{
    if s.len() == 0 {
        Seq::empty()
    } else {
        let d = dedup(s.drop_last());
        if d.contains(s.last()) {
            d
        } else {
            d.push(s.last())
        }
    }
}

/// A normalised category is a non-empty `[a-z0-9_-]` slug of at most
/// 50 bytes.
pub open spec fn slug_ok(s: Seq<char>) -> bool {
    &&& 0 < s.len()
    &&& utf8_len(s) <= MAX_CATEGORY_LEN
    &&& forall|i: int| 0 <= i < s.len() ==> slug_char(#[trigger] s[i])
}

/// Whether a list of categories is accepted: at most 32, each a slug
/// once normalised (repeats are allowed; they are dropped).
pub open spec fn categories_ok(input: Seq<Seq<char>>) -> bool {
    &&& input.len() <= MAX_CATEGORIES
    &&& forall|k: int| 0 <= k < input.len() ==> slug_ok(norm_category(#[trigger] input[k]))
}

fn is_slug(s: &Vec<char>) -> (r: bool)
    ensures
        r == (forall|i: int| 0 <= i < s.len() ==> slug_char(#[trigger] s@[i])),
{
    let mut i: usize = 0;
    while i < s.len()
        invariant
            i <= s.len(),
            forall|j: int| 0 <= j < i ==> slug_char(#[trigger] s@[j]),
        decreases s.len() - i,
    {
        let c = s[i];
        if !(('a' <= c && c <= 'z') || ('0' <= c && c <= '9') || c == '_' || c == '-') {
            return false;
        }
        i = i + 1;
    }
    true
}

pub open spec fn string_seqs(v: Seq<String>) -> Seq<Seq<char>> {
    v.map_values(|s: String| s@)
}

/// The message refusing category `k`: blank, over 50 bytes, or not
/// a slug once normalised (checked in that order).
pub open spec fn category_problem(input: Seq<Seq<char>>, k: int) -> Option<Seq<char>> {
    let s = norm_category(input[k]);
    let head = "category #"@ + decimal(k);
    if s.len() == 0 {
        Some(head + " is empty"@)
    } else if utf8_len(s) > MAX_CATEGORY_LEN {
        Some(head + " `"@ + s + "` exceeds 50 chars"@)
    } else if !(forall|i: int| 0 <= i < s.len() ==> slug_char(#[trigger] s[i])) {
        Some(head + " `"@ + s + "` must match [a-z0-9_-]"@)
    } else {
        None
    }
}

/// The message for the first refused category from index `k` on.
pub open spec fn first_category_error(input: Seq<Seq<char>>, k: nat) -> Option<Seq<char>>
    decreases input.len() - k,
{
    if k >= input.len() {
        None
    } else {
        match category_problem(input, k as int) {
            Some(m) => Some(m),
            None => first_category_error(input, k + 1),
        }
    }
}

/// Why a list of categories is refused: more than 32 of them, else
/// its first refused category.
pub open spec fn categories_error(input: Seq<Seq<char>>) -> Option<Seq<char>> {
    if input.len() > MAX_CATEGORIES {
        Some("too many categories: "@ + decimal(input.len() as int) + " (max 32)"@)
    } else {
        first_category_error(input, 0)
    }
}

proof fn lemma_first_category_error_none(input: Seq<Seq<char>>, k: nat)
    ensures
        first_category_error(input, k) is None <==> forall|j: int|
            k <= j < input.len() ==> #[trigger] category_problem(input, j) is None,
    decreases input.len() - k,
{
    if k < input.len() {
        lemma_first_category_error_none(input, k + 1);
        if first_category_error(input, k) is None {
            assert forall|j: int| k <= j < input.len() implies #[trigger] category_problem(input, j) is None by {
                if j > k {
                    assert(k + 1 <= j);
                }
            }
        }
    }
}

/// The refusal message is absent exactly when the categories are
/// acceptable.
proof fn lemma_categories_error_iff(input: Seq<Seq<char>>)
    ensures
        categories_error(input) is None <==> categories_ok(input),
{
    lemma_first_category_error_none(input, 0);
    if categories_error(input) is None {
        assert forall|k: int| 0 <= k < input.len() implies slug_ok(norm_category(#[trigger] input[k])) by {
            assert(category_problem(input, k) is None);
        }
    }
    if categories_ok(input) {
        assert forall|j: int| 0 <= j < input.len() implies #[trigger] category_problem(input, j) is None by {
            assert(slug_ok(norm_category(input[j])));
        }
    }
}

/// `category #<k> `<slug>`<tail>`.
fn category_message(k: usize, slug: &Vec<char>, tail: &str) -> (r: String)
    ensures
        r@ == "category #"@ + decimal(k as int) + " `"@ + slug@ + tail@,
{
    let n = decimal_count(k);
    let a = join3("category #", n.as_str(), " `");
    join3(a.as_str(), string_from(slug).as_str(), tail)
}

/// The characters of `v`, ASCII lower-cased.
fn lower_chars(v: &Vec<char>) -> (r: Vec<char>)
    ensures
        r@ == v@.map_values(|c: char| spec_ascii_lower(c)),
{
    let mut out: Vec<char> = Vec::new();
    let mut i: usize = 0;
    while i < v.len()
        invariant
            i <= v.len(),
            out@ == v@.take(i as int).map_values(|c: char| spec_ascii_lower(c)),
        decreases v.len() - i,
    {
        out.push(ascii_lower(v[i]));
        assert(v@.take(i + 1).map_values(|c: char| spec_ascii_lower(c)) =~= v@.take(i as int).map_values(
            |c: char| spec_ascii_lower(c),
        ).push(spec_ascii_lower(v@[i as int])));
        i = i + 1;
    }
    assert(v@.take(v.len() as int) =~= v@);
    out
}

/// Validates a view's categories and normalises them: at most 32
/// (else `invalid_categories`); each trimmed and ASCII lower-cased
/// must be a non-empty `[a-z0-9_-]` slug of at most 50 bytes (else
/// `invalid_categories`, naming the first refused category and why).
/// The normalised slugs are kept in order, a repeat dropped.
pub fn validate_categories(input: &Vec<String>) -> (r: Result<Vec<String>, ApiError>)
    ensures
        match categories_error(string_seqs(input@)) {
            None => r matches Ok(out) && string_seqs(out@) == dedup(
                string_seqs(input@).map_values(|s: Seq<char>| norm_category(s)),
            ),
            Some(m) => r matches Err(e) && is_bad(e, ErrorCode::InvalidCategories, m),
        },
        categories_error(string_seqs(input@)) is None <==> categories_ok(string_seqs(input@)),
{
    let ghost iv = string_seqs(input@);
    let ghost nv = iv.map_values(|s: Seq<char>| norm_category(s));
    proof {
        lemma_categories_error_iff(iv);
    }
    if input.len() > MAX_CATEGORIES {
        let n = decimal_count(input.len());
        return Err(bad_request(ErrorCode::InvalidCategories, join3("too many categories: ", n.as_str(), " (max 32)")));
    }
    let mut out: Vec<String> = Vec::new();
    let mut slugs: Vec<Vec<char>> = Vec::new();
    let mut k: usize = 0;
    while k < input.len()
        invariant
            k <= input.len(),
            input.len() <= MAX_CATEGORIES,
            iv == string_seqs(input@),
            nv == iv.map_values(|s: Seq<char>| norm_category(s)),
            slugs.len() == out.len(),
            forall|j: int| 0 <= j < slugs.len() ==> (#[trigger] slugs@[j])@ == string_seqs(out@)[j],
            string_seqs(out@) == dedup(nv.take(k as int)),
            categories_error(iv) == first_category_error(iv, k as nat),
            categories_error(iv) is None <==> categories_ok(iv),
        decreases input.len() - k,
    {
        assert(iv[k as int] == input@[k as int]@);
        let slug = lower_chars(&trim(input[k].as_str()));
        assert(slug@ == norm_category(iv[k as int]));
        if slug.len() == 0 {
            let n = decimal_count(k);
            return Err(bad_request(ErrorCode::InvalidCategories, join3("category #", n.as_str(), " is empty")));
        }
        if utf8_len_of(&slug) > MAX_CATEGORY_LEN {
            return Err(bad_request(ErrorCode::InvalidCategories, category_message(k, &slug, "` exceeds 50 chars")));
        }
        if !is_slug(&slug) {
            return Err(bad_request(ErrorCode::InvalidCategories, category_message(k, &slug, "` must match [a-z0-9_-]")));
        }
        proof {
            assert(category_problem(iv, k as int) is None);
        }
        let ghost d = string_seqs(out@);
        let mut seen = false;
        let mut j: usize = 0;
        while j < slugs.len()
            invariant
                j <= slugs.len(),
                slugs.len() == d.len(),
                forall|m: int| 0 <= m < slugs.len() ==> (#[trigger] slugs@[m])@ == d[m],
                seen == exists|m: int| 0 <= m < j && d[m] == slug@,
            decreases slugs.len() - j,
        {
            if chars_eq(&slugs[j], &slug) {
                seen = true;
            }
            j = j + 1;
        }
        proof {
            assert(nv.take(k + 1).drop_last() =~= nv.take(k as int));
            assert(nv.take(k + 1).last() == slug@);
            assert(seen == d.contains(slug@));
        }
        if !seen {
            let ghost before = string_seqs(out@);
            out.push(string_from(&slug));
            slugs.push(slug);
            proof {
                assert(string_seqs(out@) =~= before.push(nv[k as int]));
            }
        }
        k = k + 1;
    }
    assert(nv.take(input.len() as int) =~= nv);
    Ok(out)
}

/// A slug is already trimmed: it starts and ends with a slug character,
/// which is never white space.
proof fn lemma_slug_trimmed(s: Seq<char>)
    requires
        0 < s.len(),
        forall|i: int| 0 <= i < s.len() ==> slug_char(#[trigger] s[i]),
    ensures
        seq_trim(s) == s,
{
    assert(slug_char(s[0]));
    assert(slug_char(s.last()));
    assert(trim_start(s) == s);
}

/// A slug is already normalised.
proof fn lemma_slug_normalised(s: Seq<char>)
    requires
        slug_ok(s),
    ensures
        norm_category(s) == s,
{
    lemma_slug_trimmed(s);
    assert(s.map_values(|c: char| spec_ascii_lower(c)) =~= s);
}

/// What `dedup` keeps: values of the input, no two equal, no more of
/// them than the input has.
proof fn lemma_dedup(s: Seq<Seq<char>>)
    ensures
        dedup(s).len() <= s.len(),
        forall|x: Seq<char>| dedup(s).contains(x) ==> s.contains(x),
        forall|i: int, j: int| 0 <= i < j < dedup(s).len() ==> dedup(s)[i] != dedup(s)[j],
    decreases s.len(),
{
    if s.len() > 0 {
        let p = s.drop_last();
        lemma_dedup(p);
        let d = dedup(p);
        assert forall|x: Seq<char>| dedup(s).contains(x) implies s.contains(x) by {
            if d.contains(x) {
                assert(p.contains(x));
                let i = choose|i: int| 0 <= i < p.len() && p[i] == x;
                assert(s[i] == p[i]);
            } else {
                let i = choose|i: int| 0 <= i < dedup(s).len() && dedup(s)[i] == x;
                if i < d.len() {
                    assert(dedup(s)[i] == d[i]);
                    assert(d.contains(x));
                }
                assert(s[s.len() - 1] == x);
            }
        }
        if !d.contains(s.last()) {
            assert forall|i: int, j: int| 0 <= i < j < dedup(s).len() implies dedup(s)[i] != dedup(s)[j] by {
                if j == d.len() {
                    assert(dedup(s)[i] == d[i]);
                    assert(d.contains(d[i]));
                }
            }
        }
    }
}

/// Removing repeats from a list without repeats changes nothing.
proof fn lemma_dedup_distinct(s: Seq<Seq<char>>)
    requires
        forall|i: int, j: int| 0 <= i < j < s.len() ==> s[i] != s[j],
    ensures
        dedup(s) == s,
    decreases s.len(),
{
    if s.len() > 0 {
        let p = s.drop_last();
        lemma_dedup_distinct(p);
        if dedup(p).contains(s.last()) {
            let i = choose|i: int| 0 <= i < p.len() && p[i] == s.last();
            assert(s[i] == s[s.len() - 1]);
        }
        assert(dedup(p).push(s.last()) =~= s);
    }
}

/// Normalising categories is idempotent: the list that validation
/// returns is accepted again and comes back unchanged.
pub proof fn lemma_categories_normal_form(input: Seq<Seq<char>>)
    requires
        categories_ok(input),
    ensures
        categories_ok(dedup(input.map_values(|s: Seq<char>| norm_category(s)))),
        dedup(dedup(input.map_values(|s: Seq<char>| norm_category(s))).map_values(|s: Seq<char>| norm_category(s))) == dedup(
            input.map_values(|s: Seq<char>| norm_category(s)),
        ),
{
    let nv = input.map_values(|s: Seq<char>| norm_category(s));
    let out = dedup(nv);
    lemma_dedup(nv);
    assert forall|k: int| 0 <= k < out.len() implies slug_ok(#[trigger] out[k]) && norm_category(out[k]) == out[k] by {
        assert(out.contains(out[k]));
        assert(nv.contains(out[k]));
        let i = choose|i: int| 0 <= i < nv.len() && nv[i] == out[k];
        assert(slug_ok(norm_category(input[i])));
        lemma_slug_normalised(out[k]);
    }
    assert(out.map_values(|s: Seq<char>| norm_category(s)) =~= out);
    lemma_dedup_distinct(out);
}

/// The stored chip lowered to a list filter; a malformed stored chip
/// (which validation never lets through) is dropped.
pub open spec fn spec_view_clause_to_filter(c: ViewClauseModel) -> Option<FilterClauseModel> {
    match c {
        ViewClauseModel::Status(v) => if v == seq!['o', 'p', 'e', 'n'] {
            Some(FilterClauseModel::Status(IssueState::Open))
        } else if v == seq!['c', 'l', 'o', 's', 'e', 'd'] {
            Some(FilterClauseModel::Status(IssueState::Closed))
        } else {
            None
        },
        ViewClauseModel::Assignee(v) => Some(FilterClauseModel::Assignee(v)),
        ViewClauseModel::Label(v) => Some(FilterClauseModel::Label(v)),
        ViewClauseModel::Tag(k, v) => Some(FilterClauseModel::Tag { key: k, value: v }),
        ViewClauseModel::Milestone(v) => match uuid_parse(v) {
            Some(u) => Some(FilterClauseModel::Milestone(u)),
            None => None,
        },
    }
}

/// Lowers one stored chip.
pub fn view_clause_to_filter(c: &ProjectViewFilterClause) -> (r: Option<FilterClause>)
    ensures
        match r {
            Some(f) => spec_view_clause_to_filter(c@) == Some(f@),
            None => spec_view_clause_to_filter(c@) is None,
        },
{
    proof {
        reveal_strlit("open");
        reveal_strlit("closed");
        assert("open"@ =~= seq!['o', 'p', 'e', 'n']);
        assert("closed"@ =~= seq!['c', 'l', 'o', 's', 'e', 'd']);
    }
    match c {
        ProjectViewFilterClause::Status { value } => if str_eq(value.as_str(), "open") {
            Some(FilterClause::Status(IssueState::Open))
        } else if str_eq(value.as_str(), "closed") {
            Some(FilterClause::Status(IssueState::Closed))
        } else {
            None
        },
        ProjectViewFilterClause::Assignee { value } => Some(FilterClause::Assignee(value.clone())),
        ProjectViewFilterClause::Label { value } => Some(FilterClause::Label(value.clone())),
        ProjectViewFilterClause::Tag { key, value } => Some(FilterClause::Tag { key: key.clone(), value: value.clone() }),
        ProjectViewFilterClause::Milestone { value } => match parse_uuid(&chars_of(value.as_str())) {
            Some(u) => Some(FilterClause::Milestone(u)),
            None => None,
        },
    }
}

/// The lowered chips of a view, in order, malformed ones dropped.
pub open spec fn lowered(cs: Seq<ViewClauseModel>) -> Seq<FilterClauseModel>
    decreases cs.len(),
{
    if cs.len() == 0 {
        Seq::empty()
    } else {
        match spec_view_clause_to_filter(cs.last()) {
            Some(f) => lowered(cs.drop_last()).push(f),
            None => lowered(cs.drop_last()),
        }
    }
}

/// Lowers a view's chips.
pub fn lower_view_clauses(cs: &Vec<ProjectViewFilterClause>) -> (r: Vec<FilterClause>)
    ensures
        clause_views(r@) == lowered(view_clause_views(cs@)),
{
    let ghost cv = view_clause_views(cs@);
    let mut out: Vec<FilterClause> = Vec::new();
    let mut k: usize = 0;
    while k < cs.len()
        invariant
            k <= cs.len(),
            cv == view_clause_views(cs@),
            clause_views(out@) == lowered(cv.take(k as int)),
        decreases cs.len() - k,
    {
        assert(cv.take(k + 1).drop_last() =~= cv.take(k as int));
        assert(cv.take(k + 1).last() == cs@[k as int]@);
        match view_clause_to_filter(&cs[k]) {
            Some(f) => {
                let ghost before = clause_views(out@);
                let ghost fv = f@;
                out.push(f);
                assert(clause_views(out@) =~= before.push(fv));
            },
            None => {},
        }
        k = k + 1;
    }
    assert(cv.take(cs.len() as int) =~= cv);
    out
}

/// Issues in state `st` among `s`.
pub open spec fn count_state(s: Seq<IssueModel>, st: IssueState) -> nat
    decreases s.len(),
{
    if s.len() == 0 {
        0
    } else {
        count_state(s.drop_last(), st) + if s.last().state == st {
            1nat
        } else {
            0nat
        }
    }
}

/// A tab's badge counts, `(open, total)`: the view's members kept by
/// its chips, as the list of that tab shows them. `tag_rows[k]` are
/// the links of chip `k`'s tag key, `milestones` the project's.
pub fn view_issue_counts(
    clauses: &Vec<FilterClause>,
    tag_rows: &Vec<Vec<(u128, String)>>,
    milestones: &Vec<Milestone>,
    members: &Vec<Issue>,
) -> (r: (i32, i32))
    requires
        tag_rows.len() == clauses.len(),
        members.len() <= i32::MAX,
    ensures
        ({
            let kept = filter_seq(
                issue_views(members@),
                keeps_all(clause_views(clauses@), rows_views(tag_rows@), milestone_views(milestones@)),
            );
            r.0 == count_state(kept, IssueState::Open) && r.1 == kept.len()
        }),
{
    let kept = apply_filter_clauses(clauses, tag_rows, milestones, members);
    proof {
        lemma_filter_seq_len(
            issue_views(members@),
            keeps_all(clause_views(clauses@), rows_views(tag_rows@), milestone_views(milestones@)),
        );
    }
    let ghost kv = issue_views(kept@);
    let mut open: i32 = 0;
    let mut k: usize = 0;
    while k < kept.len()
        invariant
            k <= kept.len(),
            kept.len() <= i32::MAX,
            kv == issue_views(kept@),
            0 <= open <= k,
            open == count_state(kv.take(k as int), IssueState::Open),
        decreases kept.len() - k,
    {
        assert(kv.take(k + 1).drop_last() =~= kv.take(k as int));
        assert(kv.take(k + 1).last() == kept@[k as int]@);
        if kept[k].state == IssueState::Open {
            open = open + 1;
        }
        k = k + 1;
    }
    assert(kv.take(kept.len() as int) =~= kv);
    (open, kept.len() as i32)
}

/// `no view with id <id>`.
pub open spec fn no_view_text(view_id: u128) -> Seq<char> {
    "no view with id "@ + uuid_hyphenated(view_id)
}

/// The answer for a view the caller does not have.
pub fn no_view(view_id: u128) -> (e: ApiError)
    ensures
        is_not_found(e, ErrorCode::ViewNotFound, no_view_text(view_id)),
{
    not_found(ErrorCode::ViewNotFound, join2("no view with id ", uuid_to_string(view_id).as_str()))
}

/// The view `view_id` a route names must exist for the caller
/// (`found_project` is its project) and belong to the project in the
/// path; otherwise `404 view_not_found`, as if it did not exist.
pub fn check_view_in_project(found_project: Option<u128>, project_id: u128, view_id: u128) -> (r: Result<(), ApiError>)
    ensures
        found_project == Some(project_id) ==> r is Ok,
        found_project != Some(project_id) ==> (r matches Err(e) && is_not_found(
            e,
            ErrorCode::ViewNotFound,
            no_view_text(view_id),
        )),
{
    match found_project {
        Some(p) => if p == project_id {
            Ok(())
        } else {
            Err(no_view(view_id))
        },
        None => Err(no_view(view_id)),
    }
}

/// A create or update whose name another view of the caller holds is
/// `409 view_name_taken`; other store failures pass through.
pub fn map_view_write_error(err: StoreError) -> (r: ApiError)
    ensures
        match err {
            StoreError::Conflict(_) => is_conflict(r, ErrorCode::ViewNameTaken, "a view with that name already exists"@),
            _ => r == ApiError::Store(err),
        },
{
    match err {
        StoreError::Conflict(_) => conflict(ErrorCode::ViewNameTaken, "a view with that name already exists".to_owned()),
        e => ApiError::Store(e),
    }
}

/// A reorder the store refuses (ids missing or foreign) is `400
/// invalid_reorder` with the store's text; other failures pass through.
pub fn map_reorder_error(err: StoreError) -> (r: ApiError)
    ensures
        match err {
            StoreError::Invalid(m) => is_bad(r, ErrorCode::InvalidReorder, m@),
            _ => r == ApiError::Store(err),
        },
{
    match err {
        StoreError::Invalid(m) => ApiError::BadRequest { code: ErrorCode::InvalidReorder, message: m },
        e => ApiError::Store(e),
    }
}


/// Who can see a saved view.
#[derive(Debug, Clone, Copy, PartialEq, Eq, Structural)]
pub enum ProjectViewVisibility {
    /// Its owner only.
    Private,
}

/// A saved view's body, as sent to create or update it.
#[derive(Debug, Clone)]
pub struct ProjectViewCreateBody {
    pub name: String,
    pub group_by: Option<String>,
    /// Each chip as read from the body, or the reader's error when it
    /// did not have the shape of a chip.
    pub filter_clauses: Vec<Result<ProjectViewFilterClause, String>>,
    pub sort: String,
    /// Calendar day, numbered as `num_days_from_ce` does (0001-01-01 is day 1).
    pub start_date: Option<i32>,
    pub due_date: Option<i32>,
    pub categories: Vec<String>,
}

/// The row a create or update writes.
#[derive(Debug, Clone)]
pub struct ProjectViewUpsert {
    pub name: String,
    pub group_by: Option<String>,
    pub filter_clauses: Vec<ProjectViewFilterClause>,
    pub sort: String,
    pub visibility: ProjectViewVisibility,
    pub start_date: Option<i32>,
    pub due_date: Option<i32>,
    pub categories: Vec<String>,
}

pub open spec fn opt_str_seq(o: Option<String>) -> Option<Seq<char>> {
    match o {
        Some(s) => Some(s@),
        None => None,
    }
}

/// The group-by of a body is acceptable.
pub open spec fn group_by_ok(g: Option<Seq<char>>) -> bool {
    match g {
        None => true,
        Some(s) => s == seq!['s', 't', 'a', 't', 'u', 's'] || spec_tag_key(s) is Some,
    }
}

/// Why a view body is refused, checking in order its name, group-by,
/// sort, chips and categories: the code and message of the first
/// failure.
pub open spec fn body_error(body: ProjectViewCreateBody) -> Option<(ErrorCode, Seq<char>)> {
    if !(1 <= seq_trim(body.name@).len() <= MAX_VIEW_NAME_CHARS) {
        Some((ErrorCode::InvalidViewName, "view name must be 1..=60 chars after trim"@))
    } else if !group_by_ok(opt_str_seq(body.group_by)) {
        Some((ErrorCode::InvalidGroupBy, "unknown group_by `"@ + body.group_by->0@ + "`"@))
    } else if !allowed_sort(body.sort@) {
        Some((ErrorCode::InvalidSort, "unknown sort `"@ + body.sort@ + "`"@))
    } else if first_clause_error(body.filter_clauses@, 0) is Some {
        Some((ErrorCode::InvalidFilter, first_clause_error(body.filter_clauses@, 0)->0))
    } else if categories_error(string_seqs(body.categories@)) is Some {
        Some((ErrorCode::InvalidCategories, categories_error(string_seqs(body.categories@))->0))
    } else {
        None
    }
}

/// Checks a view body in order: name, group-by, sort, chips,
/// categories (the first failure is its `400`); the row keeps the
/// trimmed name, the canonical chips and the normalised categories
/// without repeats, private.
pub fn body_to_upsert(body: ProjectViewCreateBody) -> (r: Result<ProjectViewUpsert, ApiError>)
    ensures
        match body_error(body) {
            Some(c) => r matches Err(e) && is_bad(e, c.0, c.1),
            None => r matches Ok(u) && {
                &&& u.name@ == seq_trim(body.name@)
                &&& u.group_by == body.group_by
                &&& u.sort == body.sort
                &&& u.visibility == ProjectViewVisibility::Private
                &&& u.start_date == body.start_date
                &&& u.due_date == body.due_date
                &&& u.filter_clauses.len() == body.filter_clauses.len()
                &&& forall|k: int|
                    0 <= k < u.filter_clauses.len() ==> raw_ok(body.filter_clauses@[k]) && (#[trigger] u.filter_clauses@[k])@
                        == canonical_clause(raw_clause(body.filter_clauses@[k]))
                &&& string_seqs(u.categories@) == dedup(
                    string_seqs(body.categories@).map_values(|s: Seq<char>| norm_category(s)),
                )
                &&& categories_ok(string_seqs(body.categories@))
            },
        },
{
    let name = validate_name(body.name.as_str())?;
    validate_group_by(match &body.group_by {
        Some(g) => Some(g.as_str()),
        None => None,
    })?;
    validate_sort(body.sort.as_str())?;
    let filter_clauses = validate_filter_clauses(&body.filter_clauses)?;
    let categories = validate_categories(&body.categories)?;
    Ok(ProjectViewUpsert {
        name,
        group_by: body.group_by,
        filter_clauses,
        sort: body.sort,
        visibility: ProjectViewVisibility::Private,
        start_date: body.start_date,
        due_date: body.due_date,
        categories,
    })
}

/// `POST /projects/{id}/views/reorder` body.
#[derive(Debug, Clone)]
pub struct ProjectViewReorderBody {
    pub ordered_ids: Vec<u128>,
}

} // verus!
