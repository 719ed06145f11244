//! Repository routes: list paging, the analytics window every
//! repo-level aggregate shares, the bucketing timezone, and the
//! by-name resolution of a sync request.

use vstd::prelude::*;

use crate::error::{bad_request, is_bad, is_not_found, not_found, ApiError, ErrorCode};
use crate::text::{chars_of, concat, eq_ignore_ascii_case, join2, join3, join4, seq_trim, spec_eq_ignore_ascii_case, string_from, trim};

verus! {

/// Page size when the caller names none.
pub const DEFAULT_LIST_LIMIT: i64 = 50;

/// Largest page size a caller can ask for.
pub const MAX_LIST_LIMIT: i64 = 200;

/// Microseconds in a day.
pub const DAY_MICROS: i64 = 86_400_000_000;

/// Days an analytics window reaches back when `since` is omitted.
pub const DEFAULT_WINDOW_DAYS: i64 = 90;

/// Longest analytics window, in days.
pub const MAX_WINDOW_DAYS: i64 = 366;

/// `<org login>/<repo name>`, the way a repository is named to people.
pub open spec fn spec_repo_slug(org_login: Seq<char>, name: Seq<char>) -> Seq<char> {
    org_login + seq!['/'] + name
}

pub fn repo_slug(org_login: &str, name: &str) -> (r: String)
    ensures
        r@ == spec_repo_slug(org_login@, name@),
{
    let mut a = chars_of(org_login);
    a.push('/');
    let b = concat(&a, &chars_of(name));
    assert(b@ =~= spec_repo_slug(org_login@, name@));
    string_from(&b)
}

/// `limit`: a positive value capped at [`MAX_LIST_LIMIT`], else the
/// default.
pub open spec fn spec_clamp_limit(v: Option<i64>) -> i64 {
    match v {
        Some(n) => if n > 0 {
            if n < MAX_LIST_LIMIT {
                n
            } else {
                MAX_LIST_LIMIT
            }
        } else {
            DEFAULT_LIST_LIMIT
        },
        None => DEFAULT_LIST_LIMIT,
    }
}

/// Clamps a caller-supplied `limit`.
pub fn clamp_limit(v: Option<i64>) -> (r: i64)
    ensures
        r == spec_clamp_limit(v),
        1 <= r <= MAX_LIST_LIMIT,
{
    match v {
        Some(n) => if n > 0 {
            if n < MAX_LIST_LIMIT {
                n
            } else {
                MAX_LIST_LIMIT
            }
        } else {
            DEFAULT_LIST_LIMIT
        },
        None => DEFAULT_LIST_LIMIT,
    }
}

/// Clamps a caller-supplied `offset` to `>= 0`.
pub fn clamp_offset(v: Option<i64>) -> (r: i64)
    ensures
        r == match v {
            Some(n) => if n > 0 {
                n
            } else {
                0
            },
            None => 0,
        },
        r >= 0,
{
    match v {
        Some(n) => if n > 0 {
            n
        } else {
            0
        },
        None => 0,
    }
}

/// The `[since, until)` window of a repo aggregate: `until` defaults
/// to now and `since` to 90 days before `until`; `since < until` and
/// the span at most 366 days, else `invalid_window` saying which.
/// Instants are microseconds since the Unix epoch.
pub open spec fn spec_window(since: Option<i64>, until: Option<i64>, now: i64) -> Result<(i64, i64), Seq<char>> {
    let u = match until {
        Some(u) => u,
        None => now,
    };
    let s = match since {
        Some(s) => s as int,
        None => u - DEFAULT_WINDOW_DAYS * DAY_MICROS,
    };
    if s >= u {
        Err("since must be < until"@)
    } else if u - s > MAX_WINDOW_DAYS * DAY_MICROS {
        Err("window span exceeds the 366-day cap"@)
    } else {
        Ok((s as i64, u))
    }
}

/// Resolves and checks an analytics window.
pub fn resolve_window(since: Option<i64>, until: Option<i64>, now: i64) -> (r: Result<(i64, i64), ApiError>)
    requires
        since is None ==> (match until {
            Some(u) => u,
            None => now,
        }) - DEFAULT_WINDOW_DAYS * DAY_MICROS >= i64::MIN,
    ensures
        match (r, spec_window(since, until, now)) {
            (Ok(w), Ok(m)) => w == m,
            (Err(e), Err(m)) => is_bad(e, ErrorCode::InvalidWindow, m),
            _ => false,
        },
{
    let u = match until {
        Some(u) => u,
        None => now,
    };
    let s = match since {
        Some(s) => s,
        None => u - DEFAULT_WINDOW_DAYS * DAY_MICROS,
    };
    if s >= u {
        return Err(bad_request(ErrorCode::InvalidWindow, "since must be < until".to_owned()));
    }
    if (u as i128) - (s as i128) > (MAX_WINDOW_DAYS as i128) * (DAY_MICROS as i128) {
        return Err(bad_request(ErrorCode::InvalidWindow, "window span exceeds the 366-day cap".to_owned()));
    }
    Ok((s, u))
}

/// Whether `s` names a zone of the IANA database that `chrono-tz`
/// ships (a function of the name alone).
pub uninterp spec fn iana_zone_known(s: Seq<char>) -> bool;

/// Calls `s.parse::<chrono_tz::Tz>()` and reports whether it succeeded.
#[verifier::external_body]
fn parse_tz_ok(s: &str) -> (r: bool)
    ensures
        r == iana_zone_known(s@),
{
    s.parse::<chrono_tz::Tz>().is_ok()
}

/// The heatmap timezone: `UTC` when omitted; an unknown name is
/// `invalid_timezone`, quoting it.
pub fn default_tz(tz: Option<&str>) -> (r: Result<String, ApiError>)
    ensures
        ({
            let name = match tz {
                Some(t) => t@,
                None => seq!['U', 'T', 'C'],
            };
            match r {
                Ok(s) => s@ == name && iana_zone_known(name),
                Err(e) => !iana_zone_known(name) && is_bad(
                    e,
                    ErrorCode::InvalidTimezone,
                    "'"@ + name + "' is not a recognised IANA timezone"@,
                ),
            }
        }),
{
    let name: &str = match tz {
        Some(t) => t,
        None => "UTC",
    };
    proof {
        reveal_strlit("UTC");
        assert("UTC"@ =~= seq!['U', 'T', 'C']);
    }
    if parse_tz_ok(name) {
        Ok(string_from(&chars_of(name)))
    } else {
        Err(bad_request(ErrorCode::InvalidTimezone, join3("'", name, "' is not a recognised IANA timezone")))
    }
}

/// `POST /repos/sync` body.
#[derive(Debug, Clone)]
pub struct RepoSyncByNameRequest {
    pub org: String,
    pub name: String,
}

/// `202` body of a queued sync.
#[derive(Debug, Clone, Copy)]
pub struct RepoSyncQueuedDto {
    pub queued: bool,
}

/// One `(dow, hour)` cell of the activity heatmap.
#[derive(Debug, Clone, Copy)]
pub struct HeatmapBucketDto {
    /// 0 = Monday … 6 = Sunday.
    pub dow: i16,
    /// 0..=23 in the response's timezone.
    pub hour: i16,
    pub count: i64,
}

/// An organisation by login, or a repository by name, as listed by
/// the store.
#[derive(Debug, Clone)]
pub struct NamedRow {
    pub id: u128,
    pub org_id: u128,
    pub name: String,
}

/// The first row whose name equals `name` ignoring ASCII case.
pub open spec fn first_named(rows: Seq<NamedRow>, name: Seq<char>) -> Option<int> {
    if exists|k: int| 0 <= k < rows.len() && spec_eq_ignore_ascii_case((#[trigger] rows[k]).name@, name) {
        Some(
            choose|k: int|
                0 <= k < rows.len() && spec_eq_ignore_ascii_case(rows[k].name@, name) && forall|j: int|
                    0 <= j < k ==> !spec_eq_ignore_ascii_case(#[trigger] rows[j].name@, name),
        )
    } else {
        None
    }
}

proof fn lemma_first_named(rows: Seq<NamedRow>, name: Seq<char>, k: int)
    requires
        0 <= k < rows.len(),
        spec_eq_ignore_ascii_case(rows[k].name@, name),
        forall|j: int| 0 <= j < k ==> !spec_eq_ignore_ascii_case(#[trigger] rows[j].name@, name),
    ensures
        first_named(rows, name) == Some(k),
{
    let c = choose|c: int|
        0 <= c < rows.len() && spec_eq_ignore_ascii_case(rows[c].name@, name) && forall|j: int|
            0 <= j < c ==> !spec_eq_ignore_ascii_case(#[trigger] rows[j].name@, name);
    assert(spec_eq_ignore_ascii_case(rows[k].name@, name));
    assert(0 <= c < rows.len() && spec_eq_ignore_ascii_case(rows[c].name@, name));
    if c < k {
        assert(!spec_eq_ignore_ascii_case(rows[c].name@, name));
    }
    if k < c {
        assert(!spec_eq_ignore_ascii_case(rows[k].name@, name));
    }
}

/// Finds the first row named `name`, ignoring ASCII case.
pub fn find_named(rows: &Vec<NamedRow>, name: &Vec<char>) -> (r: Option<usize>)
    ensures
        match r {
            Some(k) => k < rows.len() && first_named(rows@, name@) == Some(k as int),
            None => first_named(rows@, name@) is None,
        },
{
    let mut k: usize = 0;
    while k < rows.len()
        invariant
            k <= rows.len(),
            forall|j: int| 0 <= j < k ==> !spec_eq_ignore_ascii_case(#[trigger] rows@[j].name@, name@),
        decreases rows.len() - k,
    {
        let n = chars_of(rows[k].name.as_str());
        if eq_ignore_ascii_case(&n, name) {
            proof {
                lemma_first_named(rows@, name@, k as int);
            }
            return Some(k);
        }
        k = k + 1;
    }
    None
}

/// The trimmed `(org, name)` of a sync-by-name request; either blank
/// is `invalid_repo_slug`.
pub fn validate_sync_request(body: &RepoSyncByNameRequest) -> (r: Result<(Vec<char>, Vec<char>), ApiError>)
    ensures
        match r {
            Ok((o, n)) => o@ == seq_trim(body.org@) && n@ == seq_trim(body.name@) && o@.len() > 0 && n@.len() > 0,
            Err(e) => (seq_trim(body.org@).len() == 0 || seq_trim(body.name@).len() == 0) && is_bad(
                e,
                ErrorCode::InvalidRepoSlug,
                "both `org` and `name` are required"@,
            ),
        },
{
    let o = trim(body.org.as_str());
    let n = trim(body.name.as_str());
    if o.len() == 0 || n.len() == 0 {
        return Err(bad_request(ErrorCode::InvalidRepoSlug, "both `org` and `name` are required".to_owned()));
    }
    Ok((o, n))
}

/// Resolves `org/name` against the listed organisations and that
/// organisation's repositories (the repositories the store returned
/// for the organisation and the name): the first org whose login
/// matches and the first repository whose name matches, both
/// ignoring ASCII case. Answers the repository's `(org_id, id)`.
pub fn resolve_repo_by_name(
    org: &Vec<char>,
    name: &Vec<char>,
    orgs: &Vec<NamedRow>,
    repos: &Vec<NamedRow>,
) -> (r: Result<(u128, u128), ApiError>)
    ensures
        match first_named(orgs@, org@) {
            None => r matches Err(e) && is_not_found(e, ErrorCode::OrgNotFound, "no org with login '"@ + org@ + "'"@),
            Some(_) => match first_named(repos@, name@) {
                None => r matches Err(e) && is_not_found(
                    e,
                    ErrorCode::RepoNotFound,
                    "no repo '"@ + org@ + "/"@ + name@ + "'"@,
                ),
                Some(k) => r == Ok::<(u128, u128), ApiError>((repos@[k].org_id, repos@[k].id)),
            },
        },
{
    match find_named(orgs, org) {
        None => Err(not_found(ErrorCode::OrgNotFound, join3("no org with login '", string_from(org).as_str(), "'"))),
        Some(_) => match find_named(repos, name) {
            None => {
                let t = join4("no repo '", string_from(org).as_str(), "/", string_from(name).as_str());
                Err(not_found(ErrorCode::RepoNotFound, join2(t.as_str(), "'")))
            },
            Some(k) => Ok((repos[k].org_id, repos[k].id)),
        },
    }
}

} // verus!
