//! Group-by buckets of the project issue list: the per-bucket
//! open/closed counts rendered next to each collapsed section and the
//! bucket keys stamped on every row.

use vstd::prelude::*;

use crate::project_issues::{issue_views, pair_views, GroupBy, GroupByModel, Issue, IssueModel, IssueState};
use crate::text::{chars_eq, chars_of, lemma_seq_lt_irreflexive, lemma_seq_lt_total, lemma_seq_lt_transitive, lt_chars, seq_lt, string_from};

verus! {

/// One section of a grouped issue list.
#[derive(Debug, Clone)]
pub struct IssueBucket {
    /// Bucket value; `None` for the synthetic "No <key>" bucket.
    pub key: Option<String>,
    pub label: String,
    pub open: i64,
    pub closed: i64,
}

pub struct IssueBucketModel {
    pub key: Option<Seq<char>>,
    pub label: Seq<char>,
    pub open: int,
    pub closed: int,
}

impl View for IssueBucket {
    type V = IssueBucketModel;

    open spec fn view(&self) -> IssueBucketModel {
        IssueBucketModel {
            key: match self.key {
                Some(k) => Some(k@),
                None => None,
            },
            label: self.label@,
            open: self.open as int,
            closed: self.closed as int,
        }
    }
}

pub open spec fn bucket_views(v: Seq<IssueBucket>) -> Seq<IssueBucketModel> {
    v.map_values(|b: IssueBucket| b@)
}

/// The state of the last listed issue with identifier `id`, if any
/// (later rows of the same issue win, as in a map built in order).
pub open spec fn last_state(issues: Seq<IssueModel>, id: u128) -> Option<IssueState>
    decreases issues.len(),
{
    if issues.len() == 0 {
        None
    } else if issues.last().id == id {
        Some(issues.last().state)
    } else {
        last_state(issues.drop_last(), id)
    }
}

/// Number of issues (counted per row of the list) in state `st`.
pub open spec fn state_count(issues: Seq<IssueModel>, st: IssueState) -> nat
    decreases issues.len(),
{
    if issues.len() == 0 {
        0
    } else {
        state_count(issues.drop_last(), st) + if issues.last().state == st {
            1nat
        } else {
            0nat
        }
    }
}

/// Number of `(issue_id, value)` links carrying `v` whose issue is
/// listed and (by its last listed row) in state `st`.
pub open spec fn value_count(
    rows: Seq<(u128, Seq<char>)>,
    issues: Seq<IssueModel>,
    v: Seq<char>,
    st: IssueState,
) -> nat
    decreases rows.len(),
{
    if rows.len() == 0 {
        0
    } else {
        value_count(rows.drop_last(), issues, v, st) + if rows.last().1 == v && last_state(
            issues,
            rows.last().0,
        ) == Some(st) {
            1nat
        } else {
            0nat
        }
    }
}

/// `v` is carried by a link of some listed issue.
pub open spec fn is_live_value(rows: Seq<(u128, Seq<char>)>, issues: Seq<IssueModel>, v: Seq<char>) -> bool {
    exists|r: int| 0 <= r < rows.len() && (#[trigger] rows[r]).1 == v && last_state(issues, rows[r].0) is Some
}

/// Some link names issue `id`.
pub open spec fn has_row(rows: Seq<(u128, Seq<char>)>, id: u128) -> bool {
    exists|r: int| 0 <= r < rows.len() && (#[trigger] rows[r]).0 == id
}

/// Some issue of the list has identifier `id`.
pub open spec fn has_issue(issues: Seq<IssueModel>, id: u128) -> bool {
    exists|k: int| 0 <= k < issues.len() && (#[trigger] issues[k]).id == id
}

/// Listed issues without any link, each identifier counted once, in
/// state `st`: the "No <key>" bucket.
pub open spec fn no_key_count(issues: Seq<IssueModel>, rows: Seq<(u128, Seq<char>)>, st: IssueState) -> nat
    decreases issues.len(),
{
    if issues.len() == 0 {
        0
    } else {
        no_key_count(issues.drop_last(), rows, st) + if !has_issue(issues.drop_last(), issues.last().id)
            && !has_row(rows, issues.last().id) && issues.last().state == st {
            1nat
        } else {
            0nat
        }
    }
}

/// Bucket order: larger total first, then key ascending.
pub open spec fn tally_before(a: (Seq<char>, int, int), b: (Seq<char>, int, int)) -> bool {
    a.1 + a.2 > b.1 + b.2 || (a.1 + a.2 == b.1 + b.2 && seq_lt(a.0, b.0))
}

pub proof fn lemma_tally_before_transitive(
    a: (Seq<char>, int, int),
    b: (Seq<char>, int, int),
    c: (Seq<char>, int, int),
)
    requires
        tally_before(a, b),
        tally_before(b, c),
    ensures
        tally_before(a, c),
{
    if a.1 + a.2 == b.1 + b.2 && b.1 + b.2 == c.1 + c.2 {
        lemma_seq_lt_transitive(a.0, b.0, c.0);
    }
}

/// The lowest-level facts about the recursive counts.
proof fn lemma_last_state_some(issues: Seq<IssueModel>, id: u128)
    ensures
        last_state(issues, id) is Some <==> has_issue(issues, id),
    decreases issues.len(),
{
    if issues.len() > 0 {
        lemma_last_state_some(issues.drop_last(), id);
        if has_issue(issues, id) && issues.last().id != id {
            let k = choose|k: int| 0 <= k < issues.len() && (#[trigger] issues[k]).id == id;
            assert(issues.drop_last()[k] == issues[k]);
        }
        if has_issue(issues.drop_last(), id) {
            let k = choose|k: int| 0 <= k < issues.drop_last().len() && (#[trigger] issues.drop_last()[k]).id == id;
            assert(issues[k] == issues.drop_last()[k]);
        }
    }
}

proof fn lemma_value_count_le(rows: Seq<(u128, Seq<char>)>, issues: Seq<IssueModel>, v: Seq<char>)
    ensures
        value_count(rows, issues, v, IssueState::Open) + value_count(rows, issues, v, IssueState::Closed)
            <= rows.len(),
    decreases rows.len(),
{
    if rows.len() > 0 {
        lemma_value_count_le(rows.drop_last(), issues, v);
    }
}

/// The state of the last issue with `id`.
fn last_state_exec(issues: &Vec<Issue>, id: u128) -> (r: Option<IssueState>)
    ensures
        r == last_state(issue_views(issues@), id),
{
    let ghost iv = issue_views(issues@);
    let mut k: usize = issues.len();
    assert(iv.take(issues.len() as int) =~= iv);
    while k > 0
        invariant
            k <= issues.len(),
            iv == issue_views(issues@),
            last_state(iv, id) == last_state(iv.take(k as int), id),
        decreases k,
    {
        assert(iv.take(k as int).drop_last() =~= iv.take(k - 1));
        assert(iv.take(k as int).last() == issues@[k - 1]@);
        if issues[k - 1].id == id {
            return Some(issues[k - 1].state);
        }
        k = k - 1;
    }
    None
}


/// A bucket value with its open and closed link counts.
struct Tally {
    value: Vec<char>,
    open: i64,
    closed: i64,
}

spec fn tally_view(t: Tally) -> (Seq<char>, int, int) {
    (t.value@, t.open as int, t.closed as int)
}

spec fn tally_views(v: Seq<Tally>) -> Seq<(Seq<char>, int, int)> {
    v.map_values(|t: Tally| tally_view(t))
}

/// `v` is carried by one of the first `n` links, of a listed issue.
spec fn live_in_prefix(rows: Seq<(u128, Seq<char>)>, issues: Seq<IssueModel>, v: Seq<char>, n: int) -> bool {
    exists|r: int| 0 <= r < n && (#[trigger] rows[r]).1 == v && last_state(issues, rows[r].0) is Some
}

proof fn lemma_value_count_zero(
    rows: Seq<(u128, Seq<char>)>,
    issues: Seq<IssueModel>,
    v: Seq<char>,
    st: IssueState,
    n: int,
)
    requires
        0 <= n <= rows.len(),
        !live_in_prefix(rows, issues, v, n),
    ensures
        value_count(rows.take(n), issues, v, st) == 0,
    decreases n,
{
    if n > 0 {
        assert(rows.take(n).drop_last() =~= rows.take(n - 1));
        assert(rows.take(n).last() == rows[n - 1]);
        assert(!live_in_prefix(rows, issues, v, n - 1)) by {
            if live_in_prefix(rows, issues, v, n - 1) {
                let r = choose|r: int| 0 <= r < n - 1 && (#[trigger] rows[r]).1 == v && last_state(issues, rows[r].0) is Some;
                assert(0 <= r < n && rows[r].1 == v);
            }
        }
        lemma_value_count_zero(rows, issues, v, st, n - 1);
    }
}

/// `x` after one more link carrying `value` of an issue in `st`.
spec fn bumped(x: (Seq<char>, int, int), value: Seq<char>, st: IssueState) -> (Seq<char>, int, int) {
    if x.0 == value {
        (
            x.0,
            x.1 + if st == IssueState::Open {
                1int
            } else {
                0int
            },
            x.2 + if st == IssueState::Closed {
                1int
            } else {
                0int
            },
        )
    } else {
        x
    }
}

spec fn tallies_contain(t: Seq<(Seq<char>, int, int)>, v: Seq<char>) -> bool {
    exists|j: int| 0 <= j < t.len() && (#[trigger] t[j]).0 == v
}

/// Counts one more link carrying `value`, adding the value at the end
/// when it is new.
fn add_to_tally(t: &mut Vec<Tally>, value: Vec<char>, st: IssueState)
    requires
        forall|j: int|
            0 <= j < old(t).len() ==> 0 <= (#[trigger] old(t)@[j]).open && 0 <= old(t)@[j].closed && old(t)@[j].open
                + old(t)@[j].closed < 0x7fff_ffff_ffff_ffff,
        forall|i: int, j: int| 0 <= i < j < old(t).len() ==> old(t)@[i].value@ != old(t)@[j].value@,
    ensures
        ({
            let o = tally_views(old(t)@);
            let n = tally_views(final(t)@);
            &&& forall|m: int| 0 <= m < o.len() ==> #[trigger] n[m] == bumped(o[m], value@, st)
            &&& if tallies_contain(o, value@) {
                n.len() == o.len()
            } else {
                n.len() == o.len() + 1 && n[o.len() as int] == bumped((value@, 0, 0), value@, st)
            }
        }),
{
    let ghost o = tally_views(t@);
    let mut j: usize = 0;
    while j < t.len()
        invariant
            j <= t.len(),
            o == tally_views(t@),
            forall|m: int| 0 <= m < j ==> (#[trigger] t@[m]).value@ != value@,
        ensures
            j <= t.len(),
            forall|m: int| 0 <= m < j ==> (#[trigger] t@[m]).value@ != value@,
            j == t.len() || t@[j as int].value@ == value@,
        decreases t.len() - j,
    {
        if chars_eq(&t[j].value, &value) {
            break;
        }
        j = j + 1;
    }
    if j < t.len() {
        assert(o[j as int].0 == value@);
        assert(t@[j as int].open + t@[j as int].closed < 0x7fff_ffff_ffff_ffff);
        let open = t[j].open;
        let closed = t[j].closed;
        match st {
            IssueState::Open => t.set(j, Tally { value, open: open + 1, closed }),
            IssueState::Closed => t.set(j, Tally { value, open, closed: closed + 1 }),
        }
        proof {
            assert forall|m: int| 0 <= m < o.len() implies #[trigger] tally_views(t@)[m] == bumped(o[m], value@, st) by {
                assert(tally_views(t@)[m] == tally_view(t@[m]));
                assert(o[m] == tally_view(old(t)@[m]));
                if m != j {
                    assert(t@[m] == old(t)@[m]);
                    assert(old(t)@[m].value@ != old(t)@[j as int].value@);
                }
            }
        }
    } else {
        proof {
            assert forall|m: int| 0 <= m < o.len() implies o[m].0 != value@ by {
                assert(o[m].0 == t@[m].value@);
            }
        }
        match st {
            IssueState::Open => t.push(Tally { value, open: 1, closed: 0 }),
            IssueState::Closed => t.push(Tally { value, open: 0, closed: 1 }),
        }
        proof {
            assert forall|m: int| 0 <= m < o.len() implies #[trigger] tally_views(t@)[m] == bumped(o[m], value@, st) by {
                assert(o[m].0 != value@);
            }
        }
    }
}

/// Counts, per distinct live value, the links of open and of closed
/// issues; values in order of first appearance.
fn tally_values(issues: &Vec<Issue>, rows: &Vec<(u128, String)>) -> (t: Vec<Tally>)
    requires
        rows.len() < 0x7fff_ffff_ffff_ffff,
    ensures
        forall|j: int|
            0 <= j < t.len() ==> #[trigger] tally_views(t@)[j] == (
                tally_views(t@)[j].0,
                value_count(pair_views(rows@), issue_views(issues@), tally_views(t@)[j].0, IssueState::Open) as int,
                value_count(pair_views(rows@), issue_views(issues@), tally_views(t@)[j].0, IssueState::Closed) as int,
            ),
        forall|j: int| 0 <= j < t.len() ==> is_live_value(pair_views(rows@), issue_views(issues@), (#[trigger] tally_views(t@)[j]).0),
        forall|v: Seq<char>|
            is_live_value(pair_views(rows@), issue_views(issues@), v) ==> tallies_contain(tally_views(t@), v),
        forall|i: int, j: int| 0 <= i < j < t.len() ==> tally_views(t@)[i].0 != tally_views(t@)[j].0,
{
    let ghost iv = issue_views(issues@);
    let ghost rv = pair_views(rows@);
    let mut t: Vec<Tally> = Vec::new();
    let mut r: usize = 0;
    while r < rows.len()
        invariant
            r <= rows.len(),
            rows.len() < 0x7fff_ffff_ffff_ffff,
            iv == issue_views(issues@),
            rv == pair_views(rows@),
            forall|j: int|
                0 <= j < t.len() ==> #[trigger] tally_views(t@)[j] == (
                    tally_views(t@)[j].0,
                    value_count(rv.take(r as int), iv, tally_views(t@)[j].0, IssueState::Open) as int,
                    value_count(rv.take(r as int), iv, tally_views(t@)[j].0, IssueState::Closed) as int,
                ),
            forall|j: int| 0 <= j < t.len() ==> live_in_prefix(rv, iv, (#[trigger] tally_views(t@)[j]).0, r as int),
            forall|v: Seq<char>| live_in_prefix(rv, iv, v, r as int) ==> tallies_contain(tally_views(t@), v),
            forall|i: int, j: int| 0 <= i < j < t.len() ==> tally_views(t@)[i].0 != tally_views(t@)[j].0,
        decreases rows.len() - r,
    {
        let ghost o = tally_views(t@);
        let ghost r1 = r + 1;
        let id = rows[r].0;
        let value = chars_of(rows[r].1.as_str());
        assert(rv[r as int] == (id, value@));
        assert(rv.take(r1).drop_last() =~= rv.take(r as int));
        assert(rv.take(r1).last() == rv[r as int]);
        let st = last_state_exec(issues, id);
        match st {
            None => {
                proof {
                    assert forall|v: Seq<char>| live_in_prefix(rv, iv, v, r1) implies tallies_contain(o, v) by {
                        let x = choose|x: int| 0 <= x < r1 && (#[trigger] rv[x]).1 == v && last_state(iv, rv[x].0) is Some;
                        assert(live_in_prefix(rv, iv, v, r as int));
                    }
                    assert forall|j: int| 0 <= j < t.len() implies live_in_prefix(rv, iv, (#[trigger] o[j]).0, r1) by {
                        let x = choose|x: int| 0 <= x < r && (#[trigger] rv[x]).1 == o[j].0 && last_state(iv, rv[x].0) is Some;
                        assert(0 <= x < r1);
                    }
                }
            },
            Some(state) => {
                proof {
                    assert forall|j: int| 0 <= j < t.len() implies 0 <= (#[trigger] t@[j]).open && 0 <= t@[j].closed
                        && t@[j].open + t@[j].closed < 0x7fff_ffff_ffff_ffff by {
                        assert(o[j] == tally_view(t@[j]));
                        lemma_value_count_le(rv.take(r as int), iv, o[j].0);
                    }
                    if !tallies_contain(o, value@) {
                        assert(!live_in_prefix(rv, iv, value@, r as int));
                        lemma_value_count_zero(rv, iv, value@, IssueState::Open, r as int);
                        lemma_value_count_zero(rv, iv, value@, IssueState::Closed, r as int);
                    }
                }
                proof {
                    assert forall|i: int, j: int| 0 <= i < j < t.len() implies t@[i].value@ != t@[j].value@ by {
                        assert(o[i] == tally_view(t@[i]) && o[j] == tally_view(t@[j]));
                    }
                }
                add_to_tally(&mut t, value, state);
                proof {
                    let n = tally_views(t@);
                    assert forall|m: int| 0 <= m < t.len() implies #[trigger] n[m] == (
                        n[m].0,
                        value_count(rv.take(r1), iv, n[m].0, IssueState::Open) as int,
                        value_count(rv.take(r1), iv, n[m].0, IssueState::Closed) as int,
                    ) by {
                        if m < o.len() {
                            assert(n[m] == bumped(o[m], rv[r as int].1, state));
                        }
                    }
                    assert forall|m: int| 0 <= m < t.len() implies live_in_prefix(rv, iv, (#[trigger] n[m]).0, r1) by {
                        if m < o.len() && o[m].0 != rv[r as int].1 {
                            let x = choose|x: int| 0 <= x < r && (#[trigger] rv[x]).1 == o[m].0 && last_state(iv, rv[x].0) is Some;
                            assert(0 <= x < r1);
                        } else {
                            assert(n[m].0 == rv[r as int].1);
                        }
                    }
                    assert forall|v: Seq<char>| live_in_prefix(rv, iv, v, r1) implies tallies_contain(n, v) by {
                        if v == rv[r as int].1 {
                            if tallies_contain(o, v) {
                                let m = choose|m: int| 0 <= m < o.len() && (#[trigger] o[m]).0 == v;
                                assert(n[m] == bumped(o[m], rv[r as int].1, state));
                            } else {
                                assert(n[o.len() as int].0 == v);
                            }
                        } else {
                            let x = choose|x: int| 0 <= x < r1 && (#[trigger] rv[x]).1 == v && last_state(iv, rv[x].0) is Some;
                            assert(live_in_prefix(rv, iv, v, r as int));
                            let m = choose|m: int| 0 <= m < o.len() && (#[trigger] o[m]).0 == v;
                            assert(n[m] == bumped(o[m], rv[r as int].1, state));
                        }
                    }
                    assert forall|a: int, b: int| 0 <= a < b < t.len() implies n[a].0 != n[b].0 by {
                        assert(n[a] == bumped(o[a], rv[r as int].1, state));
                        if b < o.len() {
                            assert(n[b] == bumped(o[b], rv[r as int].1, state));
                        } else {
                            assert(o[a].0 != rv[r as int].1);
                        }
                    }
                }
            },
        }
        r = r + 1;
    }
    assert(rv.take(rows.len() as int) =~= rv);
    proof {
        let n = tally_views(t@);
        assert forall|v: Seq<char>| is_live_value(rv, iv, v) implies tallies_contain(n, v) by {
            let x = choose|x: int| 0 <= x < rv.len() && (#[trigger] rv[x]).1 == v && last_state(iv, rv[x].0) is Some;
            assert(live_in_prefix(rv, iv, v, rows.len() as int));
        }
        assert forall|j: int| 0 <= j < t.len() implies is_live_value(rv, iv, (#[trigger] n[j]).0) by {
            let x = choose|x: int| 0 <= x < rows.len() && (#[trigger] rv[x]).1 == n[j].0 && last_state(iv, rv[x].0) is Some;
        }
    }
    t
}


fn tally_before_exec(a: &Tally, b: &Tally) -> (r: bool)
    ensures
        r == tally_before(tally_view(*a), tally_view(*b)),
{
    let ta = a.open as i128 + a.closed as i128;
    let tb = b.open as i128 + b.closed as i128;
    ta > tb || (ta == tb && lt_chars(&a.value, &b.value))
}

proof fn lemma_tally_before_total(a: (Seq<char>, int, int), b: (Seq<char>, int, int))
    requires
        a.0 != b.0,
    ensures
        tally_before(a, b) || tally_before(b, a),
{
    lemma_seq_lt_total(a.0, b.0);
}

/// `s` is in bucket order, each entry strictly before the next.
spec fn tallies_sorted(s: Seq<(Seq<char>, int, int)>) -> bool {
    forall|i: int, j: int| 0 <= i < j < s.len() ==> tally_before(#[trigger] s[i], #[trigger] s[j])
}

/// The tallies in bucket order.
fn sort_tallies(t: Vec<Tally>) -> (s: Vec<Tally>)
    requires
        forall|i: int, j: int| 0 <= i < j < t.len() ==> tally_views(t@)[i].0 != tally_views(t@)[j].0,
    ensures
        tallies_sorted(tally_views(s@)),
        s.len() == t.len(),
        forall|x: (Seq<char>, int, int)| tally_views(s@).contains(x) <==> tally_views(t@).contains(x),
{
    let ghost orig = tally_views(t@);
    let mut rest = t;
    let mut out: Vec<Tally> = Vec::new();
    while rest.len() > 0
        invariant
            tallies_sorted(tally_views(out@)),
            out.len() + rest.len() == orig.len(),
            forall|x: (Seq<char>, int, int)|
                tally_views(out@).contains(x) || tally_views(rest@).contains(x) <==> orig.contains(x),
            forall|i: int, j: int| 0 <= i < j < rest.len() ==> tally_views(rest@)[i].0 != tally_views(rest@)[j].0,
            forall|i: int, j: int|
                0 <= i < out.len() && 0 <= j < rest.len() ==> tally_views(out@)[i].0 != tally_views(rest@)[j].0,
        decreases rest.len(),
    {
        let ghost r0 = tally_views(rest@);
        let ghost o = tally_views(out@);
        let x = rest.pop().unwrap();
        let ghost xv = tally_view(x);
        assert(r0.last() == xv);
        assert(tally_views(rest@) =~= r0.drop_last());
        let mut p: usize = 0;
        while p < out.len()
            invariant
                p <= out.len(),
                o == tally_views(out@),
                xv == tally_view(x),
                forall|m: int| 0 <= m < p ==> !tally_before(xv, #[trigger] o[m]),
            ensures
                p <= out.len(),
                forall|m: int| 0 <= m < p ==> !tally_before(xv, #[trigger] o[m]),
                p == out.len() || tally_before(xv, o[p as int]),
            decreases out.len() - p,
        {
            assert(o[p as int] == tally_view(out@[p as int]));
            if tally_before_exec(&x, &out[p]) {
                break;
            }
            p = p + 1;
        }
        out.insert(p, x);
        proof {
            let n = tally_views(out@);
            assert(n =~= o.insert(p as int, xv));
            assert forall|m: int| 0 <= m < o.len() implies o[m].0 != xv.0 by {
                assert(r0[r0.len() - 1] == xv);
            }
            assert forall|i: int, j: int| 0 <= i < j < n.len() implies tally_before(#[trigger] n[i], #[trigger] n[j]) by {
                if j < p {
                    assert(n[i] == o[i] && n[j] == o[j]);
                } else if j == p {
                    assert(n[i] == o[i]);
                    lemma_tally_before_total(o[i], xv);
                } else if i == p {
                    assert(n[j] == o[j - 1]);
                    if j - 1 > p {
                        assert(tally_before(o[p as int], o[j - 1]));
                        lemma_tally_before_transitive(xv, o[p as int], o[j - 1]);
                    }
                } else if i < p {
                    assert(n[i] == o[i] && n[j] == o[j - 1]);
                } else {
                    assert(n[i] == o[i - 1] && n[j] == o[j - 1]);
                }
            }
            assert forall|x2: (Seq<char>, int, int)|
                n.contains(x2) || tally_views(rest@).contains(x2) <==> orig.contains(x2) by {
                if n.contains(x2) {
                    let k = choose|k: int| 0 <= k < n.len() && n[k] == x2;
                    if k < p {
                        assert(o[k] == x2);
                    } else if k > p {
                        assert(o[k - 1] == x2);
                    } else {
                        assert(r0[r0.len() - 1] == x2);
                    }
                }
                if tally_views(rest@).contains(x2) {
                    let k = choose|k: int| 0 <= k < tally_views(rest@).len() && tally_views(rest@)[k] == x2;
                    assert(r0[k] == x2);
                }
                if orig.contains(x2) {
                    if o.contains(x2) {
                        let k = choose|k: int| 0 <= k < o.len() && o[k] == x2;
                        if k < p {
                            assert(n[k] == x2);
                        } else {
                            assert(n[k + 1] == x2);
                        }
                    } else {
                        let k = choose|k: int| 0 <= k < r0.len() && r0[k] == x2;
                        if k == r0.len() - 1 {
                            assert(n[p as int] == x2);
                        } else {
                            assert(tally_views(rest@)[k] == x2);
                        }
                    }
                }
            }
            assert forall|i: int, j: int|
                0 <= i < n.len() && 0 <= j < rest.len() implies n[i].0 != tally_views(rest@)[j].0 by {
                assert(tally_views(rest@)[j] == r0[j]);
                if i < p {
                    assert(n[i] == o[i]);
                } else if i > p {
                    assert(n[i] == o[i - 1]);
                } else {
                    assert(r0[r0.len() - 1] == xv);
                }
            }
        }
    }
    proof {
        assert forall|x: (Seq<char>, int, int)| !tally_views(rest@).contains(x) by {}
    }
    out
}


/// The bucket of one tally under key `key`.
pub open spec fn tally_bucket(key: Seq<char>, t: (Seq<char>, int, int)) -> IssueBucketModel {
    IssueBucketModel { key: Some(t.0), label: key + seq![':'] + t.0, open: t.1, closed: t.2 }
}

/// The `"open"` / `"closed"` bucket key of a state.
pub open spec fn state_key(st: IssueState) -> Seq<char> {
    match st {
        IssueState::Open => seq!['o', 'p', 'e', 'n'],
        IssueState::Closed => seq!['c', 'l', 'o', 's', 'e', 'd'],
    }
}

/// Group by status: an `Open` bucket with every open issue, then a
/// `Closed` bucket, each present only when non-empty.
pub open spec fn status_buckets(issues: Seq<IssueModel>) -> Seq<IssueBucketModel> {
    let o = state_count(issues, IssueState::Open);
    let c = state_count(issues, IssueState::Closed);
    (if o > 0 {
        seq![IssueBucketModel { key: Some(state_key(IssueState::Open)), label: seq!['O', 'p', 'e', 'n'], open: o as int, closed: 0 }]
    } else {
        Seq::empty()
    }) + (if c > 0 {
        seq![IssueBucketModel { key: Some(state_key(IssueState::Closed)), label: seq!['C', 'l', 'o', 's', 'e', 'd'], open: 0, closed: c as int }]
    } else {
        Seq::empty()
    })
}

/// The label of the synthetic bucket: `No <key>`.
pub open spec fn no_key_label(key: Seq<char>) -> Seq<char> {
    seq!['N', 'o', ' '] + key
}

/// Group by the kv tag `key`: one bucket per value carried by a link
/// of a listed issue, with that value's open/closed link counts and
/// label `<key>:<value>`, larger totals first and ties by value; then,
/// pinned last and only when non-empty, `No <key>` with the listed
/// issues that carry no value.
pub open spec fn tag_buckets_ok(
    key: Seq<char>,
    issues: Seq<IssueModel>,
    rows: Seq<(u128, Seq<char>)>,
    bs: Seq<IssueBucketModel>,
) -> bool {
    let nko = no_key_count(issues, rows, IssueState::Open);
    let nkc = no_key_count(issues, rows, IssueState::Closed);
    let n = if nko + nkc > 0 {
        bs.len() - 1
    } else {
        bs.len() as int
    };
    &&& 0 <= n
    &&& forall|i: int|
        0 <= i < n ==> {
            let b = #[trigger] bs[i];
            &&& b.key is Some
            &&& is_live_value(rows, issues, b.key->0)
            &&& b.open == value_count(rows, issues, b.key->0, IssueState::Open)
            &&& b.closed == value_count(rows, issues, b.key->0, IssueState::Closed)
            &&& b.label == key + seq![':'] + b.key->0
        }
    &&& forall|v: Seq<char>|
        is_live_value(rows, issues, v) ==> exists|i: int| 0 <= i < n && (#[trigger] bs[i]).key == Some(v)
    &&& forall|i: int, j: int|
        0 <= i < j < n ==> tally_before(
            (bs[i].key->0, bs[i].open, bs[i].closed),
            (bs[j].key->0, bs[j].open, bs[j].closed),
        )
    &&& nko + nkc > 0 ==> bs[n] == (IssueBucketModel {
        key: None,
        label: no_key_label(key),
        open: nko as int,
        closed: nkc as int,
    })
}

/// Whether `issues[..k]` holds identifier `id`.
fn id_in_prefix(issues: &Vec<Issue>, k: usize, id: u128) -> (r: bool)
    requires
        k <= issues.len(),
    ensures
        r == has_issue(issue_views(issues@).take(k as int), id),
{
    let ghost p = issue_views(issues@).take(k as int);
    let mut j: usize = 0;
    while j < k
        invariant
            j <= k,
            k <= issues.len(),
            p == issue_views(issues@).take(k as int),
            forall|m: int| 0 <= m < j ==> (#[trigger] p[m]).id != id,
        decreases k - j,
    {
        assert(p[j as int] == issues@[j as int]@);
        if issues[j].id == id {
            assert(p[j as int].id == id);
            return true;
        }
        j = j + 1;
    }
    false
}

/// Whether some link names issue `id`.
fn has_row_exec(rows: &Vec<(u128, String)>, id: u128) -> (r: bool)
    ensures
        r == has_row(pair_views(rows@), id),
{
    let ghost rv = pair_views(rows@);
    let mut j: usize = 0;
    while j < rows.len()
        invariant
            j <= rows.len(),
            rv == pair_views(rows@),
            forall|m: int| 0 <= m < j ==> (#[trigger] rv[m]).0 != id,
        decreases rows.len() - j,
    {
        assert(rv[j as int].0 == rows@[j as int].0);
        if rows[j].0 == id {
            return true;
        }
        j = j + 1;
    }
    false
}

/// The issues without any link, counted once per identifier, by state.
fn no_key_counts(issues: &Vec<Issue>, rows: &Vec<(u128, String)>) -> (r: (i64, i64))
    requires
        issues.len() < 0x7fff_ffff_ffff_ffff,
    ensures
        r.0 == no_key_count(issue_views(issues@), pair_views(rows@), IssueState::Open),
        r.1 == no_key_count(issue_views(issues@), pair_views(rows@), IssueState::Closed),
        0 <= r.0,
        0 <= r.1,
        r.0 + r.1 <= issues.len(),
{
    let ghost iv = issue_views(issues@);
    let ghost rv = pair_views(rows@);
    let mut o: i64 = 0;
    let mut c: i64 = 0;
    let mut k: usize = 0;
    while k < issues.len()
        invariant
            k <= issues.len(),
            issues.len() < 0x7fff_ffff_ffff_ffff,
            iv == issue_views(issues@),
            rv == pair_views(rows@),
            0 <= o,
            0 <= c,
            o + c <= k,
            o == no_key_count(iv.take(k as int), rv, IssueState::Open),
            c == no_key_count(iv.take(k as int), rv, IssueState::Closed),
        decreases issues.len() - k,
    {
        assert(iv.take(k + 1).drop_last() =~= iv.take(k as int));
        assert(iv.take(k + 1).last() == issues@[k as int]@);
        let id = issues[k].id;
        if !id_in_prefix(issues, k, id) && !has_row_exec(rows, id) {
            match issues[k].state {
                IssueState::Open => o = o + 1,
                IssueState::Closed => c = c + 1,
            }
        }
        k = k + 1;
    }
    assert(iv.take(issues.len() as int) =~= iv);
    (o, c)
}

/// Issues per state, counted per listed row.
fn state_counts(issues: &Vec<Issue>) -> (r: (i64, i64))
    requires
        issues.len() < 0x7fff_ffff_ffff_ffff,
    ensures
        r.0 == state_count(issue_views(issues@), IssueState::Open),
        r.1 == state_count(issue_views(issues@), IssueState::Closed),
{
    let ghost iv = issue_views(issues@);
    let mut o: i64 = 0;
    let mut c: i64 = 0;
    let mut k: usize = 0;
    while k < issues.len()
        invariant
            k <= issues.len(),
            issues.len() < 0x7fff_ffff_ffff_ffff,
            iv == issue_views(issues@),
            0 <= o,
            0 <= c,
            o + c <= k,
            o == state_count(iv.take(k as int), IssueState::Open),
            c == state_count(iv.take(k as int), IssueState::Closed),
        decreases issues.len() - k,
    {
        assert(iv.take(k + 1).drop_last() =~= iv.take(k as int));
        assert(iv.take(k + 1).last() == issues@[k as int]@);
        match issues[k].state {
            IssueState::Open => o = o + 1,
            IssueState::Closed => c = c + 1,
        }
        k = k + 1;
    }
    assert(iv.take(issues.len() as int) =~= iv);
    (o, c)
}

/// Group by status.
fn status_bucket_list(issues: &Vec<Issue>) -> (r: Vec<IssueBucket>)
    requires
        issues.len() < 0x7fff_ffff_ffff_ffff,
    ensures
        bucket_views(r@) == status_buckets(issue_views(issues@)),
{
    let (o, c) = state_counts(issues);
    let mut out: Vec<IssueBucket> = Vec::new();
    if o > 0 {
        out.push(IssueBucket { key: Some(string_from(&chars_of("open"))), label: string_from(&chars_of("Open")), open: o, closed: 0 });
    }
    if c > 0 {
        out.push(IssueBucket { key: Some(string_from(&chars_of("closed"))), label: string_from(&chars_of("Closed")), open: 0, closed: c });
    }
    proof {
        reveal_strlit("open");
        reveal_strlit("Open");
        reveal_strlit("closed");
        reveal_strlit("Closed");
        let sb = status_buckets(issue_views(issues@));
        let bv = bucket_views(out@);
        assert(bv.len() == sb.len());
        assert forall|i: int| 0 <= i < bv.len() implies bv[i] == sb[i] by {
            if i == 0 && o > 0 {
                assert(out@[0].key->0@ =~= seq!['o', 'p', 'e', 'n']);
                assert(out@[0].label@ =~= seq!['O', 'p', 'e', 'n']);
            } else {
                assert(out@[i].key->0@ =~= seq!['c', 'l', 'o', 's', 'e', 'd']);
                assert(out@[i].label@ =~= seq!['C', 'l', 'o', 's', 'e', 'd']);
            }
        }
        assert(bv =~= sb);
    }
    out
}

/// Group by the kv tag `key`, whose links are `rows`.
fn tag_bucket_list(key: &String, issues: &Vec<Issue>, rows: &Vec<(u128, String)>) -> (r: Vec<IssueBucket>)
    requires
        issues.len() < 0x7fff_ffff_ffff_ffff,
        rows.len() < 0x7fff_ffff_ffff_ffff,
    ensures
        tag_buckets_ok(key@, issue_views(issues@), pair_views(rows@), bucket_views(r@)),
{
    let ghost iv = issue_views(issues@);
    let ghost rv = pair_views(rows@);
    let key_chars = chars_of(key.as_str());
    let tallies = tally_values(issues, rows);
    let sorted = sort_tallies(tallies);
    let ghost sv = tally_views(sorted@);
    let mut out: Vec<IssueBucket> = Vec::new();
    let mut k: usize = 0;
    while k < sorted.len()
        invariant
            k <= sorted.len(),
            sv == tally_views(sorted@),
            key_chars@ == key@,
            out.len() == k,
            forall|i: int|
                0 <= i < k ==> #[trigger] bucket_views(out@)[i] == tally_bucket(key@, sv[i]),
        decreases sorted.len() - k,
    {
        let t = &sorted[k];
        let mut label = key_chars.clone();
        label.push(':');
        let mut m: usize = 0;
        let ghost l0 = label@;
        while m < t.value.len()
            invariant
                m <= t.value.len(),
                label@ == l0 + t.value@.take(m as int),
            decreases t.value.len() - m,
        {
            label.push(t.value[m]);
            assert(t.value@.take(m + 1) =~= t.value@.take(m as int).push(t.value@[m as int]));
            m = m + 1;
        }
        assert(t.value@.take(t.value.len() as int) =~= t.value@);
        assert(sv[k as int] == tally_view(sorted@[k as int]));
        let ghost before = bucket_views(out@);
        out.push(IssueBucket { key: Some(string_from(&t.value)), label: string_from(&label), open: t.open, closed: t.closed });
        proof {
            assert(label@ =~= key@ + seq![':'] + sv[k as int].0);
            assert forall|i: int| 0 <= i < k + 1 implies #[trigger] bucket_views(out@)[i] == tally_bucket(key@, sv[i]) by {
                if i < k {
                    assert(bucket_views(out@)[i] == before[i]);
                }
            }
        }
        k = k + 1;
    }
    let (nko, nkc) = no_key_counts(issues, rows);
    if nko + nkc > 0 {
        let mut label = chars_of("No ");
        let mut m: usize = 0;
        let ghost l0 = label@;
        while m < key_chars.len()
            invariant
                m <= key_chars.len(),
                label@ == l0 + key_chars@.take(m as int),
            decreases key_chars.len() - m,
        {
            label.push(key_chars[m]);
            assert(key_chars@.take(m + 1) =~= key_chars@.take(m as int).push(key_chars@[m as int]));
            m = m + 1;
        }
        assert(key_chars@.take(key_chars.len() as int) =~= key_chars@);
        let ghost before = bucket_views(out@);
        out.push(IssueBucket { key: None, label: string_from(&label), open: nko, closed: nkc });
        proof {
            reveal_strlit("No ");
            assert(label@ =~= no_key_label(key@));
            assert forall|i: int| 0 <= i < k implies #[trigger] bucket_views(out@)[i] == before[i] by {}
        }
    }
    proof {
        let bs = bucket_views(out@);
        let n = sv.len() as int;
        assert forall|i: int| 0 <= i < n implies bs[i] == tally_bucket(key@, sv[i]) by {
            if nko + nkc > 0 {
                assert(bs[i] == bucket_views(out@)[i]);
            }
        }
        assert forall|i: int| 0 <= i < n implies {
            let b = #[trigger] bs[i];
            &&& b.key is Some
            &&& is_live_value(rv, iv, b.key->0)
            &&& b.open == value_count(rv, iv, b.key->0, IssueState::Open)
            &&& b.closed == value_count(rv, iv, b.key->0, IssueState::Closed)
            &&& b.label == key@ + seq![':'] + b.key->0
        } by {
            assert(sv.contains(sv[i]));
        }
        assert forall|v: Seq<char>| is_live_value(rv, iv, v) implies exists|i: int| 0 <= i < n && (#[trigger] bs[i]).key == Some(v) by {
            assert(tallies_contain(tally_views(tallies@), v));
            let j = choose|j: int| 0 <= j < tally_views(tallies@).len() && (#[trigger] tally_views(tallies@)[j]).0 == v;
            assert(tally_views(tallies@).contains(tally_views(tallies@)[j]));
            assert(sv.contains(tally_views(tallies@)[j]));
            let i = choose|i: int| 0 <= i < sv.len() && sv[i] == tally_views(tallies@)[j];
            assert(bs[i].key == Some(v));
        }
        assert forall|i: int, j: int| 0 <= i < j < n implies tally_before(
            (bs[i].key->0, bs[i].open, bs[i].closed),
            (bs[j].key->0, bs[j].open, bs[j].closed),
        ) by {
            assert(tally_before(sv[i], sv[j]));
            assert((bs[i].key->0, bs[i].open, bs[i].closed) == sv[i]);
            assert((bs[j].key->0, bs[j].open, bs[j].closed) == sv[j]);
        }
    }
    out
}

/// The buckets of the issue list under the group-by dimension. For a
/// tag dimension `rows` are the `(issue_id, value)` links of the key;
/// it is not read for status.
pub fn build_buckets(group_by: &GroupBy, issues: &Vec<Issue>, rows: &Vec<(u128, String)>) -> (r: Vec<IssueBucket>)
    requires
        issues.len() < 0x7fff_ffff_ffff_ffff,
        rows.len() < 0x7fff_ffff_ffff_ffff,
    ensures
        match group_by@ {
            GroupByModel::Status => bucket_views(r@) == status_buckets(issue_views(issues@)),
            GroupByModel::Tag { key } => tag_buckets_ok(key, issue_views(issues@), pair_views(rows@), bucket_views(r@)),
        },
{
    match group_by {
        GroupBy::Status => status_bucket_list(issues),
        GroupBy::Tag { key } => tag_bucket_list(key, issues, rows),
    }
}


/// The distinct values the links of issue `id` carry, in order of
/// first appearance.
pub open spec fn vals_for(rows: Seq<(u128, Seq<char>)>, id: u128) -> Seq<Seq<char>>
    decreases rows.len(),
{
    if rows.len() == 0 {
        Seq::empty()
    } else {
        let p = vals_for(rows.drop_last(), id);
        if rows.last().0 == id && !p.contains(rows.last().1) {
            p.push(rows.last().1)
        } else {
            p
        }
    }
}

/// The bucket keys stamped on the row of issue `id`: its status
/// bucket, or the values of its links; `[None]` (the "No <key>"
/// bucket) when it has none or is not listed.
pub open spec fn bucket_keys(
    g: GroupByModel,
    issues: Seq<IssueModel>,
    rows: Seq<(u128, Seq<char>)>,
    id: u128,
) -> Seq<Option<Seq<char>>> {
    match g {
        GroupByModel::Status => match last_state(issues, id) {
            Some(st) => seq![Some(state_key(st))],
            None => seq![None],
        },
        GroupByModel::Tag { .. } => {
            let vs = vals_for(rows, id);
            if last_state(issues, id) is Some && vs.len() > 0 {
                vs.map_values(|v: Seq<char>| Some(v))
            } else {
                seq![None]
            }
        },
    }
}

pub open spec fn opt_string_views(v: Seq<Option<String>>) -> Seq<Option<Seq<char>>> {
    v.map_values(
        |o: Option<String>|
            match o {
                Some(s) => Some(s@),
                None => None,
            },
    )
}

/// Whether `v` holds a sequence equal to `x`.
fn contains_chars(v: &Vec<Vec<char>>, x: &Vec<char>) -> (r: bool)
    ensures
        r == v@.map_values(|c: Vec<char>| c@).contains(x@),
{
    let ghost vv = v@.map_values(|c: Vec<char>| c@);
    let mut j: usize = 0;
    while j < v.len()
        invariant
            j <= v.len(),
            vv == v@.map_values(|c: Vec<char>| c@),
            forall|m: int| 0 <= m < j ==> vv[m] != x@,
        decreases v.len() - j,
    {
        assert(vv[j as int] == v@[j as int]@);
        if chars_eq(&v[j], x) {
            return true;
        }
        j = j + 1;
    }
    false
}

/// The bucket keys of the row of issue `id`.
pub fn bucket_keys_for(group_by: &GroupBy, issues: &Vec<Issue>, rows: &Vec<(u128, String)>, id: u128) -> (r: Vec<Option<String>>)
    ensures
        opt_string_views(r@) == bucket_keys(group_by@, issue_views(issues@), pair_views(rows@), id),
{
    let st = last_state_exec(issues, id);
    match group_by {
        GroupBy::Status => {
            let mut out: Vec<Option<String>> = Vec::new();
            match st {
                Some(IssueState::Open) => out.push(Some(string_from(&chars_of("open")))),
                Some(IssueState::Closed) => out.push(Some(string_from(&chars_of("closed")))),
                None => out.push(None),
            }
            proof {
                reveal_strlit("open");
                reveal_strlit("closed");
                let e = bucket_keys(group_by@, issue_views(issues@), pair_views(rows@), id);
                assert(opt_string_views(out@).len() == 1);
                if st is Some {
                    assert(out@[0]->0@ =~= e[0]->0);
                }
                assert(opt_string_views(out@) =~= e);
            }
            out
        },
        GroupBy::Tag { .. } => {
            let ghost rv = pair_views(rows@);
            let mut vals: Vec<Vec<char>> = Vec::new();
            let mut k: usize = 0;
            while k < rows.len()
                invariant
                    k <= rows.len(),
                    rv == pair_views(rows@),
                    vals@.map_values(|c: Vec<char>| c@) == vals_for(rv.take(k as int), id),
                decreases rows.len() - k,
            {
                assert(rv.take(k + 1).drop_last() =~= rv.take(k as int));
                assert(rv.take(k + 1).last() == rv[k as int]);
                let v = chars_of(rows[k].1.as_str());
                if rows[k].0 == id && !contains_chars(&vals, &v) {
                    let ghost before = vals@.map_values(|c: Vec<char>| c@);
                    vals.push(v);
                    assert(vals@.map_values(|c: Vec<char>| c@) =~= before.push(rv[k as int].1));
                }
                k = k + 1;
            }
            assert(rv.take(rows.len() as int) =~= rv);
            let ghost vs = vals_for(rv, id);
            let mut out: Vec<Option<String>> = Vec::new();
            if st.is_none() || vals.len() == 0 {
                out.push(None);
                assert(opt_string_views(out@) =~= seq![None]);
                return out;
            }
            let mut j: usize = 0;
            while j < vals.len()
                invariant
                    j <= vals.len(),
                    vals@.map_values(|c: Vec<char>| c@) == vs,
                    opt_string_views(out@) == vs.take(j as int).map_values(|v: Seq<char>| Some(v)),
                decreases vals.len() - j,
            {
                let ghost before = opt_string_views(out@);
                out.push(Some(string_from(&vals[j])));
                assert(vs[j as int] == vals@[j as int]@);
                assert(opt_string_views(out@) =~= before.push(Some(vs[j as int])));
                assert(vs.take(j + 1).map_values(|v: Seq<char>| Some(v)) =~= vs.take(j as int).map_values(
                    |v: Seq<char>| Some(v),
                ).push(Some(vs[j as int])));
                j = j + 1;
            }
            assert(vs.take(vals.len() as int) =~= vs);
            out
        },
    }
}


/// Sum of open and closed counts over buckets.
pub open spec fn bucket_total(bs: Seq<IssueBucketModel>) -> int
    decreases bs.len(),
{
    if bs.len() == 0 {
        0
    } else {
        bucket_total(bs.drop_last()) + bs.last().open + bs.last().closed
    }
}

proof fn lemma_state_counts_split(s: Seq<IssueModel>)
    ensures
        state_count(s, IssueState::Open) + state_count(s, IssueState::Closed) == s.len(),
    decreases s.len(),
{
    if s.len() > 0 {
        lemma_state_counts_split(s.drop_last());
    }
}

/// Grouped by status, the section counts add up to the issues listed:
/// every listed issue is counted in exactly one section.
pub proof fn lemma_status_buckets_cover(s: Seq<IssueModel>)
    ensures
        bucket_total(status_buckets(s)) == s.len(),
{
    lemma_state_counts_split(s);
    reveal_with_fuel(bucket_total, 3);
    let bs = status_buckets(s);
    let o = state_count(s, IssueState::Open);
    let c = state_count(s, IssueState::Closed);
    if o > 0 && c > 0 {
        assert(bs.drop_last().drop_last() =~= Seq::<IssueBucketModel>::empty());
    } else if o > 0 || c > 0 {
        assert(bs.drop_last() =~= Seq::<IssueBucketModel>::empty());
    } else {
        assert(bs =~= Seq::<IssueBucketModel>::empty());
    }
}

/// Grouped by a tag, no value has two sections.
pub proof fn lemma_tag_bucket_keys_distinct(
    key: Seq<char>,
    issues: Seq<IssueModel>,
    rows: Seq<(u128, Seq<char>)>,
    bs: Seq<IssueBucketModel>,
)
    requires
        tag_buckets_ok(key, issues, rows, bs),
    ensures
        forall|i: int, j: int| 0 <= i < j < bs.len() ==> (#[trigger] bs[i]).key != (#[trigger] bs[j]).key,
{
    let nko = no_key_count(issues, rows, IssueState::Open);
    let nkc = no_key_count(issues, rows, IssueState::Closed);
    let n = if nko + nkc > 0 {
        bs.len() - 1
    } else {
        bs.len() as int
    };
    assert forall|i: int, j: int| 0 <= i < j < bs.len() implies (#[trigger] bs[i]).key != (#[trigger] bs[j]).key by {
        if j < n {
            let a = (bs[i].key->0, bs[i].open, bs[i].closed);
            let b = (bs[j].key->0, bs[j].open, bs[j].closed);
            assert(tally_before(a, b));
            if bs[i].key == bs[j].key {
                lemma_seq_lt_irreflexive(a.0);
            }
        } else {
            assert(bs[i].key is Some);
        }
    }
}

proof fn lemma_vals_for_from_rows(rows: Seq<(u128, Seq<char>)>, id: u128)
    ensures
        forall|k: int|
            0 <= k < vals_for(rows, id).len() ==> exists|r: int|
                0 <= r < rows.len() && (#[trigger] rows[r]).0 == id && rows[r].1 == #[trigger] vals_for(rows, id)[k],
    decreases rows.len(),
{
    if rows.len() > 0 {
        let p = vals_for(rows.drop_last(), id);
        lemma_vals_for_from_rows(rows.drop_last(), id);
        assert forall|k: int| 0 <= k < vals_for(rows, id).len() implies exists|r: int|
            0 <= r < rows.len() && (#[trigger] rows[r]).0 == id && rows[r].1 == #[trigger] vals_for(rows, id)[k] by {
            if k < p.len() {
                assert(vals_for(rows, id)[k] == p[k]);
                let r = choose|r: int| 0 <= r < rows.drop_last().len() && (#[trigger] rows.drop_last()[r]).0 == id
                    && rows.drop_last()[r].1 == p[k];
                assert(rows[r] == rows.drop_last()[r]);
            } else {
                assert(rows[rows.len() - 1] == rows.last());
            }
        }
    }
}

/// Every value key stamped on a row names one of the sections.
pub proof fn lemma_row_keys_name_buckets(
    key: Seq<char>,
    issues: Seq<IssueModel>,
    rows: Seq<(u128, Seq<char>)>,
    bs: Seq<IssueBucketModel>,
    id: u128,
)
    requires
        tag_buckets_ok(key, issues, rows, bs),
    ensures
        forall|k: int|
            0 <= k < bucket_keys(GroupByModel::Tag { key }, issues, rows, id).len() && bucket_keys(
                GroupByModel::Tag { key },
                issues,
                rows,
                id,
            )[k] is Some ==> exists|b: int|
                0 <= b < bs.len() && (#[trigger] bs[b]).key == #[trigger] bucket_keys(
                    GroupByModel::Tag { key },
                    issues,
                    rows,
                    id,
                )[k],
{
    let ks = bucket_keys(GroupByModel::Tag { key }, issues, rows, id);
    let vs = vals_for(rows, id);
    lemma_vals_for_from_rows(rows, id);
    assert forall|k: int| 0 <= k < ks.len() && ks[k] is Some implies exists|b: int|
        0 <= b < bs.len() && (#[trigger] bs[b]).key == #[trigger] ks[k] by {
        if last_state(issues, id) is Some && vs.len() > 0 {
            assert(ks[k] == Some(vs[k]));
            let r = choose|r: int| 0 <= r < rows.len() && (#[trigger] rows[r]).0 == id && rows[r].1 == vs[k];
            assert(is_live_value(rows, issues, vs[k]));
            let nko = no_key_count(issues, rows, IssueState::Open);
            let nkc = no_key_count(issues, rows, IssueState::Closed);
            let b = choose|b: int|
                0 <= b < (if nko + nkc > 0 { bs.len() - 1 } else { bs.len() as int }) && (#[trigger] bs[b]).key
                    == Some(vs[k]);
        }
    }
}

/// Grouped by status, a listed issue's key names its section.
pub proof fn lemma_status_row_key_names_bucket(issues: Seq<IssueModel>, id: u128)
    ensures
        (match last_state(issues, id) {
            Some(st) => exists|b: int|
                0 <= b < status_buckets(issues).len() && (#[trigger] status_buckets(issues)[b]).key == Some(state_key(st)),
            None => true,
        }),
{
    match last_state(issues, id) {
        Some(st) => {
            lemma_last_state_counted(issues, id);
            let bs = status_buckets(issues);
            if st == IssueState::Open {
                assert(bs[0].key == Some(state_key(IssueState::Open)));
            } else {
                let o = state_count(issues, IssueState::Open);
                if o > 0 {
                    assert(bs[1].key == Some(state_key(IssueState::Closed)));
                } else {
                    assert(bs[0].key == Some(state_key(IssueState::Closed)));
                }
            }
        },
        None => {},
    }
}

proof fn lemma_last_state_counted(issues: Seq<IssueModel>, id: u128)
    ensures
        last_state(issues, id) matches Some(st) ==> state_count(issues, st) > 0,
    decreases issues.len(),
{
    if issues.len() > 0 {
        lemma_last_state_counted(issues.drop_last(), id);
    }
}

} // verus!
