//! Audit-log targets: the text that names what an audited mutation
//! touched. Each audited route writes one of these shapes next to its
//! verb.

use vstd::prelude::*;

use crate::ids::{uuid_hyphenated, uuid_to_string};
use crate::tags::{spec_scope_id, spec_target_id, Tag, TagLink, TagLinkKind, TagScopeKind};
use crate::text::{chars_of, concat, string_from};

verus! {

/// The stored name of a tag's scope kind.
pub open spec fn scope_kind_name(k: TagScopeKind) -> Seq<char> {
    match k {
        TagScopeKind::User => seq!['u', 's', 'e', 'r'],
        TagScopeKind::Team => seq!['t', 'e', 'a', 'm'],
        TagScopeKind::Org => seq!['o', 'r', 'g'],
    }
}

/// The stored name of a link kind.
pub open spec fn link_kind_name(k: TagLinkKind) -> Seq<char> {
    match k {
        TagLinkKind::Repo => seq!['r', 'e', 'p', 'o'],
        TagLinkKind::Issue => seq!['i', 's', 's', 'u', 'e'],
        TagLinkKind::User => seq!['u', 's', 'e', 'r'],
        TagLinkKind::Team => seq!['t', 'e', 'a', 'm'],
    }
}

impl TagScopeKind {
    /// `user`, `team` or `org`.
    pub fn as_str(&self) -> (r: &'static str)
        ensures
            r@ == scope_kind_name(*self),
    {
        proof {
            reveal_strlit("user");
            reveal_strlit("team");
            reveal_strlit("org");
        }
        match self {
            TagScopeKind::User => "user",
            TagScopeKind::Team => "team",
            TagScopeKind::Org => "org",
        }
    }
}

impl TagLinkKind {
    /// `repo`, `issue`, `user` or `team`.
    pub fn as_str(&self) -> (r: &'static str)
        ensures
            r@ == link_kind_name(*self),
    {
        proof {
            reveal_strlit("repo");
            reveal_strlit("issue");
            reveal_strlit("user");
            reveal_strlit("team");
        }
        match self {
            TagLinkKind::Repo => "repo",
            TagLinkKind::Issue => "issue",
            TagLinkKind::User => "user",
            TagLinkKind::Team => "team",
        }
    }
}

/// The decimal digit `d`.
pub open spec fn digit_char(d: nat) -> char {
    if d == 0 {
        '0'
    } else if d == 1 {
        '1'
    } else if d == 2 {
        '2'
    } else if d == 3 {
        '3'
    } else if d == 4 {
        '4'
    } else if d == 5 {
        '5'
    } else if d == 6 {
        '6'
    } else if d == 7 {
        '7'
    } else if d == 8 {
        '8'
    } else {
        '9'
    }
}

/// The decimal digits of `n`, most significant first, no leading zero.
pub open spec fn decimal_digits(n: nat) -> Seq<char>
    decreases n,
{
    if n < 10 {
        seq![digit_char(n)]
    } else {
        decimal_digits(n / 10).push(digit_char(n % 10))
    }
}

/// `n` in decimal, with a leading `-` when negative.
pub open spec fn decimal(n: int) -> Seq<char> {
    if n < 0 {
        seq!['-'] + decimal_digits((-n) as nat)
    } else {
        decimal_digits(n as nat)
    }
}

fn push_digit(out: &mut Vec<char>, d: u64)
    requires
        d < 10,
    ensures
        final(out)@ == old(out)@.push(digit_char(d as nat)),
{
    let c = if d == 0 {
        '0'
    } else if d == 1 {
        '1'
    } else if d == 2 {
        '2'
    } else if d == 3 {
        '3'
    } else if d == 4 {
        '4'
    } else if d == 5 {
        '5'
    } else if d == 6 {
        '6'
    } else if d == 7 {
        '7'
    } else if d == 8 {
        '8'
    } else {
        '9'
    };
    out.push(c);
}

fn push_digits(out: &mut Vec<char>, n: u64)
    ensures
        final(out)@ == old(out)@ + decimal_digits(n as nat),
    decreases n,
{
    if n < 10 {
        push_digit(out, n);
        assert(old(out)@.push(digit_char(n as nat)) =~= old(out)@ + seq![digit_char(n as nat)]);
    } else {
        push_digits(out, n / 10);
        push_digit(out, n % 10);
        assert(old(out)@ + decimal_digits((n / 10) as nat).push(digit_char((n % 10) as nat)) =~= (old(out)@
            + decimal_digits((n / 10) as nat)).push(digit_char((n % 10) as nat)));
    }
}

/// `n` written in decimal.
pub fn decimal_string(n: i64) -> (r: String)
    ensures
        r@ == decimal(n as int),
{
    let mut out: Vec<char> = Vec::new();
    if n < 0 {
        out.push('-');
        let m: u64 = if n == i64::MIN {
            0x8000_0000_0000_0000u64
        } else {
            (-n) as u64
        };
        push_digits(&mut out, m);
    } else {
        push_digits(&mut out, n as u64);
    }
    string_from(&out)
}

/// A count written in decimal.
pub fn decimal_count(n: usize) -> (r: String)
    ensures
        r@ == decimal(n as int),
{
    let mut out: Vec<char> = Vec::new();
    push_digits(&mut out, n as u64);
    string_from(&out)
}

/// `<parent>:<child>`: a row under its project (an issue, a repo, a
/// milestone, an attachment or a changelog entry).
pub open spec fn spec_pair_target(parent: u128, child: u128) -> Seq<char> {
    uuid_hyphenated(parent) + seq![':'] + uuid_hyphenated(child)
}

pub fn pair_target(parent: u128, child: u128) -> (r: String)
    ensures
        r@ == spec_pair_target(parent, child),
{
    let a = chars_of(uuid_to_string(parent).as_str());
    let mut b = a;
    b.push(':');
    let c = concat(&b, &chars_of(uuid_to_string(child).as_str()));
    assert(c@ =~= spec_pair_target(parent, child));
    string_from(&c)
}

/// `<project>:<issue>:view=<view>`: an issue added to or dropped from
/// one saved view only.
pub open spec fn spec_view_member_target(project: u128, issue: u128, view: u128) -> Seq<char> {
    spec_pair_target(project, issue) + seq![':', 'v', 'i', 'e', 'w', '='] + uuid_hyphenated(view)
}

pub fn view_member_target(project: u128, issue: u128, view: u128) -> (r: String)
    ensures
        r@ == spec_view_member_target(project, issue, view),
{
    let a = chars_of(pair_target(project, issue).as_str());
    let b = concat(&a, &chars_of(":view="));
    let c = concat(&b, &chars_of(uuid_to_string(view).as_str()));
    proof {
        reveal_strlit(":view=");
        assert(c@ =~= spec_view_member_target(project, issue, view));
    }
    string_from(&c)
}

/// `<project>:<milestone>` on adoption, `<project>:` when the primary
/// milestone is cleared.
pub open spec fn spec_adopt_target(project: u128, milestone: Option<u128>) -> Seq<char> {
    match milestone {
        Some(m) => spec_pair_target(project, m),
        None => uuid_hyphenated(project) + seq![':'],
    }
}

pub fn adopt_target(project: u128, milestone: Option<u128>) -> (r: String)
    ensures
        r@ == spec_adopt_target(project, milestone),
{
    match milestone {
        Some(m) => pair_target(project, m),
        None => {
            let mut a = chars_of(uuid_to_string(project).as_str());
            a.push(':');
            string_from(&a)
        },
    }
}

/// `<project>:<repo>#<number>`: a milestone created on a linked repo.
pub open spec fn spec_milestone_create_target(project: u128, repo: u128, number: i32) -> Seq<char> {
    spec_pair_target(project, repo) + seq!['#'] + decimal(number as int)
}

pub fn milestone_create_target(project: u128, repo: u128, number: i32) -> (r: String)
    ensures
        r@ == spec_milestone_create_target(project, repo, number),
{
    let mut a = chars_of(pair_target(project, repo).as_str());
    a.push('#');
    let c = concat(&a, &chars_of(decimal_string(number as i64).as_str()));
    assert(c@ =~= spec_milestone_create_target(project, repo, number));
    string_from(&c)
}

/// `<scope kind>:<scope id>:<tag id>`, the nil identifier standing in
/// for a missing scope id.
pub open spec fn spec_tag_create_target(t: Tag) -> Seq<char> {
    scope_kind_name(t.scope_kind) + seq![':'] + uuid_hyphenated(
        match spec_scope_id(t) {
            Some(s) => s,
            None => 0,
        },
    ) + seq![':'] + uuid_hyphenated(t.id)
}

pub fn tag_create_target(t: &Tag) -> (r: String)
    ensures
        r@ == spec_tag_create_target(*t),
{
    let scope = match t.scope_id() {
        Some(s) => s,
        None => 0,
    };
    let mut a = chars_of(t.scope_kind.as_str());
    a.push(':');
    let mut b = concat(&a, &chars_of(uuid_to_string(scope).as_str()));
    b.push(':');
    let c = concat(&b, &chars_of(uuid_to_string(t.id).as_str()));
    assert(c@ =~= spec_tag_create_target(*t));
    string_from(&c)
}

/// `tag:<id>`: an update or archive of a tag.
pub open spec fn spec_tag_update_target(id: u128) -> Seq<char> {
    seq!['t', 'a', 'g', ':'] + uuid_hyphenated(id)
}

pub fn tag_update_target(id: u128) -> (r: String)
    ensures
        r@ == spec_tag_update_target(id),
{
    let c = concat(&chars_of("tag:"), &chars_of(uuid_to_string(id).as_str()));
    proof {
        reveal_strlit("tag:");
        assert(c@ =~= spec_tag_update_target(id));
    }
    string_from(&c)
}

/// `<tag>:<kind>:<target>`: one link attached or detached.
pub open spec fn spec_tag_link_target(tag: u128, kind: TagLinkKind, target: u128) -> Seq<char> {
    uuid_hyphenated(tag) + seq![':'] + link_kind_name(kind) + seq![':'] + uuid_hyphenated(target)
}

pub fn tag_link_target(tag: u128, kind: TagLinkKind, target: u128) -> (r: String)
    ensures
        r@ == spec_tag_link_target(tag, kind, target),
{
    let mut a = chars_of(uuid_to_string(tag).as_str());
    a.push(':');
    let mut b = concat(&a, &chars_of(kind.as_str()));
    b.push(':');
    let c = concat(&b, &chars_of(uuid_to_string(target).as_str()));
    assert(c@ =~= spec_tag_link_target(tag, kind, target));
    string_from(&c)
}

/// The audit target of an attached link: its target, or the nil
/// identifier when the row names none.
pub fn inserted_link_target(tag: u128, l: &TagLink) -> (r: String)
    ensures
        r@ == spec_tag_link_target(
            tag,
            l.kind,
            match spec_target_id(*l) {
                Some(t) => t,
                None => 0,
            },
        ),
{
    let target = match l.target_id() {
        Some(t) => t,
        None => 0,
    };
    tag_link_target(tag, l.kind, target)
}

} // verus!
