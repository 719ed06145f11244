//! Project milestones strip: the milestone model, the GitHub payload
//! reader behind the two-way sync, and the decisions of the write
//! routes.

use vstd::prelude::*;

use crate::error::{bad_request, is_bad, is_bad_gateway, is_not_found, no_project, no_project_text, not_found, ApiError, ErrorCode, StoreError};
use crate::ids::{parse_rfc3339, rfc3339_parse, rfc3339_utc, uuid_hyphenated, uuid_to_string};
use crate::text::{chars_of, join2, join3, join4, quoted, seq_trim, str_debug, str_eq, string_from, trim};

verus! {

/// Milestone lifecycle state.
#[derive(Debug, Clone, Copy, PartialEq, Eq, Structural)]
pub enum MilestoneState {
    Open,
    Closed,
}

/// A GitHub milestone mirrored into the store.
#[derive(Debug, Clone)]
pub struct Milestone {
    pub id: u128,
    pub repo_id: u128,
    pub github_number: i32,
    pub title: String,
    pub description: Option<String>,
    pub state: MilestoneState,
    /// Calendar due date, numbered as `num_days_from_ce` does (0001-01-01 is day 1).
    pub due_on: Option<i32>,
    pub open_issues: i32,
    pub closed_issues: i32,
    /// Microseconds since the Unix epoch (UTC).
    pub created_at: i64,
    pub updated_at: i64,
    pub closed_at: Option<i64>,
}

pub struct MilestoneModel {
    pub id: u128,
    pub repo_id: u128,
    pub title: Seq<char>,
}

impl View for Milestone {
    type V = MilestoneModel;

    open spec fn view(&self) -> MilestoneModel {
        MilestoneModel { id: self.id, repo_id: self.repo_id, title: self.title@ }
    }
}

pub open spec fn milestone_views(v: Seq<Milestone>) -> Seq<MilestoneModel> {
    v.map_values(|m: Milestone| m@)
}


/// `open` / `closed`.
pub open spec fn state_name(s: MilestoneState) -> Seq<char> {
    match s {
        MilestoneState::Open => seq!['o', 'p', 'e', 'n'],
        MilestoneState::Closed => seq!['c', 'l', 'o', 's', 'e', 'd'],
    }
}

/// The state a name spells, if any.
pub open spec fn state_from_name(s: Seq<char>) -> Option<MilestoneState> {
    if s == seq!['o', 'p', 'e', 'n'] {
        Some(MilestoneState::Open)
    } else if s == seq!['c', 'l', 'o', 's', 'e', 'd'] {
        Some(MilestoneState::Closed)
    } else {
        None
    }
}

/// A state's name reads back as that state.
pub proof fn lemma_state_name_round_trip(s: MilestoneState)
    ensures
        state_from_name(state_name(s)) == Some(s),
{
    assert(seq!['o', 'p', 'e', 'n'] != seq!['c', 'l', 'o', 's', 'e', 'd']) by {
        assert(seq!['o', 'p', 'e', 'n'].len() != seq!['c', 'l', 'o', 's', 'e', 'd'].len());
    }
}

/// The name of a state.
pub fn state_as_str(s: MilestoneState) -> (r: String)
    ensures
        r@ == state_name(s),
{
    let out = match s {
        MilestoneState::Open => string_from(&chars_of("open")),
        MilestoneState::Closed => string_from(&chars_of("closed")),
    };
    proof {
        reveal_strlit("open");
        reveal_strlit("closed");
        assert(out@ =~= state_name(s));
    }
    out
}

/// Wire form of a milestone.
#[derive(Debug, Clone)]
pub struct MilestoneDto {
    pub id: u128,
    pub repo_id: u128,
    pub github_number: i32,
    pub title: String,
    pub description: Option<String>,
    /// `open` or `closed`.
    pub state: String,
    pub due_on: Option<i32>,
    pub open_issues: i32,
    pub closed_issues: i32,
    pub created_at: i64,
    pub updated_at: i64,
    pub closed_at: Option<i64>,
}

/// The wire form of a milestone.
pub fn milestone_dto(m: Milestone) -> (r: MilestoneDto)
    ensures
        r.id == m.id && r.repo_id == m.repo_id && r.github_number == m.github_number && r.title == m.title
            && r.description == m.description && r.state@ == state_name(m.state) && r.due_on == m.due_on
            && r.open_issues == m.open_issues && r.closed_issues == m.closed_issues && r.created_at == m.created_at
            && r.updated_at == m.updated_at && r.closed_at == m.closed_at,
{
    MilestoneDto {
        id: m.id,
        repo_id: m.repo_id,
        github_number: m.github_number,
        title: m.title,
        description: m.description,
        state: state_as_str(m.state),
        due_on: m.due_on,
        open_issues: m.open_issues,
        closed_issues: m.closed_issues,
        created_at: m.created_at,
        updated_at: m.updated_at,
        closed_at: m.closed_at,
    }
}

/// `GET /projects/{id}/milestones` query.
#[derive(Debug, Clone, Copy)]
pub struct ListMilestonesQuery {
    pub include_closed: bool,
}

/// `POST /projects/{id}/milestones/adopt` body.
#[derive(Debug, Clone, Copy)]
pub struct AdoptMilestoneBody {
    /// `None` clears the project's primary milestone.
    pub milestone_id: Option<u128>,
}

/// A failed adopt on project `project_id`: a missing project is `404
/// project_not_found`, a milestone not reachable through the project's
/// repos `400 milestone_not_linked` with the store's text; anything
/// else passes through.
pub fn map_adopt_error(project_id: u128, err: StoreError) -> (r: ApiError)
    ensures
        match err {
            StoreError::NotFound { .. } => is_not_found(r, ErrorCode::ProjectNotFound, no_project_text(project_id)),
            StoreError::Invalid(m) => is_bad(r, ErrorCode::MilestoneNotLinked, m@),
            _ => r == ApiError::Store(err),
        },
{
    match err {
        StoreError::NotFound { .. } => no_project(project_id),
        StoreError::Invalid(m) => ApiError::BadRequest { code: ErrorCode::MilestoneNotLinked, message: m },
        e => ApiError::Store(e),
    }
}

/// Why a GitHub milestone write failed.
#[derive(Debug, Clone)]
pub enum MilestoneWriteError {
    /// GitHub refused the request (`422`).
    Validation(String),
    /// GitHub could not be reached or failed.
    Upstream(String),
    /// No write backend in this deployment.
    Unconfigured,
}

/// `milestone write backend not configured`.
pub open spec fn unconfigured_text() -> Seq<char> {
    seq![
        'm', 'i', 'l', 'e', 's', 't', 'o', 'n', 'e', ' ', 'w', 'r', 'i', 't', 'e', ' ', 'b', 'a', 'c', 'k', 'e', 'n', 'd', ' ',
        'n', 'o', 't', ' ', 'c', 'o', 'n', 'f', 'i', 'g', 'u', 'r', 'e', 'd'
    ]
}

impl MilestoneWriteError {
    /// `400 upstream_validation` with GitHub's text; `502
    /// upstream_unavailable` with the failure's text, or saying that
    /// no backend is configured.
    pub fn into_api_error(self) -> (r: ApiError)
        ensures
            match self {
                MilestoneWriteError::Validation(m) => r matches ApiError::BadRequest { code, message } && code
                    == ErrorCode::UpstreamValidation && message@ == m@,
                MilestoneWriteError::Upstream(m) => r matches ApiError::BadGateway { code, message } && code
                    == ErrorCode::UpstreamUnavailable && message@ == m@,
                MilestoneWriteError::Unconfigured => r matches ApiError::BadGateway { code, message } && code
                    == ErrorCode::UpstreamUnavailable && message@ == unconfigured_text(),
            },
    {
        match self {
            MilestoneWriteError::Validation(m) => ApiError::BadRequest { code: ErrorCode::UpstreamValidation, message: m },
            MilestoneWriteError::Upstream(m) => ApiError::BadGateway { code: ErrorCode::UpstreamUnavailable, message: m },
            MilestoneWriteError::Unconfigured => {
                let m = string_from(&chars_of("milestone write backend not configured"));
                proof {
                    reveal_strlit("milestone write backend not configured");
                    assert(m@ =~= unconfigured_text());
                }
                ApiError::BadGateway { code: ErrorCode::UpstreamUnavailable, message: m }
            },
        }
    }
}

/// The write backend of a deployment without GitHub credentials:
/// every write fails as unconfigured.
#[derive(Debug, Clone, Copy)]
pub struct UnconfiguredMilestoneWriter;

impl UnconfiguredMilestoneWriter {
    /// Creating a milestone fails as unconfigured.
    pub fn create_milestone(&self) -> (r: Result<MilestonePayload, MilestoneWriteError>)
        ensures
            r matches Err(MilestoneWriteError::Unconfigured),
    {
        Err(MilestoneWriteError::Unconfigured)
    }

    /// Updating a milestone fails as unconfigured.
    pub fn update_milestone(&self) -> (r: Result<MilestonePayload, MilestoneWriteError>)
        ensures
            r matches Err(MilestoneWriteError::Unconfigured),
    {
        Err(MilestoneWriteError::Unconfigured)
    }

    /// Deleting a milestone fails as unconfigured.
    pub fn delete_milestone(&self) -> (r: Result<(), MilestoneWriteError>)
        ensures
            r matches Err(MilestoneWriteError::Unconfigured),
    {
        Err(MilestoneWriteError::Unconfigured)
    }
}

/// A scalar member of a JSON object; `Number` holds the value when it
/// is an integer that fits `i64`; arrays and objects are `Other`.
#[derive(Debug, Clone)]
pub enum JsonScalar {
    Null,
    Bool(bool),
    Number(Option<i64>),
    Str(String),
    Other,
}

/// A GitHub milestone payload: the members of a JSON object (each key
/// once), or `None` when the payload is not an object.
pub type MilestonePayload = Option<Vec<(String, JsonScalar)>>;

/// The member `key` of an object.
#[verifier::opaque]
pub open spec fn member(obj: Seq<(String, JsonScalar)>, key: Seq<char>) -> Option<JsonScalar> {
    if exists|k: int| 0 <= k < obj.len() && (#[trigger] obj[k]).0@ == key {
        let k = choose|k: int|
            0 <= k < obj.len() && obj[k].0@ == key && forall|j: int| 0 <= j < k ==> (#[trigger] obj[j]).0@ != key;
        Some(obj[k].1)
    } else {
        None
    }
}

proof fn lemma_member(obj: Seq<(String, JsonScalar)>, key: Seq<char>, k: int)
    requires
        0 <= k < obj.len(),
        obj[k].0@ == key,
        forall|j: int| 0 <= j < k ==> (#[trigger] obj[j]).0@ != key,
    ensures
        member(obj, key) == Some(obj[k].1),
{
    reveal(member);
    let c = choose|c: int|
        0 <= c < obj.len() && obj[c].0@ == key && forall|j: int| 0 <= j < c ==> (#[trigger] obj[j]).0@ != key;
    assert(obj[k].0@ == key);
    assert(0 <= c < obj.len() && obj[c].0@ == key);
    if c < k {
        assert(obj[c].0@ != key);
    }
    if k < c {
        assert(obj[k].0@ != key);
    }
}

/// Looks up member `key`.
fn get_member(obj: &Vec<(String, JsonScalar)>, key: &str) -> (r: Option<JsonScalar>)
    ensures
        r == member(obj@, key@),
{
    let mut k: usize = 0;
    while k < obj.len()
        invariant
            k <= obj.len(),
            forall|j: int| 0 <= j < k ==> (#[trigger] obj@[j]).0@ != key@,
        decreases obj.len() - k,
    {
        if str_eq(obj[k].0.as_str(), key) {
            proof {
                lemma_member(obj@, key@, k as int);
            }
            let v = match &obj[k].1 {
                JsonScalar::Null => JsonScalar::Null,
                JsonScalar::Bool(b) => JsonScalar::Bool(*b),
                JsonScalar::Number(n) => JsonScalar::Number(*n),
                JsonScalar::Str(s) => JsonScalar::Str(s.clone()),
                JsonScalar::Other => JsonScalar::Other,
            };
            return Some(v);
        }
        k = k + 1;
    }
    proof {
        reveal(member);
    }
    None
}

/// `as_i64` of a member.
pub open spec fn member_i64(obj: Seq<(String, JsonScalar)>, key: Seq<char>) -> Option<i64> {
    match member(obj, key) {
        Some(JsonScalar::Number(Some(n))) => Some(n),
        _ => None,
    }
}

/// `as_str` of a member.
pub open spec fn member_str(obj: Seq<(String, JsonScalar)>, key: Seq<char>) -> Option<Seq<char>> {
    match member(obj, key) {
        Some(JsonScalar::Str(s)) => Some(s@),
        _ => None,
    }
}

fn get_i64(obj: &Vec<(String, JsonScalar)>, key: &str) -> (r: Option<i64>)
    ensures
        r == member_i64(obj@, key@),
{
    match get_member(obj, key) {
        Some(JsonScalar::Number(Some(n))) => Some(n),
        _ => None,
    }
}

fn get_str(obj: &Vec<(String, JsonScalar)>, key: &str) -> (r: Option<String>)
    ensures
        match r {
            Some(s) => member_str(obj@, key@) == Some(s@),
            None => member_str(obj@, key@) is None,
        },
{
    match get_member(obj, key) {
        Some(JsonScalar::Str(s)) => Some(s),
        _ => None,
    }
}

/// Why a milestone payload could not be read.
#[derive(Debug, Clone, PartialEq, Eq)]
pub enum PayloadError {
    NotAnObject,
    MissingNumber,
    MissingNodeId,
    MissingTitle,
    MissingState,
    /// The `state` member, neither `open` nor `closed`.
    UnknownState(String),
    /// The `due_on` member and why it is not an RFC 3339 instant.
    InvalidDueOn { value: String, reason: String },
    MissingCreatedAt,
}

pub enum PayloadErrorModel {
    NotAnObject,
    MissingNumber,
    MissingNodeId,
    MissingTitle,
    MissingState,
    UnknownState(Seq<char>),
    InvalidDueOn(Seq<char>, Seq<char>),
    MissingCreatedAt,
}

impl View for PayloadError {
    type V = PayloadErrorModel;

    open spec fn view(&self) -> PayloadErrorModel {
        match self {
            PayloadError::NotAnObject => PayloadErrorModel::NotAnObject,
            PayloadError::MissingNumber => PayloadErrorModel::MissingNumber,
            PayloadError::MissingNodeId => PayloadErrorModel::MissingNodeId,
            PayloadError::MissingTitle => PayloadErrorModel::MissingTitle,
            PayloadError::MissingState => PayloadErrorModel::MissingState,
            PayloadError::UnknownState(s) => PayloadErrorModel::UnknownState(s@),
            PayloadError::InvalidDueOn { value, reason } => PayloadErrorModel::InvalidDueOn(value@, reason@),
            PayloadError::MissingCreatedAt => PayloadErrorModel::MissingCreatedAt,
        }
    }
}

/// What a payload error says.
pub open spec fn payload_error_text(e: PayloadErrorModel) -> Seq<char> {
    match e {
        PayloadErrorModel::NotAnObject => "milestone payload is not an object"@,
        PayloadErrorModel::MissingNumber => "milestone payload missing `number`"@,
        PayloadErrorModel::MissingNodeId => "milestone payload missing `node_id`"@,
        PayloadErrorModel::MissingTitle => "milestone payload missing `title`"@,
        PayloadErrorModel::MissingState => "milestone payload missing `state`"@,
        PayloadErrorModel::UnknownState(s) => "milestone payload has unknown state "@ + str_debug(s),
        PayloadErrorModel::InvalidDueOn(v, why) => "invalid `due_on` "@ + str_debug(v) + ": "@ + why,
        PayloadErrorModel::MissingCreatedAt => "milestone payload missing `created_at`"@,
    }
}

impl PayloadError {
    /// What the error says.
    pub fn text(&self) -> (r: String)
        ensures
            r@ == payload_error_text(self@),
    {
        match self {
            PayloadError::NotAnObject => "milestone payload is not an object".to_owned(),
            PayloadError::MissingNumber => "milestone payload missing `number`".to_owned(),
            PayloadError::MissingNodeId => "milestone payload missing `node_id`".to_owned(),
            PayloadError::MissingTitle => "milestone payload missing `title`".to_owned(),
            PayloadError::MissingState => "milestone payload missing `state`".to_owned(),
            PayloadError::UnknownState(s) => join2("milestone payload has unknown state ", quoted(s.as_str()).as_str()),
            PayloadError::InvalidDueOn { value, reason } => join4(
                "invalid `due_on` ",
                quoted(value.as_str()).as_str(),
                ": ",
                reason.as_str(),
            ),
            PayloadError::MissingCreatedAt => "milestone payload missing `created_at`".to_owned(),
        }
    }
}

/// The milestone row a GitHub payload upserts.
#[derive(Debug, Clone)]
pub struct MilestoneUpsert {
    pub repo_id: u128,
    pub github_number: i32,
    pub github_node_id: String,
    pub title: String,
    pub description: Option<String>,
    pub state: MilestoneState,
    pub due_on: Option<i32>,
    pub open_issues: i32,
    pub closed_issues: i32,
    pub created_at: i64,
    pub updated_at: i64,
    pub closed_at: Option<i64>,
}

/// The instant of an RFC 3339 member, if it is a string that parses.
pub open spec fn member_instant(obj: Seq<(String, JsonScalar)>, key: Seq<char>) -> Option<i64> {
    match member_str(obj, key) {
        Some(s) => match rfc3339_utc(s) {
            Some(p) => Some(p.0),
            None => None,
        },
        None => None,
    }
}

/// The first reason, in field order, why `obj` is not a milestone
/// payload: `number`, `node_id`, `title` and `state` are required
/// (`state` is `open` or `closed`), a `due_on` string must be an RFC
/// 3339 instant, `created_at` must be one.
pub open spec fn payload_error(obj: Seq<(String, JsonScalar)>) -> Option<PayloadErrorModel> {
    if member_i64(obj, seq!['n', 'u', 'm', 'b', 'e', 'r']) is None {
        Some(PayloadErrorModel::MissingNumber)
    } else if member_str(obj, seq!['n', 'o', 'd', 'e', '_', 'i', 'd']) is None {
        Some(PayloadErrorModel::MissingNodeId)
    } else if member_str(obj, seq!['t', 'i', 't', 'l', 'e']) is None {
        Some(PayloadErrorModel::MissingTitle)
    } else if member_str(obj, seq!['s', 't', 'a', 't', 'e']) is None {
        Some(PayloadErrorModel::MissingState)
    } else if state_from_name(member_str(obj, seq!['s', 't', 'a', 't', 'e'])->0) is None {
        Some(PayloadErrorModel::UnknownState(member_str(obj, seq!['s', 't', 'a', 't', 'e'])->0))
    } else if member_str(obj, seq!['d', 'u', 'e', '_', 'o', 'n']) is Some && rfc3339_parse(
        member_str(obj, seq!['d', 'u', 'e', '_', 'o', 'n'])->0,
    ) is Err {
        Some(
            PayloadErrorModel::InvalidDueOn(
                member_str(obj, seq!['d', 'u', 'e', '_', 'o', 'n'])->0,
                rfc3339_parse(member_str(obj, seq!['d', 'u', 'e', '_', 'o', 'n'])->0)->Err_0,
            ),
        )
    } else if member_instant(obj, seq!['c', 'r', 'e', 'a', 't', 'e', 'd', '_', 'a', 't']) is None {
        Some(PayloadErrorModel::MissingCreatedAt)
    } else {
        None
    }
}

/// The required members of a payload, read in field order.
struct RequiredMembers {
    number: i64,
    node_id: String,
    title: String,
    state: MilestoneState,
    due_on: Option<i32>,
    created_at: i64,
}

#[verifier::rlimit(40)]
fn read_required(obj: &Vec<(String, JsonScalar)>) -> (r: Result<RequiredMembers, PayloadError>)
    ensures
        match payload_error(obj@) {
            Some(e) => r matches Err(x) && x@ == e,
            None => r matches Ok(q) && {
                let o = obj@;
                &&& q.number == member_i64(o, seq!['n', 'u', 'm', 'b', 'e', 'r'])->0
                &&& q.node_id@ == member_str(o, seq!['n', 'o', 'd', 'e', '_', 'i', 'd'])->0
                &&& q.title@ == member_str(o, seq!['t', 'i', 't', 'l', 'e'])->0
                &&& Some(q.state) == state_from_name(member_str(o, seq!['s', 't', 'a', 't', 'e'])->0)
                &&& q.due_on == (match member_str(o, seq!['d', 'u', 'e', '_', 'o', 'n']) {
                    Some(s) => match rfc3339_utc(s) {
                        Some(p) => Some(p.1),
                        None => None,
                    },
                    None => None,
                })
                &&& q.created_at == member_instant(o, seq!['c', 'r', 'e', 'a', 't', 'e', 'd', '_', 'a', 't'])->0
            },
        },
{
    proof {
        reveal_strlit("number");
        reveal_strlit("node_id");
        reveal_strlit("title");
        reveal_strlit("state");
        reveal_strlit("due_on");
        reveal_strlit("created_at");
        reveal_strlit("open");
        reveal_strlit("closed");
        assert("number"@ =~= seq!['n', 'u', 'm', 'b', 'e', 'r']);
        assert("node_id"@ =~= seq!['n', 'o', 'd', 'e', '_', 'i', 'd']);
        assert("title"@ =~= seq!['t', 'i', 't', 'l', 'e']);
        assert("state"@ =~= seq!['s', 't', 'a', 't', 'e']);
        assert("due_on"@ =~= seq!['d', 'u', 'e', '_', 'o', 'n']);
        assert("created_at"@ =~= seq!['c', 'r', 'e', 'a', 't', 'e', 'd', '_', 'a', 't']);
        assert("open"@ =~= seq!['o', 'p', 'e', 'n']);
        assert("closed"@ =~= seq!['c', 'l', 'o', 's', 'e', 'd']);
    }
    let number = match get_i64(obj, "number") {
        None => return Err(PayloadError::MissingNumber),
        Some(n) => n,
    };
    let node_id = match get_str(obj, "node_id") {
        None => return Err(PayloadError::MissingNodeId),
        Some(s) => s,
    };
    let title = match get_str(obj, "title") {
        None => return Err(PayloadError::MissingTitle),
        Some(s) => s,
    };
    let state_text = match get_str(obj, "state") {
        None => return Err(PayloadError::MissingState),
        Some(s) => s,
    };
    let state = if str_eq(state_text.as_str(), "open") {
        MilestoneState::Open
    } else if str_eq(state_text.as_str(), "closed") {
        MilestoneState::Closed
    } else {
        return Err(PayloadError::UnknownState(state_text));
    };
    let due_on = match get_str(obj, "due_on") {
        None => None,
        Some(s) => match parse_rfc3339(s.as_str()) {
            Err(reason) => return Err(PayloadError::InvalidDueOn { value: s, reason }),
            Ok(p) => Some(p.1),
        },
    };
    let created_at = match get_str(obj, "created_at") {
        None => return Err(PayloadError::MissingCreatedAt),
        Some(s) => match parse_rfc3339(s.as_str()) {
            Err(_) => return Err(PayloadError::MissingCreatedAt),
            Ok(p) => p.0,
        },
    };
    Ok(RequiredMembers { number, node_id, title, state, due_on, created_at })
}

/// The instant of an optional RFC 3339 member.
fn read_instant(obj: &Vec<(String, JsonScalar)>, key: &str) -> (r: Option<i64>)
    ensures
        r == member_instant(obj@, key@),
{
    match get_str(obj, key) {
        None => None,
        Some(s) => match parse_rfc3339(s.as_str()) {
            Err(_) => None,
            Ok(p) => Some(p.0),
        },
    }
}

/// An optional count, narrowed to `i32` as by `as`, 0 when absent.
fn read_count(obj: &Vec<(String, JsonScalar)>, key: &str) -> (r: i32)
    ensures
        r == (match member_i64(obj@, key@) {
            Some(n) => n as i32,
            None => 0,
        }),
{
    match get_i64(obj, key) {
        Some(n) => n as i32,
        None => 0,
    }
}

/// Reads the milestone row of repo `repo_id` from a GitHub payload.
/// `number` and the issue counts are narrowed to `i32` as by `as`;
/// the counts default to 0, `updated_at` to `created_at`; `due_on`
/// keeps the UTC date of its instant.
pub fn parse_milestone_upsert(repo_id: u128, payload: &MilestonePayload) -> (r: Result<MilestoneUpsert, PayloadError>)
    ensures
        match payload {
            None => r == Err::<MilestoneUpsert, PayloadError>(PayloadError::NotAnObject),
            Some(obj) => match payload_error(obj@) {
                Some(e) => r matches Err(x) && x@ == e,
                None => r matches Ok(u) && {
                    let o = obj@;
                    &&& u.repo_id == repo_id
                    &&& u.github_number == member_i64(o, seq!['n', 'u', 'm', 'b', 'e', 'r'])->0 as i32
                    &&& u.github_node_id@ == member_str(o, seq!['n', 'o', 'd', 'e', '_', 'i', 'd'])->0
                    &&& u.title@ == member_str(o, seq!['t', 'i', 't', 'l', 'e'])->0
                    &&& (match u.description {
                        Some(d) => member_str(o, seq!['d', 'e', 's', 'c', 'r', 'i', 'p', 't', 'i', 'o', 'n']) == Some(d@),
                        None => member_str(o, seq!['d', 'e', 's', 'c', 'r', 'i', 'p', 't', 'i', 'o', 'n']) is None,
                    })
                    &&& Some(u.state) == state_from_name(member_str(o, seq!['s', 't', 'a', 't', 'e'])->0)
                    &&& u.due_on == (match member_str(o, seq!['d', 'u', 'e', '_', 'o', 'n']) {
                        Some(s) => match rfc3339_utc(s) {
                            Some(p) => Some(p.1),
                            None => None,
                        },
                        None => None,
                    })
                    &&& u.open_issues == (match member_i64(o, seq!['o', 'p', 'e', 'n', '_', 'i', 's', 's', 'u', 'e', 's']) {
                        Some(n) => n as i32,
                        None => 0,
                    })
                    &&& u.closed_issues == (match member_i64(
                        o,
                        seq!['c', 'l', 'o', 's', 'e', 'd', '_', 'i', 's', 's', 'u', 'e', 's'],
                    ) {
                        Some(n) => n as i32,
                        None => 0,
                    })
                    &&& u.created_at == member_instant(o, seq!['c', 'r', 'e', 'a', 't', 'e', 'd', '_', 'a', 't'])->0
                    &&& u.updated_at == (match member_instant(o, seq!['u', 'p', 'd', 'a', 't', 'e', 'd', '_', 'a', 't']) {
                        Some(t) => t,
                        None => u.created_at,
                    })
                    &&& u.closed_at == member_instant(o, seq!['c', 'l', 'o', 's', 'e', 'd', '_', 'a', 't'])
                },
            },
        },
{
    proof {
        reveal_strlit("description");
        reveal_strlit("open_issues");
        reveal_strlit("closed_issues");
        reveal_strlit("updated_at");
        reveal_strlit("closed_at");
        assert("description"@ =~= seq!['d', 'e', 's', 'c', 'r', 'i', 'p', 't', 'i', 'o', 'n']);
        assert("open_issues"@ =~= seq!['o', 'p', 'e', 'n', '_', 'i', 's', 's', 'u', 'e', 's']);
        assert("closed_issues"@ =~= seq!['c', 'l', 'o', 's', 'e', 'd', '_', 'i', 's', 's', 'u', 'e', 's']);
        assert("updated_at"@ =~= seq!['u', 'p', 'd', 'a', 't', 'e', 'd', '_', 'a', 't']);
        assert("closed_at"@ =~= seq!['c', 'l', 'o', 's', 'e', 'd', '_', 'a', 't']);
    }
    let obj = match payload {
        None => return Err(PayloadError::NotAnObject),
        Some(o) => o,
    };
    let q = read_required(obj)?;
    let description = get_str(obj, "description");
    let open_issues = read_count(obj, "open_issues");
    let closed_issues = read_count(obj, "closed_issues");
    let updated_at = match read_instant(obj, "updated_at") {
        Some(t) => t,
        None => q.created_at,
    };
    let closed_at = read_instant(obj, "closed_at");
    Ok(MilestoneUpsert {
        repo_id,
        github_number: q.number as i32,
        github_node_id: q.node_id,
        title: q.title,
        description,
        state: q.state,
        due_on: q.due_on,
        open_issues,
        closed_issues,
        created_at: q.created_at,
        updated_at,
        closed_at,
    })
}

/// An unreadable payload after a GitHub write is an upstream failure:
/// `502 upstream_unavailable`, saying why.
pub fn payload_error_to_api(e: PayloadError) -> (r: ApiError)
    ensures
        is_bad_gateway(
            r,
            ErrorCode::UpstreamUnavailable,
            "could not parse GitHub milestone payload: "@ + payload_error_text(e@),
        ),
{
    ApiError::BadGateway {
        code: ErrorCode::UpstreamUnavailable,
        message: join2("could not parse GitHub milestone payload: ", e.text().as_str()),
    }
}

/// `POST /projects/{id}/milestones` body.
#[derive(Debug, Clone)]
pub struct CreateMilestoneRequest {
    pub repo_id: u128,
    pub title: String,
    pub description: Option<String>,
    /// Calendar day, numbered as `num_days_from_ce` does (0001-01-01 is day 1).
    pub due_on: Option<i32>,
}

/// What a create asks GitHub for: the trimmed title, and the trimmed
/// description unless it is blank. The repository must be linked to
/// the project (`repo_not_linked`).
pub fn plan_create_milestone(project_id: u128, body: &CreateMilestoneRequest, linked_repo_ids: &Vec<u128>) -> (r: Result<
    (String, Option<String>),
    ApiError,
>)
    ensures
        !linked_repo_ids@.contains(body.repo_id) ==> (r matches Err(e) && is_bad(
            e,
            ErrorCode::RepoNotLinked,
            "repo "@ + uuid_hyphenated(body.repo_id) + " is not linked to project "@ + uuid_hyphenated(project_id),
        )),
        linked_repo_ids@.contains(body.repo_id) ==> (r matches Ok((t, d)) && t@ == seq_trim(body.title@) && match (
            d,
            body.description,
        ) {
            (Some(x), Some(y)) => x@ == seq_trim(y@) && x@.len() > 0,
            (None, Some(y)) => seq_trim(y@).len() == 0,
            (None, None) => true,
            (Some(_), None) => false,
        }),
{
    let mut k: usize = 0;
    let mut found = false;
    while k < linked_repo_ids.len()
        invariant
            k <= linked_repo_ids.len(),
            found == exists|j: int| 0 <= j < k && linked_repo_ids@[j] == body.repo_id,
        decreases linked_repo_ids.len() - k,
    {
        if linked_repo_ids[k] == body.repo_id {
            found = true;
        }
        k = k + 1;
    }
    if !found {
        let r = uuid_to_string(body.repo_id);
        let p = uuid_to_string(project_id);
        return Err(bad_request(ErrorCode::RepoNotLinked, join4("repo ", r.as_str(), " is not linked to project ", p.as_str())));
    }
    let title = string_from(&trim(body.title.as_str()));
    let description = match &body.description {
        Some(d) => {
            let t = trim(d.as_str());
            if t.len() > 0 {
                Some(string_from(&t))
            } else {
                None
            }
        },
        None => None,
    };
    Ok((title, description))
}

/// `PATCH /projects/{id}/milestones/{milestone_id}` body.
#[derive(Debug, Clone)]
pub struct PatchMilestoneRequest {
    pub title: Option<String>,
    pub state: Option<String>,
    /// `Some(None)` clears the description.
    pub description: Option<Option<String>>,
    pub due_on: Option<Option<i32>>,
}

/// What an update sends GitHub.
#[derive(Debug, Clone)]
pub struct MilestonePatchInput {
    pub title: Option<String>,
    pub state: Option<String>,
    pub description: Option<Option<String>>,
    pub due_on: Option<Option<i32>>,
}

/// The update input: the title trimmed, the state as sent, the
/// description trimmed with a blank one clearing it, the due date as
/// sent.
pub fn milestone_patch_input(body: &PatchMilestoneRequest) -> (r: MilestonePatchInput)
    ensures
        match (r.title, body.title) {
            (Some(x), Some(y)) => x@ == seq_trim(y@),
            (None, None) => true,
            _ => false,
        },
        r.state == body.state,
        match (r.description, body.description) {
            (None, None) => true,
            (Some(None), Some(None)) => true,
            (Some(Some(x)), Some(Some(y))) => x@ == seq_trim(y@) && x@.len() > 0,
            (Some(None), Some(Some(y))) => seq_trim(y@).len() == 0,
            _ => false,
        },
        r.due_on == body.due_on,
{
    let title = match &body.title {
        Some(t) => Some(string_from(&trim(t.as_str()))),
        None => None,
    };
    let state = match &body.state {
        Some(s) => Some(s.clone()),
        None => None,
    };
    let description = match &body.description {
        None => None,
        Some(None) => Some(None),
        Some(Some(d)) => {
            let t = trim(d.as_str());
            if t.len() > 0 {
                Some(Some(string_from(&t)))
            } else {
                Some(None)
            }
        },
    };
    MilestonePatchInput { title, state, description, due_on: body.due_on }
}

/// Which audit verb an update writes.
#[derive(Debug, Clone, Copy, PartialEq, Eq, Structural)]
pub enum MilestoneVerb {
    Close,
    Reopen,
    Update,
}

/// A state change wins: `closed` closes, `open` reopens; anything else
/// is an update.
pub fn milestone_audit_verb(state: &Option<String>) -> (r: MilestoneVerb)
    ensures
        r == match state {
            Some(s) => if s@ == seq!['c', 'l', 'o', 's', 'e', 'd'] {
                MilestoneVerb::Close
            } else if s@ == seq!['o', 'p', 'e', 'n'] {
                MilestoneVerb::Reopen
            } else {
                MilestoneVerb::Update
            },
            None => MilestoneVerb::Update,
        },
{
    proof {
        reveal_strlit("closed");
        reveal_strlit("open");
        assert("closed"@ =~= seq!['c', 'l', 'o', 's', 'e', 'd']);
        assert("open"@ =~= seq!['o', 'p', 'e', 'n']);
    }
    match state {
        Some(s) => if str_eq(s.as_str(), "closed") {
            MilestoneVerb::Close
        } else if str_eq(s.as_str(), "open") {
            MilestoneVerb::Reopen
        } else {
            MilestoneVerb::Update
        },
        None => MilestoneVerb::Update,
    }
}

/// `no milestone with id <milestone> on project <project>`.
pub open spec fn no_milestone_text(milestone_id: u128, project_id: u128) -> Seq<char> {
    "no milestone with id "@ + uuid_hyphenated(milestone_id) + " on project "@ + uuid_hyphenated(project_id)
}

/// The milestone a route names among the milestones `ms` of project
/// `project_id`: the first with the id, else `404 milestone_not_found`.
pub fn resolve_project_milestone(project_id: u128, ms: &Vec<Milestone>, milestone_id: u128) -> (r: Result<usize, ApiError>)
    ensures
        match r {
            Ok(k) => k < ms.len() && ms@[k as int].id == milestone_id && forall|j: int|
                0 <= j < k ==> (#[trigger] ms@[j]).id != milestone_id,
            Err(e) => is_not_found(e, ErrorCode::MilestoneNotFound, no_milestone_text(milestone_id, project_id)) && forall|j: int|
                0 <= j < ms.len() ==> (#[trigger] ms@[j]).id != milestone_id,
        },
{
    let mut k: usize = 0;
    while k < ms.len()
        invariant
            k <= ms.len(),
            forall|j: int| 0 <= j < k ==> (#[trigger] ms@[j]).id != milestone_id,
        decreases ms.len() - k,
    {
        if ms[k].id == milestone_id {
            return Ok(k);
        }
        k = k + 1;
    }
    let m = uuid_to_string(milestone_id);
    let p = uuid_to_string(project_id);
    Err(not_found(ErrorCode::MilestoneNotFound, join4("no milestone with id ", m.as_str(), " on project ", p.as_str())))
}

/// After GitHub deleted a milestone, a local row that is already gone
/// is no failure; other store failures pass through.
pub fn local_delete_outcome(r: Result<(), StoreError>) -> (out: Result<(), ApiError>)
    ensures
        match r {
            Ok(()) => out is Ok,
            Err(StoreError::NotFound { .. }) => out is Ok,
            Err(e) => out == Err::<(), ApiError>(ApiError::Store(e)),
        },
{
    match r {
        Ok(()) => Ok(()),
        Err(StoreError::NotFound { .. }) => Ok(()),
        Err(e) => Err(ApiError::Store(e)),
    }
}

} // verus!
