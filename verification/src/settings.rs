//! Per-user settings: the pinned key catalogue, the redaction of
//! secret values on read, and the answer of the GitHub token probe.

use vstd::prelude::*;

use crate::error::{bad_request, is_bad, is_not_found, not_found, ApiError, ErrorCode, StoreError};
use crate::text::{chars_of, concat, join3, str_eq, string_from};

verus! {

/// One key of the settings catalogue.
#[derive(Debug, Clone, Copy)]
pub struct SettingSpec {
    pub key: &'static str,
    pub is_secret: bool,
    pub label: &'static str,
    pub help: &'static str,
}

/// The key of the personal GitHub token.
pub open spec fn github_pat_key() -> Seq<char> {
    seq!['g', 'i', 't', 'h', 'u', 'b', '.', 'p', 'a', 't']
}

/// The label of the personal GitHub token.
pub open spec fn github_pat_label() -> Seq<char> {
    "GitHub Personal Access Token"@
}

/// The help text of the personal GitHub token.
pub open spec fn github_pat_help() -> Seq<char> {
    "Used for issue writes and Projects v2 mirror calls performed by you. Minimum scopes: repo, read:org. Leave blank to fall back to the server-wide PAT."@
}

/// `s` is the catalogue entry of the personal GitHub token: a secret,
/// with its label and help text.
pub open spec fn is_github_pat_spec(s: SettingSpec) -> bool {
    s.key@ == github_pat_key() && s.is_secret && s.label@ == github_pat_label() && s.help@ == github_pat_help()
}

/// The catalogue: the personal GitHub token alone.
pub open spec fn spec_catalogue_ok(v: Seq<SettingSpec>) -> bool {
    v.len() == 1 && is_github_pat_spec(v[0])
}

/// The pinned settings catalogue, in display order.
pub fn keys() -> (r: Vec<SettingSpec>)
    ensures
        spec_catalogue_ok(r@),
{
    let mut v: Vec<SettingSpec> = Vec::new();
    v.push(
        SettingSpec {
            key: "github.pat",
            is_secret: true,
            label: "GitHub Personal Access Token",
            help: "Used for issue writes and Projects v2 mirror calls performed by you. Minimum scopes: repo, read:org. Leave blank to fall back to the server-wide PAT.",
        },
    );
    proof {
        reveal_strlit("github.pat");
        assert("github.pat"@ =~= github_pat_key());
    }
    v
}

/// The catalogue entry of a key, if it is pinned.
pub fn spec_for(key: &str) -> (r: Option<SettingSpec>)
    ensures
        match r {
            Some(s) => key@ == github_pat_key() && is_github_pat_spec(s),
            None => key@ != github_pat_key(),
        },
{
    let catalogue = keys();
    let mut k: usize = 0;
    while k < catalogue.len()
        invariant
            k <= catalogue.len(),
            spec_catalogue_ok(catalogue@),
            forall|j: int| 0 <= j < k ==> (#[trigger] catalogue@[j]).key@ != key@,
        decreases catalogue.len() - k,
    {
        if str_eq(catalogue[k].key, key) {
            return Some(catalogue[k]);
        }
        k = k + 1;
    }
    None
}

/// `setting key `<key>` is not in the pinned catalogue; see GET
/// /me/settings for the supported list`.
pub open spec fn unknown_setting_text(key: Seq<char>) -> Seq<char> {
    "setting key `"@ + key + "` is not in the pinned catalogue; see GET /me/settings for the supported list"@
}

/// `400 unknown_setting`: `key` is not in the catalogue.
pub fn unknown_setting(key: &str) -> (e: ApiError)
    ensures
        is_bad(e, ErrorCode::UnknownSetting, unknown_setting_text(key@)),
{
    bad_request(
        ErrorCode::UnknownSetting,
        join3("setting key `", key, "` is not in the pinned catalogue; see GET /me/settings for the supported list"),
    )
}

/// The catalogue entry of a key named in a route, else `400
/// unknown_setting`.
pub fn require_spec(key: &str) -> (r: Result<SettingSpec, ApiError>)
    ensures
        match r {
            Ok(s) => key@ == github_pat_key() && s.key@ == key@ && is_github_pat_spec(s),
            Err(e) => key@ != github_pat_key() && is_bad(e, ErrorCode::UnknownSetting, unknown_setting_text(key@)),
        },
{
    match spec_for(key) {
        Some(s) => Ok(s),
        None => Err(unknown_setting(key)),
    }
}

/// A stored setting of a user.
#[derive(Debug, Clone)]
pub struct UserSetting {
    pub user_id: u128,
    pub key: String,
    pub value: String,
    pub is_secret: bool,
    /// Microseconds since the Unix epoch (UTC).
    pub updated_at: i64,
}

/// A setting as its owner reads it.
#[derive(Debug, Clone)]
pub struct SettingDto {
    pub key: String,
    pub label: String,
    pub help: String,
    pub is_secret: bool,
    pub has_value: bool,
    /// The stored value; never for a secret.
    pub value: Option<String>,
    pub updated_at: Option<i64>,
}

impl SettingDto {
    /// The read form of a catalogue entry and the caller's stored row:
    /// whether a value is stored and when, and the value itself only
    /// when the key is not secret.
    pub fn from_parts(spec: &SettingSpec, row: Option<&UserSetting>) -> (r: Self)
        ensures
            r.key@ == spec.key@,
            r.label@ == spec.label@,
            r.help@ == spec.help@,
            r.is_secret == spec.is_secret,
            r.has_value == row.is_some(),
            match row {
                Some(x) => r.updated_at == Some(x.updated_at) && if spec.is_secret {
                    r.value is None
                } else {
                    r.value == Some(x.value)
                },
                None => r.updated_at is None && r.value is None,
            },
    {
        let value = match row {
            Some(x) => if spec.is_secret {
                None
            } else {
                Some(x.value.clone())
            },
            None => None,
        };
        SettingDto {
            key: string_from(&chars_of(spec.key)),
            label: string_from(&chars_of(spec.label)),
            help: string_from(&chars_of(spec.help)),
            is_secret: spec.is_secret,
            has_value: row.is_some(),
            value,
            updated_at: match row {
                Some(x) => Some(x.updated_at),
                None => None,
            },
        }
    }
}

/// The first stored row with key `key`.
pub open spec fn first_row(rows: Seq<UserSetting>, key: Seq<char>) -> Option<int> {
    if exists|k: int| 0 <= k < rows.len() && (#[trigger] rows[k]).key@ == key {
        Some(
            choose|k: int|
                0 <= k < rows.len() && rows[k].key@ == key && forall|j: int| 0 <= j < k ==> (#[trigger] rows[j]).key@ != key,
        )
    } else {
        None
    }
}

proof fn lemma_first_row(rows: Seq<UserSetting>, key: Seq<char>, k: int)
    requires
        0 <= k < rows.len(),
        rows[k].key@ == key,
        forall|j: int| 0 <= j < k ==> (#[trigger] rows[j]).key@ != key,
    ensures
        first_row(rows, key) == Some(k),
{
    let c = choose|c: int|
        0 <= c < rows.len() && rows[c].key@ == key && forall|j: int| 0 <= j < c ==> (#[trigger] rows[j]).key@ != key;
    assert(rows[k].key@ == key);
    assert(0 <= c < rows.len() && rows[c].key@ == key);
    if c < k {
        assert(rows[c].key@ != key);
    }
    if k < c {
        assert(rows[k].key@ != key);
    }
}

/// `GET /me/settings`: one entry per catalogue key, in catalogue order,
/// read against the caller's first stored row of that key.
pub fn list_settings(rows: &Vec<UserSetting>) -> (r: Vec<SettingDto>)
    ensures
        r.len() == 1,
        r@[0].key@ == github_pat_key() && r@[0].is_secret && r@[0].value is None,
        r@[0].has_value == first_row(rows@, github_pat_key()) is Some,
        match first_row(rows@, github_pat_key()) {
            Some(k) => r@[0].updated_at == Some(rows@[k].updated_at),
            None => r@[0].updated_at is None,
        },
{
    let catalogue = keys();
    let mut out: Vec<SettingDto> = Vec::new();
    let spec = &catalogue[0];
    let mut k: usize = 0;
    let mut found: Option<usize> = None;
    while k < rows.len()
        invariant_except_break
            found is None,
        invariant
            k <= rows.len(),
            spec_catalogue_ok(catalogue@),
            spec == &catalogue@[0],
            forall|j: int| 0 <= j < k ==> (#[trigger] rows@[j]).key@ != github_pat_key(),
        ensures
            spec_catalogue_ok(catalogue@),
            match found {
                Some(f) => f < rows.len() && first_row(rows@, github_pat_key()) == Some(f as int),
                None => first_row(rows@, github_pat_key()) is None,
            },
        decreases rows.len() - k,
    {
        if str_eq(rows[k].key.as_str(), spec.key) {
            proof {
                lemma_first_row(rows@, github_pat_key(), k as int);
            }
            found = Some(k);
            break;
        }
        k = k + 1;
    }
    let dto = match found {
        Some(f) => SettingDto::from_parts(spec, Some(&rows[f])),
        None => SettingDto::from_parts(spec, None),
    };
    out.push(dto);
    out
}

/// `PUT /me/settings/{key}` body.
#[derive(Debug, Clone)]
pub struct PutSettingRequest {
    pub value: String,
}

/// The row a put stores: the catalogue key and secrecy, the caller,
/// the value as sent, stamped `now`.
pub fn new_setting(spec: &SettingSpec, user_id: u128, body: PutSettingRequest, now: i64) -> (r: UserSetting)
    ensures
        r.user_id == user_id && r.key@ == spec.key@ && r.value == body.value && r.is_secret == spec.is_secret
            && r.updated_at == now,
{
    UserSetting { user_id, key: string_from(&chars_of(spec.key)), value: body.value, is_secret: spec.is_secret, updated_at: now }
}

/// A delete of setting `key` the caller never set is `404
/// setting_unset`; other store failures pass through.
pub fn map_delete_error(key: &str, err: StoreError) -> (r: ApiError)
    ensures
        match err {
            StoreError::NotFound { .. } => is_not_found(
                r,
                ErrorCode::SettingUnset,
                "setting "@ + key@ + " is not set for caller"@,
            ),
            _ => r == ApiError::Store(err),
        },
{
    match err {
        StoreError::NotFound { .. } => not_found(ErrorCode::SettingUnset, join3("setting ", key, " is not set for caller")),
        e => ApiError::Store(e),
    }
}

/// Why a token probe failed.
#[derive(Debug, Clone, Copy, PartialEq, Eq, Structural)]
pub enum PatTestCode {
    Unset,
    Network,
    Unauthorized,
    RateLimited,
}

/// The answer of `POST /me/settings/github.pat/test`.
#[derive(Debug, Clone)]
pub enum TestGithubPatResponse {
    /// The token authenticates as this GitHub account (`"true"` on the
    /// wire).
    Verified { login: String, name: Option<String>, account_type: Option<String> },
    /// The token could not be checked or was refused (`"false"` on
    /// the wire).
    Refused { code: PatTestCode, message: String },
}

/// The token to probe: the caller's stored, non-empty one; otherwise
/// the probe answers `unset` at once.
pub fn stored_token(row: Option<UserSetting>) -> (r: Result<String, TestGithubPatResponse>)
    ensures
        match row {
            Some(x) => if x.value@.len() > 0 {
                r == Ok::<String, TestGithubPatResponse>(x.value)
            } else {
                r matches Err(TestGithubPatResponse::Refused { code, message }) && code == PatTestCode::Unset && message@
                    == "No GitHub PAT is set for your account."@
            },
            None => r matches Err(TestGithubPatResponse::Refused { code, message }) && code == PatTestCode::Unset
                && message@ == "No GitHub PAT is set for your account."@,
        },
{
    match row {
        Some(x) => if !x.value.as_str().is_empty() {
            Ok(x.value)
        } else {
            Err(
                TestGithubPatResponse::Refused {
                    code: PatTestCode::Unset,
                    message: string_from(&chars_of("No GitHub PAT is set for your account.")),
                },
            )
        },
        None => Err(
            TestGithubPatResponse::Refused {
                code: PatTestCode::Unset,
                message: string_from(&chars_of("No GitHub PAT is set for your account.")),
            },
        ),
    }
}

/// What asking GitHub for the token's user came to. Texts are the
/// failures' own renderings.
#[derive(Debug, Clone)]
pub enum PatProbeOutcome {
    /// The client could not be built.
    ClientInit(String),
    /// `200`, with the `login`, `name` and `type` strings of the body.
    User { login: Option<String>, name: Option<String>, account_type: Option<String> },
    /// `304`.
    NotModified,
    /// `401`.
    Unauthorized,
    /// The primary rate limit, resetting at the given time.
    PrimaryRateLimit(String),
    /// The secondary rate limit, retry at the given time.
    SecondaryRateLimit(String),
    /// Any other failure.
    Failed(String),
}

/// The probe's answer: the account when GitHub returned it (login
/// defaulting to empty); `unauthorized` for a refused token;
/// `rate_limited` for either rate limit; `network` otherwise.
pub fn pat_probe_response(o: PatProbeOutcome) -> (r: TestGithubPatResponse)
    ensures
        match o {
            PatProbeOutcome::User { login, name, account_type } => r matches TestGithubPatResponse::Verified {
                login: l,
                name: n,
                account_type: t,
            } && l@ == (match login {
                Some(x) => x@,
                None => Seq::<char>::empty(),
            }) && n == name && t == account_type,
            PatProbeOutcome::ClientInit(e) => r matches TestGithubPatResponse::Refused { code, message } && code
                == PatTestCode::Network && message@ == "GitHub client init failed: "@ + e@,
            PatProbeOutcome::NotModified => r matches TestGithubPatResponse::Refused { code, message } && code
                == PatTestCode::Network && message@ == "GitHub returned 304 unexpectedly."@,
            PatProbeOutcome::Unauthorized => r matches TestGithubPatResponse::Refused { code, message } && code
                == PatTestCode::Unauthorized && message@
                == "GitHub rejected the token (401). Check that the PAT is correct, not expired, and has the required scopes (repo, read:org)."@,
            PatProbeOutcome::PrimaryRateLimit(t) => r matches TestGithubPatResponse::Refused { code, message } && code
                == PatTestCode::RateLimited && message@ == "Primary rate limit hit; resets at "@ + t@ + "."@,
            PatProbeOutcome::SecondaryRateLimit(t) => r matches TestGithubPatResponse::Refused { code, message } && code
                == PatTestCode::RateLimited && message@ == "Secondary rate limit; retry at "@ + t@ + "."@,
            PatProbeOutcome::Failed(e) => r matches TestGithubPatResponse::Refused { code, message } && code
                == PatTestCode::Network && message@ == "GitHub request failed: "@ + e@,
        },
{
    match o {
        PatProbeOutcome::User { login, name, account_type } => {
            let l = match login {
                Some(x) => x,
                None => String::new(),
            };
            TestGithubPatResponse::Verified { login: l, name, account_type }
        },
        PatProbeOutcome::ClientInit(e) => {
            let m = concat(&chars_of("GitHub client init failed: "), &chars_of(e.as_str()));
            TestGithubPatResponse::Refused { code: PatTestCode::Network, message: string_from(&m) }
        },
        PatProbeOutcome::NotModified => TestGithubPatResponse::Refused {
            code: PatTestCode::Network,
            message: string_from(&chars_of("GitHub returned 304 unexpectedly.")),
        },
        PatProbeOutcome::Unauthorized => TestGithubPatResponse::Refused {
            code: PatTestCode::Unauthorized,
            message: "GitHub rejected the token (401). Check that the PAT is correct, not expired, and has the required scopes (repo, read:org).".to_owned(),
        },
        PatProbeOutcome::PrimaryRateLimit(t) => {
            let a = concat(&chars_of("Primary rate limit hit; resets at "), &chars_of(t.as_str()));
            let m = concat(&a, &chars_of("."));
            TestGithubPatResponse::Refused { code: PatTestCode::RateLimited, message: string_from(&m) }
        },
        PatProbeOutcome::SecondaryRateLimit(t) => {
            let a = concat(&chars_of("Secondary rate limit; retry at "), &chars_of(t.as_str()));
            let m = concat(&a, &chars_of("."));
            TestGithubPatResponse::Refused { code: PatTestCode::RateLimited, message: string_from(&m) }
        },
        PatProbeOutcome::Failed(e) => {
            let m = concat(&chars_of("GitHub request failed: "), &chars_of(e.as_str()));
            TestGithubPatResponse::Refused { code: PatTestCode::Network, message: string_from(&m) }
        },
    }
}

} // verus!
