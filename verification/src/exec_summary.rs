//! Project executive summary: the wire form assembled from the stored
//! row and its attachments, the section-grouped sparse patch, the
//! submit gate, and the upload and blob-proxy rules.

use vstd::prelude::*;

use crate::error::{
    bad_request, conflict, forbidden, is_bad, is_conflict, is_forbidden, is_not_found, is_unavailable, no_project, no_project_text,
    not_found, unavailable, ApiError, ErrorCode, Section,
    StoreError,
};
use crate::ids::{uuid_hyphenated, uuid_to_string};
use crate::projects::Project;
use crate::project_issues::{filter_seq, lemma_filter_seq_complete, lemma_filter_seq_sound};
use crate::audit::{decimal, decimal_count};
use crate::text::{chars_of, concat, join2, join3, join4, quoted, spec_is_ascii_alphanumeric, str_debug, string_from};

verus! {

/// Completion (percent) below which a submit needs `force`.
pub const EXEC_SUMMARY_SUBMIT_THRESHOLD_PERCENT: u8 = 80;

/// Largest uploaded file, in bytes (25 MiB).
pub const MAX_UPLOAD_BYTES: usize = 26_214_400;

/// Largest text field of an upload, in bytes (8 KiB).
pub const MAX_UPLOAD_TEXT_BYTES: usize = 8192;

/// Review state of an executive summary.
#[derive(Debug, Clone, Copy, PartialEq, Eq, Structural)]
pub enum ExecSummaryStatus {
    Draft,
    InReview,
    Approved,
}

/// Wire form of [`ExecSummaryStatus`]: `draft | in_review | approved`.
#[derive(Debug, Clone, Copy, PartialEq, Eq, Structural)]
pub enum ExecSummaryStatusDto {
    Draft,
    InReview,
    Approved,
}

impl From<ExecSummaryStatus> for ExecSummaryStatusDto {
    fn from(s: ExecSummaryStatus) -> (r: Self) {
        match s {
            ExecSummaryStatus::Draft => ExecSummaryStatusDto::Draft,
            ExecSummaryStatus::InReview => ExecSummaryStatusDto::InReview,
            ExecSummaryStatus::Approved => ExecSummaryStatusDto::Approved,
        }
    }
}

impl vstd::std_specs::convert::FromSpecImpl<ExecSummaryStatus> for ExecSummaryStatusDto {
    open spec fn obeys_from_spec() -> bool {
        true
    }

    open spec fn from_spec(s: ExecSummaryStatus) -> ExecSummaryStatusDto {
        match s {
            ExecSummaryStatus::Draft => ExecSummaryStatusDto::Draft,
            ExecSummaryStatus::InReview => ExecSummaryStatusDto::InReview,
            ExecSummaryStatus::Approved => ExecSummaryStatusDto::Approved,
        }
    }
}

/// The wire form of a status.
pub open spec fn status_dto(s: ExecSummaryStatus) -> ExecSummaryStatusDto {
    <ExecSummaryStatusDto as vstd::std_specs::convert::FromSpec<ExecSummaryStatus>>::from_spec(s)
}

/// Distinct states have distinct wire forms.
pub proof fn lemma_status_dto_injective(a: ExecSummaryStatus, b: ExecSummaryStatus)
    ensures
        status_dto(a) == status_dto(b) ==> a == b,
{
}

/// The stored executive summary of a project.
#[derive(Debug, Clone)]
pub struct ProjectExecSummary {
    pub product_name: Option<String>,
    pub part_number: Option<String>,
    /// Calendar day, numbered as `num_days_from_ce` does (0001-01-01 is day 1).
    pub target_release_date: Option<i32>,
    pub objective: Option<String>,
    pub problem: Option<String>,
    pub value: Option<String>,
    pub differentiators: Option<String>,
    pub success_criteria: Option<String>,
    pub in_scope: Option<String>,
    pub out_of_scope: Option<String>,
    pub assumptions: Option<String>,
    pub dependencies: Option<String>,
    pub constraints: Option<String>,
    pub must_have: Option<String>,
    pub optional: Option<String>,
    pub user_interaction: Option<String>,
    pub architecture: Option<String>,
    pub protocols: Vec<String>,
    pub power: Option<String>,
    pub mounting: Option<String>,
    pub certification: Option<String>,
    pub hardware_features: Option<String>,
    pub physical_notes: Option<String>,
    pub enclosure: Option<String>,
    pub mounting_type: Option<String>,
    pub operating_env: Option<String>,
    pub rrp_cents: Option<i64>,
    pub oem_price_cents: Option<i64>,
    /// Target gross profit in basis points (1% = 100).
    pub target_gp_bp: Option<i64>,
    pub revenue_model: Option<String>,
    pub channel_strategy: Option<String>,
    pub target_market: Option<String>,
    pub volume_assumptions: Option<String>,
    pub status: ExecSummaryStatus,
    pub reviewer: Option<String>,
    pub approver: Option<String>,
    pub review_notes: Option<String>,
    pub approval_notes: Option<String>,
    /// Microseconds since the Unix epoch (UTC).
    pub submitted_at: Option<i64>,
    pub approved_at: Option<i64>,
    pub skipped_sections: Vec<String>,
    pub updated_at: i64,
}

/// Summary tab.
#[derive(Debug, Clone)]
pub struct ExecSummarySummaryDto {
    pub product_name: Option<String>,
    pub part_number: Option<String>,
    pub target_release_date: Option<i32>,
    pub objective: Option<String>,
    pub problem: Option<String>,
    pub value: Option<String>,
    pub differentiators: Option<String>,
    pub success_criteria: Option<String>,
}

/// Scope tab.
#[derive(Debug, Clone)]
pub struct ExecSummaryScopeDto {
    pub in_scope: Option<String>,
    pub out_of_scope: Option<String>,
    pub assumptions: Option<String>,
    pub dependencies: Option<String>,
    pub constraints: Option<String>,
}

/// Requirements tab.
#[derive(Debug, Clone)]
pub struct ExecSummaryRequirementsDto {
    pub must_have: Option<String>,
    pub optional: Option<String>,
    pub user_interaction: Option<String>,
    pub architecture: Option<String>,
    pub protocols: Vec<String>,
    pub power: Option<String>,
    pub mounting: Option<String>,
    pub certification: Option<String>,
}

/// Hardware tab.
#[derive(Debug, Clone)]
pub struct ExecSummaryHardwareDto {
    pub hardware_features: Option<String>,
    pub physical_notes: Option<String>,
    pub enclosure: Option<String>,
    pub mounting_type: Option<String>,
    pub operating_env: Option<String>,
}

/// Commercial tab. The target gross profit stays in basis points
/// here; the wire renders it as a percentage.
#[derive(Debug, Clone)]
pub struct ExecSummaryCommercialDto {
    pub rrp_cents: Option<i64>,
    pub oem_price_cents: Option<i64>,
    pub target_gp_bp: Option<i64>,
    pub revenue_model: Option<String>,
    pub channel_strategy: Option<String>,
    pub target_market: Option<String>,
    pub volume_assumptions: Option<String>,
}

/// Approval tab.
#[derive(Debug, Clone)]
pub struct ExecSummaryApprovalDto {
    pub status: ExecSummaryStatusDto,
    pub reviewer: Option<String>,
    pub approver: Option<String>,
    pub review_notes: Option<String>,
    pub approval_notes: Option<String>,
    pub submitted_at: Option<i64>,
    pub approved_at: Option<i64>,
}

impl Default for ExecSummaryApprovalDto {
    /// The approval tab of a summary that was never written: a draft
    /// with nobody and nothing recorded.
    fn default() -> (d: Self)
        ensures
            d.status == ExecSummaryStatusDto::Draft,
            d.reviewer is None,
            d.approver is None,
            d.review_notes is None,
            d.approval_notes is None,
            d.submitted_at is None,
            d.approved_at is None,
    {
        ExecSummaryApprovalDto {
            status: ExecSummaryStatusDto::Draft,
            reviewer: None,
            approver: None,
            review_notes: None,
            approval_notes: None,
            submitted_at: None,
            approved_at: None,
        }
    }
}

/// Per-section completion flags with the overall percentage the store
/// computed.
#[derive(Debug, Clone, Copy)]
pub struct ExecSummaryCompletion {
    pub summary: bool,
    pub scope: bool,
    pub requirements: bool,
    pub hardware: bool,
    pub commercial: bool,
    pub documents: bool,
    pub approval: bool,
    pub changelog: bool,
    pub percent: u8,
}

impl Default for ExecSummaryCompletion {
    /// The completion of a summary that was never written: no section
    /// complete, nothing done.
    fn default() -> (c: Self)
        ensures
            !c.summary && !c.scope && !c.requirements && !c.hardware && !c.commercial && !c.documents && !c.approval
                && !c.changelog && c.percent == 0,
    {
        ExecSummaryCompletion {
            summary: false,
            scope: false,
            requirements: false,
            hardware: false,
            commercial: false,
            documents: false,
            approval: false,
            changelog: false,
            percent: 0,
        }
    }
}

/// Completion on the wire: the percentage and one flag per section,
/// by section name in alphabetical order.
#[derive(Debug, Clone)]
pub struct ExecSummaryCompletionDto {
    pub percent: u8,
    pub sections: Vec<(String, bool)>,
}

/// An uploaded image.
#[derive(Debug, Clone)]
pub struct ExecSummaryImage {
    pub id: u128,
    pub project_id: u128,
    pub filename: String,
    pub content_type: String,
    pub caption: Option<String>,
    pub ord: i32,
    pub created_at: i64,
}

/// Wire form of an image, served through the blob proxy.
#[derive(Debug, Clone)]
pub struct ExecSummaryImageDto {
    pub id: u128,
    pub project_id: u128,
    pub url: String,
    pub filename: String,
    pub content_type: String,
    pub caption: Option<String>,
    pub ord: i32,
    pub created_at: i64,
}

/// An uploaded document; `meta_filename` and `meta_content_type` are
/// what its blob reference records under `meta`, when it does.
#[derive(Debug, Clone)]
pub struct ExecSummaryDocument {
    pub id: u128,
    pub project_id: u128,
    pub title: String,
    pub doc_type: Option<String>,
    pub notes: Option<String>,
    pub required_action: Option<String>,
    pub uploaded_by: Option<String>,
    pub meta_filename: Option<String>,
    pub meta_content_type: Option<String>,
    pub created_at: i64,
}

/// Wire form of a document.
#[derive(Debug, Clone)]
pub struct ExecSummaryDocumentDto {
    pub id: u128,
    pub project_id: u128,
    pub url: String,
    pub title: String,
    pub doc_type: Option<String>,
    pub notes: Option<String>,
    pub required_action: Option<String>,
    pub uploaded_by: Option<String>,
    pub filename: String,
    pub content_type: String,
    pub created_at: i64,
}

/// One changelog line.
#[derive(Debug, Clone)]
pub struct ExecSummaryChangelogEntryDto {
    pub id: u128,
    pub project_id: u128,
    pub version: String,
    /// Calendar day, numbered as `num_days_from_ce` does (0001-01-01 is day 1).
    pub changed_at: i32,
    pub changed_by: String,
    pub summary: String,
    pub created_at: i64,
}

/// What every executive-summary read and write answers.
#[derive(Debug, Clone)]
pub struct ExecSummaryDto {
    pub project_id: u128,
    pub summary: ExecSummarySummaryDto,
    pub scope: ExecSummaryScopeDto,
    pub requirements: ExecSummaryRequirementsDto,
    pub hardware: ExecSummaryHardwareDto,
    pub commercial: ExecSummaryCommercialDto,
    pub approval: ExecSummaryApprovalDto,
    pub images: Vec<ExecSummaryImageDto>,
    pub documents: Vec<ExecSummaryDocumentDto>,
    pub changelog: Vec<ExecSummaryChangelogEntryDto>,
    pub completion: ExecSummaryCompletionDto,
    pub skipped_sections: Vec<String>,
    pub updated_at: i64,
}

/// `/blobs/exec-summary/<kind>/<id>`.
pub open spec fn spec_blob_proxy_url(kind: Seq<char>, id: u128) -> Seq<char> {
    seq!['/', 'b', 'l', 'o', 'b', 's', '/', 'e', 'x', 'e', 'c', '-', 's', 'u', 'm', 'm', 'a', 'r', 'y', '/'] + kind + seq!['/']
        + uuid_hyphenated(id)
}

/// The proxy URL a stored blob is served from.
pub fn blob_proxy_url(kind: &str, id: u128) -> (r: String)
    ensures
        r@ == spec_blob_proxy_url(kind@, id),
{
    let a = chars_of("/blobs/exec-summary/");
    let b = concat(&a, &chars_of(kind));
    let c = concat(&b, &chars_of("/"));
    let d = concat(&c, &chars_of(uuid_to_string(id).as_str()));
    proof {
        reveal_strlit("/blobs/exec-summary/");
        reveal_strlit("/");
        assert(d@ =~= spec_blob_proxy_url(kind@, id));
    }
    string_from(&d)
}

/// The wire form of an image, at its proxy URL.
pub fn image_dto(i: ExecSummaryImage) -> (r: ExecSummaryImageDto)
    ensures
        r.id == i.id && r.project_id == i.project_id && r.url@ == spec_blob_proxy_url(
            seq!['i', 'm', 'a', 'g', 'e', 's'],
            i.id,
        ) && r.filename == i.filename && r.content_type == i.content_type && r.caption == i.caption && r.ord == i.ord
            && r.created_at == i.created_at,
{
    let url = blob_proxy_url("images", i.id);
    proof {
        reveal_strlit("images");
        assert("images"@ =~= seq!['i', 'm', 'a', 'g', 'e', 's']);
    }
    ExecSummaryImageDto {
        id: i.id,
        project_id: i.project_id,
        url,
        filename: i.filename,
        content_type: i.content_type,
        caption: i.caption,
        ord: i.ord,
        created_at: i.created_at,
    }
}

/// `application/octet-stream`.
pub open spec fn octet_stream() -> Seq<char> {
    seq![
        'a', 'p', 'p', 'l', 'i', 'c', 'a', 't', 'i', 'o', 'n', '/', 'o', 'c', 't', 'e', 't', '-', 's', 't', 'r', 'e', 'a', 'm'
    ]
}

fn octet_stream_string() -> (r: String)
    ensures
        r@ == octet_stream(),
{
    let s = string_from(&chars_of("application/octet-stream"));
    proof {
        reveal_strlit("application/octet-stream");
        assert(s@ =~= octet_stream());
    }
    s
}

/// The wire form of a document: the file name recorded with its blob,
/// else its title; the recorded content type, else
/// `application/octet-stream`.
pub fn document_dto(d: ExecSummaryDocument) -> (r: ExecSummaryDocumentDto)
    ensures
        r.id == d.id && r.project_id == d.project_id && r.url@ == spec_blob_proxy_url(
            seq!['d', 'o', 'c', 'u', 'm', 'e', 'n', 't', 's'],
            d.id,
        ) && r.title == d.title && r.doc_type == d.doc_type && r.notes == d.notes && r.required_action
            == d.required_action && r.uploaded_by == d.uploaded_by && r.filename@ == (match d.meta_filename {
            Some(f) => f@,
            None => d.title@,
        }) && r.content_type@ == (match d.meta_content_type {
            Some(c) => c@,
            None => octet_stream(),
        }) && r.created_at == d.created_at,
{
    let url = blob_proxy_url("documents", d.id);
    proof {
        reveal_strlit("documents");
        assert("documents"@ =~= seq!['d', 'o', 'c', 'u', 'm', 'e', 'n', 't', 's']);
    }
    let filename = match d.meta_filename {
        Some(f) => f,
        None => d.title.clone(),
    };
    let content_type = match d.meta_content_type {
        Some(c) => c,
        None => octet_stream_string(),
    };
    ExecSummaryDocumentDto {
        id: d.id,
        project_id: d.project_id,
        url,
        title: d.title,
        doc_type: d.doc_type,
        notes: d.notes,
        required_action: d.required_action,
        uploaded_by: d.uploaded_by,
        filename,
        content_type,
        created_at: d.created_at,
    }
}

/// Section names with their flags, in alphabetical order.
pub open spec fn completion_sections(c: ExecSummaryCompletion) -> Seq<(Seq<char>, bool)> {
    seq![
        (seq!['a', 'p', 'p', 'r', 'o', 'v', 'a', 'l'], c.approval),
        (seq!['c', 'h', 'a', 'n', 'g', 'e', 'l', 'o', 'g'], c.changelog),
        (seq!['c', 'o', 'm', 'm', 'e', 'r', 'c', 'i', 'a', 'l'], c.commercial),
        (seq!['d', 'o', 'c', 'u', 'm', 'e', 'n', 't', 's'], c.documents),
        (seq!['h', 'a', 'r', 'd', 'w', 'a', 'r', 'e'], c.hardware),
        (seq!['r', 'e', 'q', 'u', 'i', 'r', 'e', 'm', 'e', 'n', 't', 's'], c.requirements),
        (seq!['s', 'c', 'o', 'p', 'e'], c.scope),
        (seq!['s', 'u', 'm', 'm', 'a', 'r', 'y'], c.summary),
    ]
}

pub open spec fn flag_views(v: Seq<(String, bool)>) -> Seq<(Seq<char>, bool)> {
    v.map_values(|p: (String, bool)| (p.0@, p.1))
}

fn named_flag(name: &str, flag: bool) -> (r: (String, bool))
    ensures
        r.0@ == name@ && r.1 == flag,
{
    (string_from(&chars_of(name)), flag)
}

/// Completion on the wire.
pub fn completion_dto(c: ExecSummaryCompletion) -> (r: ExecSummaryCompletionDto)
    ensures
        r.percent == c.percent,
        flag_views(r.sections@) == completion_sections(c),
{
    let mut sections: Vec<(String, bool)> = Vec::new();
    sections.push(named_flag("approval", c.approval));
    sections.push(named_flag("changelog", c.changelog));
    sections.push(named_flag("commercial", c.commercial));
    sections.push(named_flag("documents", c.documents));
    sections.push(named_flag("hardware", c.hardware));
    sections.push(named_flag("requirements", c.requirements));
    sections.push(named_flag("scope", c.scope));
    sections.push(named_flag("summary", c.summary));
    proof {
        reveal_strlit("approval");
        reveal_strlit("changelog");
        reveal_strlit("commercial");
        reveal_strlit("documents");
        reveal_strlit("hardware");
        reveal_strlit("requirements");
        reveal_strlit("scope");
        reveal_strlit("summary");
        let e = completion_sections(c);
        let f = flag_views(sections@);
        assert(f.len() == e.len());
        assert(f[0].0 =~= e[0].0);
        assert(f[1].0 =~= e[1].0);
        assert(f[2].0 =~= e[2].0);
        assert(f[3].0 =~= e[3].0);
        assert(f[4].0 =~= e[4].0);
        assert(f[5].0 =~= e[5].0);
        assert(f[6].0 =~= e[6].0);
        assert(f[7].0 =~= e[7].0);
        assert(f =~= e);
    }
    ExecSummaryCompletionDto { percent: c.percent, sections }
}

/// The form's sections, in form order.
pub open spec fn all_sections() -> Seq<Section> {
    seq![
        Section::Summary,
        Section::Scope,
        Section::Requirements,
        Section::Hardware,
        Section::Commercial,
        Section::Documents,
        Section::Approval,
        Section::Changelog,
    ]
}

/// Whether section `s` is complete.
pub open spec fn section_done(c: ExecSummaryCompletion, s: Section) -> bool {
    match s {
        Section::Summary => c.summary,
        Section::Scope => c.scope,
        Section::Requirements => c.requirements,
        Section::Hardware => c.hardware,
        Section::Commercial => c.commercial,
        Section::Documents => c.documents,
        Section::Approval => c.approval,
        Section::Changelog => c.changelog,
    }
}

/// The sections still incomplete, in form order.
pub open spec fn spec_missing_sections(c: ExecSummaryCompletion) -> Seq<Section> {
    filter_seq(all_sections(), |s: Section| !section_done(c, s))
}

/// The missing sections are exactly the unfinished ones: each section
/// is listed when its own completion flag is false and only then,
/// none twice.
pub proof fn lemma_missing_sections_are_the_unfinished(c: ExecSummaryCompletion)
    ensures
        spec_missing_sections(c).contains(Section::Summary) <==> !c.summary,
        spec_missing_sections(c).contains(Section::Scope) <==> !c.scope,
        spec_missing_sections(c).contains(Section::Requirements) <==> !c.requirements,
        spec_missing_sections(c).contains(Section::Hardware) <==> !c.hardware,
        spec_missing_sections(c).contains(Section::Commercial) <==> !c.commercial,
        spec_missing_sections(c).contains(Section::Documents) <==> !c.documents,
        spec_missing_sections(c).contains(Section::Approval) <==> !c.approval,
        spec_missing_sections(c).contains(Section::Changelog) <==> !c.changelog,
        spec_missing_sections(c).len() <= 8,
{
    let all = all_sections();
    let p = |s: Section| !section_done(c, s);
    lemma_filter_seq_sound(all, p);
    lemma_filter_seq_complete(all, p);
    crate::project_issues::lemma_filter_seq_len(all, p);
    assert(all[0] == Section::Summary);
    assert(all[1] == Section::Scope);
    assert(all[2] == Section::Requirements);
    assert(all[3] == Section::Hardware);
    assert(all[4] == Section::Commercial);
    assert(all[5] == Section::Documents);
    assert(all[6] == Section::Approval);
    assert(all[7] == Section::Changelog);
    assert(all.contains(Section::Summary));
    assert(all.contains(Section::Scope));
    assert(all.contains(Section::Requirements));
    assert(all.contains(Section::Hardware));
    assert(all.contains(Section::Commercial));
    assert(all.contains(Section::Documents));
    assert(all.contains(Section::Approval));
    assert(all.contains(Section::Changelog));
    assert(p(Section::Summary) == !c.summary);
    assert(p(Section::Scope) == !c.scope);
    assert(p(Section::Requirements) == !c.requirements);
    assert(p(Section::Hardware) == !c.hardware);
    assert(p(Section::Commercial) == !c.commercial);
    assert(p(Section::Documents) == !c.documents);
    assert(p(Section::Approval) == !c.approval);
    assert(p(Section::Changelog) == !c.changelog);
}

/// The incomplete sections.
pub fn missing_sections(c: &ExecSummaryCompletion) -> (r: Vec<Section>)
    ensures
        r@ == spec_missing_sections(*c),
        r@.contains(Section::Summary) <==> !c.summary,
        r@.contains(Section::Scope) <==> !c.scope,
        r@.contains(Section::Requirements) <==> !c.requirements,
        r@.contains(Section::Hardware) <==> !c.hardware,
        r@.contains(Section::Commercial) <==> !c.commercial,
        r@.contains(Section::Documents) <==> !c.documents,
        r@.contains(Section::Approval) <==> !c.approval,
        r@.contains(Section::Changelog) <==> !c.changelog,
{
    proof {
        lemma_missing_sections_are_the_unfinished(*c);
    }
    let all: Vec<Section> = vec![
        Section::Summary,
        Section::Scope,
        Section::Requirements,
        Section::Hardware,
        Section::Commercial,
        Section::Documents,
        Section::Approval,
        Section::Changelog,
    ];
    assert(all@ =~= all_sections());
    let ghost p = |s: Section| !section_done(*c, s);
    let mut out: Vec<Section> = Vec::new();
    let mut k: usize = 0;
    while k < all.len()
        invariant
            k <= all.len(),
            all@ == all_sections(),
            p == (|s: Section| !section_done(*c, s)),
            out@ == filter_seq(all@.take(k as int), p),
        decreases all.len() - k,
    {
        let s = all[k];
        assert(all@.take(k + 1).drop_last() =~= all@.take(k as int));
        assert(all@.take(k + 1).last() == s);
        let done = match s {
            Section::Summary => c.summary,
            Section::Scope => c.scope,
            Section::Requirements => c.requirements,
            Section::Hardware => c.hardware,
            Section::Commercial => c.commercial,
            Section::Documents => c.documents,
            Section::Approval => c.approval,
            Section::Changelog => c.changelog,
        };
        if !done {
            out.push(s);
        }
        k = k + 1;
    }
    assert(all@.take(all.len() as int) =~= all@);
    out
}

/// `POST .../exec-summary/submit` query.
#[derive(Debug, Clone, Copy)]
pub struct ExecSummarySubmitQuery {
    pub force: bool,
}

/// `POST .../exec-summary/approve` body.
#[derive(Debug, Clone)]
pub struct ExecSummaryApproveBody {
    pub approval_notes: Option<String>,
}

/// `400 incomplete` body of a refused submit.
#[derive(Debug, Clone)]
pub struct SubmitIncompleteBody {
    pub percent: u8,
    pub threshold: u8,
    pub missing: Vec<Section>,
}

/// The submit gate: below [`EXEC_SUMMARY_SUBMIT_THRESHOLD_PERCENT`] a
/// submit without `force` is `400 incomplete` with the percentage, the
/// threshold and the missing sections; otherwise it proceeds, and
/// answers whether it is a forced submit (audited as such): forced and
/// below the threshold.
pub fn submit_gate(c: &ExecSummaryCompletion, force: bool) -> (r: Result<bool, ApiError>)
    ensures
        !force && c.percent < EXEC_SUMMARY_SUBMIT_THRESHOLD_PERCENT ==> (r matches Err(ApiError::Incomplete {
            percent,
            threshold,
            missing,
        }) && percent == c.percent && threshold == EXEC_SUMMARY_SUBMIT_THRESHOLD_PERCENT && missing@
            == spec_missing_sections(*c)),
        force || c.percent >= EXEC_SUMMARY_SUBMIT_THRESHOLD_PERCENT ==> r == Ok::<bool, ApiError>(
            force && c.percent < EXEC_SUMMARY_SUBMIT_THRESHOLD_PERCENT,
        ),
{
    if !force && c.percent < EXEC_SUMMARY_SUBMIT_THRESHOLD_PERCENT {
        return Err(
            ApiError::Incomplete {
                percent: c.percent,
                threshold: EXEC_SUMMARY_SUBMIT_THRESHOLD_PERCENT,
                missing: missing_sections(c),
            },
        );
    }
    Ok(force && c.percent < EXEC_SUMMARY_SUBMIT_THRESHOLD_PERCENT)
}

/// A failed submit / approve transition: a missing summary is `404
/// exec_summary_not_found`, a transition from the wrong state `409
/// exec_summary_status_conflict` with the store's text; anything else
/// passes through.
pub fn map_transition_err(e: StoreError) -> (r: ApiError)
    ensures
        match e {
            StoreError::NotFound { entity, id } => is_not_found(
                r,
                ErrorCode::ExecSummaryNotFound,
                "not found: "@ + entity@ + " "@ + id@,
            ),
            StoreError::Conflict(m) => is_conflict(r, ErrorCode::ExecSummaryStatusConflict, m@),
            _ => r == ApiError::Store(e),
        },
{
    match e {
        StoreError::NotFound { entity, id } => not_found(
            ErrorCode::ExecSummaryNotFound,
            join4("not found: ", entity.as_str(), " ", id.as_str()),
        ),
        StoreError::Conflict(m) => ApiError::Conflict { code: ErrorCode::ExecSummaryStatusConflict, message: m },
        other => ApiError::Store(other),
    }
}

/// `no exec summary for project <project>`.
pub open spec fn no_summary_text(project_id: u128) -> Seq<char> {
    "no exec summary for project "@ + uuid_hyphenated(project_id)
}

/// The answer for a project without an executive summary.
pub fn no_summary(project_id: u128) -> (e: ApiError)
    ensures
        is_not_found(e, ErrorCode::ExecSummaryNotFound, no_summary_text(project_id)),
{
    not_found(ErrorCode::ExecSummaryNotFound, join2("no exec summary for project ", uuid_to_string(project_id).as_str()))
}

/// `only the project lead may approve or revert the exec summary of project <id>`.
pub open spec fn not_lead_text(project_id: u128) -> Seq<char> {
    "only the project lead may approve or revert the exec summary of project "@ + uuid_hyphenated(project_id)
}

/// Approving or reverting a summary is for the project's lead alone:
/// a missing project is `404 project_not_found`; a caller who is not
/// its lead (or a project without one) is `403 not_project_lead`.
pub fn require_project_lead(project_id: u128, project: &Option<Project>, actor: u128) -> (r: Result<(), ApiError>)
    ensures
        match project {
            None => r matches Err(e) && is_not_found(e, ErrorCode::ProjectNotFound, no_project_text(project_id)),
            Some(p) => if p.lead_user_id == Some(actor) {
                r is Ok
            } else {
                r matches Err(e) && is_forbidden(e, ErrorCode::NotProjectLead, not_lead_text(project_id))
            },
        },
{
    match project {
        None => Err(no_project(project_id)),
        Some(p) => match p.lead_user_id {
            Some(lead) => if lead == actor {
                Ok(())
            } else {
                Err(not_project_lead(project_id))
            },
            None => Err(not_project_lead(project_id)),
        },
    }
}

fn not_project_lead(project_id: u128) -> (e: ApiError)
    ensures
        is_forbidden(e, ErrorCode::NotProjectLead, not_lead_text(project_id)),
{
    forbidden(
        ErrorCode::NotProjectLead,
        join2("only the project lead may approve or revert the exec summary of project ", uuid_to_string(project_id).as_str()),
    )
}

/// A failed revert of the summary of project `project_id`: a missing
/// summary is `404 exec_summary_not_found`; anything else passes
/// through.
pub fn map_revert_err(project_id: u128, e: StoreError) -> (r: ApiError)
    ensures
        match e {
            StoreError::NotFound { .. } => is_not_found(r, ErrorCode::ExecSummaryNotFound, no_summary_text(project_id)),
            _ => r == ApiError::Store(e),
        },
{
    match e {
        StoreError::NotFound { .. } => no_summary(project_id),
        other => ApiError::Store(other),
    }
}


/// The summary tab of a stored row.
pub open spec fn summary_of(s: ProjectExecSummary) -> ExecSummarySummaryDto {
    ExecSummarySummaryDto {
        product_name: s.product_name,
        part_number: s.part_number,
        target_release_date: s.target_release_date,
        objective: s.objective,
        problem: s.problem,
        value: s.value,
        differentiators: s.differentiators,
        success_criteria: s.success_criteria,
    }
}

/// The scope tab of a stored row.
pub open spec fn scope_of(s: ProjectExecSummary) -> ExecSummaryScopeDto {
    ExecSummaryScopeDto {
        in_scope: s.in_scope,
        out_of_scope: s.out_of_scope,
        assumptions: s.assumptions,
        dependencies: s.dependencies,
        constraints: s.constraints,
    }
}

/// The requirements tab of a stored row.
pub open spec fn requirements_of(s: ProjectExecSummary) -> ExecSummaryRequirementsDto {
    ExecSummaryRequirementsDto {
        must_have: s.must_have,
        optional: s.optional,
        user_interaction: s.user_interaction,
        architecture: s.architecture,
        protocols: s.protocols,
        power: s.power,
        mounting: s.mounting,
        certification: s.certification,
    }
}

/// The hardware tab of a stored row.
pub open spec fn hardware_of(s: ProjectExecSummary) -> ExecSummaryHardwareDto {
    ExecSummaryHardwareDto {
        hardware_features: s.hardware_features,
        physical_notes: s.physical_notes,
        enclosure: s.enclosure,
        mounting_type: s.mounting_type,
        operating_env: s.operating_env,
    }
}

/// The commercial tab of a stored row.
pub open spec fn commercial_of(s: ProjectExecSummary) -> ExecSummaryCommercialDto {
    ExecSummaryCommercialDto {
        rrp_cents: s.rrp_cents,
        oem_price_cents: s.oem_price_cents,
        target_gp_bp: s.target_gp_bp,
        revenue_model: s.revenue_model,
        channel_strategy: s.channel_strategy,
        target_market: s.target_market,
        volume_assumptions: s.volume_assumptions,
    }
}

/// The approval tab of a stored row.
pub open spec fn approval_of(s: ProjectExecSummary) -> ExecSummaryApprovalDto {
    ExecSummaryApprovalDto {
        status: status_dto(s.status),
        reviewer: s.reviewer,
        approver: s.approver,
        review_notes: s.review_notes,
        approval_notes: s.approval_notes,
        submitted_at: s.submitted_at,
        approved_at: s.approved_at,
    }
}

/// The tabs of a project without a stored summary: every field empty,
/// the approval in `draft`.
pub open spec fn all_empty(d: ExecSummaryDto) -> bool {
    &&& d.summary == (ExecSummarySummaryDto {
        product_name: None,
        part_number: None,
        target_release_date: None,
        objective: None,
        problem: None,
        value: None,
        differentiators: None,
        success_criteria: None,
    })
    &&& d.scope == (ExecSummaryScopeDto {
        in_scope: None,
        out_of_scope: None,
        assumptions: None,
        dependencies: None,
        constraints: None,
    })
    &&& d.requirements.must_have is None && d.requirements.optional is None && d.requirements.user_interaction is None
        && d.requirements.architecture is None && d.requirements.protocols@.len() == 0 && d.requirements.power is None
        && d.requirements.mounting is None && d.requirements.certification is None
    &&& d.hardware == (ExecSummaryHardwareDto {
        hardware_features: None,
        physical_notes: None,
        enclosure: None,
        mounting_type: None,
        operating_env: None,
    })
    &&& d.commercial == (ExecSummaryCommercialDto {
        rrp_cents: None,
        oem_price_cents: None,
        target_gp_bp: None,
        revenue_model: None,
        channel_strategy: None,
        target_market: None,
        volume_assumptions: None,
    })
    &&& d.approval == (ExecSummaryApprovalDto {
        status: ExecSummaryStatusDto::Draft,
        reviewer: None,
        approver: None,
        review_notes: None,
        approval_notes: None,
        submitted_at: None,
        approved_at: None,
    })
    &&& d.skipped_sections@.len() == 0
}

/// `d` is the wire form of image `i`.
pub open spec fn image_dto_ok(i: ExecSummaryImage, d: ExecSummaryImageDto) -> bool {
    d.id == i.id && d.project_id == i.project_id && d.url@ == spec_blob_proxy_url(seq!['i', 'm', 'a', 'g', 'e', 's'], i.id)
        && d.filename == i.filename && d.content_type == i.content_type && d.caption == i.caption && d.ord == i.ord
        && d.created_at == i.created_at
}

/// `r` is the wire form of document `d`.
pub open spec fn document_dto_ok(d: ExecSummaryDocument, r: ExecSummaryDocumentDto) -> bool {
    r.id == d.id && r.project_id == d.project_id && r.url@ == spec_blob_proxy_url(
        seq!['d', 'o', 'c', 'u', 'm', 'e', 'n', 't', 's'],
        d.id,
    ) && r.title == d.title && r.doc_type == d.doc_type && r.notes == d.notes && r.required_action == d.required_action
        && r.uploaded_by == d.uploaded_by && r.filename@ == (match d.meta_filename {
        Some(f) => f@,
        None => d.title@,
    }) && r.content_type@ == (match d.meta_content_type {
        Some(c) => c@,
        None => octet_stream(),
    }) && r.created_at == d.created_at
}

/// The wire form of a project's executive summary: the tabs of the
/// stored row (all empty, in `draft`, stamped `now`, when there is
/// none), the images and documents at their proxy URLs, the changelog
/// as stored, and the completion.
pub fn build_exec_summary_dto(
    project_id: u128,
    row: Option<ProjectExecSummary>,
    completion: ExecSummaryCompletion,
    images: Vec<ExecSummaryImage>,
    documents: Vec<ExecSummaryDocument>,
    changelog: Vec<ExecSummaryChangelogEntryDto>,
    now: i64,
) -> (r: ExecSummaryDto)
    ensures
        r.project_id == project_id,
        match row {
            Some(s) => {
                &&& r.summary == summary_of(s)
                &&& r.scope == scope_of(s)
                &&& r.requirements == requirements_of(s)
                &&& r.hardware == hardware_of(s)
                &&& r.commercial == commercial_of(s)
                &&& r.approval == approval_of(s)
                &&& r.skipped_sections == s.skipped_sections
                &&& r.updated_at == s.updated_at
            },
            None => all_empty(r) && r.updated_at == now,
        },
        r.images.len() == images.len(),
        forall|k: int| 0 <= k < images.len() ==> image_dto_ok(images@[k], #[trigger] r.images@[k]),
        r.documents.len() == documents.len(),
        forall|k: int| 0 <= k < documents.len() ==> document_dto_ok(documents@[k], #[trigger] r.documents@[k]),
        r.changelog == changelog,
        r.completion.percent == completion.percent,
        flag_views(r.completion.sections@) == completion_sections(completion),
{
    let mut image_dtos: Vec<ExecSummaryImageDto> = Vec::new();
    let mut k: usize = 0;
    while k < images.len()
        invariant
            k <= images.len(),
            image_dtos.len() == k,
            forall|j: int| 0 <= j < k ==> image_dto_ok(images@[j], #[trigger] image_dtos@[j]),
        decreases images.len() - k,
    {
        let i = &images[k];
        let d = image_dto(
            ExecSummaryImage {
                id: i.id,
                project_id: i.project_id,
                filename: i.filename.clone(),
                content_type: i.content_type.clone(),
                caption: match &i.caption {
                    Some(c) => Some(c.clone()),
                    None => None,
                },
                ord: i.ord,
                created_at: i.created_at,
            },
        );
        image_dtos.push(d);
        k = k + 1;
    }
    let mut document_dtos: Vec<ExecSummaryDocumentDto> = Vec::new();
    let mut k: usize = 0;
    while k < documents.len()
        invariant
            k <= documents.len(),
            document_dtos.len() == k,
            forall|j: int| 0 <= j < k ==> document_dto_ok(documents@[j], #[trigger] document_dtos@[j]),
        decreases documents.len() - k,
    {
        let d = &documents[k];
        let x = document_dto(
            ExecSummaryDocument {
                id: d.id,
                project_id: d.project_id,
                title: d.title.clone(),
                doc_type: clone_opt(&d.doc_type),
                notes: clone_opt(&d.notes),
                required_action: clone_opt(&d.required_action),
                uploaded_by: clone_opt(&d.uploaded_by),
                meta_filename: clone_opt(&d.meta_filename),
                meta_content_type: clone_opt(&d.meta_content_type),
                created_at: d.created_at,
            },
        );
        document_dtos.push(x);
        k = k + 1;
    }
    let completion_out = completion_dto(completion);
    match row {
        Some(s) => ExecSummaryDto {
            project_id,
            summary: ExecSummarySummaryDto {
                product_name: s.product_name,
                part_number: s.part_number,
                target_release_date: s.target_release_date,
                objective: s.objective,
                problem: s.problem,
                value: s.value,
                differentiators: s.differentiators,
                success_criteria: s.success_criteria,
            },
            scope: ExecSummaryScopeDto {
                in_scope: s.in_scope,
                out_of_scope: s.out_of_scope,
                assumptions: s.assumptions,
                dependencies: s.dependencies,
                constraints: s.constraints,
            },
            requirements: ExecSummaryRequirementsDto {
                must_have: s.must_have,
                optional: s.optional,
                user_interaction: s.user_interaction,
                architecture: s.architecture,
                protocols: s.protocols,
                power: s.power,
                mounting: s.mounting,
                certification: s.certification,
            },
            hardware: ExecSummaryHardwareDto {
                hardware_features: s.hardware_features,
                physical_notes: s.physical_notes,
                enclosure: s.enclosure,
                mounting_type: s.mounting_type,
                operating_env: s.operating_env,
            },
            commercial: ExecSummaryCommercialDto {
                rrp_cents: s.rrp_cents,
                oem_price_cents: s.oem_price_cents,
                target_gp_bp: s.target_gp_bp,
                revenue_model: s.revenue_model,
                channel_strategy: s.channel_strategy,
                target_market: s.target_market,
                volume_assumptions: s.volume_assumptions,
            },
            approval: ExecSummaryApprovalDto {
                status: ExecSummaryStatusDto::from(s.status),
                reviewer: s.reviewer,
                approver: s.approver,
                review_notes: s.review_notes,
                approval_notes: s.approval_notes,
                submitted_at: s.submitted_at,
                approved_at: s.approved_at,
            },
            images: image_dtos,
            documents: document_dtos,
            changelog,
            completion: completion_out,
            skipped_sections: s.skipped_sections,
            updated_at: s.updated_at,
        },
        None => ExecSummaryDto {
            project_id,
            summary: ExecSummarySummaryDto {
                product_name: None,
                part_number: None,
                target_release_date: None,
                objective: None,
                problem: None,
                value: None,
                differentiators: None,
                success_criteria: None,
            },
            scope: ExecSummaryScopeDto {
                in_scope: None,
                out_of_scope: None,
                assumptions: None,
                dependencies: None,
                constraints: None,
            },
            requirements: ExecSummaryRequirementsDto {
                must_have: None,
                optional: None,
                user_interaction: None,
                architecture: None,
                protocols: Vec::new(),
                power: None,
                mounting: None,
                certification: None,
            },
            hardware: ExecSummaryHardwareDto {
                hardware_features: None,
                physical_notes: None,
                enclosure: None,
                mounting_type: None,
                operating_env: None,
            },
            commercial: ExecSummaryCommercialDto {
                rrp_cents: None,
                oem_price_cents: None,
                target_gp_bp: None,
                revenue_model: None,
                channel_strategy: None,
                target_market: None,
                volume_assumptions: None,
            },
            approval: ExecSummaryApprovalDto {
                status: ExecSummaryStatusDto::Draft,
                reviewer: None,
                approver: None,
                review_notes: None,
                approval_notes: None,
                submitted_at: None,
                approved_at: None,
            },
            images: image_dtos,
            documents: document_dtos,
            changelog,
            completion: completion_out,
            skipped_sections: Vec::new(),
            updated_at: now,
        },
    }
}

/// A copy of an optional string.
pub fn clone_opt(o: &Option<String>) -> (r: Option<String>)
    ensures
        r == *o,
{
    match o {
        Some(s) => {
            let c = s.clone();
            Some(c)
        },
        None => None,
    }
}


/// A sparse update of one field: absent (`None`), explicit null
/// (`Some(None)`) or a value.
pub type FieldPatch<T> = Option<Option<T>>;

/// Summary tab patch.
#[derive(Debug, Clone)]
pub struct ExecSummarySummaryPatch {
    pub product_name: FieldPatch<String>,
    pub part_number: FieldPatch<String>,
    pub target_release_date: FieldPatch<i32>,
    pub objective: FieldPatch<String>,
    pub problem: FieldPatch<String>,
    pub value: FieldPatch<String>,
    pub differentiators: FieldPatch<String>,
    pub success_criteria: FieldPatch<String>,
}

/// Scope tab patch.
#[derive(Debug, Clone)]
pub struct ExecSummaryScopePatch {
    pub in_scope: FieldPatch<String>,
    pub out_of_scope: FieldPatch<String>,
    pub assumptions: FieldPatch<String>,
    pub dependencies: FieldPatch<String>,
    pub constraints: FieldPatch<String>,
}

/// Requirements tab patch; `protocols` replaces the whole list.
#[derive(Debug, Clone)]
pub struct ExecSummaryRequirementsPatch {
    pub must_have: FieldPatch<String>,
    pub optional: FieldPatch<String>,
    pub user_interaction: FieldPatch<String>,
    pub architecture: FieldPatch<String>,
    pub protocols: Option<Vec<String>>,
    pub power: FieldPatch<String>,
    pub mounting: FieldPatch<String>,
    pub certification: FieldPatch<String>,
}

/// Hardware tab patch.
#[derive(Debug, Clone)]
pub struct ExecSummaryHardwarePatch {
    pub hardware_features: FieldPatch<String>,
    pub physical_notes: FieldPatch<String>,
    pub enclosure: FieldPatch<String>,
    pub mounting_type: FieldPatch<String>,
    pub operating_env: FieldPatch<String>,
}

/// Commercial tab patch; the target gross profit in basis points
/// (the wire's percentage times 100, rounded).
#[derive(Debug, Clone)]
pub struct ExecSummaryCommercialPatch {
    pub rrp_cents: FieldPatch<i64>,
    pub oem_price_cents: FieldPatch<i64>,
    pub target_gp_bp: FieldPatch<i64>,
    pub revenue_model: FieldPatch<String>,
    pub channel_strategy: FieldPatch<String>,
    pub target_market: FieldPatch<String>,
    pub volume_assumptions: FieldPatch<String>,
}

/// Approval tab patch.
#[derive(Debug, Clone)]
pub struct ExecSummaryApprovalPatch {
    pub reviewer: FieldPatch<String>,
    pub approver: FieldPatch<String>,
    pub review_notes: FieldPatch<String>,
    pub approval_notes: FieldPatch<String>,
}

/// `PATCH .../exec-summary` body, grouped by tab.
#[derive(Debug, Clone)]
pub struct ExecSummaryPatchBody {
    pub summary: Option<ExecSummarySummaryPatch>,
    pub scope: Option<ExecSummaryScopePatch>,
    pub requirements: Option<ExecSummaryRequirementsPatch>,
    pub hardware: Option<ExecSummaryHardwarePatch>,
    pub commercial: Option<ExecSummaryCommercialPatch>,
    pub approval: Option<ExecSummaryApprovalPatch>,
    pub skipped_sections: Option<Vec<String>>,
}

/// The flat sparse update the store applies.
#[derive(Debug, Clone)]
pub struct ProjectExecSummaryPatch {
    pub product_name: FieldPatch<String>,
    pub part_number: FieldPatch<String>,
    pub target_release_date: FieldPatch<i32>,
    pub objective: FieldPatch<String>,
    pub problem: FieldPatch<String>,
    pub value: FieldPatch<String>,
    pub differentiators: FieldPatch<String>,
    pub success_criteria: FieldPatch<String>,
    pub in_scope: FieldPatch<String>,
    pub out_of_scope: FieldPatch<String>,
    pub assumptions: FieldPatch<String>,
    pub dependencies: FieldPatch<String>,
    pub constraints: FieldPatch<String>,
    pub must_have: FieldPatch<String>,
    pub optional: FieldPatch<String>,
    pub user_interaction: FieldPatch<String>,
    pub architecture: FieldPatch<String>,
    pub protocols: Option<Vec<String>>,
    pub power: FieldPatch<String>,
    pub mounting: FieldPatch<String>,
    pub certification: FieldPatch<String>,
    pub hardware_features: FieldPatch<String>,
    pub physical_notes: FieldPatch<String>,
    pub enclosure: FieldPatch<String>,
    pub mounting_type: FieldPatch<String>,
    pub operating_env: FieldPatch<String>,
    pub rrp_cents: FieldPatch<i64>,
    pub oem_price_cents: FieldPatch<i64>,
    pub target_gp_bp: FieldPatch<i64>,
    pub revenue_model: FieldPatch<String>,
    pub channel_strategy: FieldPatch<String>,
    pub target_market: FieldPatch<String>,
    pub volume_assumptions: FieldPatch<String>,
    pub reviewer: FieldPatch<String>,
    pub approver: FieldPatch<String>,
    pub review_notes: FieldPatch<String>,
    pub approval_notes: FieldPatch<String>,
    pub skipped_sections: Option<Vec<String>>,
}

/// Field `f` of an optional tab: absent when the tab is.
pub open spec fn tab_field<P, T>(tab: Option<P>, f: spec_fn(P) -> Option<T>) -> Option<T> {
    match tab {
        Some(p) => f(p),
        None => None,
    }
}

impl ExecSummaryPatchBody {
    /// Flattens the tabs: every field of a present tab is carried as
    /// sent, every field of an absent tab is left alone.
    pub fn into_store_patch(self) -> (out: ProjectExecSummaryPatch)
        ensures
            out.product_name == tab_field(self.summary, |p: ExecSummarySummaryPatch| p.product_name),
            out.part_number == tab_field(self.summary, |p: ExecSummarySummaryPatch| p.part_number),
            out.target_release_date == tab_field(self.summary, |p: ExecSummarySummaryPatch| p.target_release_date),
            out.objective == tab_field(self.summary, |p: ExecSummarySummaryPatch| p.objective),
            out.problem == tab_field(self.summary, |p: ExecSummarySummaryPatch| p.problem),
            out.value == tab_field(self.summary, |p: ExecSummarySummaryPatch| p.value),
            out.differentiators == tab_field(self.summary, |p: ExecSummarySummaryPatch| p.differentiators),
            out.success_criteria == tab_field(self.summary, |p: ExecSummarySummaryPatch| p.success_criteria),
            out.in_scope == tab_field(self.scope, |p: ExecSummaryScopePatch| p.in_scope),
            out.out_of_scope == tab_field(self.scope, |p: ExecSummaryScopePatch| p.out_of_scope),
            out.assumptions == tab_field(self.scope, |p: ExecSummaryScopePatch| p.assumptions),
            out.dependencies == tab_field(self.scope, |p: ExecSummaryScopePatch| p.dependencies),
            out.constraints == tab_field(self.scope, |p: ExecSummaryScopePatch| p.constraints),
            out.must_have == tab_field(self.requirements, |p: ExecSummaryRequirementsPatch| p.must_have),
            out.optional == tab_field(self.requirements, |p: ExecSummaryRequirementsPatch| p.optional),
            out.user_interaction == tab_field(self.requirements, |p: ExecSummaryRequirementsPatch| p.user_interaction),
            out.architecture == tab_field(self.requirements, |p: ExecSummaryRequirementsPatch| p.architecture),
            out.protocols == tab_field(self.requirements, |p: ExecSummaryRequirementsPatch| p.protocols),
            out.power == tab_field(self.requirements, |p: ExecSummaryRequirementsPatch| p.power),
            out.mounting == tab_field(self.requirements, |p: ExecSummaryRequirementsPatch| p.mounting),
            out.certification == tab_field(self.requirements, |p: ExecSummaryRequirementsPatch| p.certification),
            out.hardware_features == tab_field(self.hardware, |p: ExecSummaryHardwarePatch| p.hardware_features),
            out.physical_notes == tab_field(self.hardware, |p: ExecSummaryHardwarePatch| p.physical_notes),
            out.enclosure == tab_field(self.hardware, |p: ExecSummaryHardwarePatch| p.enclosure),
            out.mounting_type == tab_field(self.hardware, |p: ExecSummaryHardwarePatch| p.mounting_type),
            out.operating_env == tab_field(self.hardware, |p: ExecSummaryHardwarePatch| p.operating_env),
            out.rrp_cents == tab_field(self.commercial, |p: ExecSummaryCommercialPatch| p.rrp_cents),
            out.oem_price_cents == tab_field(self.commercial, |p: ExecSummaryCommercialPatch| p.oem_price_cents),
            out.target_gp_bp == tab_field(self.commercial, |p: ExecSummaryCommercialPatch| p.target_gp_bp),
            out.revenue_model == tab_field(self.commercial, |p: ExecSummaryCommercialPatch| p.revenue_model),
            out.channel_strategy == tab_field(self.commercial, |p: ExecSummaryCommercialPatch| p.channel_strategy),
            out.target_market == tab_field(self.commercial, |p: ExecSummaryCommercialPatch| p.target_market),
            out.volume_assumptions == tab_field(self.commercial, |p: ExecSummaryCommercialPatch| p.volume_assumptions),
            out.reviewer == tab_field(self.approval, |p: ExecSummaryApprovalPatch| p.reviewer),
            out.approver == tab_field(self.approval, |p: ExecSummaryApprovalPatch| p.approver),
            out.review_notes == tab_field(self.approval, |p: ExecSummaryApprovalPatch| p.review_notes),
            out.approval_notes == tab_field(self.approval, |p: ExecSummaryApprovalPatch| p.approval_notes),
            out.skipped_sections == self.skipped_sections,
    {
        let (product_name, part_number, target_release_date, objective, problem, value, differentiators, success_criteria) =
            match self.summary {
            Some(s) => (
                s.product_name,
                s.part_number,
                s.target_release_date,
                s.objective,
                s.problem,
                s.value,
                s.differentiators,
                s.success_criteria,
            ),
            None => (None, None, None, None, None, None, None, None),
        };
        let (in_scope, out_of_scope, assumptions, dependencies, constraints) = match self.scope {
            Some(s) => (s.in_scope, s.out_of_scope, s.assumptions, s.dependencies, s.constraints),
            None => (None, None, None, None, None),
        };
        let (must_have, optional, user_interaction, architecture, protocols, power, mounting, certification) =
            match self.requirements {
            Some(r) => (
                r.must_have,
                r.optional,
                r.user_interaction,
                r.architecture,
                r.protocols,
                r.power,
                r.mounting,
                r.certification,
            ),
            None => (None, None, None, None, None, None, None, None),
        };
        let (hardware_features, physical_notes, enclosure, mounting_type, operating_env) = match self.hardware {
            Some(h) => (h.hardware_features, h.physical_notes, h.enclosure, h.mounting_type, h.operating_env),
            None => (None, None, None, None, None),
        };
        let (rrp_cents, oem_price_cents, target_gp_bp, revenue_model, channel_strategy, target_market, volume_assumptions) =
            match self.commercial {
            Some(c) => (
                c.rrp_cents,
                c.oem_price_cents,
                c.target_gp_bp,
                c.revenue_model,
                c.channel_strategy,
                c.target_market,
                c.volume_assumptions,
            ),
            None => (None, None, None, None, None, None, None),
        };
        let (reviewer, approver, review_notes, approval_notes) = match self.approval {
            Some(a) => (a.reviewer, a.approver, a.review_notes, a.approval_notes),
            None => (None, None, None, None),
        };
        ProjectExecSummaryPatch {
            product_name,
            part_number,
            target_release_date,
            objective,
            problem,
            value,
            differentiators,
            success_criteria,
            in_scope,
            out_of_scope,
            assumptions,
            dependencies,
            constraints,
            must_have,
            optional,
            user_interaction,
            architecture,
            protocols,
            power,
            mounting,
            certification,
            hardware_features,
            physical_notes,
            enclosure,
            mounting_type,
            operating_env,
            rrp_cents,
            oem_price_cents,
            target_gp_bp,
            revenue_model,
            channel_strategy,
            target_market,
            volume_assumptions,
            reviewer,
            approver,
            review_notes,
            approval_notes,
            skipped_sections: self.skipped_sections,
        }
    }
}

/// `PATCH .../documents/{id}` body.
#[derive(Debug, Clone)]
pub struct ExecSummaryDocumentPatchBody {
    pub title: Option<String>,
    pub doc_type: FieldPatch<String>,
    pub notes: FieldPatch<String>,
    pub required_action: FieldPatch<String>,
}


/// A file part is refused above [`MAX_UPLOAD_BYTES`] with
/// `file_too_large`.
pub fn check_file_size(len: usize) -> (r: Result<(), ApiError>)
    ensures
        len > MAX_UPLOAD_BYTES ==> (r matches Err(e) && is_bad(
            e,
            ErrorCode::FileTooLarge,
            "file is "@ + decimal(len as int) + " bytes; cap is "@ + decimal(MAX_UPLOAD_BYTES as int),
        )),
        len <= MAX_UPLOAD_BYTES ==> r is Ok,
{
    if len > MAX_UPLOAD_BYTES {
        let a = decimal_count(len);
        let b = decimal_count(MAX_UPLOAD_BYTES);
        Err(bad_request(ErrorCode::FileTooLarge, join4("file is ", a.as_str(), " bytes; cap is ", b.as_str())))
    } else {
        Ok(())
    }
}

/// A text part `name` of `len` bytes is refused above
/// [`MAX_UPLOAD_TEXT_BYTES`] with `field_too_large`.
pub fn check_text_size(name: &str, len: usize) -> (r: Result<(), ApiError>)
    ensures
        len > MAX_UPLOAD_TEXT_BYTES ==> (r matches Err(e) && is_bad(
            e,
            ErrorCode::FieldTooLarge,
            "field "@ + name@ + " exceeds 8 KiB"@,
        )),
        len <= MAX_UPLOAD_TEXT_BYTES ==> r is Ok,
{
    if len > MAX_UPLOAD_TEXT_BYTES {
        Err(bad_request(ErrorCode::FieldTooLarge, join3("field ", name, " exceeds 8 KiB")))
    } else {
        Ok(())
    }
}

/// The file name and content type of a complete upload: a body
/// without a `file` part is `missing_file`; the name defaults to
/// `upload` and the type to `application/octet-stream`.
pub fn finish_upload(has_file: bool, filename: Option<String>, content_type: Option<String>) -> (r: Result<
    (String, String),
    ApiError,
>)
    ensures
        !has_file ==> (r matches Err(e) && is_bad(e, ErrorCode::MissingFile, "multipart body has no `file` part"@)),
        has_file ==> (r matches Ok((f, c)) && f@ == (match filename {
            Some(x) => x@,
            None => seq!['u', 'p', 'l', 'o', 'a', 'd'],
        }) && c@ == (match content_type {
            Some(x) => x@,
            None => octet_stream(),
        })),
{
    if !has_file {
        return Err(bad_request(ErrorCode::MissingFile, "multipart body has no `file` part".to_owned()));
    }
    let f = match filename {
        Some(x) => x,
        None => {
            let u = string_from(&chars_of("upload"));
            proof {
                reveal_strlit("upload");
                assert(u@ =~= seq!['u', 'p', 'l', 'o', 'a', 'd']);
            }
            u
        },
    };
    let c = match content_type {
        Some(x) => x,
        None => octet_stream_string(),
    };
    Ok((f, c))
}

/// The value of the last text part named `name`, as a map filled in
/// order keeps it.
pub open spec fn last_field(fields: Seq<(String, String)>, name: Seq<char>) -> Option<Seq<char>>
    decreases fields.len(),
{
    if fields.len() == 0 {
        None
    } else if fields.last().0@ == name {
        Some(fields.last().1@)
    } else {
        last_field(fields.drop_last(), name)
    }
}

/// The value of text part `name`.
pub fn text_field(fields: &Vec<(String, String)>, name: &str) -> (r: Option<String>)
    ensures
        match r {
            Some(v) => last_field(fields@, name@) == Some(v@),
            None => last_field(fields@, name@) is None,
        },
{
    let mut k: usize = fields.len();
    assert(fields@.take(fields.len() as int) =~= fields@);
    while k > 0
        invariant
            k <= fields.len(),
            last_field(fields@, name@) == last_field(fields@.take(k as int), name@),
        decreases k,
    {
        assert(fields@.take(k as int).drop_last() =~= fields@.take(k - 1));
        assert(fields@.take(k as int).last() == fields@[k - 1]);
        let n = chars_of(fields[k - 1].0.as_str());
        if crate::text::chars_eq_str(&n, name) {
            return Some(fields[k - 1].1.clone());
        }
        k = k - 1;
    }
    None
}

/// The title of an uploaded document: its `title` part, else the file
/// name.
pub fn document_title(fields: &Vec<(String, String)>, filename: String) -> (r: String)
    ensures
        r@ == (match last_field(fields@, "title"@) {
            Some(t) => t,
            None => filename@,
        }),
{
    match text_field(fields, "title") {
        Some(t) => t,
        None => filename,
    }
}

/// The content type and file name a stored document is served with:
/// the stored ones, else `application/octet-stream` and the document's
/// title.
pub fn served_document_meta(stored_type: Option<String>, stored_name: Option<String>, title: String) -> (r: (
    String,
    String,
))
    ensures
        r.0@ == (match stored_type {
            Some(t) => t@,
            None => octet_stream(),
        }),
        r.1@ == (match stored_name {
            Some(n) => n@,
            None => title@,
        }),
{
    let t = match stored_type {
        Some(t) => t,
        None => octet_stream_string(),
    };
    let n = match stored_name {
        Some(n) => n,
        None => title,
    };
    (t, n)
}

/// A character kept in a blob key: ASCII alphanumerics, `.`, `-` and
/// `_`; anything else becomes `_`.
pub open spec fn key_char(c: char) -> char {
    if spec_is_ascii_alphanumeric(c) || c == '.' || c == '-' || c == '_' {
        c
    } else {
        '_'
    }
}

/// The file name as it goes into a blob key.
pub fn safe_blob_name(name: &str) -> (r: Vec<char>)
    ensures
        r@ == name@.map_values(|c: char| key_char(c)),
{
    let v = chars_of(name);
    let mut out: Vec<char> = Vec::new();
    let mut k: usize = 0;
    while k < v.len()
        invariant
            k <= v.len(),
            v@ == name@,
            out@ == v@.take(k as int).map_values(|c: char| key_char(c)),
        decreases v.len() - k,
    {
        let c = v[k];
        let keep = ('a' <= c && c <= 'z') || ('A' <= c && c <= 'Z') || ('0' <= c && c <= '9') || c == '.' || c == '-'
            || c == '_';
        out.push(if keep { c } else { '_' });
        assert(v@.take(k + 1).map_values(|c: char| key_char(c)) =~= v@.take(k as int).map_values(|c: char| key_char(c)).push(
            key_char(c),
        ));
        k = k + 1;
    }
    assert(v@.take(v.len() as int) =~= v@);
    out
}

/// `exec-summary/<project>/<kind>/<random>-<safe name>`.
pub open spec fn spec_blob_key(project_id: u128, kind: Seq<char>, rand: u128, filename: Seq<char>) -> Seq<char> {
    seq!['e', 'x', 'e', 'c', '-', 's', 'u', 'm', 'm', 'a', 'r', 'y', '/'] + uuid_hyphenated(project_id) + seq!['/']
        + kind + seq!['/'] + uuid_hyphenated(rand) + seq!['-'] + filename.map_values(|c: char| key_char(c))
}

/// The storage key of an upload, under a fresh random id; the random
/// id is returned with it.
pub fn build_blob_key(project_id: u128, kind: &str, filename: &str) -> (r: (String, u128))
    ensures
        r.0@ == spec_blob_key(project_id, kind@, r.1, filename@),
{
    let rand = crate::ids::fresh_id();
    let a = chars_of("exec-summary/");
    let b = concat(&a, &chars_of(uuid_to_string(project_id).as_str()));
    let c = concat(&b, &chars_of("/"));
    let d = concat(&c, &chars_of(kind));
    let e = concat(&d, &chars_of("/"));
    let f = concat(&e, &chars_of(uuid_to_string(rand).as_str()));
    let g = concat(&f, &chars_of("-"));
    let h = concat(&g, &safe_blob_name(filename));
    proof {
        reveal_strlit("exec-summary/");
        reveal_strlit("/");
        reveal_strlit("-");
        assert(h@ =~= spec_blob_key(project_id, kind@, rand, filename@));
    }
    (string_from(&h), rand)
}

/// A file name made safe for a `Content-Disposition` header: CR, LF
/// and `"` become `_`.
pub open spec fn disposition_char(c: char) -> char {
    if c == '\r' || c == '\n' || c == '"' {
        '_'
    } else {
        c
    }
}

/// Escapes a file name for `Content-Disposition`.
pub fn escape_filename(name: &str) -> (r: String)
    ensures
        r@ == name@.map_values(|c: char| disposition_char(c)),
{
    let v = chars_of(name);
    let mut out: Vec<char> = Vec::new();
    let mut k: usize = 0;
    while k < v.len()
        invariant
            k <= v.len(),
            v@ == name@,
            out@ == v@.take(k as int).map_values(|c: char| disposition_char(c)),
        decreases v.len() - k,
    {
        let c = v[k];
        out.push(if c == '\r' || c == '\n' || c == '"' { '_' } else { c });
        assert(v@.take(k + 1).map_values(|c: char| disposition_char(c)) =~= v@.take(k as int).map_values(
            |c: char| disposition_char(c),
        ).push(disposition_char(c)));
        k = k + 1;
    }
    assert(v@.take(v.len() as int) =~= v@);
    string_from(&out)
}

/// How a blob-store call failed.
#[derive(Debug, Clone)]
pub enum BlobErrorKind {
    NotFound,
    Forbidden,
    PayloadTooLarge,
    /// Any other backend failure, with its text.
    Other(String),
}

/// The answer to a failed blob-store call.
pub fn map_blob_err(e: BlobErrorKind) -> (r: ApiError)
    ensures
        match e {
            BlobErrorKind::NotFound => is_not_found(r, ErrorCode::BlobNotFound, "blob not found"@),
            BlobErrorKind::Forbidden => is_forbidden(r, ErrorCode::BlobForbidden, "blob access forbidden"@),
            BlobErrorKind::PayloadTooLarge => is_bad(r, ErrorCode::FileTooLarge, "payload too large for storage backend"@),
            BlobErrorKind::Other(m) => is_bad(r, ErrorCode::BlobBackendError, m@),
        },
{
    match e {
        BlobErrorKind::NotFound => not_found(ErrorCode::BlobNotFound, "blob not found".to_owned()),
        BlobErrorKind::Forbidden => forbidden(ErrorCode::BlobForbidden, "blob access forbidden".to_owned()),
        BlobErrorKind::PayloadTooLarge => bad_request(ErrorCode::FileTooLarge, "payload too large for storage backend".to_owned()),
        BlobErrorKind::Other(m) => ApiError::BadRequest { code: ErrorCode::BlobBackendError, message: m },
    }
}

/// Which stored blobs the proxy serves.
#[derive(Debug, Clone, Copy, PartialEq, Eq, Structural)]
pub enum BlobKind {
    Images,
    Documents,
}

/// The blob kind of a proxy path: `images` or `documents`, anything
/// else `404 blob_not_found`.
pub fn parse_blob_kind(kind: &str) -> (r: Result<BlobKind, ApiError>)
    ensures
        kind@ == seq!['i', 'm', 'a', 'g', 'e', 's'] ==> r == Ok::<BlobKind, ApiError>(BlobKind::Images),
        kind@ == seq!['d', 'o', 'c', 'u', 'm', 'e', 'n', 't', 's'] ==> r == Ok::<BlobKind, ApiError>(BlobKind::Documents),
        kind@ != seq!['i', 'm', 'a', 'g', 'e', 's'] && kind@ != seq!['d', 'o', 'c', 'u', 'm', 'e', 'n', 't', 's'] ==> (r matches Err(
            e,
        ) && is_not_found(e, ErrorCode::BlobNotFound, "unknown blob kind "@ + str_debug(kind@))),
{
    proof {
        reveal_strlit("images");
        reveal_strlit("documents");
        assert("images"@ =~= seq!['i', 'm', 'a', 'g', 'e', 's']);
        assert("documents"@ =~= seq!['d', 'o', 'c', 'u', 'm', 'e', 'n', 't', 's']);
    }
    if crate::text::str_eq(kind, "images") {
        Ok(BlobKind::Images)
    } else if crate::text::str_eq(kind, "documents") {
        Ok(BlobKind::Documents)
    } else {
        Err(not_found(ErrorCode::BlobNotFound, join2("unknown blob kind ", quoted(kind).as_str())))
    }
}

/// Without a blob backend the upload routes answer `503
/// blob_storage_unavailable`.
pub fn require_blob_store(configured: bool) -> (r: Result<(), ApiError>)
    ensures
        configured ==> r is Ok,
        !configured ==> (r matches Err(e) && is_unavailable(
            e,
            ErrorCode::BlobStorageUnavailable,
            "no blob storage backend wired into this deployment"@,
        )),
{
    if configured {
        Ok(())
    } else {
        Err(unavailable(ErrorCode::BlobStorageUnavailable, "no blob storage backend wired into this deployment".to_owned()))
    }
}

/// Without a blob backend the blob proxy has nothing to serve: `404
/// blob_not_found`, before any row is read.
pub fn require_blob_proxy(configured: bool) -> (r: Result<(), ApiError>)
    ensures
        configured ==> r is Ok,
        !configured ==> (r matches Err(e) && is_not_found(e, ErrorCode::BlobNotFound, "blob not found"@)),
{
    if configured {
        Ok(())
    } else {
        Err(not_found(ErrorCode::BlobNotFound, "blob not found".to_owned()))
    }
}

} // verus!
