use dp_rest::error::{ApiError, ErrorCode, Section, StoreError};
use dp_rest::projects::{Project, ProjectStatus};
use dp_rest::exec_summary::{
    blob_proxy_url, build_blob_key, document_title, served_document_meta, build_exec_summary_dto, check_file_size, completion_dto, escape_filename,
    check_text_size, finish_upload, map_blob_err, map_revert_err, map_transition_err, missing_sections, parse_blob_kind,
    require_blob_proxy, require_blob_store, require_project_lead, safe_blob_name, submit_gate, text_field,
    BlobErrorKind, BlobKind, ExecSummaryApprovalDto, ExecSummaryCompletion, ExecSummaryDocument, ExecSummaryImage, ExecSummaryPatchBody,
    ExecSummaryStatusDto, ExecSummarySummaryPatch,
};

fn completion(done: bool, percent: u8) -> ExecSummaryCompletion {
    ExecSummaryCompletion {
        summary: true,
        scope: done,
        requirements: true,
        hardware: done,
        commercial: true,
        documents: true,
        approval: done,
        changelog: true,
        percent,
    }
}

#[test]
fn missing_sections_in_form_order() {
    assert_eq!(missing_sections(&completion(false, 60)), vec![Section::Scope, Section::Hardware, Section::Approval]);
    assert!(missing_sections(&completion(true, 100)).is_empty());
}

#[test]
fn submit_below_threshold_needs_force() {
    match submit_gate(&completion(false, 79), false) {
        Err(ApiError::Incomplete { percent, threshold, missing }) => {
            assert_eq!((percent, threshold), (79, 80));
            assert_eq!(missing.len(), 3);
        }
        _ => panic!("expected incomplete"),
    }
    assert_eq!(submit_gate(&completion(false, 79), true).ok(), Some(true));
    assert_eq!(submit_gate(&completion(true, 80), false).ok(), Some(false));
    assert_eq!(submit_gate(&completion(true, 90), true).ok(), Some(false));
}

#[test]
fn completion_sections_are_alphabetical() {
    let c = completion_dto(completion(false, 10));
    let names: Vec<&str> = c.sections.iter().map(|(n, _)| n.as_str()).collect();
    assert_eq!(names, vec!["approval", "changelog", "commercial", "documents", "hardware", "requirements", "scope", "summary"]);
    assert_eq!(c.sections[0].1, false);
    assert_eq!(c.percent, 10);
}

#[test]
fn filenames_are_escaped_and_keys_sanitised() {
    assert_eq!(escape_filename("a\"b\r\nc.pdf"), "a_b__c.pdf");
    assert_eq!(safe_blob_name("my file (1).PDF").iter().collect::<String>(), "my_file__1_.PDF");
    let project = 0x67e55044_10b1_426f_9247_bb680e5fe0c8u128;
    let (key, rand) = build_blob_key(project, "images", "a b.png");
    let expected = format!("exec-summary/67e55044-10b1-426f-9247-bb680e5fe0c8/images/{}-a_b.png", uuid::Uuid::from_u128(rand));
    assert_eq!(key, expected);
}

#[test]
fn blobs_are_served_through_the_proxy() {
    assert_eq!(blob_proxy_url("images", 1), "/blobs/exec-summary/images/00000000-0000-0000-0000-000000000001");
    assert_eq!(parse_blob_kind("documents").ok(), Some(BlobKind::Documents));
    assert!(matches!(parse_blob_kind("videos"), Err(ApiError::NotFound { code: ErrorCode::BlobNotFound, .. })));
}

#[test]
fn uploads_are_capped_and_defaulted() {
    assert!(check_file_size(26_214_400).is_ok());
    assert!(matches!(check_file_size(26_214_401), Err(ApiError::BadRequest { code: ErrorCode::FileTooLarge, .. })));
    let (f, c) = finish_upload(true, None, None).ok().unwrap();
    assert_eq!((f.as_str(), c.as_str()), ("upload", "application/octet-stream"));
    assert!(matches!(finish_upload(false, None, None), Err(ApiError::BadRequest { code: ErrorCode::MissingFile, .. })));
    let fields = vec![("title".to_string(), "a".to_string()), ("title".to_string(), "b".to_string())];
    assert_eq!(text_field(&fields, "title").as_deref(), Some("b"));
    assert_eq!(text_field(&fields, "notes"), None);
}

#[test]
fn blob_errors_map_to_codes() {
    assert!(matches!(map_blob_err(BlobErrorKind::Forbidden), ApiError::Forbidden { code: ErrorCode::BlobForbidden, .. }));
    assert!(matches!(map_blob_err(BlobErrorKind::PayloadTooLarge), ApiError::BadRequest { code: ErrorCode::FileTooLarge, .. }));
}

fn text(e: ApiError) -> String {
    match e {
        ApiError::BadRequest { message, .. }
        | ApiError::NotFound { message, .. }
        | ApiError::Forbidden { message, .. }
        | ApiError::Conflict { message, .. }
        | ApiError::Unavailable { message, .. } => message,
        other => panic!("unexpected {other:?}"),
    }
}

#[test]
fn refusals_say_why() {
    assert_eq!(text(check_file_size(26_214_401).err().unwrap()), "file is 26214401 bytes; cap is 26214400");
    assert_eq!(text(check_text_size("caption", 8193).err().unwrap()), "field caption exceeds 8 KiB");
    assert!(check_text_size("caption", 8192).is_ok());
    assert_eq!(text(finish_upload(false, None, None).err().unwrap()), "multipart body has no `file` part");
    assert_eq!(text(map_blob_err(BlobErrorKind::NotFound)), "blob not found");
    assert_eq!(text(map_blob_err(BlobErrorKind::Forbidden)), "blob access forbidden");
    assert_eq!(text(map_blob_err(BlobErrorKind::PayloadTooLarge)), "payload too large for storage backend");
    assert_eq!(text(map_blob_err(BlobErrorKind::Other("disk full".into()))), "disk full");
    assert_eq!(text(parse_blob_kind("videos").err().unwrap()), "unknown blob kind \"videos\"");
    assert_eq!(text(require_blob_store(false).err().unwrap()), "no blob storage backend wired into this deployment");
    assert_eq!(
        text(map_transition_err(StoreError::NotFound { entity: "project_exec_summary".into(), id: "p1".into() })),
        "not found: project_exec_summary p1"
    );
    assert_eq!(text(map_transition_err(StoreError::Conflict("not in review".into()))), "not in review");
    assert_eq!(
        text(map_revert_err(1, StoreError::NotFound { entity: "x".into(), id: "y".into() })),
        "no exec summary for project 00000000-0000-0000-0000-000000000001"
    );
}

#[test]
fn summary_without_a_row_is_an_empty_draft() {
    let img = ExecSummaryImage { id: 2, project_id: 1, filename: "f.png".into(), content_type: "image/png".into(), caption: None, ord: 0, created_at: 3 };
    let doc = ExecSummaryDocument {
        id: 3,
        project_id: 1,
        title: "Spec".into(),
        doc_type: None,
        notes: None,
        required_action: None,
        uploaded_by: None,
        meta_filename: None,
        meta_content_type: None,
        created_at: 4,
    };
    let d = build_exec_summary_dto(1, None, completion(true, 100), vec![img], vec![doc], vec![], 99);
    assert_eq!(d.approval.status, ExecSummaryStatusDto::Draft);
    assert_eq!(d.updated_at, 99);
    assert!(d.summary.product_name.is_none());
    assert_eq!(d.images[0].url, "/blobs/exec-summary/images/00000000-0000-0000-0000-000000000002");
    assert_eq!(d.documents[0].filename, "Spec");
    assert_eq!(d.documents[0].content_type, "application/octet-stream");
}

#[test]
fn patch_tabs_flatten() {
    let body = ExecSummaryPatchBody {
        summary: Some(ExecSummarySummaryPatch {
            product_name: Some(Some("X".into())),
            part_number: Some(None),
            target_release_date: None,
            objective: None,
            problem: None,
            value: None,
            differentiators: None,
            success_criteria: None,
        }),
        scope: None,
        requirements: None,
        hardware: None,
        commercial: None,
        approval: None,
        skipped_sections: Some(vec!["hardware".into()]),
    };
    let p = body.into_store_patch();
    assert_eq!(p.product_name, Some(Some("X".to_string())));
    assert_eq!(p.part_number, Some(None));
    assert_eq!(p.objective, None);
    assert_eq!(p.in_scope, None);
    assert_eq!(p.skipped_sections, Some(vec!["hardware".to_string()]));
}

#[test]
fn an_unwritten_summary_is_an_empty_draft() {
    let a = ExecSummaryApprovalDto::default();
    assert_eq!(a.status, ExecSummaryStatusDto::Draft);
    assert!(a.reviewer.is_none() && a.approver.is_none() && a.review_notes.is_none() && a.approval_notes.is_none());
    assert!(a.submitted_at.is_none() && a.approved_at.is_none());
    let c = ExecSummaryCompletion::default();
    assert_eq!(c.percent, 0);
    assert!(!c.summary && !c.scope && !c.requirements && !c.hardware && !c.commercial && !c.documents);
    assert!(!c.approval && !c.changelog);
    assert_eq!(missing_sections(&c).len(), 8);
}

#[test]
fn document_title_prefers_the_last_title_part() {
    let fields = vec![("title".to_string(), "Spec".to_string()), ("notes".to_string(), "n".to_string())];
    assert_eq!(document_title(&fields, "spec.pdf".into()), "Spec");
    let fields = vec![("title".to_string(), "A".to_string()), ("title".to_string(), "B".to_string())];
    assert_eq!(document_title(&fields, "f".into()), "B");
    assert_eq!(document_title(&vec![], "spec.pdf".into()), "spec.pdf");
}

#[test]
fn served_document_meta_falls_back_to_octet_stream_and_title() {
    assert_eq!(
        served_document_meta(None, None, "Spec".into()),
        ("application/octet-stream".to_string(), "Spec".to_string())
    );
    assert_eq!(
        served_document_meta(Some("application/pdf".into()), Some("s.pdf".into()), "Spec".into()),
        ("application/pdf".to_string(), "s.pdf".to_string())
    );
}

fn led_by(lead: Option<u128>) -> Option<Project> {
    Some(Project {
        id: 0x77,
        org_id: 2,
        name: "Apollo".into(),
        description: None,
        lead_user_id: lead,
        status: ProjectStatus::Active,
        start_at: None,
        due_at: None,
        issue_count: 0,
        closed_issue_count: 0,
        version: 1,
        created_by: None,
        created_at: 0,
        updated_at: 0,
        primary_milestone_id: None,
    })
}

#[test]
fn approve_and_revert_are_for_the_project_lead() {
    assert!(require_project_lead(0x77, &led_by(Some(5)), 5).is_ok());
    match require_project_lead(0x77, &led_by(Some(5)), 6) {
        Err(ApiError::Forbidden { code, message }) => {
            assert_eq!(code, ErrorCode::NotProjectLead);
            assert_eq!(code.as_str(), "not_project_lead");
            assert_eq!(
                message,
                "only the project lead may approve or revert the exec summary of project 00000000-0000-0000-0000-000000000077"
            );
        },
        _ => panic!("a caller other than the lead is refused"),
    }
    assert!(matches!(require_project_lead(0x77, &led_by(None), 5), Err(ApiError::Forbidden { .. })));
    match require_project_lead(0x77, &None, 5) {
        Err(ApiError::NotFound { code, message }) => {
            assert_eq!(code, ErrorCode::ProjectNotFound);
            assert_eq!(message, "no project with id 00000000-0000-0000-0000-000000000077");
        },
        _ => panic!("a missing project is not found"),
    }
}

#[test]
fn without_a_blob_store_uploads_are_unavailable_and_the_proxy_finds_nothing() {
    assert!(require_blob_store(true).is_ok());
    assert!(matches!(
        require_blob_store(false),
        Err(ApiError::Unavailable { code: ErrorCode::BlobStorageUnavailable, .. })
    ));
    assert!(require_blob_proxy(true).is_ok());
    match require_blob_proxy(false) {
        Err(ApiError::NotFound { code, message }) => {
            assert_eq!(code, ErrorCode::BlobNotFound);
            assert_eq!(message, "blob not found");
        },
        _ => panic!("the proxy answers 404 without a blob store"),
    }
}
