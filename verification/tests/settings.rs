use dp_rest::error::{ApiError, ErrorCode, StoreError};
use dp_rest::settings::{
    keys, list_settings, map_delete_error, pat_probe_response, require_spec, spec_for, stored_token, PatProbeOutcome,
    PatTestCode, SettingDto,
    SettingSpec, TestGithubPatResponse, UserSetting,
};

fn now_micros() -> i64 {
    chrono::Utc::now().timestamp_micros()
}

#[test]
fn redacts_secret_values() {
    let spec = SettingSpec { key: "github.pat", is_secret: true, label: "", help: "" };
    let row = UserSetting {
        user_id: 0,
        key: "github.pat".into(),
        value: "ghp_secret".into(),
        is_secret: true,
        updated_at: now_micros(),
    };
    let dto = SettingDto::from_parts(&spec, Some(&row));
    assert!(dto.has_value);
    assert!(dto.value.is_none(), "secret value must not surface");
}

#[test]
fn surfaces_plain_values() {
    let spec = SettingSpec { key: "ui.theme", is_secret: false, label: "", help: "" };
    let row = UserSetting {
        user_id: 0,
        key: "ui.theme".into(),
        value: "dark".into(),
        is_secret: false,
        updated_at: now_micros(),
    };
    let dto = SettingDto::from_parts(&spec, Some(&row));
    assert_eq!(dto.value.as_deref(), Some("dark"));
}

#[test]
fn unset_keys_have_no_value() {
    let spec = &keys()[0];
    let dto = SettingDto::from_parts(spec, None);
    assert!(!dto.has_value);
    assert!(dto.value.is_none());
    assert!(dto.updated_at.is_none());
}

#[test]
fn spec_for_known_and_unknown() {
    assert!(spec_for("github.pat").is_some());
    assert!(spec_for("does.not.exist").is_none());
}

#[test]
fn catalogue_pins_the_github_token_as_secret() {
    let k = keys();
    assert_eq!(k.len(), 1);
    assert_eq!(k[0].key, "github.pat");
    assert!(k[0].is_secret);
    assert_eq!(k[0].label, "GitHub Personal Access Token");
}

#[test]
fn list_reads_the_first_stored_row_and_redacts() {
    let rows = vec![
        UserSetting { user_id: 1, key: "other".into(), value: "x".into(), is_secret: false, updated_at: 5 },
        UserSetting { user_id: 1, key: "github.pat".into(), value: "ghp_a".into(), is_secret: true, updated_at: 7 },
        UserSetting { user_id: 1, key: "github.pat".into(), value: "ghp_b".into(), is_secret: true, updated_at: 9 },
    ];
    let out = list_settings(&rows);
    assert_eq!(out.len(), 1);
    assert!(out[0].has_value);
    assert_eq!(out[0].value, None);
    assert_eq!(out[0].updated_at, Some(7));
    let none = list_settings(&Vec::new());
    assert!(!none[0].has_value);
}

#[test]
fn probe_without_a_token_answers_unset() {
    match stored_token(None) {
        Err(TestGithubPatResponse::Refused { code, message }) => {
            assert_eq!(code, PatTestCode::Unset);
            assert_eq!(message, "No GitHub PAT is set for your account.");
        }
        _ => panic!("expected unset"),
    }
    let empty = UserSetting { user_id: 1, key: "github.pat".into(), value: String::new(), is_secret: true, updated_at: 1 };
    assert!(matches!(stored_token(Some(empty)), Err(TestGithubPatResponse::Refused { code: PatTestCode::Unset, .. })));
    let set = UserSetting { user_id: 1, key: "github.pat".into(), value: "ghp_x".into(), is_secret: true, updated_at: 1 };
    assert_eq!(stored_token(Some(set)).ok().as_deref(), Some("ghp_x"));
}

#[test]
fn probe_outcomes_map_to_codes_and_messages() {
    match pat_probe_response(PatProbeOutcome::User { login: None, name: Some("N".into()), account_type: None }) {
        TestGithubPatResponse::Verified { login, name, account_type } => {
            assert_eq!(login, "");
            assert_eq!(name.as_deref(), Some("N"));
            assert!(account_type.is_none());
        }
        _ => panic!("expected verified"),
    }
    match pat_probe_response(PatProbeOutcome::PrimaryRateLimit("2024-01-01T00:00:00Z".into())) {
        TestGithubPatResponse::Refused { code, message } => {
            assert_eq!(code, PatTestCode::RateLimited);
            assert_eq!(message, "Primary rate limit hit; resets at 2024-01-01T00:00:00Z.");
        }
        _ => panic!(),
    }
    match pat_probe_response(PatProbeOutcome::SecondaryRateLimit("soon".into())) {
        TestGithubPatResponse::Refused { code, message } => {
            assert_eq!(code, PatTestCode::RateLimited);
            assert_eq!(message, "Secondary rate limit; retry at soon.");
        }
        _ => panic!(),
    }
    assert!(matches!(
        pat_probe_response(PatProbeOutcome::Unauthorized),
        TestGithubPatResponse::Refused { code: PatTestCode::Unauthorized, .. }
    ));
    match pat_probe_response(PatProbeOutcome::Failed("boom".into())) {
        TestGithubPatResponse::Refused { code, message } => {
            assert_eq!(code, PatTestCode::Network);
            assert_eq!(message, "GitHub request failed: boom");
        }
        _ => panic!(),
    }
    match pat_probe_response(PatProbeOutcome::NotModified) {
        TestGithubPatResponse::Refused { code, message } => {
            assert_eq!(code, PatTestCode::Network);
            assert_eq!(message, "GitHub returned 304 unexpectedly.");
        }
        _ => panic!(),
    }
}

#[test]
fn unknown_and_unset_keys_are_refused_with_their_name() {
    match require_spec("theme") {
        Err(ApiError::BadRequest { code, message }) => {
            assert_eq!(code, ErrorCode::UnknownSetting);
            assert_eq!(
                message,
                "setting key `theme` is not in the pinned catalogue; see GET /me/settings for the supported list"
            );
        }
        _ => panic!("expected a 400"),
    }
    match map_delete_error("github.pat", StoreError::NotFound { entity: "user_setting".into(), id: "x".into() }) {
        ApiError::NotFound { code, message } => {
            assert_eq!(code, ErrorCode::SettingUnset);
            assert_eq!(message, "setting github.pat is not set for caller");
        }
        _ => panic!("expected a 404"),
    }
}
