use zongce_web::validation::settings::{settings_failure, SettingsFailure};
use zongce_web::error::replaces_body;
use zongce_web::auth::secret_line;
use zongce_web::auth::{hash_secret, AuthError};
use zongce_web::config::{decode_base64, parse_bool, Config, ConfigError, DEFAULT_MAX_BODY_BYTES};
use zongce_web::dashboard::{dashboard_rows, status_counts, DashboardRow};
use zongce_web::domain::{
    Category, CategoryData, Date, Instant, StudentDeclaration, Submission, SubmissionStatus,
};
use zongce_web::error::{page_message, safe_error_message, AppError};
use zongce_web::form::FormValues;
use zongce_web::recycle::{keys, RecordKey};
use zongce_web::requests::ResetForm;
use zongce_web::startup::StartupError;
use zongce_web::storage::{
    academic_year_directory, check_upload, chunk_fits, extension_for, file_part, normalize_mime,
    stored_name_for, validate_attachment_count, validate_component, validate_original_name,
    validate_size, validate_stored_name, FilePart, NewAttachment, StorageError, StoredAttachment,
    UploadInput,
};
use zongce_web::url::{attachment_disposition, encode_query};
use zongce_web::validation::admin::DashboardRowKind;
use zongce_web::validation::ValidationErrors;

fn form(pairs: &[(&str, &str)]) -> FormValues {
    let mut v = FormValues::new();
    for (k, val) in pairs {
        v.set(k.to_string(), val.to_string());
    }
    v
}

fn env(hash: &str, extra: &[(&str, &str)]) -> FormValues {
    let mut v = form(&[
        ("APP_ENV", "development"),
        ("BIND_ADDR", "127.0.0.1:3000"),
        ("ADMIN_USERNAME", "admin"),
        ("ADMIN_PASSWORD_HASH", hash),
        ("SESSION_SECRET", "MDEyMzQ1Njc4OWFiY2RlZjAxMjM0NTY3ODlhYmNkZWY="),
        ("DATABASE_URL", "sqlite:data/app.db"),
        ("UPLOAD_DIR", "uploads"),
    ]);
    for (k, val) in extra {
        v.set(k.to_string(), val.to_string());
    }
    v
}

#[test]
fn form_values_keep_the_last_setting() {
    let mut v = FormValues::new();
    v.set("a".to_string(), "1".to_string());
    v.set("b".to_string(), "2".to_string());
    v.set("a".to_string(), "3".to_string());
    assert_eq!(v.get("a"), Some("3"));
    assert_eq!(v.get("b"), Some("2"));
    assert_eq!(v.get("c"), None);
    assert_eq!(v.entries.len(), 2);
}

#[test]
fn booleans_and_base64() {
    for t in ["1", "true", "TRUE", "yes"] {
        assert_eq!(parse_bool(t), Some(true));
    }
    for f in ["0", "false", "FALSE", "no"] {
        assert_eq!(parse_bool(f), Some(false));
    }
    assert_eq!(parse_bool("True"), None);
    assert_eq!(decode_base64("TWFu"), Some(b"Man".to_vec()));
    assert_eq!(decode_base64("TWE="), Some(b"Ma".to_vec()));
    assert_eq!(decode_base64("TQ=="), Some(b"M".to_vec()));
    assert_eq!(decode_base64(""), None);
    assert_eq!(decode_base64("TWF"), None);
    assert_eq!(decode_base64("T==="), None);
    assert_eq!(decode_base64("TR=="), None);
    assert_eq!(decode_base64("TW-u"), None);
}

#[test]
fn a_complete_environment_is_read() {
    let hash = hash_secret("pw").unwrap();
    let c = Config::from_vars(&env(&hash, &[]), true).ok().unwrap();
    assert_eq!(c.app_env, "development");
    assert_eq!(c.bind_addr, "127.0.0.1:3000");
    assert_eq!(c.session_secret, b"0123456789abcdef0123456789abcdef".to_vec());
    assert!(!c.cookie_secure);
    assert_eq!(c.max_body_bytes, DEFAULT_MAX_BODY_BYTES);
    assert_eq!(c.upload_dir, "uploads");
    let c = Config::from_vars(&env(&hash, &[("COOKIE_SECURE", "yes"), ("MAX_BODY_BYTES", "+1024")]), true).ok().unwrap();
    assert!(c.cookie_secure);
    assert_eq!(c.max_body_bytes, 1024);
    let p = Config::from_vars(&env(&hash, &[("APP_ENV", "production")]), true).ok().unwrap();
    assert!(p.cookie_secure);
}

fn config_error(v: &FormValues, bind_ok: bool) -> ConfigError {
    match Config::from_vars(v, bind_ok) {
        Err(e) => e,
        Ok(_) => panic!("configuration should be refused"),
    }
}

#[test]
fn configuration_problems_name_the_variable() {
    let hash = hash_secret("pw").unwrap();
    let mut missing = env(&hash, &[]);
    missing.entries.retain(|(k, _)| k != "APP_ENV");
    assert_eq!(config_error(&missing, true), ConfigError::Missing("APP_ENV"));
    assert_eq!(config_error(&env(&hash, &[("APP_ENV", "test")]), true), ConfigError::Invalid("APP_ENV"));
    assert_eq!(config_error(&env(&hash, &[]), false), ConfigError::Invalid("BIND_ADDR"));
    assert_eq!(config_error(&env(&hash, &[("ADMIN_USERNAME", " ")]), true), ConfigError::Invalid("ADMIN_USERNAME"));
    assert_eq!(config_error(&env("plain", &[]), true), ConfigError::Invalid("ADMIN_PASSWORD_HASH"));
    let parts: Vec<&str> = hash.split('$').collect();
    let short_salt = format!("${}${}${}$c2FsdA${}", parts[1], parts[2], parts[3], parts[5]);
    assert_eq!(config_error(&env(&short_salt, &[]), true), ConfigError::Invalid("ADMIN_PASSWORD_HASH"));
    let no_output = format!("${}${}${}${}", parts[1], parts[2], parts[3], parts[4]);
    assert_eq!(config_error(&env(&no_output, &[]), true), ConfigError::Invalid("ADMIN_PASSWORD_HASH"));
    let argon2i = hash.replacen("$argon2id$", "$argon2i$", 1);
    assert_eq!(config_error(&env(&argon2i, &[]), true), ConfigError::Invalid("ADMIN_PASSWORD_HASH"));
    assert_eq!(config_error(&env(&hash, &[("SESSION_SECRET", "c2hvcnQ=")]), true), ConfigError::Invalid("SESSION_SECRET"));
    assert_eq!(config_error(&env(&hash, &[("DATABASE_URL", "postgres://x")]), true), ConfigError::Invalid("DATABASE_URL"));
    assert_eq!(config_error(&env(&hash, &[("COOKIE_SECURE", "maybe")]), true), ConfigError::Invalid("COOKIE_SECURE"));
    assert_eq!(
        config_error(&env(&hash, &[("APP_ENV", "production"), ("COOKIE_SECURE", "0")]), true),
        ConfigError::Invalid("COOKIE_SECURE")
    );
    assert_eq!(config_error(&env(&hash, &[("MAX_BODY_BYTES", "0")]), true), ConfigError::Invalid("MAX_BODY_BYTES"));
    assert_eq!(config_error(&env(&hash, &[("MAX_BODY_BYTES", "-1")]), true), ConfigError::Invalid("MAX_BODY_BYTES"));
    let mut no_upload = env(&hash, &[]);
    no_upload.entries.retain(|(k, _)| k != "UPLOAD_DIR");
    assert_eq!(config_error(&no_upload, true), ConfigError::Missing("UPLOAD_DIR"));
}

#[test]
fn storage_names_and_limits() {
    assert!(validate_attachment_count(4, 6).is_ok());
    assert!(matches!(validate_attachment_count(4, 7), Err(StorageError::TooManyAttachments)));
    assert!(validate_component("2024-2025").is_ok());
    for bad in ["", ".", "..", "a/b", "a\\b", "a\u{0}b"] {
        assert!(matches!(validate_component(bad), Err(StorageError::InvalidPath)), "{bad:?}");
    }
    assert!(validate_size(1).is_ok());
    assert!(validate_size(10 * 1024 * 1024).is_ok());
    assert!(matches!(validate_size(0), Err(StorageError::InvalidSize)));
    assert!(matches!(validate_size(10 * 1024 * 1024 + 1), Err(StorageError::InvalidSize)));
    assert_eq!(extension_for("image/jpeg"), ".jpg");
    assert_eq!(extension_for("image/png"), ".png");
    assert_eq!(extension_for("application/pdf"), ".pdf");
    assert_eq!(normalize_mime("Image/PNG; charset=x").unwrap(), "image/png");
    assert!(matches!(normalize_mime("text/plain"), Err(StorageError::UnsupportedType)));
    assert!(matches!(normalize_mime("not a mime"), Err(StorageError::UnsupportedType)));
    assert!(validate_original_name("scan.JPEG", "image/jpeg").is_ok());
    assert!(matches!(validate_original_name("scan.png", "image/jpeg"), Err(StorageError::UnsupportedType)));
    assert!(matches!(validate_original_name("a/scan.png", "image/png"), Err(StorageError::InvalidPath)));
    assert_eq!(academic_year_directory(12), "year-12");
}

#[test]
fn stored_names_are_fresh_and_valid() {
    let a = stored_name_for("application/pdf");
    let b = stored_name_for("application/pdf");
    assert_ne!(a, b);
    assert_eq!(a.len(), 36);
    assert!(a.ends_with(".pdf"));
    assert!(validate_stored_name(&a).is_ok());
    assert!(validate_stored_name(&stored_name_for("image/png")).is_ok());
    assert!(validate_stored_name("../etc.pdf").is_err());
    assert!(validate_stored_name("0123456789abcdef0123456789ABCDEF.pdf").is_ok());
    assert!(validate_stored_name("0123456789abcdef0123456789abcdeg.pdf").is_err());
    assert!(validate_stored_name("0123456789abcdef0123456789abcdef.gif").is_err());
}

#[test]
fn uploads_are_checked_before_storing() {
    let up = UploadInput::new("证书.pdf".to_string(), "application/pdf".to_string(), vec![1]);
    assert_eq!(check_upload("2024-2025", "ZC2025-000001", &up).unwrap(), "application/pdf");
    assert!(matches!(check_upload("..", "ZC2025-000001", &up), Err(StorageError::InvalidPath)));
    let empty = UploadInput::new("证书.pdf".to_string(), "application/pdf".to_string(), vec![]);
    assert!(matches!(check_upload("y", "n", &empty), Err(StorageError::InvalidSize)));
    let stored = StoredAttachment {
        original_name: "证书.pdf".to_string(),
        stored_name: stored_name_for("application/pdf"),
        mime_type: "application/pdf".to_string(),
        file_size: 1,
    };
    let row = NewAttachment::for_stored(5, &stored);
    assert_eq!(row.submission_id, 5);
    assert_eq!(row.stored_name, stored.stored_name);
}

#[test]
fn multipart_file_parts() {
    assert!(chunk_fits(0, 10 * 1024 * 1024));
    assert!(!chunk_fits(1, 10 * 1024 * 1024));
    assert!(!chunk_fits(usize::MAX, 1));
    assert!(matches!(file_part(0, "", 0), FilePart::Skip));
    assert!(matches!(file_part(0, "", 3), FilePart::Keep));
    assert!(matches!(file_part(9, "a.pdf", 3), FilePart::Keep));
    assert!(matches!(file_part(10, "a.pdf", 3), FilePart::TooMany));
}

#[test]
fn download_headers_and_queries() {
    assert_eq!(
        attachment_disposition("证书 1.pdf"),
        "inline; filename=\"attachment\"; filename*=UTF-8''%E8%AF%81%E4%B9%A6%201.pdf"
    );
    assert_eq!(
        attachment_disposition("a/b\\c\u{7}.pdf"),
        "inline; filename=\"attachment\"; filename*=UTF-8''abc.pdf"
    );
    assert_eq!(encode_query(&form(&[("status", "pending"), ("name", "a&b")])), "name=a%26b&status=pending");
    assert_eq!(encode_query(&form(&[("other", "x")])), "");
}

#[test]
fn record_keys() {
    assert_eq!(RecordKey::parse("s:12").unwrap(), RecordKey::Submission(12));
    assert_eq!(RecordKey::parse("d:3").unwrap(), RecordKey::Declaration(3));
    for bad in ["s:0", "x:1", "s1", "s:-2", "s:", "d:1a"] {
        assert!(matches!(RecordKey::parse(bad), Err(AppError::BadRequest)), "{bad}");
    }
    assert_eq!(RecordKey::Submission(12).value(), "s:12");
    assert_eq!(RecordKey::parse(&RecordKey::Declaration(77).value()).unwrap(), RecordKey::Declaration(77));
    assert_eq!(RecordKey::Declaration(7).table_id(), ("student_declarations", 7));
    assert_eq!(RecordKey::Submission(7).table_id(), ("submissions", 7));
}

#[test]
fn recycle_selection() {
    let picked = keys(&form(&[
        ("csrf_token", "t"),
        ("selected:d:2", "yes"),
        ("selected:s:9", "yes"),
        ("selected:s:3", "yes"),
    ]))
    .unwrap();
    assert_eq!(picked, vec![RecordKey::Submission(3), RecordKey::Submission(9), RecordKey::Declaration(2)]);
    assert!(matches!(keys(&form(&[("csrf_token", "t")])), Err(AppError::BadRequest)));
    assert!(matches!(keys(&form(&[("selected:s:1", "no")])), Err(AppError::BadRequest)));
    assert!(matches!(keys(&form(&[("selected:q:1", "yes")])), Err(AppError::BadRequest)));
    let mut many = FormValues::new();
    for i in 1..=501 {
        many.set(format!("selected:s:{i}"), "yes".to_string());
    }
    assert!(matches!(keys(&many), Err(AppError::BadRequest)));
    many.entries.pop();
    assert_eq!(keys(&many).unwrap().len(), 500);
}

fn submission(id: i64, created: i64, status: SubmissionStatus) -> Submission {
    Submission {
        id,
        submission_no: format!("ZC2025-{id:06}"),
        academic_year_id: 1,
        student_name: "甲".to_string(),
        student_no: "1".to_string(),
        category: Category::Patent,
        result_name: "r".to_string(),
        obtained_date: Date { year: 2025, month: 1, day: 1 },
        detail: None,
        remark: None,
        category_data: CategoryData::NotObject,
        status,
        review_note: None,
        has_approved_score: false,
        edit_code_hash: String::new(),
        student_modified_after_review: id == 2,
        created_at: Instant { secs: created, nanos: 0 },
        updated_at: Instant { secs: created, nanos: 0 },
    }
}

fn declaration(id: i64, created: i64) -> StudentDeclaration {
    StudentDeclaration {
        id,
        academic_year_id: 1,
        student_name: "乙".to_string(),
        student_no: "2".to_string(),
        has_submission_material: false,
        created_at: Instant { secs: created, nanos: 0 },
        updated_at: Instant { secs: created, nanos: 0 },
    }
}

#[test]
fn dashboard_rows_newest_first() {
    let subs = vec![
        submission(1, 100, SubmissionStatus::Pending),
        submission(2, 300, SubmissionStatus::Approved),
        submission(3, 200, SubmissionStatus::Pending),
    ];
    let counts = status_counts(&subs);
    assert_eq!(
        counts,
        vec![
            (SubmissionStatus::Pending, 2),
            (SubmissionStatus::Approved, 1),
            (SubmissionStatus::NeedsRevision, 0),
            (SubmissionStatus::Rejected, 0)
        ]
    );
    let rows = dashboard_rows(subs, vec![declaration(5, 200), declaration(6, 300)]);
    let order: Vec<String> = rows.iter().map(|r| r.record_key()).collect();
    assert_eq!(order, vec!["s:2", "d:6", "s:3", "d:5", "s:1"]);
    let first = &rows[0];
    assert_eq!(first.kind(), DashboardRowKind::Submission);
    assert_eq!(first.status_label(), "已通过");
    assert_eq!(first.status_key(), Some("approved"));
    assert_eq!(first.category_label(), Some("专利"));
    assert_eq!(first.submission_no(), Some("ZC2025-000002"));
    assert_eq!(first.detail_url(), Some("/admin/submissions/2".to_string()));
    assert!(first.student_modified_after_review());
    let decl = &rows[1];
    assert_eq!(decl.kind(), DashboardRowKind::Declaration);
    assert_eq!(decl.status_label(), "无申报材料");
    assert_eq!(decl.student_name(), "乙");
    assert_eq!(decl.student_no(), "2");
    assert_eq!(decl.result_name(), None);
    assert_eq!(decl.detail_url(), None);
    assert!(!decl.student_modified_after_review());
    assert!(matches!(rows[4], DashboardRow::Submission(_)));
}

#[test]
fn same_time_rows_put_submissions_first_then_higher_ids() {
    let rows = dashboard_rows(
        vec![submission(1, 50, SubmissionStatus::Pending), submission(4, 50, SubmissionStatus::Pending)],
        vec![declaration(9, 50)],
    );
    let order: Vec<String> = rows.iter().map(|r| r.record_key()).collect();
    assert_eq!(order, vec!["s:4", "s:1", "d:9"]);
}

#[test]
fn errors_map_to_statuses_and_safe_messages() {
    assert_eq!(AppError::Auth(AuthError::InvalidCredentials).status(), 401);
    assert_eq!(AppError::Auth(AuthError::MissingSession).status(), 403);
    assert_eq!(AppError::Storage(StorageError::InvalidSize).status(), 413);
    assert_eq!(AppError::Storage(StorageError::InvalidPath).status(), 400);
    assert_eq!(AppError::Storage(StorageError::Io { not_found: true }).status(), 404);
    assert_eq!(AppError::Storage(StorageError::Io { not_found: false }).status(), 500);
    assert_eq!(AppError::Validation(ValidationErrors::new()).status(), 422);
    assert_eq!(AppError::Conflict.status(), 409);
    assert_eq!(AppError::Template.status(), 500);
    assert_eq!(AppError::not_found().status(), 404);
    assert!(matches!(AppError::from_form_rejection(413), AppError::PayloadTooLarge));
    assert!(matches!(AppError::from_form_rejection(422), AppError::BadRequest));
    assert!(matches!(AppError::from_multipart_rejection(400), AppError::Multipart));
    assert_eq!(safe_error_message(405), "请求无效，请检查填写内容后重试");
    assert_eq!(safe_error_message(413), "请求内容过大，请减少附件数量或文件大小");
    assert_eq!(safe_error_message(503), "服务暂时不可用，请稍后重试");
    assert_eq!(page_message(&AppError::Export, 500), "导出失败，请稍后重试");
    assert_eq!(page_message(&AppError::Template, 500), "服务暂时不可用，请稍后重试");
}

#[test]
fn startup_failures_have_stable_kinds() {
    assert_eq!(StartupError::Configuration(ConfigError::Missing("APP_ENV")).kind(), "configuration");
    assert_eq!(StartupError::DatabaseMigration.kind(), "database_migration");
    assert_eq!(StartupError::Bind.kind(), "bind");
}

#[test]
fn reset_needs_confirmation_and_a_version() {
    let form = |confirm: &str, version: Option<i64>| ResetForm {
        csrf_token: String::new(),
        confirm_reset: confirm.to_string(),
        edit_code_version: version,
    };
    assert_eq!(form("yes", Some(3)).confirmed_version(), Some(3));
    assert_eq!(form("no", Some(3)).confirmed_version(), None);
    assert_eq!(form("yes", Some(-1)).confirmed_version(), None);
    assert_eq!(form("yes", None).confirmed_version(), None);
}

#[test]
fn failed_settings_writes_are_classified() {
    assert_eq!(settings_failure(true, true, Some("5")), SettingsFailure::NotFound);
    assert_eq!(settings_failure(false, true, None), SettingsFailure::NameTaken);
    assert_eq!(settings_failure(false, false, Some("5")), SettingsFailure::Busy);
    assert_eq!(settings_failure(false, false, Some("262")), SettingsFailure::Busy);
    assert_eq!(settings_failure(false, false, Some("517")), SettingsFailure::Busy);
    assert_eq!(settings_failure(false, false, Some("2067")), SettingsFailure::Other);
    assert_eq!(settings_failure(false, false, Some("x")), SettingsFailure::Other);
    assert_eq!(settings_failure(false, false, Some("4294967301")), SettingsFailure::Other);
    assert_eq!(settings_failure(false, false, None), SettingsFailure::Other);
}

#[test]
fn framework_error_bodies_are_replaced() {
    assert!(replaces_body(404, Some("text/plain; charset=utf-8")));
    assert!(replaces_body(500, None));
    assert!(!replaces_body(422, Some("text/html; charset=utf-8")));
    assert!(!replaces_body(200, Some("text/plain")));
    assert!(!replaces_body(302, None));
}

#[test]
fn a_secret_is_one_non_empty_line() {
    assert_eq!(secret_line("pass word\n"), Some("pass word".to_string()));
    assert_eq!(secret_line("pass\r\n"), Some("pass".to_string()));
    assert_eq!(secret_line("pass"), Some("pass".to_string()));
    assert_eq!(secret_line("\n"), None);
    assert_eq!(secret_line(""), None);
    assert_eq!(secret_line("a\nb\n"), None);
    assert_eq!(secret_line("a\n\n"), None);
}
