use zongce_web::auth::{
    csrf_token, csrf_token_matches, generate_edit_code, generate_submission_no, hash_secret,
    session_key_material, verify_secret, AdminCredentials, AuthError, EDIT_CODE_ALPHABET,
};
use zongce_web::auth::edit_codes::{recover_edit_code, EditCodeVault};
use zongce_web::domain::{AcademicYear, Date, Instant};

fn year_ending(year: i32) -> AcademicYear {
    AcademicYear {
        id: 1,
        name: "2024-2025".to_string(),
        start_date: Date { year: year - 1, month: 9, day: 1 },
        end_date: Date { year, month: 7, day: 1 },
        deadline: None,
        is_active: true,
        announcement: None,
        created_at: Instant { secs: 0, nanos: 0 },
        updated_at: Instant { secs: 0, nanos: 0 },
    }
}

#[test]
fn hashed_secret_verifies_and_others_do_not() {
    let hash = hash_secret("班级口令123").expect("hashing works");
    assert!(hash.starts_with("$argon2"));
    assert!(verify_secret(&hash, "班级口令123"));
    assert!(!verify_secret(&hash, "班级口令124"));
    assert!(!verify_secret("not a phc string", "班级口令123"));
    assert!(!verify_secret("", ""));
}

#[test]
fn hashing_twice_uses_fresh_salts() {
    let a = hash_secret("same").unwrap();
    let b = hash_secret("same").unwrap();
    assert_ne!(a, b);
    assert!(verify_secret(&a, "same") && verify_secret(&b, "same"));
}

#[test]
fn admin_credentials_need_both_name_and_password() {
    let hash = hash_secret("s3cret").unwrap();
    let admin = AdminCredentials::new("admin".to_string(), hash);
    assert!(admin.verify("admin", "s3cret"));
    assert!(!admin.verify("Admin", "s3cret"));
    assert!(!admin.verify("admin", "s3cret "));
    assert!(!admin.verify("", ""));
}

#[test]
fn csrf_tokens_match_only_the_held_one() {
    assert!(csrf_token_matches(Some("abc"), "abc"));
    assert!(!csrf_token_matches(Some("abc"), "abd"));
    assert!(!csrf_token_matches(Some("abc"), ""));
    assert!(!csrf_token_matches(None, ""));
    assert_eq!(csrf_token(Some("kept".to_string())), "kept");
    let fresh = csrf_token(None);
    assert_eq!(fresh.len(), 32);
    assert!(fresh.chars().all(|c| c.is_ascii_hexdigit() && !c.is_ascii_uppercase()));
    assert_ne!(fresh, csrf_token(None));
}

#[test]
fn session_key_material_from_secret_lengths() {
    let long: Vec<u8> = (0..80u8).collect();
    assert_eq!(session_key_material(&long).unwrap(), long[..64].to_vec());
    let medium: Vec<u8> = (0..40u8).collect();
    let doubled = session_key_material(&medium).unwrap();
    assert_eq!(doubled.len(), 80);
    assert_eq!(&doubled[..40], &medium[..]);
    assert_eq!(&doubled[40..], &medium[..]);
    let short: Vec<u8> = (0..31u8).collect();
    assert!(matches!(session_key_material(&short), Err(AuthError::InvalidSessionSecret)));
}

#[test]
fn edit_codes_use_the_unambiguous_alphabet() {
    assert_eq!(EDIT_CODE_ALPHABET.len(), 32);
    for c in ['I', 'O', '0', '1'] {
        assert!(!EDIT_CODE_ALPHABET.contains(c));
    }
    for _ in 0..20 {
        let code = generate_edit_code();
        assert_eq!(code.chars().count(), 10);
        assert!(code.chars().all(|c| EDIT_CODE_ALPHABET.contains(c)));
    }
}

#[test]
fn submission_numbers_carry_year_and_padded_sequence() {
    assert_eq!(generate_submission_no(&year_ending(2025), 7), "ZC2025-000007");
    assert_eq!(generate_submission_no(&year_ending(2025), 1234567), "ZC2025-1234567");
    assert_eq!(generate_submission_no(&year_ending(987), 0), "ZC0987-000000");
    assert_eq!(generate_submission_no(&year_ending(-5), 3), "ZC-005-000003");
    assert_ne!(
        generate_submission_no(&year_ending(2025), 1),
        generate_submission_no(&year_ending(2025), 10)
    );
}

fn stored_submission(no: &str, hash: &str) -> zongce_web::domain::Submission {
    zongce_web::domain::Submission {
        id: 1,
        submission_no: no.to_string(),
        academic_year_id: 1,
        student_name: "甲".to_string(),
        student_no: "1".to_string(),
        category: zongce_web::domain::Category::Patent,
        result_name: "r".to_string(),
        obtained_date: Date { year: 2025, month: 1, day: 1 },
        detail: None,
        remark: None,
        category_data: zongce_web::domain::CategoryData::NotObject,
        status: zongce_web::domain::SubmissionStatus::Pending,
        review_note: None,
        has_approved_score: false,
        edit_code_hash: hash.to_string(),
        student_modified_after_review: false,
        created_at: Instant { secs: 0, nanos: 0 },
        updated_at: Instant { secs: 0, nanos: 0 },
    }
}

#[test]
fn edit_code_envelopes_open_only_for_their_submission() {
    let secret: Vec<u8> = (0..32u8).collect();
    let vault = EditCodeVault::new(&secret).ok().unwrap();
    let envelope = vault.encrypt("ZC2025-000001", "ABCDEFGH23");
    assert!(envelope.starts_with("v1:"));
    assert_eq!(vault.decrypt("ZC2025-000001", &envelope), Some("ABCDEFGH23".to_string()));
    assert_eq!(vault.decrypt("ZC2025-000002", &envelope), None);
    assert_eq!(vault.decrypt("ZC2025-000001", &envelope[3..]), None);
    assert_eq!(vault.decrypt("ZC2025-000001", "v1:garbage"), None);
    let other: Vec<u8> = (1..33u8).collect();
    let other_vault = EditCodeVault::new(&other).ok().unwrap();
    assert_eq!(other_vault.decrypt("ZC2025-000001", &envelope), None);
    assert_ne!(envelope, vault.encrypt("ZC2025-000001", "ABCDEFGH23"));
    assert!(matches!(EditCodeVault::new(&secret[..31]), Err(AuthError::InvalidSessionSecret)));
}

#[test]
fn only_the_current_code_is_recovered() {
    let secret: Vec<u8> = (0..40u8).collect();
    let vault = EditCodeVault::new(&secret).ok().unwrap();
    let code = generate_edit_code();
    let submission = stored_submission("ZC2025-000009", &hash_secret(&code).unwrap());
    let envelope = vault.encrypt("ZC2025-000009", &code);
    assert_eq!(recover_edit_code(&vault, &submission, Some(&envelope)), Some(code.clone()));
    assert_eq!(recover_edit_code(&vault, &submission, None), None);
    let stale = vault.encrypt("ZC2025-000009", "OLDCODE234");
    assert_eq!(recover_edit_code(&vault, &submission, Some(&stale)), None);
}
