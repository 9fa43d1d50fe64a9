use zongce_web::domain::{
    date_string, parse_category, parse_status, Category, Date, Instant, SubmissionStatus,
};
use zongce_web::text::{decimal_string, i64_string, join_strings, lex_compare, parse_i64, trimmed};

#[test]
fn category_names_round_trip() {
    for c in Category::all() {
        assert_eq!(parse_category(c.as_str()), Some(c));
        assert_eq!(Category::from_str(c.as_str()).ok(), Some(c));
    }
    assert_eq!(Category::AcademicCompetition.as_str(), "academic_competition");
    assert_eq!(Category::Certification.label(), "学习技能/资格证书");
}

#[test]
fn unknown_category_is_refused_with_its_name() {
    let err = Category::from_str("chess").unwrap_err();
    assert!(err.contains("chess"));
    assert_eq!(parse_category(""), None);
}

#[test]
fn status_names_round_trip_and_edit_rights() {
    for s in SubmissionStatus::all() {
        assert_eq!(parse_status(s.as_str()), Some(s));
    }
    assert_eq!(SubmissionStatus::from_str("oops").unwrap_err(), "unknown submission status: oops");
    assert!(SubmissionStatus::Pending.can_student_edit());
    assert!(SubmissionStatus::NeedsRevision.can_student_edit());
    assert!(!SubmissionStatus::Approved.can_student_edit());
    assert!(!SubmissionStatus::Rejected.can_student_edit());
    assert_eq!(SubmissionStatus::NeedsRevision.label(), "需补充材料");
}

#[test]
fn dates_and_instants_compare_in_time_order() {
    let a = Date { year: 2024, month: 9, day: 1 };
    let b = Date { year: 2024, month: 9, day: 2 };
    assert!(a.before(&b));
    assert!(!b.before(&a));
    assert!(!a.before(&a));
    let x = Instant { secs: 10, nanos: 5 };
    let y = Instant { secs: 10, nanos: 6 };
    assert!(x.before(&y));
    assert!(!y.before(&x));
}

#[test]
fn dates_are_written_like_chrono() {
    assert_eq!(date_string(Date { year: 2024, month: 3, day: 7 }), "2024-03-07");
    assert_eq!(date_string(Date { year: 7, month: 12, day: 31 }), "0007-12-31");
    assert_eq!(date_string(Date { year: 12345, month: 1, day: 1 }), "+12345-01-01");
    assert_eq!(date_string(Date { year: -5, month: 1, day: 1 }), "-0005-01-01");
}

#[test]
fn numbers_are_written_and_read_in_decimal() {
    assert_eq!(decimal_string(0), "0");
    assert_eq!(decimal_string(1234567890), "1234567890");
    assert_eq!(i64_string(-42), "-42");
    assert_eq!(i64_string(i64::MIN), "-9223372036854775808");
    assert_eq!(parse_i64("+17"), Some(17));
    assert_eq!(parse_i64("-9223372036854775808"), Some(i64::MIN));
    assert_eq!(parse_i64("9223372036854775808"), None);
    assert_eq!(parse_i64(""), None);
    assert_eq!(parse_i64("1a"), None);
}

#[test]
fn trimming_and_joining() {
    assert_eq!(trimmed("  a b \u{3000}"), "a b");
    assert_eq!(trimmed("   "), "");
    let parts = vec!["x".to_string(), "y".to_string(), "z".to_string()];
    assert_eq!(join_strings(&parts, "\n"), "x\ny\nz");
    assert_eq!(join_strings(&Vec::new(), ","), "");
}

#[test]
fn lexicographic_order_is_the_string_order() {
    let a: Vec<char> = "abc".chars().collect();
    let b: Vec<char> = "abd".chars().collect();
    let c: Vec<char> = "ab".chars().collect();
    assert!(lex_compare(&a, &b) < 0);
    assert!(lex_compare(&b, &a) > 0);
    assert!(lex_compare(&c, &a) < 0);
    assert_eq!(lex_compare(&a, &a), 0);
}
