use zongce_web::domain::{
    AcademicYear, Category, CategoryData, Date, Instant, JsonValue, NumberReading, SubmissionStatus,
};
use zongce_web::form::FormValues;
use zongce_web::storage::UploadInput;
use zongce_web::validation::admin::{dashboard_filters, filtered_export_url, plain_score_text, review_decision};
use zongce_web::validation::category::validate_category;
use zongce_web::validation::settings::{date, validate_class_code, validate_year, AcademicYearInput};
use zongce_web::validation::submission::{
    in_length, normalize_optional, validate_declaration, validate_deadline, validate_student_update,
    validate_submission, SubmissionInput,
};
use zongce_web::validation::upload::{validate_upload, validate_uploads_with_existing};
use zongce_web::validation::ValidationErrors;

fn text(t: &str) -> JsonValue {
    JsonValue::Str(t.to_string(), NumberReading::Invalid)
}

fn object(entries: &[(&str, JsonValue)]) -> CategoryData {
    CategoryData::Object(entries.iter().map(|(k, v)| (k.to_string(), v.clone())).collect())
}

fn year(id: i64, active: bool, deadline: Option<Instant>) -> AcademicYear {
    AcademicYear {
        id,
        name: "2024-2025".to_string(),
        start_date: Date { year: 2024, month: 9, day: 1 },
        end_date: Date { year: 2025, month: 8, day: 31 },
        deadline,
        is_active: active,
        announcement: None,
        created_at: Instant { secs: 0, nanos: 0 },
        updated_at: Instant { secs: 0, nanos: 0 },
    }
}

fn pdf(name: &str) -> UploadInput {
    UploadInput::new(name.to_string(), "application/pdf".to_string(), vec![1, 2, 3])
}

fn form(pairs: &[(&str, &str)]) -> FormValues {
    let mut v = FormValues::new();
    for (k, val) in pairs {
        v.set(k.to_string(), val.to_string());
    }
    v
}

#[test]
fn errors_keep_fields_sorted_and_messages_in_order() {
    let mut e = ValidationErrors::new();
    assert!(e.is_empty());
    e.add("b", "second");
    e.add("a", "first");
    e.add("b", "third");
    assert!(!e.is_empty());
    assert!(e.contains_key("a") && e.contains_key("b") && !e.contains_key("c"));
    assert_eq!(e.first("b"), Some("second"));
    assert_eq!(e.first("c"), None);
    assert_eq!(e.message(), "first；second；third");
    let mut other = ValidationErrors::new();
    other.add("a", "more");
    other.add("c", "new");
    e.extend(other);
    assert_eq!(e.message(), "first；more；second；third；new");
}

#[test]
fn non_object_category_data_is_refused() {
    let err = validate_category(Category::Patent, &CategoryData::NotObject).unwrap_err();
    assert_eq!(err.first("category_data"), Some("类别字段必须是结构化对象"));
}

#[test]
fn academic_competition_rules() {
    let ok = object(&[
        ("competition_name", text("全国大学生数学建模竞赛")),
        ("competition_type", text("A")),
        ("level", text("国家")),
        ("award_level", text("一等奖")),
    ]);
    assert!(validate_category(Category::AcademicCompetition, &ok).is_ok());

    let missing = object(&[("competition_type", text("D")), ("level", text("省部"))]);
    let err = validate_category(Category::AcademicCompetition, &missing).unwrap_err();
    assert_eq!(err.first("competition_name"), Some("竞赛完整名称为必填项"));
    assert_eq!(err.first("competition_type"), Some("学科竞赛类别取值无效"));
    assert_eq!(err.first("award_level"), Some("获奖等级为必填项"));
    assert!(!err.contains_key("level"));

    let other = object(&[
        ("competition_name", text("x")),
        ("competition_type", text("B")),
        ("level", text("校")),
        ("award_level", text("其他")),
        ("catalog_no", text(&"9".repeat(101))),
    ]);
    let err = validate_category(Category::AcademicCompetition, &other).unwrap_err();
    assert_eq!(err.first("other_award"), Some("实际奖项或名次为必填项"));
    assert_eq!(err.first("catalog_no"), Some("目录序号不能超过 100 个字符"));

    let other_named = object(&[
        ("competition_name", text("x")),
        ("competition_type", text("B")),
        ("level", text("校")),
        ("award_level", text("其他")),
        ("actual_award_rank", text("第五名")),
    ]);
    assert!(validate_category(Category::AcademicCompetition, &other_named).is_ok());
}

#[test]
fn sports_award_choice_decides_the_next_field() {
    let with_award = object(&[
        ("competition_name", text("校运会")),
        ("level", text("校")),
        ("has_award_level", JsonValue::Bool(true)),
    ]);
    let err = validate_category(Category::SportsArtsCompetition, &with_award).unwrap_err();
    assert_eq!(err.first("award_level"), Some("奖项等级为必填项"));
    assert!(!err.contains_key("rank"));

    let without = object(&[
        ("competition_name", text("校运会")),
        ("level", text("校")),
        ("has_award_level", text("否")),
        ("rank", text("第二名")),
        ("is_seu_sports_meet", text("maybe")),
    ]);
    let err = validate_category(Category::SportsArtsCompetition, &without).unwrap_err();
    assert_eq!(err.first("is_seu_sports_meet"), Some("是否属于东南大学运动会相关项目取值无效"));

    let bad_choice = object(&[
        ("competition_name", text("校运会")),
        ("level", text("校")),
        ("has_award_level", JsonValue::Null),
    ]);
    let err = validate_category(Category::SportsArtsCompetition, &bad_choice).unwrap_err();
    assert_eq!(err.first("has_award_level"), Some("是否有明确奖项等级取值无效"));
}

#[test]
fn article_nature_selects_the_required_fields() {
    let academic = object(&[("title", text("t")), ("nature", text("学术论文"))]);
    let err = validate_category(Category::PublishedArticle, &academic).unwrap_err();
    assert!(err.contains_key("publication_type") && err.contains_key("author_order") && err.contains_key("journal_name"));
    assert!(!err.contains_key("platform"));
    let popular = object(&[
        ("title", text("t")),
        ("nature", text("non_academic")),
        ("platform", text("公众号")),
        ("publication_form", text("推文")),
        ("link_or_info", text("  ")),
    ]);
    let err = validate_category(Category::PublishedArticle, &popular).unwrap_err();
    assert_eq!(err.first("link_or_info"), Some("链接或发表信息为必填项"));
}

#[test]
fn certification_scores_must_be_non_negative_numbers() {
    let cet = object(&[
        ("certificate_type", text("CET-6")),
        ("cet6_score", JsonValue::Str("abc".to_string(), NumberReading::Invalid)),
    ]);
    let err = validate_category(Category::Certification, &cet).unwrap_err();
    assert_eq!(err.first("cet6_score"), Some("CET-6 成绩必须是非负数字"));
    let cet_ok = object(&[
        ("certificate_type", text("CET-6")),
        ("cet6_score", JsonValue::Number("520".to_string(), NumberReading::NonNegative)),
    ]);
    assert!(validate_category(Category::Certification, &cet_ok).is_ok());
    let ielts = object(&[
        ("certificate_type", text("雅思/托福")),
        ("language_score", JsonValue::Str("-1".to_string(), NumberReading::Negative)),
    ]);
    let err = validate_category(Category::Certification, &ielts).unwrap_err();
    assert_eq!(err.first("language_score"), Some("雅思/托福成绩必须是非负数字"));
    let missing = object(&[("certificate_type", text("other"))]);
    let err = validate_category(Category::Certification, &missing).unwrap_err();
    assert_eq!(err.first("qualification_name"), Some("其他资格证书名称为必填项"));
}

#[test]
fn patent_and_social_practice_require_every_text() {
    let err = validate_category(Category::Patent, &object(&[])).unwrap_err();
    for k in ["name", "type", "status", "ranking", "patent_no"] {
        assert!(err.contains_key(k));
    }
    let social = object(&[
        ("project_name", text("支教")),
        ("level", text("校")),
        ("identity", text("队员")),
        ("award_level_or_none", text("无")),
    ]);
    assert!(validate_category(Category::SocialPractice, &social).is_ok());
    let honor = object(&[
        ("award_name", text("三好学生")),
        ("recognition_level", text("校")),
        ("is_scholarship", text("no")),
        ("school_honor_category", text("综合")),
    ]);
    assert!(validate_category(Category::OtherAward, &honor).is_ok());
}

#[test]
fn uploads_are_checked_by_size_type_and_name() {
    let ok = validate_upload(&UploadInput::new("证书.JPG".to_string(), " Image/JPEG ".to_string(), vec![0; 10])).unwrap();
    assert_eq!(ok.mime_type, "image/jpeg");
    assert_eq!(ok.file_size, 10);
    assert_eq!(ok.original_name, "证书.JPG");

    let empty = validate_upload(&UploadInput::new("a.pdf".to_string(), "application/pdf".to_string(), vec![])).unwrap_err();
    assert_eq!(empty.first("attachments"), Some("每个附件必须大于 0 且不超过 10 MiB"));
    let gif = validate_upload(&UploadInput::new("a.gif".to_string(), "image/gif".to_string(), vec![1])).unwrap_err();
    assert_eq!(gif.message(), "附件仅支持 JPG、PNG 或 PDF 格式；附件扩展名与文件类型不匹配");
    let slash = validate_upload(&UploadInput::new("a/b.pdf".to_string(), "application/pdf".to_string(), vec![1])).unwrap_err();
    assert_eq!(slash.message(), "附件文件名不合法");
    let mismatch = validate_upload(&UploadInput::new("a.png".to_string(), "application/pdf".to_string(), vec![1])).unwrap_err();
    assert_eq!(mismatch.message(), "附件扩展名与文件类型不匹配");
    let too_big = validate_upload(&UploadInput::new("a.pdf".to_string(), "application/pdf".to_string(), vec![0; 10 * 1024 * 1024 + 1]));
    assert!(too_big.is_err());
}

#[test]
fn upload_count_limits() {
    let none = validate_uploads_with_existing(&[], 0).unwrap_err();
    assert_eq!(none.message(), "成果申报至少需要上传 1 个证明材料");
    assert!(validate_uploads_with_existing(&[], 3).unwrap().is_empty());
    let many: Vec<UploadInput> = (0..3).map(|i| pdf(&format!("{i}.pdf"))).collect();
    let err = validate_uploads_with_existing(&many, 8).unwrap_err();
    assert_eq!(err.message(), "每项成果最多上传 10 个证明材料");
    assert_eq!(validate_uploads_with_existing(&many, 7).unwrap().len(), 3);
}

#[test]
fn lengths_and_optional_texts() {
    assert!(in_length("张三", 1, 50));
    assert!(!in_length("", 1, 50));
    assert!(!in_length(&"字".repeat(51), 1, 50));
    assert_eq!(normalize_optional(Some("  note ".to_string())), Some("note".to_string()));
    assert_eq!(normalize_optional(Some("   ".to_string())), None);
    assert_eq!(normalize_optional(None), None);
}

#[test]
fn declaration_needs_name_and_number() {
    assert!(validate_declaration(" 张三 ", "2024001").is_ok());
    let err = validate_declaration("  ", &"1".repeat(31)).unwrap_err();
    assert_eq!(err.first("student_name"), Some("姓名为 1-50 个字符"));
    assert_eq!(err.first("student_no"), Some("学号为 1-30 个字符"));
}

#[test]
fn deadline_passes_only_up_to_its_instant() {
    let y = year(1, true, Some(Instant { secs: 1000, nanos: 0 }));
    assert!(validate_deadline(&y, Instant { secs: 1000, nanos: 0 }).is_ok());
    let err = validate_deadline(&y, Instant { secs: 1000, nanos: 1 }).unwrap_err();
    assert_eq!(err.first("deadline"), Some("当前学年已超过成果申报截止时间"));
    assert!(validate_deadline(&year(1, true, None), Instant { secs: i64::MAX, nanos: 0 }).is_ok());
}

fn sample_input() -> SubmissionInput {
    SubmissionInput {
        student_name: " 张三 ".to_string(),
        student_no: "2024001".to_string(),
        result_name: " 专利 ".to_string(),
        obtained_date: Date { year: 2025, month: 3, day: 1 },
        detail: Some("  ".to_string()),
        remark: Some(" 备注 ".to_string()),
        category: Category::Patent,
        category_data: object(&[
            ("name", text("n")),
            ("type", text("发明")),
            ("status", text("授权")),
            ("ranking", text("1")),
            ("patent_no", text("CN1")),
        ]),
    }
}

#[test]
fn a_complete_submission_is_normalized() {
    let v = validate_submission(sample_input(), &year(1, true, None), &[pdf("p.pdf")]).unwrap();
    assert_eq!(v.student_name, "张三");
    assert_eq!(v.result_name, "专利");
    assert_eq!(v.detail, None);
    assert_eq!(v.remark, Some("备注".to_string()));
    assert_eq!(v.uploads.len(), 1);
}

#[test]
fn submission_errors_are_collected_together() {
    let mut input = sample_input();
    input.obtained_date = Date { year: 2025, month: 9, day: 1 };
    input.student_name = String::new();
    input.category_data = object(&[]);
    let past = year(1, true, Some(Instant { secs: 0, nanos: 0 }));
    let err = validate_submission(input.clone(), &past, &[]).unwrap_err();
    for k in ["student_name", "obtained_date", "name", "attachments", "deadline"] {
        assert!(err.contains_key(k), "{k}");
    }
    let err = validate_student_update(input, &past, &[], 1).unwrap_err();
    assert!(!err.contains_key("deadline"));
    assert!(!err.contains_key("attachments"));
}

#[test]
fn dates_must_be_written_exactly() {
    assert_eq!(date("2024-02-29"), Some(Date { year: 2024, month: 2, day: 29 }));
    assert_eq!(date("2023-02-29"), None);
    assert_eq!(date("2024-2-09"), None);
    assert_eq!(date("0000-01-01"), None);
    assert_eq!(date(" 2024-01-01"), None);
}

fn year_form(name: &str, start: &str, end: &str, deadline: &str) -> AcademicYearInput {
    AcademicYearInput {
        name: name.to_string(),
        start_date: start.to_string(),
        end_date: end.to_string(),
        deadline: deadline.to_string(),
        announcement: " 说明 ".to_string(),
    }
}

#[test]
fn year_form_is_validated() {
    let y = validate_year(&year_form(" 2024-2025 ", "2024-09-01", "2025-08-31", "")).unwrap();
    assert_eq!(y.name, "2024-2025");
    assert_eq!(y.start_date, Date { year: 2024, month: 9, day: 1 });
    assert_eq!(y.deadline, None);
    assert!(!y.is_active);
    assert_eq!(y.announcement, Some("说明".to_string()));

    let utc = validate_year(&year_form("y", "2024-09-01", "2025-08-31", "2025-06-30T12:00")).unwrap();
    let expected = 1_751_284_800; // 2025-06-30T12:00:00Z
    assert_eq!(utc.deadline, Some(Instant { secs: expected, nanos: 0 }));
    let offset = validate_year(&year_form("y", "2024-09-01", "2025-08-31", "2025-06-30T20:00:00+08:00")).unwrap();
    assert_eq!(offset.deadline, Some(Instant { secs: expected, nanos: 0 }));

    let err = validate_year(&year_form("", "2025-09-01", "2025-08-31", "tomorrow")).unwrap_err();
    assert_eq!(err.first("name"), Some("学年名称须为 1-40 个字符，不能包含控制字符"));
    assert_eq!(err.first("end_date"), Some("结束日期不能早于开始日期"));
    assert_eq!(err.first("deadline"), Some("请输入有效的申报截止时间（UTC）"));
    let err = validate_year(&year_form("y", "2024/09/01", "", "")).unwrap_err();
    assert_eq!(err.first("start_date"), Some("请输入有效的开始日期（YYYY-MM-DD）"));
    assert_eq!(err.first("end_date"), Some("请输入有效的结束日期（YYYY-MM-DD）"));
}

#[test]
fn year_form_round_trips_a_stored_year() {
    let mut stored = year(3, false, Some(Instant { secs: 1_751_284_800, nanos: 500_000_000 }));
    stored.announcement = Some("欢迎".to_string());
    let input = AcademicYearInput::from_year(&stored);
    assert_eq!(input.start_date, "2024-09-01");
    assert_eq!(input.deadline, "2025-06-30T12:00:00.500");
    assert_eq!(input.announcement, "欢迎");
    let again = validate_year(&input).unwrap();
    assert_eq!(again.deadline, stored.deadline);
    assert_eq!(again.end_date, stored.end_date);
}

#[test]
fn class_codes() {
    assert!(validate_class_code("口令").is_ok());
    assert!(validate_class_code("   ").is_err());
    assert!(validate_class_code("a\u{7}b").is_err());
    assert!(validate_class_code(&"x".repeat(256)).is_ok());
    assert!(validate_class_code(&"x".repeat(257)).is_err());
}

#[test]
fn score_texts_are_plain_decimals() {
    for ok in ["0", "12", "3.5", "3.25", "007"] {
        assert!(plain_score_text(ok), "{ok}");
    }
    for bad in ["", ".5", "5.", "1.234", "-1", "1e2", "1.2.3", " 1"] {
        assert!(!plain_score_text(bad), "{bad}");
    }
}

#[test]
fn review_decisions() {
    let d = review_decision("approved", "  好 ", "2", true).unwrap();
    assert_eq!(d.status, SubmissionStatus::Approved);
    assert_eq!(d.review_note, Some("好".to_string()));
    let err = review_decision("approved", "", " ", true).unwrap_err();
    assert_eq!(err.first("approved_score"), Some("已通过的申报必须填写核定分值，可填写 0"));
    let err = review_decision("maybe", &"x".repeat(4001), "", false).unwrap_err();
    assert_eq!(err.first("status"), Some("请选择有效的审核状态"));
    assert_eq!(err.first("approved_score"), Some("分值必须是非负且最多两位小数的数字"));
    assert_eq!(err.first("review_note"), Some("审核备注不能超过 4000 个字符"));
    assert_eq!(review_decision("rejected", "", "", true).unwrap().review_note, None);
}

#[test]
fn dashboard_filters_default_to_the_active_year() {
    let years = vec![year(1, false, None), year(2, true, None)];
    let (f, invalid) = dashboard_filters(&FormValues::new(), &years);
    assert_eq!(f.academic_year_id, Some(2));
    assert!(!invalid);
    let (f, invalid) = dashboard_filters(&form(&[("academic_year_id", " "), ("name", " 张 "), ("status", "pending")]), &years);
    assert_eq!(f.academic_year_id, None);
    assert_eq!(f.name, Some("张".to_string()));
    assert_eq!(f.status, Some(SubmissionStatus::Pending));
    assert!(!invalid);
    let (f, invalid) = dashboard_filters(&form(&[("academic_year_id", "9"), ("category", "chess")]), &years);
    assert_eq!(f.academic_year_id, Some(2));
    assert_eq!(f.category, None);
    assert!(invalid);
    let (_, invalid) = dashboard_filters(&form(&[("student_no", &"1".repeat(31))]), &years);
    assert!(invalid);
}

#[test]
fn export_url_carries_the_filter() {
    let years = vec![year(7, true, None)];
    let (f, _) = dashboard_filters(&form(&[("name", "张 三"), ("category", "patent")]), &years);
    assert_eq!(
        filtered_export_url(&f),
        "/admin/export.xlsx?academic_year_id=7&name=%E5%BC%A0%20%E4%B8%89&student_no=&category=patent&status="
    );
}
