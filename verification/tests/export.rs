use zongce_web::domain::{
    AcademicYear, Attachment, Category, CategoryData, Date, Instant, JsonValue, NumberReading,
    StudentDeclaration, Submission, SubmissionStatus,
};
use zongce_web::export::{
    bounded_text, choice, detail_cells, detail_headers, detail_rows, export_filename, summarize,
    summary_headers, supplement, ExportCell, ExportData, COL_ACTUAL_AWARD, COL_APPROVED_SCORE,
    COL_ARTICLE_NATURE, COL_ATTACHMENTS, COL_ATTACHMENT_COUNT, COL_AWARD_LEVEL, COL_CATEGORY,
    COL_CERTIFICATE_TYPE, COL_DETAIL, COL_EXAM_SCORE, COL_LEVEL, COL_OBTAINED_DATE, COL_PLATFORM,
    COL_REVIEW_STATUS, COL_SEQUENCE, COL_YEAR, DETAIL_COLUMNS,
};

fn year(id: i64, name: &str) -> AcademicYear {
    AcademicYear {
        id,
        name: name.to_string(),
        start_date: Date { year: 2024, month: 9, day: 1 },
        end_date: Date { year: 2025, month: 8, day: 31 },
        deadline: None,
        is_active: true,
        announcement: None,
        created_at: Instant { secs: 0, nanos: 0 },
        updated_at: Instant { secs: 0, nanos: 0 },
    }
}

fn s(t: &str) -> JsonValue {
    JsonValue::Str(t.to_string(), NumberReading::Invalid)
}

fn submission(id: i64, no: &str, name: &str, category: Category, status: SubmissionStatus, data: Vec<(&str, JsonValue)>) -> Submission {
    Submission {
        id,
        submission_no: format!("ZC2025-{id:06}"),
        academic_year_id: 1,
        student_name: name.to_string(),
        student_no: no.to_string(),
        category,
        result_name: "成果".to_string(),
        obtained_date: Date { year: 2025, month: 1, day: 5 },
        detail: Some("说明".to_string()),
        remark: None,
        category_data: CategoryData::Object(data.into_iter().map(|(k, v)| (k.to_string(), v)).collect()),
        status,
        review_note: None,
        has_approved_score: status == SubmissionStatus::Approved,
        edit_code_hash: String::new(),
        student_modified_after_review: false,
        created_at: Instant { secs: 1_700_000_000, nanos: 0 },
        updated_at: Instant { secs: 1_700_000_100, nanos: 0 },
    }
}

fn attachment(id: i64, submission_id: i64, name: &str) -> Attachment {
    Attachment {
        id,
        submission_id,
        original_name: name.to_string(),
        stored_name: "x.pdf".to_string(),
        mime_type: "application/pdf".to_string(),
        file_size: 1,
        created_at: Instant { secs: 0, nanos: 0 },
    }
}

fn declaration(no: &str, name: &str, material: bool) -> StudentDeclaration {
    StudentDeclaration {
        id: 1,
        academic_year_id: 1,
        student_name: name.to_string(),
        student_no: no.to_string(),
        has_submission_material: material,
        created_at: Instant { secs: 0, nanos: 0 },
        updated_at: Instant { secs: 0, nanos: 0 },
    }
}

fn text(t: &str) -> ExportCell {
    ExportCell::Text(t.to_string())
}

#[test]
fn headers_follow_the_fixed_schema() {
    let h = detail_headers();
    assert_eq!(h.len(), DETAIL_COLUMNS);
    assert_eq!(h[0], "序号");
    assert_eq!(h[22], "考试成绩");
    assert_eq!(h[33], "最后修改时间");
    let s = summary_headers();
    assert_eq!(s.len(), 10);
    assert_eq!(s[8], "已通过核定总分");
}

#[test]
fn short_texts_are_kept_and_long_ones_cut_with_a_notice() {
    assert_eq!(bounded_text("短文本", "/admin/submissions/1"), None);
    let exact = "a".repeat(32767);
    assert_eq!(bounded_text(&exact, "/s"), None);
    let long = "长".repeat(40000);
    let cut = bounded_text(&long, "/admin/submissions/7").unwrap();
    let notice = "\n[内容过长，已截断；完整内容见 /admin/submissions/7]";
    assert!(cut.ends_with(notice));
    assert_eq!(cut.encode_utf16().count(), 32767);
    let emoji = "😀".repeat(20000);
    let cut = bounded_text(&emoji, "/s").unwrap();
    assert!(cut.encode_utf16().count() <= 32767);
    assert!(cut.encode_utf16().count() >= 32766);
}

#[test]
fn choices_read_booleans_and_words() {
    assert_eq!(choice(Some(&JsonValue::Bool(true))), "是");
    assert_eq!(choice(Some(&s("no"))), "否");
    assert_eq!(choice(Some(&s("不确定"))), "不确定");
    assert_eq!(choice(Some(&s("maybe"))), "");
    assert_eq!(choice(None), "");
    let mut detail = vec!["x".to_string()];
    supplement(&mut detail, "标签", "");
    supplement(&mut detail, "标签", "值");
    assert_eq!(detail, vec!["x".to_string(), "标签：值".to_string()]);
}

#[test]
fn an_academic_row() {
    let sub = submission(
        3,
        "2024001",
        "张三",
        Category::AcademicCompetition,
        SubmissionStatus::Approved,
        vec![
            ("competition_name", s("数模")),
            ("competition_type", s("A")),
            ("level", s("国家")),
            ("award_level", s("其他")),
            ("award_detail", s("  ")),
            ("actual_award_rank", s("第五名")),
        ],
    );
    let data = ExportData {
        years: vec![year(1, "2024-2025")],
        submissions: vec![sub.clone()],
        declarations: vec![],
        attachments: vec![attachment(11, 3, "证书.pdf"), attachment(12, 4, "别人.pdf"), attachment(13, 3, "b.png")],
    };
    let row = detail_cells(&data, &sub, 1);
    assert_eq!(row.len(), 34);
    assert_eq!(row[COL_SEQUENCE], ExportCell::Count(1));
    assert_eq!(row[COL_YEAR], text("2024-2025"));
    assert_eq!(row[COL_CATEGORY], text("学术科技类竞赛"));
    assert_eq!(row[COL_OBTAINED_DATE], ExportCell::Date("2025-01-05".to_string()));
    assert_eq!(row[COL_LEVEL], text("国家"));
    assert_eq!(row[COL_AWARD_LEVEL], text("其他"));
    assert_eq!(row[COL_ACTUAL_AWARD], text("第五名"));
    assert_eq!(row[COL_DETAIL], text("说明\n竞赛完整名称：数模"));
    assert_eq!(row[COL_ATTACHMENT_COUNT], ExportCell::Count(2));
    assert_eq!(
        row[COL_ATTACHMENTS],
        text("证书.pdf — /submissions/ZC2025-000003/attachments/11\nb.png — /submissions/ZC2025-000003/attachments/13")
    );
    assert_eq!(row[COL_REVIEW_STATUS], text("已通过"));
    assert_eq!(row[COL_APPROVED_SCORE], ExportCell::ApprovedScore);
}

#[test]
fn article_and_certificate_rows() {
    let article = submission(
        5,
        "1",
        "a",
        Category::PublishedArticle,
        SubmissionStatus::Pending,
        vec![("title", s("T")), ("nature", s("non_academic")), ("platform", s("公众号")), ("publication_form", s("推文"))],
    );
    let data = ExportData { years: vec![], submissions: vec![], declarations: vec![], attachments: vec![] };
    let row = detail_cells(&data, &article, 2);
    assert_eq!(row[COL_YEAR], ExportCell::Blank);
    assert_eq!(row[COL_ARTICLE_NATURE], text("非学术文章"));
    assert_eq!(row[COL_PLATFORM], text("公众号"));
    assert_eq!(row[COL_DETAIL], text("说明\n文章标题：T\n发表形式：推文"));
    assert_eq!(row[COL_ATTACHMENTS], ExportCell::Blank);
    assert_eq!(row[COL_APPROVED_SCORE], ExportCell::Blank);

    let cert = submission(
        6,
        "1",
        "a",
        Category::Certification,
        SubmissionStatus::Pending,
        vec![("certificate_type", s("CET-6")), ("cet6_score", s("560"))],
    );
    let row = detail_cells(&data, &cert, 3);
    assert_eq!(row[COL_CERTIFICATE_TYPE], text("CET-6"));
    assert_eq!(row[COL_EXAM_SCORE], ExportCell::ExamScore("cet6_score".to_string()));
    let computer = submission(
        7,
        "1",
        "a",
        Category::Certification,
        SubmissionStatus::Pending,
        vec![("certificate_type", s("计算机")), ("exam_level", s("二级"))],
    );
    let row = detail_cells(&data, &computer, 4);
    assert_eq!(row[COL_CERTIFICATE_TYPE], text("计算机"));
    assert_eq!(row[COL_LEVEL], text("二级"));
}

#[test]
fn early_dates_stay_text() {
    let mut sub = submission(8, "1", "a", Category::Patent, SubmissionStatus::Pending, vec![]);
    sub.obtained_date = Date { year: 1899, month: 12, day: 31 };
    let data = ExportData { years: vec![], submissions: vec![], declarations: vec![], attachments: vec![] };
    let row = detail_cells(&data, &sub, 1);
    assert_eq!(row[COL_OBTAINED_DATE], text("1899-12-31"));
}

#[test]
fn summary_counts_each_student_once_in_number_order() {
    let subs = vec![
        submission(1, "2", "乙", Category::Patent, SubmissionStatus::Approved, vec![]),
        submission(2, "1", "甲", Category::Patent, SubmissionStatus::Pending, vec![]),
        submission(3, "2", "乙", Category::Patent, SubmissionStatus::Rejected, vec![]),
        submission(4, "2", "乙", Category::Patent, SubmissionStatus::Approved, vec![]),
        submission(5, "1", "甲", Category::Patent, SubmissionStatus::NeedsRevision, vec![]),
    ];
    let data = ExportData {
        years: vec![],
        submissions: subs,
        declarations: vec![declaration("3", "丙", false), declaration("1", "甲", false), declaration("4", "丁", true)],
        attachments: vec![],
    };
    let lines = summarize(&data);
    let keys: Vec<(&str, &str)> = lines.iter().map(|l| (l.student_no.as_str(), l.student_name.as_str())).collect();
    assert_eq!(keys, vec![("1", "甲"), ("2", "乙"), ("3", "丙")]);
    let a = &lines[0];
    assert_eq!((a.submitted, a.approved, a.pending, a.revision, a.rejected, a.declared), (2, 0, 1, 1, 0, true));
    let b = &lines[1];
    assert_eq!((b.submitted, b.approved, b.pending, b.revision, b.rejected, b.declared), (3, 2, 0, 0, 1, false));
    assert_eq!(b.approved_rows, vec![0, 3]);
    let c = &lines[2];
    assert_eq!((c.submitted, c.declared), (0, true));
    for l in &lines {
        assert_eq!(l.submitted, l.approved + l.pending + l.revision + l.rejected);
    }
}

#[test]
fn rows_are_numbered_and_cut() {
    let mut long = submission(9, "1", "a", Category::Patent, SubmissionStatus::Pending, vec![]);
    long.remark = Some("x".repeat(40000));
    let data = ExportData {
        years: vec![],
        submissions: vec![submission(1, "1", "a", Category::Patent, SubmissionStatus::Pending, vec![]), long],
        declarations: vec![],
        attachments: vec![],
    };
    let rows = detail_rows(&data).unwrap();
    assert_eq!(rows.len(), 2);
    assert_eq!(rows[0][COL_SEQUENCE], ExportCell::Count(1));
    assert_eq!(rows[1][COL_SEQUENCE], ExportCell::Count(2));
    match &rows[1][26] {
        ExportCell::Text(t) => assert!(t.ends_with("完整内容见 /admin/submissions/9]")),
        other => panic!("unexpected cell {other:?}"),
    }
}

#[test]
fn export_file_names() {
    let years = vec![year(1, "2024/2025:上"), year(2, "b")];
    assert_eq!(export_filename(&years, Some(1)), "2024_2025_上综测申报汇总.xlsx");
    assert_eq!(export_filename(&years, Some(2)), "b综测申报汇总.xlsx");
    assert_eq!(export_filename(&years, None), "全部学年综测申报汇总.xlsx");
    assert_eq!(export_filename(&years, Some(3)), "全部学年综测申报汇总.xlsx");
}
