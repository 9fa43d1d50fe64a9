use zongce_web::domain::{
    AcademicYear, Category, CategoryData, Date, Instant, JsonValue, NumberReading, Submission,
    SubmissionStatus,
};
use zongce_web::fields::{category_sections, Field};
use zongce_web::form::FormValues;
use zongce_web::storage::UploadInput;
use zongce_web::submission_form::{
    edit_form_values, optional_value, plan_submit, plan_update, submission_input, submission_values,
    SubmissionForm, SubmitPlan,
};
use zongce_web::validation::ValidationErrors;

fn form(pairs: &[(&str, &str)]) -> FormValues {
    let mut v = FormValues::new();
    for (k, val) in pairs {
        v.set(k.to_string(), val.to_string());
    }
    v
}

fn plain_readings(v: &FormValues) -> Vec<NumberReading> {
    vec![NumberReading::Invalid; v.entries.len()]
}

fn year(deadline: Option<Instant>) -> AcademicYear {
    AcademicYear {
        id: 4,
        name: "2024-2025".to_string(),
        start_date: Date { year: 2024, month: 9, day: 1 },
        end_date: Date { year: 2025, month: 8, day: 31 },
        deadline,
        is_active: true,
        announcement: None,
        created_at: Instant { secs: 0, nanos: 0 },
        updated_at: Instant { secs: 0, nanos: 0 },
    }
}

fn submission(category: Category, data: Vec<(&str, JsonValue)>) -> Submission {
    Submission {
        id: 9,
        submission_no: "ZC2025-000009".to_string(),
        academic_year_id: 4,
        student_name: "李四".to_string(),
        student_no: "2024002".to_string(),
        category,
        result_name: "成果".to_string(),
        obtained_date: Date { year: 2025, month: 1, day: 5 },
        detail: None,
        remark: Some("备注".to_string()),
        category_data: CategoryData::Object(data.into_iter().map(|(k, v)| (k.to_string(), v)).collect()),
        status: SubmissionStatus::Pending,
        review_note: None,
        has_approved_score: false,
        edit_code_hash: String::new(),
        student_modified_after_review: false,
        created_at: Instant { secs: 1, nanos: 0 },
        updated_at: Instant { secs: 1, nanos: 0 },
    }
}

fn s(t: &str) -> JsonValue {
    JsonValue::Str(t.to_string(), NumberReading::Invalid)
}

#[test]
fn every_category_has_one_form_section() {
    let sections = category_sections();
    assert_eq!(sections.len(), 7);
    for (section, category) in sections.iter().zip(Category::all()) {
        assert_eq!(section.category, category);
        assert!(!section.fields.is_empty());
        for f in &section.fields {
            if !f.when_key.is_empty() {
                assert!(section.fields.iter().any(|g| g.key == f.when_key));
            }
        }
    }
    let academic = &sections[0];
    assert_eq!(academic.fields[0].key, "competition_name");
    assert_eq!(academic.fields[0].label, "竞赛完整名称");
    let catalog = academic.fields.iter().find(|f| f.key == "catalog_no").unwrap();
    assert!(!catalog.required);
    let other = academic.fields.iter().find(|f| f.key == "other_award").unwrap();
    assert_eq!((other.when_key, other.when_value), ("award_level", "其他"));
}

#[test]
fn field_builders() {
    let f = Field::text("k", "标签");
    assert!(f.required && f.options.is_empty() && f.when_key.is_empty());
    let g = Field::text("k", "标签").optional().options(vec![("a", "甲")]).when("x", "y");
    assert!(!g.required);
    assert_eq!(g.options, vec![("a", "甲")]);
    assert_eq!((g.when_key, g.when_value), ("x", "y"));
}

#[test]
fn form_fields_become_a_submission_input() {
    let v = form(&[
        ("csrf_token", "t"),
        ("category", "patent"),
        ("obtained_date", "2025-02-03"),
        ("student_name", " 王五 "),
        ("student_no", "1"),
        ("result_name", "r"),
        ("detail", "  "),
        ("remark", " 备 "),
        ("name", "专利名"),
        ("type", " "),
        ("patent_no", "CN9"),
    ]);
    let input = submission_input(&v, &plain_readings(&v)).unwrap();
    assert_eq!(input.category, Category::Patent);
    assert_eq!(input.obtained_date, Date { year: 2025, month: 2, day: 3 });
    assert_eq!(input.student_name, " 王五 ");
    assert_eq!(input.detail, None);
    assert_eq!(input.remark, Some("备".to_string()));
    match input.category_data {
        CategoryData::Object(entries) => {
            let keys: Vec<&str> = entries.iter().map(|(k, _)| k.as_str()).collect();
            assert_eq!(keys, vec!["name", "patent_no"]);
            assert_eq!(entries[0].1, s("专利名"));
        }
        CategoryData::NotObject => panic!("category data must be an object"),
    }
    assert_eq!(optional_value(&v, "remark"), Some("备".to_string()));
    assert_eq!(optional_value(&v, "missing"), None);
}

#[test]
fn unknown_category_and_bad_date_are_reported_together() {
    let v = form(&[("category", "chess"), ("obtained_date", "2025/02/03")]);
    let err = submission_input(&v, &plain_readings(&v)).unwrap_err();
    assert_eq!(err.first("category"), Some("成果类别为必填项"));
    assert_eq!(err.first("obtained_date"), Some("取得日期格式无效"));
    let v = FormValues::new();
    assert!(submission_input(&v, &[]).is_err());
}

#[test]
fn a_no_material_declaration_needs_confirmation() {
    let v = form(&[("has_result", "no"), ("student_name", " 赵六 "), ("student_no", " 2024003 ")]);
    match plan_submit(&v, &plain_readings(&v), &year(None), &[], Instant { secs: 0, nanos: 0 }) {
        SubmitPlan::Invalid(e) => {
            assert_eq!(e.message(), "请确认本学年暂无成果材料");
        }
        _ => panic!("confirmation is required"),
    }
    let v = form(&[
        ("has_result", "no"),
        ("student_name", " 赵六 "),
        ("student_no", " 2024003 "),
        ("no_result_confirm", "yes"),
    ]);
    match plan_submit(&v, &plain_readings(&v), &year(None), &[], Instant { secs: 0, nanos: 0 }) {
        SubmitPlan::Declaration { student_name, student_no } => {
            assert_eq!(student_name, "赵六");
            assert_eq!(student_no, "2024003");
        }
        _ => panic!("a declaration was expected"),
    }
    let late = year(Some(Instant { secs: 5, nanos: 0 }));
    match plan_submit(&v, &plain_readings(&v), &late, &[], Instant { secs: 6, nanos: 0 }) {
        SubmitPlan::Invalid(e) => assert!(e.contains_key("deadline")),
        _ => panic!("past the deadline"),
    }
}

fn patent_form() -> FormValues {
    form(&[
        ("has_result", "yes"),
        ("category", "patent"),
        ("obtained_date", "2025-02-03"),
        ("student_name", "王五"),
        ("student_no", "1"),
        ("result_name", "r"),
        ("name", "专利名"),
        ("type", "发明"),
        ("status", "授权"),
        ("ranking", "1"),
        ("patent_no", "CN9"),
    ])
}

#[test]
fn a_complete_form_becomes_a_submission() {
    let v = patent_form();
    let pdf = UploadInput::new("p.pdf".to_string(), "application/pdf".to_string(), vec![7]);
    match plan_submit(&v, &plain_readings(&v), &year(None), &[pdf.clone()], Instant { secs: 0, nanos: 0 }) {
        SubmitPlan::Submission(s) => {
            assert_eq!(s.category, Category::Patent);
            assert_eq!(s.uploads.len(), 1);
        }
        _ => panic!("the form is complete"),
    }
    match plan_submit(&v, &plain_readings(&v), &year(None), &[], Instant { secs: 0, nanos: 0 }) {
        SubmitPlan::Invalid(e) => assert_eq!(e.message(), "成果申报至少需要上传 1 个证明材料"),
        _ => panic!("an attachment is required"),
    }
    assert!(plan_update(&v, &plain_readings(&v), &year(Some(Instant { secs: 0, nanos: 0 })), &[], 2).is_ok());
    let bad = form(&[("category", "patent")]);
    let err = plan_update(&bad, &plain_readings(&bad), &year(None), &[], 2).unwrap_err();
    assert_eq!(err.message(), "取得日期格式无效");
}

#[test]
fn stored_answers_fill_the_form_and_the_detail_list() {
    let sub = submission(
        Category::AcademicCompetition,
        vec![
            ("competition_name", s("数模")),
            ("competition_type", s("A")),
            ("level", s("国家")),
            ("award_level", s("其他")),
            ("actual_award_rank", s("第五名")),
            ("catalog_no", JsonValue::Number("12".to_string(), NumberReading::NonNegative)),
            ("ignored", JsonValue::Array),
        ],
    );
    let (values, shown) = submission_values(&sub);
    assert_eq!(values.get("other_award"), Some("第五名"));
    assert_eq!(values.get("catalog_no"), Some("12"));
    assert_eq!(values.get("ignored"), None);
    let labels: Vec<&str> = shown.iter().map(|(l, _)| *l).collect();
    assert_eq!(labels, vec!["竞赛完整名称", "学科竞赛类别", "目录序号", "竞赛级别", "获奖等级", "实际奖项或名次"]);
    assert_eq!(shown[5].1, "第五名");
}

#[test]
fn stored_choices_map_back_to_option_values() {
    let sub = submission(
        Category::SportsArtsCompetition,
        vec![
            ("competition_name", s("校运会")),
            ("level", s("校")),
            ("has_award_level", s("否")),
            ("rank", s("第三")),
            ("is_seu_sports_meet", JsonValue::Bool(true)),
        ],
    );
    let (values, shown) = submission_values(&sub);
    assert_eq!(values.get("has_award_level"), Some("no"));
    assert_eq!(values.get("is_seu_sports_meet"), Some("yes"));
    assert!(shown.iter().any(|(l, v)| *l == "实际名次" && v == "第三"));
    assert!(!shown.iter().any(|(l, _)| *l == "奖项等级"));
    assert!(shown.iter().any(|(_, v)| v == "否"));
}

#[test]
fn edit_form_starts_from_the_stored_submission() {
    let sub = submission(Category::Patent, vec![("name", s("专利"))]);
    let values = edit_form_values(&sub);
    assert_eq!(values.get("student_name"), Some("李四"));
    assert_eq!(values.get("obtained_date"), Some("2025-01-05"));
    assert_eq!(values.get("category"), Some("patent"));
    assert_eq!(values.get("detail"), Some(""));
    assert_eq!(values.get("remark"), Some("备注"));
    assert_eq!(values.get("name"), Some("专利"));
}

#[test]
fn submission_form_helpers() {
    let f = SubmissionForm {
        csrf_token: "t".to_string(),
        values: form(&[("category", "sports_arts_competition"), ("has_award_level", "yes")]),
        errors: ValidationErrors::new(),
        action: "/submit".to_string(),
        editing: false,
    };
    assert_eq!(f.value("category"), "sports_arts_competition");
    assert_eq!(f.value("none"), "");
    assert!(!f.has_errors());
    assert!(f.selected("has_award_level", "yes"));
    assert!(!f.selected("has_award_level", "no"));
    assert!(f.checked("is_seu_sports_meet", "yes"));
    assert!(!f.checked("is_seu_sports_meet", "no"));
    let award = Field::text("award_level", "奖项等级").when("has_award_level", "yes");
    let rank = Field::text("rank", "实际名次").when("has_award_level", "no");
    assert!(f.active_field("sports_arts_competition", &award));
    assert!(!f.active_field("sports_arts_competition", &rank));
    assert!(!f.active_field("patent", &Field::text("name", "专利名称")));
    assert_eq!(f.category_sections().len(), 7);
}
