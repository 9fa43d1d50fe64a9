//! The answers each category of achievement requires.
use vstd::prelude::*;

use crate::domain::{data_get, data_text, keys, lookup, text_of, Category, CategoryData, JsonValue, NumberReading};
use crate::text::{chars_of, decimal, decimal_string, push_str, str_eq, trim, trim_chars};
use super::{add_msg, rejects_with, ValidationErrors};

verus! {

pub type Errs = Map<Seq<char>, Seq<Seq<char>>>;

/// Whether the text is empty once trimmed.
pub open spec fn blank(t: Seq<char>) -> bool {
    trim(t).len() == 0
}

/// A text answer that is present and not blank.
pub open spec fn filled(v: Option<Seq<char>>) -> bool {
    match v {
        Some(t) => !blank(t),
        None => false,
    }
}

pub open spec fn required_msg(label: Seq<char>) -> Seq<char> {
    label + "为必填项"@
}

pub open spec fn invalid_msg(label: Seq<char>) -> Seq<char> {
    label + "取值无效"@
}

/// A required text answer: a string that is not blank.
pub open spec fn required_text_errs(m: Errs, d: Seq<(String, JsonValue)>, key: Seq<char>, label: Seq<char>) -> Errs {
    match text_of(lookup(d, key)) {
        Some(t) => if blank(t) { add_msg(m, key, required_msg(label)) } else { m },
        None => add_msg(m, key, required_msg(label)),
    }
}

/// At least one of several keys holds a text that is not blank; the first key carries the error.
pub open spec fn required_text_any_errs(m: Errs, d: Seq<(String, JsonValue)>, ks: Seq<Seq<char>>, label: Seq<char>) -> Errs {
    if exists|i: int| 0 <= i < ks.len() && filled(#[trigger] text_of(lookup(d, ks[i]))) {
        m
    } else {
        add_msg(m, ks[0], required_msg(label))
    }
}

/// An optional text answer of at most `max` characters.
pub open spec fn optional_text_errs(m: Errs, d: Seq<(String, JsonValue)>, key: Seq<char>, label: Seq<char>, max: nat) -> Errs {
    match text_of(lookup(d, key)) {
        Some(t) => if t.len() > max {
            add_msg(m, key, label + "不能超过 "@ + decimal(max) + " 个字符"@)
        } else {
            m
        },
        None => m,
    }
}

/// The answer under `key` when it is one of the allowed texts.
pub open spec fn one_of_val(d: Seq<(String, JsonValue)>, key: Seq<char>, allowed: Seq<Seq<char>>) -> Option<Seq<char>> {
    match text_of(lookup(d, key)) {
        Some(t) => if allowed.contains(t) { Some(t) } else { None },
        None => None,
    }
}

/// A required choice among fixed texts.
pub open spec fn one_of_errs(m: Errs, d: Seq<(String, JsonValue)>, key: Seq<char>, label: Seq<char>, allowed: Seq<Seq<char>>) -> Errs {
    match text_of(lookup(d, key)) {
        Some(t) => if allowed.contains(t) { m } else { add_msg(m, key, invalid_msg(label)) },
        None => add_msg(m, key, required_msg(label)),
    }
}

/// A yes/no answer: a JSON boolean, or the texts yes/是 and no/否.
pub open spec fn bool_val(v: JsonValue) -> Option<bool> {
    match v {
        JsonValue::Bool(b) => Some(b),
        JsonValue::Str(s, _) => if s@ == "yes"@ || s@ == "是"@ {
            Some(true)
        } else if s@ == "no"@ || s@ == "否"@ {
            Some(false)
        } else {
            None
        },
        _ => None,
    }
}

pub open spec fn bool_choice_val(d: Seq<(String, JsonValue)>, key: Seq<char>) -> Option<bool> {
    match lookup(d, key) {
        Some(v) => bool_val(v),
        None => None,
    }
}

/// A required yes/no answer.
pub open spec fn bool_choice_errs(m: Errs, d: Seq<(String, JsonValue)>, key: Seq<char>, label: Seq<char>) -> Errs {
    match lookup(d, key) {
        Some(v) => if bool_val(v) is Some { m } else { add_msg(m, key, invalid_msg(label)) },
        None => add_msg(m, key, required_msg(label)),
    }
}

/// An optional yes/no answer: checked only when present.
pub open spec fn optional_bool_errs(m: Errs, d: Seq<(String, JsonValue)>, key: Seq<char>, label: Seq<char>) -> Errs {
    if lookup(d, key) is Some {
        bool_choice_errs(m, d, key, label)
    } else {
        m
    }
}

/// A required number that is finite and not negative (a number, or a text that reads as one).
pub open spec fn required_number_errs(m: Errs, d: Seq<(String, JsonValue)>, key: Seq<char>, label: Seq<char>) -> Errs {
    match lookup(d, key) {
        Some(v) => {
            let valid = match v {
                JsonValue::Number(_, r) => r == NumberReading::NonNegative,
                JsonValue::Str(_, r) => r == NumberReading::NonNegative,
                _ => false,
            };
            if valid { m } else { add_msg(m, key, label + "必须是非负数字"@) }
        },
        None => add_msg(m, key, required_msg(label)),
    }
}

pub fn required_text(data: &[(String, JsonValue)], errors: &mut ValidationErrors, key: &str, label: &str)
    requires
        old(errors).wf(),
    ensures
        final(errors).wf(),
        final(errors)@ == required_text_errs(old(errors)@, data@, key@, label@),
{
    let ok = match data_text(data, key) {
        Some(value) => {
            let cs = chars_of(value);
            let t = trim_chars(cs.as_slice());
            t.len() > 0
        },
        None => false,
    };
    if !ok {
        let mut msg = String::new();
        push_str(&mut msg, label);
        push_str(&mut msg, "为必填项");
        errors.add(key, msg.as_str());
    }
}

pub fn required_text_any(data: &[(String, JsonValue)], errors: &mut ValidationErrors, ks: &[&str], label: &str)
    requires
        old(errors).wf(),
        ks@.len() > 0,
    ensures
        final(errors).wf(),
        final(errors)@ == required_text_any_errs(old(errors)@, data@, ks@.map_values(|k: &str| k@), label@),
{
    let ghost kv = ks@.map_values(|k: &str| k@);
    let mut i: usize = 0;
    while i < ks.len()
        invariant
            i <= ks@.len(),
            *errors == *old(errors),
            old(errors).wf(),
            kv == ks@.map_values(|k: &str| k@),
            forall|j: int| 0 <= j < i ==> !filled(#[trigger] text_of(lookup(data@, kv[j]))),
        decreases ks@.len() - i,
    {
        if let Some(value) = data_text(data, ks[i]) {
            let cs = chars_of(value);
            let t = trim_chars(cs.as_slice());
            if t.len() > 0 {
                assert(kv[i as int] == ks@[i as int]@);
                assert(filled(text_of(lookup(data@, kv[i as int]))));
                return;
            }
        }
        assert(kv[i as int] == ks@[i as int]@);
        i = i + 1;
    }
    let mut msg = String::new();
    push_str(&mut msg, label);
    push_str(&mut msg, "为必填项");
    errors.add(ks[0], msg.as_str());
}

pub fn optional_text(data: &[(String, JsonValue)], errors: &mut ValidationErrors, key: &str, label: &str, max: u64)
    requires
        old(errors).wf(),
    ensures
        final(errors).wf(),
        final(errors)@ == optional_text_errs(old(errors)@, data@, key@, label@, max as nat),
{
    if let Some(value) = data_text(data, key) {
        let cs = chars_of(value);
        if cs.len() as u64 > max {
            let mut msg = String::new();
            push_str(&mut msg, label);
            push_str(&mut msg, "不能超过 ");
            let n = decimal_string(max);
            push_str(&mut msg, n.as_str());
            push_str(&mut msg, " 个字符");
            errors.add(key, msg.as_str());
        }
    }
}

/// Whether `value` is one of the allowed texts.
pub fn contains_text(allowed: &[&str], value: &str) -> (r: bool)
    ensures
        r == allowed@.map_values(|k: &str| k@).contains(value@),
{
    let ghost av = allowed@.map_values(|k: &str| k@);
    let mut i: usize = 0;
    while i < allowed.len()
        invariant
            i <= allowed@.len(),
            av == allowed@.map_values(|k: &str| k@),
            forall|j: int| 0 <= j < i ==> av[j] != value@,
        decreases allowed@.len() - i,
    {
        if str_eq(allowed[i], value) {
            assert(av[i as int] == value@);
            return true;
        }
        i = i + 1;
    }
    false
}

pub fn one_of<'a>(data: &'a [(String, JsonValue)], errors: &mut ValidationErrors, key: &str, label: &str, allowed: &[&str]) -> (r: Option<&'a str>)
    requires
        old(errors).wf(),
    ensures
        final(errors).wf(),
        final(errors)@ == one_of_errs(old(errors)@, data@, key@, label@, allowed@.map_values(|k: &str| k@)),
        r matches Some(t) ==> one_of_val(data@, key@, allowed@.map_values(|k: &str| k@)) == Some(t@),
        r is None ==> one_of_val(data@, key@, allowed@.map_values(|k: &str| k@)) is None,
{
    match data_text(data, key) {
        None => {
            let mut msg = String::new();
            push_str(&mut msg, label);
            push_str(&mut msg, "为必填项");
            errors.add(key, msg.as_str());
            None
        },
        Some(value) => {
            if contains_text(allowed, value) {
                Some(value)
            } else {
                let mut msg = String::new();
                push_str(&mut msg, label);
                push_str(&mut msg, "取值无效");
                errors.add(key, msg.as_str());
                None
            }
        },
    }
}

fn bool_of(v: &JsonValue) -> (r: Option<bool>)
    ensures
        r == bool_val(*v),
{
    match v {
        JsonValue::Bool(b) => Some(*b),
        JsonValue::Str(s, _) => {
            if str_eq(s.as_str(), "yes") || str_eq(s.as_str(), "是") {
                Some(true)
            } else if str_eq(s.as_str(), "no") || str_eq(s.as_str(), "否") {
                Some(false)
            } else {
                None
            }
        },
        _ => None,
    }
}

pub fn boolean_choice(data: &[(String, JsonValue)], errors: &mut ValidationErrors, key: &str, label: &str) -> (r: Option<bool>)
    requires
        old(errors).wf(),
    ensures
        final(errors).wf(),
        final(errors)@ == bool_choice_errs(old(errors)@, data@, key@, label@),
        r == bool_choice_val(data@, key@),
{
    match data_get(data, key) {
        None => {
            let mut msg = String::new();
            push_str(&mut msg, label);
            push_str(&mut msg, "为必填项");
            errors.add(key, msg.as_str());
            None
        },
        Some(v) => {
            let b = bool_of(v);
            if b.is_none() {
                let mut msg = String::new();
                push_str(&mut msg, label);
                push_str(&mut msg, "取值无效");
                errors.add(key, msg.as_str());
            }
            b
        },
    }
}

pub fn optional_boolean(data: &[(String, JsonValue)], errors: &mut ValidationErrors, key: &str, label: &str)
    requires
        old(errors).wf(),
    ensures
        final(errors).wf(),
        final(errors)@ == optional_bool_errs(old(errors)@, data@, key@, label@),
{
    if data_get(data, key).is_some() {
        let _ = boolean_choice(data, errors, key, label);
    }
}

pub fn required_number(data: &[(String, JsonValue)], errors: &mut ValidationErrors, key: &str, label: &str)
    requires
        old(errors).wf(),
    ensures
        final(errors).wf(),
        final(errors)@ == required_number_errs(old(errors)@, data@, key@, label@),
{
    match data_get(data, key) {
        None => {
            let mut msg = String::new();
            push_str(&mut msg, label);
            push_str(&mut msg, "为必填项");
            errors.add(key, msg.as_str());
        },
        Some(v) => {
            let valid = match v {
                JsonValue::Number(_, r) => *r == NumberReading::NonNegative,
                JsonValue::Str(_, r) => *r == NumberReading::NonNegative,
                _ => false,
            };
            if !valid {
                let mut msg = String::new();
                push_str(&mut msg, label);
                push_str(&mut msg, "必须是非负数字");
                errors.add(key, msg.as_str());
            }
        },
    }
}


pub open spec fn competition_types() -> Seq<Seq<char>> {
    seq!["A+/A"@, "A+"@, "A"@, "B"@, "C"@, "未列入/不清楚"@]
}

pub open spec fn competition_levels() -> Seq<Seq<char>> {
    seq!["国家"@, "省部"@, "市"@, "校"@]
}

pub open spec fn award_levels() -> Seq<Seq<char>> {
    seq!["一等奖"@, "二等奖"@, "三等奖"@, "优秀/鼓励奖"@, "其他"@]
}

pub open spec fn sports_levels() -> Seq<Seq<char>> {
    seq!["国家"@, "省部"@, "市"@, "校"@, "其他/不清楚"@]
}

pub open spec fn scholarship_answers() -> Seq<Seq<char>> {
    seq!["yes"@, "no"@, "uncertain"@, "是"@, "否"@, "不确定"@]
}

pub open spec fn article_natures() -> Seq<Seq<char>> {
    seq!["academic"@, "non_academic"@, "学术论文"@, "非学术文章"@]
}

pub open spec fn certificate_types() -> Seq<Seq<char>> {
    seq!["CET-6"@, "computer"@, "雅思/托福"@, "other"@, "计算机"@, "其他资格证书"@]
}

pub open spec fn other_award_keys() -> Seq<Seq<char>> {
    seq!["other_award"@, "award_detail"@, "actual_award_rank"@]
}

pub open spec fn academic_errs(m: Errs, d: Seq<(String, JsonValue)>) -> Errs {
    let m1 = required_text_errs(m, d, "competition_name"@, "竞赛完整名称"@);
    let m2 = one_of_errs(m1, d, "competition_type"@, "学科竞赛类别"@, competition_types());
    let m3 = one_of_errs(m2, d, "level"@, "竞赛级别"@, competition_levels());
    let m4 = one_of_errs(m3, d, "award_level"@, "获奖等级"@, award_levels());
    let m5 = if one_of_val(d, "award_level"@, award_levels()) == Some("其他"@) {
        required_text_any_errs(m4, d, other_award_keys(), "实际奖项或名次"@)
    } else {
        m4
    };
    optional_text_errs(m5, d, "catalog_no"@, "目录序号"@, 100)
}

pub open spec fn sports_errs(m: Errs, d: Seq<(String, JsonValue)>) -> Errs {
    let m1 = required_text_errs(m, d, "competition_name"@, "比赛完整名称"@);
    let m2 = one_of_errs(m1, d, "level"@, "比赛级别"@, sports_levels());
    let m3 = bool_choice_errs(m2, d, "has_award_level"@, "是否有明确奖项等级"@);
    let m4 = match bool_choice_val(d, "has_award_level"@) {
        Some(true) => required_text_errs(m3, d, "award_level"@, "奖项等级"@),
        Some(false) => required_text_errs(m3, d, "rank"@, "实际名次"@),
        None => m3,
    };
    optional_bool_errs(m4, d, "is_seu_sports_meet"@, "是否属于东南大学运动会相关项目"@)
}

pub open spec fn other_award_errs(m: Errs, d: Seq<(String, JsonValue)>) -> Errs {
    let m1 = required_text_errs(m, d, "award_name"@, "荣誉完整名称"@);
    let m2 = required_text_errs(m1, d, "recognition_level"@, "表彰级别"@);
    let m3 = one_of_errs(m2, d, "is_scholarship"@, "是否奖学金/助学金"@, scholarship_answers());
    required_text_errs(m3, d, "school_honor_category"@, "校级荣誉类别"@)
}

pub open spec fn article_errs(m: Errs, d: Seq<(String, JsonValue)>) -> Errs {
    let m1 = required_text_errs(m, d, "title"@, "文章标题"@);
    let m2 = one_of_errs(m1, d, "nature"@, "文章性质"@, article_natures());
    let nature = one_of_val(d, "nature"@, article_natures());
    if nature == Some("academic"@) || nature == Some("学术论文"@) {
        let a = required_text_errs(m2, d, "publication_type"@, "发表类型"@);
        let b = required_text_errs(a, d, "author_order"@, "作者排序"@);
        required_text_errs(b, d, "journal_name"@, "期刊名称"@)
    } else if nature == Some("non_academic"@) || nature == Some("非学术文章"@) {
        let a = required_text_errs(m2, d, "platform"@, "发表平台"@);
        let b = required_text_errs(a, d, "publication_form"@, "发表形式"@);
        required_text_errs(b, d, "link_or_info"@, "链接或发表信息"@)
    } else {
        m2
    }
}

pub open spec fn social_errs(m: Errs, d: Seq<(String, JsonValue)>) -> Errs {
    let m1 = required_text_errs(m, d, "project_name"@, "项目名称"@);
    let m2 = required_text_errs(m1, d, "level"@, "项目级别"@);
    let m3 = required_text_errs(m2, d, "identity"@, "本人身份"@);
    required_text_errs(m3, d, "award_level_or_none"@, "获奖等级或无具体等级"@)
}

pub open spec fn patent_errs(m: Errs, d: Seq<(String, JsonValue)>) -> Errs {
    let m1 = required_text_errs(m, d, "name"@, "专利名称"@);
    let m2 = required_text_errs(m1, d, "type"@, "专利类型"@);
    let m3 = required_text_errs(m2, d, "status"@, "专利状态"@);
    let m4 = required_text_errs(m3, d, "ranking"@, "项目组排名"@);
    required_text_errs(m4, d, "patent_no"@, "专利号或申请号"@)
}

pub open spec fn certification_errs(m: Errs, d: Seq<(String, JsonValue)>) -> Errs {
    let m1 = one_of_errs(m, d, "certificate_type"@, "证书/考试类型"@, certificate_types());
    let kind = one_of_val(d, "certificate_type"@, certificate_types());
    if kind == Some("CET-6"@) {
        required_number_errs(m1, d, "cet6_score"@, "CET-6 成绩"@)
    } else if kind == Some("computer"@) || kind == Some("计算机"@) {
        let a = required_text_errs(m1, d, "computer_category"@, "计算机专业类别"@);
        required_text_errs(a, d, "exam_level"@, "计算机考试等级"@)
    } else if kind == Some("雅思/托福"@) {
        required_number_errs(m1, d, "language_score"@, "雅思/托福成绩"@)
    } else if kind == Some("other"@) || kind == Some("其他资格证书"@) {
        required_text_errs(m1, d, "qualification_name"@, "其他资格证书名称"@)
    } else {
        m1
    }
}

/// The messages the rules of `c` give for `data`.
pub open spec fn category_errors(c: Category, data: CategoryData) -> Errs {
    let m = Map::<Seq<char>, Seq<Seq<char>>>::empty();
    match data {
        CategoryData::NotObject => add_msg(m, "category_data"@, "类别字段必须是结构化对象"@),
        CategoryData::Object(d) => match c {
            Category::AcademicCompetition => academic_errs(m, d@),
            Category::SportsArtsCompetition => sports_errs(m, d@),
            Category::OtherAward => other_award_errs(m, d@),
            Category::PublishedArticle => article_errs(m, d@),
            Category::SocialPractice => social_errs(m, d@),
            Category::Patent => patent_errs(m, d@),
            Category::Certification => certification_errs(m, d@),
        },
    }
}

/// Checks the category-specific answers of a submission.
pub fn validate_category(category: Category, data: &CategoryData) -> (r: Result<(), ValidationErrors>)
    ensures
        rejects_with(r, category_errors(category, *data)),
{
    let mut errors = ValidationErrors::new();
    match data {
        CategoryData::NotObject => {
            errors.add("category_data", "类别字段必须是结构化对象");
            return Err(errors);
        },
        CategoryData::Object(object) => {
            let d = object.as_slice();
            match category {
                Category::AcademicCompetition => validate_academic(d, &mut errors),
                Category::SportsArtsCompetition => validate_sports(d, &mut errors),
                Category::OtherAward => validate_other_award(d, &mut errors),
                Category::PublishedArticle => validate_article(d, &mut errors),
                Category::SocialPractice => validate_social(d, &mut errors),
                Category::Patent => validate_patent(d, &mut errors),
                Category::Certification => validate_certification(d, &mut errors),
            }
        },
    }
    if errors.is_empty() {
        Ok(())
    } else {
        Err(errors)
    }
}

fn validate_academic(data: &[(String, JsonValue)], errors: &mut ValidationErrors)
    requires
        old(errors).wf(),
    ensures
        final(errors).wf(),
        final(errors)@ == academic_errs(old(errors)@, data@),
{
    let types: [&str; 6] = ["A+/A", "A+", "A", "B", "C", "未列入/不清楚"];
    let levels: [&str; 4] = ["国家", "省部", "市", "校"];
    let awards: [&str; 5] = ["一等奖", "二等奖", "三等奖", "优秀/鼓励奖", "其他"];
    assert(types@.map_values(|k: &str| k@) =~= competition_types());
    assert(levels@.map_values(|k: &str| k@) =~= competition_levels());
    assert(awards@.map_values(|k: &str| k@) =~= award_levels());
    required_text(data, errors, keys::COMPETITION_NAME, "竞赛完整名称");
    one_of(data, errors, keys::COMPETITION_TYPE, "学科竞赛类别", types.as_slice());
    one_of(data, errors, keys::LEVEL, "竞赛级别", levels.as_slice());
    let award = one_of(data, errors, keys::AWARD_LEVEL, "获奖等级", awards.as_slice());
    let is_other = match award {
        Some(a) => str_eq(a, "其他"),
        None => false,
    };
    if is_other {
        let alternatives: [&str; 3] = [keys::OTHER_AWARD, "award_detail", "actual_award_rank"];
        assert(alternatives@.map_values(|k: &str| k@) =~= other_award_keys());
        required_text_any(data, errors, alternatives.as_slice(), "实际奖项或名次");
    }
    optional_text(data, errors, keys::CATALOG_NO, "目录序号", 100);
}

fn validate_sports(data: &[(String, JsonValue)], errors: &mut ValidationErrors)
    requires
        old(errors).wf(),
    ensures
        final(errors).wf(),
        final(errors)@ == sports_errs(old(errors)@, data@),
{
    let levels: [&str; 5] = ["国家", "省部", "市", "校", "其他/不清楚"];
    assert(levels@.map_values(|k: &str| k@) =~= sports_levels());
    required_text(data, errors, keys::COMPETITION_NAME, "比赛完整名称");
    one_of(data, errors, keys::LEVEL, "比赛级别", levels.as_slice());
    let has_award = boolean_choice(data, errors, keys::HAS_AWARD_LEVEL, "是否有明确奖项等级");
    match has_award {
        Some(true) => required_text(data, errors, keys::AWARD_LEVEL, "奖项等级"),
        Some(false) => required_text(data, errors, keys::RANK, "实际名次"),
        None => {},
    }
    optional_boolean(data, errors, keys::IS_SEU_SPORTS_MEET, "是否属于东南大学运动会相关项目");
}

fn validate_other_award(data: &[(String, JsonValue)], errors: &mut ValidationErrors)
    requires
        old(errors).wf(),
    ensures
        final(errors).wf(),
        final(errors)@ == other_award_errs(old(errors)@, data@),
{
    let answers: [&str; 6] = ["yes", "no", "uncertain", "是", "否", "不确定"];
    assert(answers@.map_values(|k: &str| k@) =~= scholarship_answers());
    required_text(data, errors, keys::AWARD_NAME, "荣誉完整名称");
    required_text(data, errors, keys::RECOGNITION_LEVEL, "表彰级别");
    one_of(data, errors, keys::IS_SCHOLARSHIP, "是否奖学金/助学金", answers.as_slice());
    required_text(data, errors, keys::SCHOOL_HONOR_CATEGORY, "校级荣誉类别");
}

fn validate_article(data: &[(String, JsonValue)], errors: &mut ValidationErrors)
    requires
        old(errors).wf(),
    ensures
        final(errors).wf(),
        final(errors)@ == article_errs(old(errors)@, data@),
{
    let natures: [&str; 4] = ["academic", "non_academic", "学术论文", "非学术文章"];
    assert(natures@.map_values(|k: &str| k@) =~= article_natures());
    required_text(data, errors, keys::TITLE, "文章标题");
    let nature = one_of(data, errors, keys::NATURE, "文章性质", natures.as_slice());
    let (academic, non_academic) = match nature {
        Some(n) => (
            str_eq(n, "academic") || str_eq(n, "学术论文"),
            str_eq(n, "non_academic") || str_eq(n, "非学术文章"),
        ),
        None => (false, false),
    };
    if academic {
        required_text(data, errors, keys::PUBLICATION_TYPE, "发表类型");
        required_text(data, errors, keys::AUTHOR_ORDER, "作者排序");
        required_text(data, errors, keys::JOURNAL_NAME, "期刊名称");
    } else if non_academic {
        required_text(data, errors, keys::PLATFORM, "发表平台");
        required_text(data, errors, keys::PUBLICATION_FORM, "发表形式");
        required_text(data, errors, keys::LINK_OR_INFO, "链接或发表信息");
    }
}

fn validate_social(data: &[(String, JsonValue)], errors: &mut ValidationErrors)
    requires
        old(errors).wf(),
    ensures
        final(errors).wf(),
        final(errors)@ == social_errs(old(errors)@, data@),
{
    required_text(data, errors, keys::PROJECT_NAME, "项目名称");
    required_text(data, errors, keys::LEVEL, "项目级别");
    required_text(data, errors, keys::IDENTITY, "本人身份");
    required_text(data, errors, keys::AWARD_LEVEL_OR_NONE, "获奖等级或无具体等级");
}

fn validate_patent(data: &[(String, JsonValue)], errors: &mut ValidationErrors)
    requires
        old(errors).wf(),
    ensures
        final(errors).wf(),
        final(errors)@ == patent_errs(old(errors)@, data@),
{
    required_text(data, errors, keys::NAME, "专利名称");
    required_text(data, errors, keys::TYPE, "专利类型");
    required_text(data, errors, keys::STATUS, "专利状态");
    required_text(data, errors, keys::RANKING, "项目组排名");
    required_text(data, errors, keys::PATENT_NO, "专利号或申请号");
}

fn validate_certification(data: &[(String, JsonValue)], errors: &mut ValidationErrors)
    requires
        old(errors).wf(),
    ensures
        final(errors).wf(),
        final(errors)@ == certification_errs(old(errors)@, data@),
{
    let kinds: [&str; 6] = ["CET-6", "computer", "雅思/托福", "other", "计算机", "其他资格证书"];
    assert(kinds@.map_values(|k: &str| k@) =~= certificate_types());
    let kind = one_of(data, errors, keys::CERTIFICATE_TYPE, "证书/考试类型", kinds.as_slice());
    match kind {
        Some(k) => {
            if str_eq(k, "CET-6") {
                required_number(data, errors, keys::CET6_SCORE, "CET-6 成绩");
            } else if str_eq(k, "computer") || str_eq(k, "计算机") {
                required_text(data, errors, keys::COMPUTER_CATEGORY, "计算机专业类别");
                required_text(data, errors, keys::EXAM_LEVEL, "计算机考试等级");
            } else if str_eq(k, "雅思/托福") {
                required_number(data, errors, keys::LANGUAGE_SCORE, "雅思/托福成绩");
            } else if str_eq(k, "other") || str_eq(k, "其他资格证书") {
                required_text(data, errors, keys::QUALIFICATION_NAME, "其他资格证书名称");
            }
        },
        None => {},
    }
}

/// A computer certificate with its professional category and exam level filled in has no
/// error: in particular nothing is asked under `qualification_name`, which only the other
/// certificate type needs.
pub proof fn law_computer_certificate_accepted(data: CategoryData, kind: Seq<char>)
    requires
        kind == "computer"@ || kind == "计算机"@,
        data matches CategoryData::Object(d) && text_of(lookup(d@, "certificate_type"@)) == Some(kind)
            && filled(text_of(lookup(d@, "computer_category"@)))
            && filled(text_of(lookup(d@, "exam_level"@))),
    ensures
        category_errors(Category::Certification, data) == Map::<Seq<char>, Seq<Seq<char>>>::empty(),
{
    reveal_strlit("CET-6");
    reveal_strlit("computer");
    reveal_strlit("计算机");
    reveal_strlit("雅思/托福");
    reveal_strlit("other");
    reveal_strlit("其他资格证书");
    assert(certificate_types()[1] == "computer"@);
    assert(certificate_types()[4] == "计算机"@);
    assert(certificate_types().contains(kind));
}

/// An other-type certificate with its name filled in has no error.
pub proof fn law_other_certificate_accepted(data: CategoryData, kind: Seq<char>)
    requires
        kind == "other"@ || kind == "其他资格证书"@,
        data matches CategoryData::Object(d) && text_of(lookup(d@, "certificate_type"@)) == Some(kind)
            && filled(text_of(lookup(d@, "qualification_name"@))),
    ensures
        category_errors(Category::Certification, data) == Map::<Seq<char>, Seq<Seq<char>>>::empty(),
{
    reveal_strlit("CET-6");
    reveal_strlit("computer");
    reveal_strlit("计算机");
    reveal_strlit("雅思/托福");
    reveal_strlit("other");
    reveal_strlit("其他资格证书");
    assert("其他资格证书"@.len() == 6 && "CET-6"@.len() == 5 && "computer"@.len() == 8);
    assert("计算机"@.len() == 3 && "雅思/托福"@.len() == 5);
    assert("other"@[0] != "CET-6"@[0]);
    assert("other"@ != "CET-6"@ && "other"@ != "computer"@ && "other"@ != "计算机"@ && "other"@ != "雅思/托福"@);
    assert("其他资格证书"@ != "CET-6"@ && "其他资格证书"@ != "computer"@ && "其他资格证书"@ != "计算机"@ && "其他资格证书"@ != "雅思/托福"@);
    assert(certificate_types()[3] == "other"@);
    assert(certificate_types()[5] == "其他资格证书"@);
    assert(certificate_types().contains(kind));
}

} // verus!
