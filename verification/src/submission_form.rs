//! The submission form: what it shows of a stored submission and how it reads back.
use vstd::prelude::*;

use crate::domain::{
    category_name, chrono_ymd, category_from_name, date_string, date_text, keys, lookup,
    parse_category, parse_ymd, valid_date, Category,
    AcademicYear, CategoryData, Date, Instant, JsonValue, NumberReading, Submission,
};
use crate::fields::{
    academic_fields, article_fields, category_sections, certification_fields, form_sections,
    options_view, other_award_fields, patent_fields, social_practice_fields, sports_arts_fields,
    CategorySection, Field, FieldView,
};
use crate::form::FormValues;
use crate::text::{str_eq, trim, trimmed};
use crate::storage::UploadInput;
use crate::validation::submission::{
    declaration_errs, deadline_errs, submission_errs, validate_deadline, validate_declaration,
    validate_fields, validate_student_update, validated_submission, SubmissionInput,
    ValidatedSubmission,
};
use crate::validation::{add_msg, merge_msgs, rejects_with, ValidationErrors};

verus! {

// ---------------------------------------------------------------------------
// Stored answers as form values
// ---------------------------------------------------------------------------

/// The choice fields whose stored answers may be the labels 是 and 否.
pub open spec fn is_yes_no_key(k: Seq<char>) -> bool {
    k == keys::HAS_AWARD_LEVEL@ || k == keys::IS_SEU_SPORTS_MEET@ || k == keys::IS_SCHOLARSHIP@
}

/// The form value of a stored answer: labels that older records stored for a choice are
/// read back as the choice's value; any other text stays as it is.
pub open spec fn form_choice_value(k: Seq<char>, t: Seq<char>) -> Seq<char> {
    if is_yes_no_key(k) && t == "是"@ {
        "yes"@
    } else if is_yes_no_key(k) && t == "否"@ {
        "no"@
    } else if k == keys::IS_SCHOLARSHIP@ && t == "不确定"@ {
        "uncertain"@
    } else if k == keys::NATURE@ && t == "学术论文"@ {
        "academic"@
    } else if k == keys::NATURE@ && t == "非学术文章"@ {
        "non_academic"@
    } else if k == keys::CERTIFICATE_TYPE@ && t == "计算机"@ {
        "computer"@
    } else if k == keys::CERTIFICATE_TYPE@ && t == "其他资格证书"@ {
        "other"@
    } else {
        t
    }
}

/// The text of a stored value as a form shows it: strings as they are, booleans as
/// `yes`/`no`, numbers as their JSON text; other values have none.
pub open spec fn value_text(v: JsonValue) -> Option<Seq<char>> {
    match v {
        JsonValue::Str(t, _) => Some(t@),
        JsonValue::Bool(b) => Some(if b { "yes"@ } else { "no"@ }),
        JsonValue::Number(t, _) => Some(t@),
        _ => None,
    }
}

/// The form value of the stored answer under `k`.
pub open spec fn stored_base(data: CategoryData, k: Seq<char>) -> Option<Seq<char>> {
    match data {
        CategoryData::Object(es) => match lookup(es@, k) {
            Some(v) => match value_text(v) {
                Some(t) => Some(form_choice_value(k, t)),
                None => None,
            },
            None => None,
        },
        CategoryData::NotObject => None,
    }
}

/// Missing, or only whitespace.
pub open spec fn blank(v: Option<Seq<char>>) -> bool {
    match v {
        Some(t) => trim(t).len() == 0,
        None => true,
    }
}

/// The actual award that older records stored under other names.
pub open spec fn legacy_award(data: CategoryData) -> Option<Seq<char>> {
    if !blank(stored_base(data, "award_detail"@)) {
        stored_base(data, "award_detail"@)
    } else if !blank(stored_base(data, "actual_award_rank"@)) {
        stored_base(data, "actual_award_rank"@)
    } else {
        None
    }
}

/// The value the edit form starts with for the category field `k` of a stored submission.
pub open spec fn stored_value(s: Submission, k: Seq<char>) -> Option<Seq<char>> {
    if k == keys::OTHER_AWARD@ && s.category == Category::AcademicCompetition && blank(
        stored_base(s.category_data, keys::OTHER_AWARD@),
    ) && legacy_award(s.category_data) is Some {
        legacy_award(s.category_data)
    } else {
        stored_base(s.category_data, k)
    }
}

/// The label of the choice whose value is `v`, or `v` itself when no choice has it.
pub open spec fn option_label(options: Seq<(Seq<char>, Seq<char>)>, v: Seq<char>) -> Seq<char>
    decreases options.len(),
{
    if options.len() == 0 {
        v
    } else if options[0].0 == v {
        options[0].1
    } else {
        option_label(options.drop_first(), v)
    }
}

/// Whether a stored submission shows the field `f`: its condition holds and it has a
/// non-empty value.
pub open spec fn field_shown(f: FieldView, s: Submission) -> bool {
    &&& (f.when_key.len() == 0 || stored_value(s, f.when_key) == Some(f.when_value))
    &&& stored_value(s, f.key) matches Some(v) && v.len() > 0
}

/// The (label, shown value) pairs of the fields a stored submission shows, in form order.
pub open spec fn shown_fields(fields: Seq<FieldView>, s: Submission) -> Seq<(Seq<char>, Seq<char>)>
    decreases fields.len(),
{
    if fields.len() == 0 {
        Seq::empty()
    } else {
        let rest = shown_fields(fields.drop_last(), s);
        let f = fields.last();
        if field_shown(f, s) {
            rest.push((f.label, option_label(f.options, stored_value(s, f.key).unwrap())))
        } else {
            rest
        }
    }
}

/// The form fields of a category.
pub open spec fn section_fields(c: Category) -> Seq<FieldView> {
    match c {
        Category::AcademicCompetition => academic_fields(),
        Category::SportsArtsCompetition => sports_arts_fields(),
        Category::OtherAward => other_award_fields(),
        Category::PublishedArticle => article_fields(),
        Category::SocialPractice => social_practice_fields(),
        Category::Patent => patent_fields(),
        Category::Certification => certification_fields(),
    }
}

proof fn lemma_lookup_some(s: Seq<(String, JsonValue)>, k: Seq<char>)
    ensures
        (lookup(s, k) is Some) == (exists|j: int| 0 <= j < s.len() && (#[trigger] s[j]).0@ == k),
    decreases s.len(),
{
    if s.len() > 0 {
        lemma_lookup_some(s.drop_first(), k);
        if exists|j: int| 0 <= j < s.len() && (#[trigger] s[j]).0@ == k {
            let j = choose|j: int| 0 <= j < s.len() && (#[trigger] s[j]).0@ == k;
            if j > 0 {
                assert(s.drop_first()[j - 1] == s[j]);
            }
        }
        if exists|j: int| 0 <= j < s.drop_first().len() && (#[trigger] s.drop_first()[j]).0@ == k {
            let j = choose|j: int| 0 <= j < s.drop_first().len() && (#[trigger] s.drop_first()[j]).0@ == k;
            assert(s[j + 1] == s.drop_first()[j]);
        }
    }
}

proof fn lemma_lookup_push(s: Seq<(String, JsonValue)>, e: (String, JsonValue), k: Seq<char>)
    ensures
        lookup(s.push(e), k) == (if lookup(s, k) is Some {
            lookup(s, k)
        } else if e.0@ == k {
            Some(e.1)
        } else {
            None
        }),
    decreases s.len(),
{
    if s.len() > 0 {
        assert(s.push(e).drop_first() =~= s.drop_first().push(e));
        lemma_lookup_push(s.drop_first(), e, k);
    } else {
        assert(s.push(e).drop_first() =~= s);
    }
}

/// Whether the key of entry `i` occurs in an earlier entry.
fn key_seen_before(es: &[(String, JsonValue)], i: usize) -> (r: bool)
    requires
        i < es@.len(),
    ensures
        r == (lookup(es@.take(i as int), es@[i as int].0@) is Some),
{
    let mut j: usize = 0;
    while j < i
        invariant
            j <= i < es@.len(),
            forall|m: int| 0 <= m < j ==> (#[trigger] es@[m]).0@ != es@[i as int].0@,
        decreases i - j,
    {
        if str_eq(es[j].0.as_str(), es[i].0.as_str()) {
            proof {
                lemma_lookup_some(es@.take(i as int), es@[i as int].0@);
                assert(es@.take(i as int)[j as int] == es@[j as int]);
            }
            return true;
        }
        j = j + 1;
    }
    proof {
        lemma_lookup_some(es@.take(i as int), es@[i as int].0@);
        assert forall|m: int| 0 <= m < i implies (#[trigger] es@.take(i as int)[m]).0@ != es@[i as int].0@ by {
            assert(es@.take(i as int)[m] == es@[m]);
        }
    }
    false
}

fn form_choice_text(key: &str, t: &str) -> (r: String)
    ensures
        r@ == form_choice_value(key@, t@),
{
    let yes_no = str_eq(key, keys::HAS_AWARD_LEVEL) || str_eq(key, keys::IS_SEU_SPORTS_MEET)
        || str_eq(key, keys::IS_SCHOLARSHIP);
    if yes_no && str_eq(t, "是") {
        "yes".to_owned()
    } else if yes_no && str_eq(t, "否") {
        "no".to_owned()
    } else if str_eq(key, keys::IS_SCHOLARSHIP) && str_eq(t, "不确定") {
        "uncertain".to_owned()
    } else if str_eq(key, keys::NATURE) && str_eq(t, "学术论文") {
        "academic".to_owned()
    } else if str_eq(key, keys::NATURE) && str_eq(t, "非学术文章") {
        "non_academic".to_owned()
    } else if str_eq(key, keys::CERTIFICATE_TYPE) && str_eq(t, "计算机") {
        "computer".to_owned()
    } else if str_eq(key, keys::CERTIFICATE_TYPE) && str_eq(t, "其他资格证书") {
        "other".to_owned()
    } else {
        t.to_owned()
    }
}

fn value_text_of(v: &JsonValue) -> (r: Option<String>)
    ensures
        r matches Some(t) ==> value_text(*v) == Some(t@),
        r is None ==> value_text(*v) is None,
{
    match v {
        JsonValue::Str(t, _) => Some(t.clone()),
        JsonValue::Bool(b) => Some(if *b { "yes".to_owned() } else { "no".to_owned() }),
        JsonValue::Number(t, _) => Some(t.clone()),
        _ => None,
    }
}

fn is_blank(v: Option<&str>) -> (r: bool)
    ensures
        r == blank(match v { Some(t) => Some(t@), None => None }),
{
    match v {
        Some(t) => trimmed(t).as_str().is_empty(),
        None => true,
    }
}

/// The stored category answers as the values the edit form starts with.
fn stored_form_values(s: &Submission) -> (r: FormValues)
    ensures
        forall|k: Seq<char>| #[trigger] r.lookup(k) == stored_value(*s, k),
{
    let mut values = FormValues::new();
    match &s.category_data {
        CategoryData::Object(es) => {
            let mut i: usize = 0;
            while i < es.len()
                invariant
                    i <= es@.len(),
                    s.category_data == CategoryData::Object(*es),
                    forall|k: Seq<char>| #[trigger] values.lookup(k) == (match lookup(es@.take(i as int), k) {
                        Some(v) => match value_text(v) {
                            Some(t) => Some(form_choice_value(k, t)),
                            None => None,
                        },
                        None => None,
                    }),
                decreases es@.len() - i,
            {
                let seen = key_seen_before(es.as_slice(), i);
                proof {
                    assert(es@.take(i + 1) =~= es@.take(i as int).push(es@[i as int]));
                    assert forall|k: Seq<char>| true implies #[trigger] lookup(es@.take(i as int).push(es@[i as int]), k) == (if lookup(es@.take(i as int), k) is Some {
                        lookup(es@.take(i as int), k)
                    } else if es@[i as int].0@ == k {
                        Some(es@[i as int].1)
                    } else {
                        None
                    }) by {
                        lemma_lookup_push(es@.take(i as int), es@[i as int], k);
                    }
                }
                if !seen {
                    match value_text_of(&es[i].1) {
                        Some(t) => {
                            let shown = form_choice_text(es[i].0.as_str(), t.as_str());
                            values.set(es[i].0.clone(), shown);
                        },
                        None => {},
                    }
                }
                i = i + 1;
            }
            assert(es@.take(es@.len() as int) =~= es@);
        },
        CategoryData::NotObject => {},
    }
    assert(forall|k: Seq<char>| #[trigger] values.lookup(k) == stored_base(s.category_data, k));
    if s.category == Category::AcademicCompetition && is_blank(values.get(keys::OTHER_AWARD)) {
        let legacy = if !is_blank(values.get("award_detail")) {
            values.get("award_detail")
        } else if !is_blank(values.get("actual_award_rank")) {
            values.get("actual_award_rank")
        } else {
            None
        };
        match legacy {
            Some(v) => {
                let v = v.to_owned();
                values.set(keys::OTHER_AWARD.to_owned(), v);
            },
            None => {},
        }
    }
    values
}

/// The option label for the stored value `v` among a field's choices, or `v`.
fn option_label_of(options: &Vec<(&'static str, &'static str)>, v: &str) -> (r: String)
    ensures
        r@ == option_label(options_view(options@), v@),
{
    let mut i: usize = 0;
    assert(options_view(options@).skip(0) =~= options_view(options@));
    while i < options.len()
        invariant
            i <= options@.len(),
            option_label(options_view(options@), v@) == option_label(options_view(options@).skip(i as int), v@),
        decreases options@.len() - i,
    {
        assert(options_view(options@).skip(i as int).drop_first() =~= options_view(options@).skip(i + 1));
        if str_eq(options[i].0, v) {
            return options[i].1.to_owned();
        }
        i = i + 1;
    }
    v.to_owned()
}

/// The stored submission's category answers as the edit form's starting values, and the
/// (label, value) pairs that the detail page lists for its category.
pub fn submission_values(s: &Submission) -> (r: (FormValues, Vec<(&'static str, String)>))
    ensures
        forall|k: Seq<char>| #[trigger] r.0.lookup(k) == stored_value(*s, k),
        r.1@.map_values(|p: (&'static str, String)| (p.0@, p.1@)) == shown_fields(section_fields(s.category), *s),
{
    let values = stored_form_values(s);
    let sections = category_sections();
    let mut shown: Vec<(&'static str, String)> = Vec::new();
    let mut n: usize = 0;
    while n < sections.len()
        invariant
            n <= sections@.len(),
            sections@.map_values(|x: CategorySection| x.view()) == form_sections(),
            forall|k: Seq<char>| #[trigger] values.lookup(k) == stored_value(*s, k),
            forall|m: int| 0 <= m < n ==> (#[trigger] sections@[m]).category != s.category
                || shown@.map_values(|p: (&'static str, String)| (p.0@, p.1@)) == shown_fields(section_fields(s.category), *s),
            (exists|m: int| 0 <= m < n && (#[trigger] sections@[m]).category == s.category)
                || shown@.len() == 0,
        decreases sections@.len() - n,
    {
        let section = &sections[n];
        if section.category == s.category {
            proof {
                assert(form_sections().len() == 7);
                assert(sections@.map_values(|x: CategorySection| x.view()).len() == sections@.len());
                assert(sections@.map_values(|x: CategorySection| x.view())[n as int] == section.view());
                lemma_section_fields(n as int);
                assert(section.view().fields == section_fields(s.category));
            }
            let mut i: usize = 0;
            let mut out: Vec<(&'static str, String)> = Vec::new();
            while i < section.fields.len()
                invariant
                    i <= section.fields@.len(),
                    section.view().fields == section_fields(s.category),
                    forall|k: Seq<char>| #[trigger] values.lookup(k) == stored_value(*s, k),
                    out@.map_values(|p: (&'static str, String)| (p.0@, p.1@)) == shown_fields(
                        section_fields(s.category).take(i as int),
                        *s,
                    ),
                decreases section.fields@.len() - i,
            {
                let field: &Field = &section.fields[i];
                proof {
                    assert(section_fields(s.category).take(i + 1).drop_last() =~= section_fields(s.category).take(i as int));
                    assert(section_fields(s.category)[i as int] == field.view());
                }
                let condition_holds = field.when_key.is_empty() || match values.get(field.when_key) {
                    Some(w) => str_eq(w, field.when_value),
                    None => false,
                };
                if condition_holds {
                    match values.get(field.key) {
                        Some(v) => {
                            if !v.is_empty() {
                                let label = option_label_of(&field.options, v);
                                out.push((field.label, label));
                                assert(out@.map_values(|p: (&'static str, String)| (p.0@, p.1@)) =~= shown_fields(
                                    section_fields(s.category).take(i + 1),
                                    *s,
                                ));
                            }
                        },
                        None => {},
                    }
                }
                i = i + 1;
            }
            assert(section_fields(s.category).take(section.fields@.len() as int) =~= section_fields(s.category));
            shown = out;
        }
        n = n + 1;
    }
    proof {
        assert(form_sections().len() == 7);
        assert(sections@.map_values(|x: CategorySection| x.view()).len() == sections@.len());
        assert(sections@.len() == 7);
        assert(form_sections()[category_index(s.category)].category == s.category);
        assert(sections@.map_values(|x: CategorySection| x.view())[category_index(s.category)] == sections@[category_index(s.category)].view());
    }
    (values, shown)
}

proof fn lemma_section_fields(n: int)
    requires
        0 <= n < 7,
    ensures
        form_sections()[n].fields == section_fields(form_sections()[n].category),
{
}

/// The position of a category in the form.
pub open spec fn category_index(c: Category) -> int {
    match c {
        Category::AcademicCompetition => 0,
        Category::SportsArtsCompetition => 1,
        Category::OtherAward => 2,
        Category::PublishedArticle => 3,
        Category::SocialPractice => 4,
        Category::Patent => 5,
        Category::Certification => 6,
    }
}

// ---------------------------------------------------------------------------
// The form as the page shows it
// ---------------------------------------------------------------------------

/// A submission form being shown: its values, the errors found, where it posts to.
pub struct SubmissionForm {
    pub csrf_token: String,
    pub values: FormValues,
    pub errors: ValidationErrors,
    pub action: String,
    pub editing: bool,
}

/// The value of a form field, empty when absent.
pub open spec fn form_value(values: FormValues, k: Seq<char>) -> Seq<char> {
    match values.lookup(k) {
        Some(v) => v,
        None => Seq::empty(),
    }
}

impl SubmissionForm {
    /// The value of the field `key`, or the empty text.
    pub fn value(&self, key: &str) -> (r: &str)
        ensures
            r@ == form_value(self.values, key@),
    {
        match self.values.get(key) {
            Some(v) => v,
            None => {
                proof {
                    reveal_strlit("");
                }
                ""
            },
        }
    }

    /// Whether any error is shown.
    pub fn has_errors(&self) -> (r: bool)
        ensures
            r == (self.errors@ != Map::<Seq<char>, Seq<Seq<char>>>::empty()),
    {
        !self.errors.is_empty()
    }

    /// Whether the choice `value` of the field `key` is the selected one.
    pub fn selected(&self, key: &str, value: &str) -> (r: bool)
        ensures
            r == (form_value(self.values, key@) == value@),
    {
        str_eq(self.value(key), value)
    }

    /// Whether the radio button `value` of the field `key` is checked; with no answer yet,
    /// `yes` is.
    pub fn checked(&self, key: &str, value: &str) -> (r: bool)
        ensures
            r == ((form_value(self.values, key@).len() == 0 && value@ == "yes"@) || form_value(
                self.values,
                key@,
            ) == value@),
    {
        let current = self.value(key);
        (current.is_empty() && str_eq(value, "yes")) || str_eq(current, value)
    }

    /// The category-specific fields of the form.
    pub fn category_sections(&self) -> (r: Vec<CategorySection>)
        ensures
            r@.map_values(|s: CategorySection| s.view()) == form_sections(),
    {
        category_sections()
    }

    /// Whether `field` of the section for `category` is shown: that category is the chosen
    /// one and the field's condition, if any, holds.
    pub fn active_field(&self, category: &str, field: &Field) -> (r: bool)
        ensures
            r == (form_value(self.values, "category"@) == category@ && (field.when_key@.len() == 0
                || form_value(self.values, field.when_key@) == field.when_value@)),
    {
        str_eq(self.value("category"), category) && (field.when_key.is_empty() || str_eq(
            self.value(field.when_key),
            field.when_value,
        ))
    }
}

// ---------------------------------------------------------------------------
// Reading a submitted form
// ---------------------------------------------------------------------------

/// The trimmed value of an optional field, if it is not blank.
pub open spec fn optional_text(values: FormValues, k: Seq<char>) -> Option<Seq<char>> {
    match values.lookup(k) {
        Some(v) => if trim(v).len() > 0 { Some(trim(v)) } else { None },
        None => None,
    }
}

pub open spec fn opt_text(v: Option<String>) -> Option<Seq<char>> {
    match v {
        Some(s) => Some(s@),
        None => None,
    }
}

/// The trimmed value of the field `key`, unless it is missing or blank.
pub fn optional_value(values: &FormValues, key: &str) -> (r: Option<String>)
    ensures
        opt_text(r) == optional_text(*values, key@),
{
    match values.get(key) {
        Some(v) => {
            let t = trimmed(v);
            if t.as_str().is_empty() {
                None
            } else {
                Some(t)
            }
        },
        None => None,
    }
}

/// The form fields that are not answers of the category.
pub open spec fn reserved_form_key(k: Seq<char>) -> bool {
    ||| k == "csrf_token"@
    ||| k == "has_result"@
    ||| k == "student_name"@
    ||| k == "student_no"@
    ||| k == "result_name"@
    ||| k == "obtained_date"@
    ||| k == "category"@
    ||| k == "detail"@
    ||| k == "remark"@
    ||| k == "no_result_confirm"@
}

/// The category answers of a form: each field that is not reserved and not blank, in
/// order, with how its value reads as a number.
pub open spec fn category_answers(es: Seq<(String, String)>, rs: Seq<NumberReading>) -> Seq<(Seq<char>, Seq<char>, NumberReading)>
    decreases es.len(),
{
    if es.len() == 0 || rs.len() != es.len() {
        Seq::empty()
    } else {
        let rest = category_answers(es.drop_last(), rs.drop_last());
        let e = es.last();
        if !reserved_form_key(e.0@) && trim(e.1@).len() > 0 {
            rest.push((e.0@, e.1@, rs.last()))
        } else {
            rest
        }
    }
}

/// The category data holds exactly these answers, as strings, in this order.
pub open spec fn data_holds(d: CategoryData, answers: Seq<(Seq<char>, Seq<char>, NumberReading)>) -> bool {
    match d {
        CategoryData::Object(es) => {
            &&& es@.len() == answers.len()
            &&& forall|i: int| 0 <= i < answers.len() ==> {
                &&& (#[trigger] es@[i]).0@ == answers[i].0
                &&& es@[i].1 matches JsonValue::Str(t, r) && t@ == answers[i].1 && r == answers[i].2
            }
        },
        CategoryData::NotObject => false,
    }
}

/// The errors a form gets before its fields are checked: an unknown category or an
/// unreadable date.
pub open spec fn form_input_errs(values: FormValues) -> Map<Seq<char>, Seq<Seq<char>>> {
    let cat = match values.lookup("category"@) {
        Some(v) => category_from_name(v),
        None => None,
    };
    let date = match values.lookup("obtained_date"@) {
        Some(v) => chrono_ymd(v),
        None => None,
    };
    let m1 = if cat is None {
        add_msg(Map::empty(), "category"@, "成果类别为必填项"@)
    } else {
        Map::empty()
    };
    if date is None {
        add_msg(m1, "obtained_date"@, "取得日期格式无效"@)
    } else {
        m1
    }
}

/// The submission a form describes, its category and date read, its answers kept.
pub open spec fn input_from_form(input: SubmissionInput, values: FormValues, readings: Seq<NumberReading>) -> bool {
    &&& values.lookup("category"@) matches Some(c) && category_from_name(c) == Some(input.category)
    &&& values.lookup("obtained_date"@) matches Some(d) && chrono_ymd(d) == Some(input.obtained_date)
    &&& valid_date(input.obtained_date)
    &&& input.student_name@ == form_value(values, "student_name"@)
    &&& input.student_no@ == form_value(values, "student_no"@)
    &&& input.result_name@ == form_value(values, "result_name"@)
    &&& opt_text(input.detail) == optional_text(values, "detail"@)
    &&& opt_text(input.remark) == optional_text(values, "remark"@)
    &&& data_holds(input.category_data, category_answers(values.entries@, readings))
}

fn is_reserved_key(k: &str) -> (r: bool)
    ensures
        r == reserved_form_key(k@),
{
    str_eq(k, "csrf_token") || str_eq(k, "has_result") || str_eq(k, "student_name") || str_eq(
        k,
        "student_no",
    ) || str_eq(k, "result_name") || str_eq(k, "obtained_date") || str_eq(k, "category")
        || str_eq(k, "detail") || str_eq(k, "remark") || str_eq(k, "no_result_confirm")
}

fn text_or_empty(v: Option<&str>) -> (r: String)
    ensures
        r@ == (match v { Some(t) => t@, None => Seq::<char>::empty() }),
{
    match v {
        Some(t) => t.to_owned(),
        None => String::new(),
    }
}

/// The submission a form describes. `readings[i]` is how the value of the `i`-th field
/// reads as a number; the caller parses it. Without a known category and a readable date
/// the form is refused with those errors.
pub fn submission_input(values: &FormValues, readings: &[NumberReading]) -> (r: Result<SubmissionInput, ValidationErrors>)
    requires
        readings@.len() == values.entries@.len(),
    ensures
        r matches Err(e) ==> e.wf() && e@ == form_input_errs(*values) && e@ != Map::<Seq<char>, Seq<Seq<char>>>::empty(),
        r is Ok <==> form_input_errs(*values) == Map::<Seq<char>, Seq<Seq<char>>>::empty(),
        r matches Ok(input) ==> input_from_form(input, *values, readings@),
{
    let mut errors = ValidationErrors::new();
    let category = match values.get("category") {
        Some(v) => parse_category(v),
        None => None,
    };
    let obtained_date = match values.get("obtained_date") {
        Some(v) => parse_ymd(v),
        None => None,
    };
    if category.is_none() {
        errors.add("category", "成果类别为必填项");
    }
    if obtained_date.is_none() {
        errors.add("obtained_date", "取得日期格式无效");
    }
    proof {
        if category.is_none() {
            assert(add_msg(Map::empty(), "category"@, "成果类别为必填项"@).contains_key("category"@));
        }
        if obtained_date.is_none() {
            assert(errors@.contains_key("obtained_date"@));
        }
    }
    let (category, obtained_date) = match (category, obtained_date) {
        (Some(c), Some(d)) => (c, d),
        _ => {
            return Err(errors);
        },
    };
    let mut data: Vec<(String, JsonValue)> = Vec::new();
    let mut i: usize = 0;
    while i < values.entries.len()
        invariant
            i <= values.entries@.len(),
            readings@.len() == values.entries@.len(),
            data_holds(
                CategoryData::Object(data),
                category_answers(values.entries@.take(i as int), readings@.take(i as int)),
            ),
        decreases values.entries@.len() - i,
    {
        proof {
            assert(values.entries@.take(i + 1).drop_last() =~= values.entries@.take(i as int));
            assert(readings@.take(i + 1).drop_last() =~= readings@.take(i as int));
        }
        let key = &values.entries[i].0;
        let value = &values.entries[i].1;
        if !is_reserved_key(key.as_str()) && !trimmed(value.as_str()).as_str().is_empty() {
            data.push((key.clone(), JsonValue::Str(value.clone(), readings[i])));
        }
        i = i + 1;
    }
    proof {
        assert(values.entries@.take(values.entries@.len() as int) =~= values.entries@);
        assert(readings@.take(readings@.len() as int) =~= readings@);
    }
    Ok(SubmissionInput {
        student_name: text_or_empty(values.get("student_name")),
        student_no: text_or_empty(values.get("student_no")),
        result_name: text_or_empty(values.get("result_name")),
        obtained_date,
        detail: optional_value(values, "detail"),
        remark: optional_value(values, "remark"),
        category,
        category_data: CategoryData::Object(data),
    })
}

// ---------------------------------------------------------------------------
// What a posted submission form leads to
// ---------------------------------------------------------------------------

/// What to do with a posted submission form.
pub enum SubmitPlan {
    /// Record that the student has no material this year, under these trimmed names.
    Declaration { student_name: String, student_no: String },
    /// Store this submission.
    Submission(ValidatedSubmission),
    /// Show the form again with these errors.
    Invalid(ValidationErrors),
}

/// Whether the form declares that the student has no material (`has_result` is `no`).
pub open spec fn declares_no_material(values: FormValues) -> bool {
    values.lookup("has_result"@) == Some("no"@)
}

/// The errors of a no-material declaration: the names, the deadline, the confirmation.
pub open spec fn declaration_form_errs(values: FormValues, year: AcademicYear, now: Instant) -> Map<Seq<char>, Seq<Seq<char>>> {
    let m0 = declaration_errs(form_value(values, "student_name"@), form_value(values, "student_no"@));
    let m1 = if deadline_errs(year, now) == Map::<Seq<char>, Seq<Seq<char>>>::empty() {
        m0
    } else {
        merge_msgs(m0, deadline_errs(year, now))
    };
    if values.lookup("no_result_confirm"@) != Some("yes"@) {
        add_msg(m1, "no_result_confirm"@, "请确认本学年暂无成果材料"@)
    } else {
        m1
    }
}

/// Decides what a posted form leads to at time `now`, for the current academic year and
/// the files uploaded with it (`readings` as for `submission_input`).
pub fn plan_submit(
    values: &FormValues,
    readings: &[NumberReading],
    year: &AcademicYear,
    uploads: &[UploadInput],
    now: Instant,
) -> (r: SubmitPlan)
    requires
        readings@.len() == values.entries@.len(),
    ensures
        declares_no_material(*values) ==> {
            let e = declaration_form_errs(*values, *year, now);
            &&& e == Map::<Seq<char>, Seq<Seq<char>>>::empty() ==> (r matches SubmitPlan::Declaration {
                student_name,
                student_no,
            } && student_name@ == trim(form_value(*values, "student_name"@)) && student_no@ == trim(
                form_value(*values, "student_no"@),
            ))
            &&& e != Map::<Seq<char>, Seq<Seq<char>>>::empty() ==> (r matches SubmitPlan::Invalid(x)
                && x.wf() && x@ == e)
        },
        !declares_no_material(*values) ==> {
            &&& form_input_errs(*values) != Map::<Seq<char>, Seq<Seq<char>>>::empty() ==> (r matches SubmitPlan::Invalid(x)
                && x.wf() && x@ == form_input_errs(*values))
            &&& form_input_errs(*values) == Map::<Seq<char>, Seq<Seq<char>>>::empty() ==> exists|input: SubmissionInput| {
                &&& #[trigger] input_from_form(input, *values, readings@)
                &&& match r {
                    SubmitPlan::Submission(v) => submission_errs(input, *year, uploads@, 0, Some(now))
                        == Map::<Seq<char>, Seq<Seq<char>>>::empty() && validated_submission(v, input, uploads@),
                    SubmitPlan::Invalid(x) => x.wf() && x@ == submission_errs(input, *year, uploads@, 0, Some(now))
                        && x@ != Map::<Seq<char>, Seq<Seq<char>>>::empty(),
                    SubmitPlan::Declaration { .. } => false,
                }
            }
        },
{
    let declares = match values.get("has_result") {
        Some(v) => str_eq(v, "no"),
        None => false,
    };
    if declares {
        let name = match values.get("student_name") {
            Some(v) => v,
            None => {
                proof {
                    reveal_strlit("");
                }
                ""
            },
        };
        let number = match values.get("student_no") {
            Some(v) => v,
            None => {
                proof {
                    reveal_strlit("");
                }
                ""
            },
        };
        let mut errors = match validate_declaration(name, number) {
            Ok(()) => ValidationErrors::new(),
            Err(e) => e,
        };
        match validate_deadline(year, now) {
            Err(d) => errors.extend(d),
            Ok(()) => {},
        }
        let confirmed = match values.get("no_result_confirm") {
            Some(v) => str_eq(v, "yes"),
            None => false,
        };
        if !confirmed {
            errors.add("no_result_confirm", "请确认本学年暂无成果材料");
        }
        if !errors.is_empty() {
            return SubmitPlan::Invalid(errors);
        }
        return SubmitPlan::Declaration { student_name: trimmed(name), student_no: trimmed(number) };
    }
    let input = match submission_input(values, readings) {
        Ok(input) => input,
        Err(errors) => {
            return SubmitPlan::Invalid(errors);
        },
    };
    let ghost original = input;
    let r = match validate_fields(input, year, uploads, 0, Some(now)) {
        Ok(v) => SubmitPlan::Submission(v),
        Err(errors) => SubmitPlan::Invalid(errors),
    };
    assert(input_from_form(original, *values, readings@));
    r
}

/// Reads and checks a student's edit of a submission of `year` that already has
/// `existing_count` attachments (`readings` as for `submission_input`).
pub fn plan_update(
    values: &FormValues,
    readings: &[NumberReading],
    year: &AcademicYear,
    uploads: &[UploadInput],
    existing_count: usize,
) -> (r: Result<ValidatedSubmission, ValidationErrors>)
    requires
        readings@.len() == values.entries@.len(),
    ensures
        form_input_errs(*values) != Map::<Seq<char>, Seq<Seq<char>>>::empty() ==> (r matches Err(e)
            && e.wf() && e@ == form_input_errs(*values)),
        form_input_errs(*values) == Map::<Seq<char>, Seq<Seq<char>>>::empty() ==> exists|input: SubmissionInput| {
            &&& #[trigger] input_from_form(input, *values, readings@)
            &&& rejects_with(r, submission_errs(input, *year, uploads@, existing_count as nat, None))
            &&& r matches Ok(v) ==> validated_submission(v, input, uploads@)
        },
{
    let input = match submission_input(values, readings) {
        Ok(input) => input,
        Err(e) => {
            return Err(e);
        },
    };
    let ghost original = input;
    let r = validate_student_update(input, year, uploads, existing_count);
    assert(input_from_form(original, *values, readings@));
    r
}

/// The values the edit form starts with for a stored submission: its category answers
/// and its common fields.
pub open spec fn edit_value(s: Submission, k: Seq<char>) -> Option<Seq<char>> {
    if k == "remark"@ {
        Some(match s.remark { Some(t) => t@, None => Seq::empty() })
    } else if k == "detail"@ {
        Some(match s.detail { Some(t) => t@, None => Seq::empty() })
    } else if k == "category"@ {
        Some(category_name(s.category))
    } else if k == "obtained_date"@ {
        Some(date_text(s.obtained_date))
    } else if k == "result_name"@ {
        Some(s.result_name@)
    } else if k == "student_no"@ {
        Some(s.student_no@)
    } else if k == "student_name"@ {
        Some(s.student_name@)
    } else {
        stored_value(s, k)
    }
}

/// The edit form's starting values for a stored submission.
pub fn edit_form_values(s: &Submission) -> (r: FormValues)
    ensures
        forall|k: Seq<char>| #[trigger] r.lookup(k) == edit_value(*s, k),
{
    let (mut values, _) = submission_values(s);
    values.set("student_name".to_owned(), s.student_name.clone());
    values.set("student_no".to_owned(), s.student_no.clone());
    values.set("result_name".to_owned(), s.result_name.clone());
    values.set("obtained_date".to_owned(), date_string(s.obtained_date));
    values.set("category".to_owned(), s.category.as_str().to_owned());
    let detail = match &s.detail {
        Some(t) => t.clone(),
        None => String::new(),
    };
    values.set("detail".to_owned(), detail);
    let remark = match &s.remark {
        Some(t) => t.clone(),
        None => String::new(),
    };
    values.set("remark".to_owned(), remark);
    values
}

} // verus!
