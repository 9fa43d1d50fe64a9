//! The rules for a submission's common fields and for a no-material declaration.
use vstd::prelude::*;

use crate::domain::{date_lt, instant_lt, utc_now, AcademicYear, Category, CategoryData, Date, Instant};
use crate::storage::UploadInput;
use crate::text::{chars_of, string_of, trim, trim_chars, trimmed};
use super::category::{category_errors, validate_category, Errs};
use super::upload::{uploads_errs, validate_uploads_with_existing, validated_from, ValidatedUpload};
use super::{add_msg, merge_msgs, rejects_with, ValidationErrors};

verus! {

/// The common fields of a submission form.
#[derive(Debug, Clone)]
pub struct SubmissionInput {
    pub student_name: String,
    pub student_no: String,
    pub result_name: String,
    pub obtained_date: Date,
    pub detail: Option<String>,
    pub remark: Option<String>,
    pub category: Category,
    pub category_data: CategoryData,
}

/// A submission that passed every rule, with its texts normalized.
#[derive(Debug, Clone)]
pub struct ValidatedSubmission {
    pub student_name: String,
    pub student_no: String,
    pub result_name: String,
    pub obtained_date: Date,
    pub detail: Option<String>,
    pub remark: Option<String>,
    pub category: Category,
    pub category_data: CategoryData,
    pub uploads: Vec<ValidatedUpload>,
}

/// Between `min` and `max` characters.
pub open spec fn len_in(s: Seq<char>, min: nat, max: nat) -> bool {
    min <= s.len() <= max
}

pub fn in_length(value: &str, min: usize, max: usize) -> (r: bool)
    ensures
        r == len_in(value@, min as nat, max as nat),
{
    let cs = chars_of(value);
    min <= cs.len() && cs.len() <= max
}

/// An optional text, trimmed; blank becomes absent.
pub open spec fn normalized(v: Option<String>) -> Option<Seq<char>> {
    match v {
        Some(s) => if trim(s@).len() > 0 { Some(trim(s@)) } else { None },
        None => None,
    }
}

pub open spec fn opt_view(v: Option<String>) -> Option<Seq<char>> {
    match v {
        Some(s) => Some(s@),
        None => None,
    }
}

pub fn normalize_optional(value: Option<String>) -> (r: Option<String>)
    ensures
        opt_view(r) == normalized(value),
{
    match value {
        Some(v) => {
            let t = trimmed(v.as_str());
            let cs = chars_of(t.as_str());
            if cs.len() > 0 {
                Some(t)
            } else {
                None
            }
        },
        None => None,
    }
}

/// Whether an optional text is longer than `max` characters once trimmed.
pub open spec fn too_long(v: Option<String>, max: nat) -> bool {
    match v {
        Some(s) => trim(s@).len() > max,
        None => false,
    }
}

fn trimmed_longer(value: &Option<String>, max: usize) -> (r: bool)
    ensures
        r == too_long(*value, max as nat),
{
    match value {
        Some(v) => {
            let cs = chars_of(v.as_str());
            let t = trim_chars(cs.as_slice());
            t.len() > max
        },
        None => false,
    }
}

/// The deadline message once the deadline has passed.
pub open spec fn deadline_errs(year: AcademicYear, now: Instant) -> Errs {
    match year.deadline {
        Some(d) => if instant_lt(d, now) {
            add_msg(Map::empty(), "deadline"@, "当前学年已超过成果申报截止时间"@)
        } else {
            Map::empty()
        },
        None => Map::empty(),
    }
}

pub fn validate_deadline(current_year: &AcademicYear, now: Instant) -> (r: Result<(), ValidationErrors>)
    ensures
        rejects_with(r, deadline_errs(*current_year, now)),
{
    let mut errors = ValidationErrors::new();
    if let Some(deadline) = current_year.deadline {
        if deadline.before(&now) {
            errors.add("deadline", "当前学年已超过成果申报截止时间");
        }
    }
    if errors.is_empty() {
        Ok(())
    } else {
        Err(errors)
    }
}

pub open spec fn declaration_errs(name: Seq<char>, no: Seq<char>) -> Errs {
    let m1 = if !len_in(trim(name), 1, 50) {
        add_msg(Map::empty(), "student_name"@, "姓名为 1-50 个字符"@)
    } else {
        Map::empty()
    };
    if !len_in(trim(no), 1, 30) {
        add_msg(m1, "student_no"@, "学号为 1-30 个字符"@)
    } else {
        m1
    }
}

/// The identity a no-material declaration needs: a name of 1-50 and a number of 1-30 characters.
pub fn validate_declaration(student_name: &str, student_no: &str) -> (r: Result<(), ValidationErrors>)
    ensures
        rejects_with(r, declaration_errs(student_name@, student_no@)),
{
    let mut errors = ValidationErrors::new();
    let name = trimmed(student_name);
    if !in_length(name.as_str(), 1, 50) {
        errors.add("student_name", "姓名为 1-50 个字符");
    }
    let no = trimmed(student_no);
    if !in_length(no.as_str(), 1, 30) {
        errors.add("student_no", "学号为 1-30 个字符");
    }
    if errors.is_empty() {
        Ok(())
    } else {
        Err(errors)
    }
}

/// The messages for the common fields, the category answers, the files and, when a
/// time is given, the deadline.
pub open spec fn submission_errs(
    input: SubmissionInput,
    year: AcademicYear,
    uploads: Seq<UploadInput>,
    existing_count: nat,
    now: Option<Instant>,
) -> Errs {
    let m0 = Map::<Seq<char>, Seq<Seq<char>>>::empty();
    let m1 = if !len_in(trim(input.student_name@), 1, 50) {
        add_msg(m0, "student_name"@, "姓名为 1-50 个字符"@)
    } else {
        m0
    };
    let m2 = if !len_in(trim(input.student_no@), 1, 30) {
        add_msg(m1, "student_no"@, "学号为 1-30 个字符"@)
    } else {
        m1
    };
    let m3 = if !len_in(trim(input.result_name@), 1, 200) {
        add_msg(m2, "result_name"@, "成果名称为 1-200 个字符"@)
    } else {
        m2
    };
    let m4 = if date_lt(input.obtained_date, year.start_date) || date_lt(year.end_date, input.obtained_date) {
        add_msg(m3, "obtained_date"@, "取得日期必须在当前学年的起止日期内"@)
    } else {
        m3
    };
    let m5 = if too_long(input.detail, 4000) {
        add_msg(m4, "detail"@, "详细说明不能超过 4000 个字符"@)
    } else {
        m4
    };
    let m6 = if too_long(input.remark, 4000) {
        add_msg(m5, "remark"@, "备注不能超过 4000 个字符"@)
    } else {
        m5
    };
    let m7 = merge_msgs(m6, category_errors(input.category, input.category_data));
    let m8 = merge_msgs(m7, uploads_errs(uploads, existing_count));
    match now {
        Some(n) => merge_msgs(m8, deadline_errs(year, n)),
        None => m8,
    }
}

/// `v` holds the normalized fields of `input` and one validated record per file.
pub open spec fn validated_submission(v: ValidatedSubmission, input: SubmissionInput, uploads: Seq<UploadInput>) -> bool {
    &&& v.student_name@ == trim(input.student_name@)
    &&& v.student_no@ == trim(input.student_no@)
    &&& v.result_name@ == trim(input.result_name@)
    &&& v.obtained_date == input.obtained_date
    &&& opt_view(v.detail) == normalized(input.detail)
    &&& opt_view(v.remark) == normalized(input.remark)
    &&& v.category == input.category
    &&& v.category_data == input.category_data
    &&& v.uploads@.len() == uploads.len()
    &&& forall|i: int| 0 <= i < uploads.len() ==> validated_from(#[trigger] v.uploads@[i], uploads[i])
}

proof fn lemma_merge_empty(a: Errs)
    ensures
        merge_msgs(a, Map::<Seq<char>, Seq<Seq<char>>>::empty()) == a,
{
    assert(merge_msgs(a, Map::<Seq<char>, Seq<Seq<char>>>::empty()) =~= a);
}

/// Validates a submission against an academic year; `now`, when given, is checked
/// against the year's deadline.
pub fn validate_fields(
    input: SubmissionInput,
    current_year: &AcademicYear,
    uploads: &[UploadInput],
    existing_count: usize,
    now: Option<Instant>,
) -> (r: Result<ValidatedSubmission, ValidationErrors>)
    ensures
        rejects_with(r, submission_errs(input, *current_year, uploads@, existing_count as nat, now)),
        r matches Ok(v) ==> validated_submission(v, input, uploads@),
{
    let mut errors = ValidationErrors::new();
    let student_name = trimmed(input.student_name.as_str());
    let student_no = trimmed(input.student_no.as_str());
    let result_name = trimmed(input.result_name.as_str());
    if !in_length(student_name.as_str(), 1, 50) {
        errors.add("student_name", "姓名为 1-50 个字符");
    }
    if !in_length(student_no.as_str(), 1, 30) {
        errors.add("student_no", "学号为 1-30 个字符");
    }
    if !in_length(result_name.as_str(), 1, 200) {
        errors.add("result_name", "成果名称为 1-200 个字符");
    }
    if input.obtained_date.before(&current_year.start_date) || current_year.end_date.before(&input.obtained_date) {
        errors.add("obtained_date", "取得日期必须在当前学年的起止日期内");
    }
    if trimmed_longer(&input.detail, 4000) {
        errors.add("detail", "详细说明不能超过 4000 个字符");
    }
    if trimmed_longer(&input.remark, 4000) {
        errors.add("remark", "备注不能超过 4000 个字符");
    }
    let ghost m6 = errors@;
    match validate_category(input.category, &input.category_data) {
        Ok(()) => {
            proof {
                lemma_merge_empty(m6);
            }
        },
        Err(category_errors) => errors.extend(category_errors),
    }
    let ghost m7 = errors@;
    let validated_uploads = match validate_uploads_with_existing(uploads, existing_count) {
        Ok(value) => {
            proof {
                lemma_merge_empty(m7);
            }
            Some(value)
        },
        Err(upload_errors) => {
            errors.extend(upload_errors);
            None
        },
    };
    let ghost m8 = errors@;
    match now {
        Some(n) => match validate_deadline(current_year, n) {
            Ok(()) => {
                proof {
                    lemma_merge_empty(m8);
                }
            },
            Err(deadline_errors) => errors.extend(deadline_errors),
        },
        None => {},
    }
    if errors.is_empty() {
        proof {
            if validated_uploads is None {
                let k = choose|k: Seq<char>| uploads_errs(uploads@, existing_count as nat).contains_key(k);
                if !(exists|k: Seq<char>| uploads_errs(uploads@, existing_count as nat).contains_key(k)) {
                    assert(uploads_errs(uploads@, existing_count as nat) =~= Map::<Seq<char>, Seq<Seq<char>>>::empty());
                }
                assert(merge_msgs(m7, uploads_errs(uploads@, existing_count as nat)).contains_key(k));
                assert(errors@.contains_key(k));
            }
        }
        let uploads_ok = match validated_uploads {
            Some(v) => v,
            None => Vec::new(),
        };
        Ok(ValidatedSubmission {
            student_name,
            student_no,
            result_name,
            obtained_date: input.obtained_date,
            detail: normalize_optional(input.detail),
            remark: normalize_optional(input.remark),
            category: input.category,
            category_data: input.category_data,
            uploads: uploads_ok,
        })
    } else {
        Err(errors)
    }
}

/// A new submission: every rule, including the deadline at the current time.
pub fn validate_submission(input: SubmissionInput, current_year: &AcademicYear, uploads: &[UploadInput]) -> (r: Result<ValidatedSubmission, ValidationErrors>)
    ensures
        exists|now: Instant| rejects_with(r, #[trigger] submission_errs(input, *current_year, uploads@, 0, Some(now))),
        r matches Ok(v) ==> validated_submission(v, input, uploads@),
{
    let now = utc_now();
    let r = validate_fields(input, current_year, uploads, 0, Some(now));
    assert(rejects_with(r, submission_errs(input, *current_year, uploads@, 0, Some(now))));
    r
}

/// A student's change to a submission: the deadline does not apply and the files it
/// already has count toward the limit.
pub fn validate_student_update(
    input: SubmissionInput,
    submission_year: &AcademicYear,
    uploads: &[UploadInput],
    existing_count: usize,
) -> (r: Result<ValidatedSubmission, ValidationErrors>)
    ensures
        rejects_with(r, submission_errs(input, *submission_year, uploads@, existing_count as nat, None)),
        r matches Ok(v) ==> validated_submission(v, input, uploads@),
{
    validate_fields(input, submission_year, uploads, existing_count, None)
}

} // verus!
