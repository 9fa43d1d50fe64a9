//! The rules for an academic year's settings and for the class access code.
use chrono::Timelike;
use vstd::prelude::*;

use crate::domain::{
    chrono_ymd, date_lt, date_string, date_text, parse_ymd, valid_date, AcademicYear, Date,
    Instant,
};
use crate::error::AppError;
use crate::text::{
    chars_have_control, chars_of, find_char, first_index_of, has_ctrl, parse_i64, parse_i64_spec, trim,
    trimmed,
};
use super::{add_msg, ValidationErrors};

verus! {

/// The text fields of the academic-year form.
#[derive(Debug, Clone, Default)]
pub struct AcademicYearInput {
    pub name: String,
    pub start_date: String,
    pub end_date: String,
    pub deadline: String,
    pub announcement: String,
}

/// The settings of an academic year to be stored.
#[derive(Debug, Clone)]
pub struct NewAcademicYear {
    pub name: String,
    pub start_date: Date,
    pub end_date: Date,
    pub deadline: Option<Instant>,
    pub is_active: bool,
    pub announcement: Option<String>,
}

type Errs = Map<Seq<char>, Seq<Seq<char>>>;

// ---------------------------------------------------------------------------
// Dates and instants
// ---------------------------------------------------------------------------

/// A day written exactly as `YYYY-MM-DD` in the years 1 to 9999.
pub open spec fn day_of(text: Seq<char>) -> Option<Date> {
    match chrono_ymd(text) {
        Some(d) => if date_text(d) == text && 1 <= d.year <= 9999 { Some(d) } else { None },
        None => None,
    }
}

/// The day a text gives, when it is written exactly as `YYYY-MM-DD` in the years 1 to 9999.
pub fn date(value: &str) -> (r: Option<Date>)
    ensures
        r == day_of(value@),
{
    match parse_ymd(value) {
        Some(d) => {
            let text = date_string(d);
            if crate::text::str_eq(text.as_str(), value) && 1 <= d.year && d.year <= 9999 {
                Some(d)
            } else {
                None
            }
        },
        None => None,
    }
}

/// The instant `chrono::DateTime::parse_from_rfc3339` reads from `text`, in UTC.
pub uninterp spec fn chrono_rfc3339(text: Seq<char>) -> Option<Instant>;

/// `chrono::DateTime::parse_from_rfc3339(text)` taken to UTC: the instant, as whole
/// seconds and nanoseconds, if `text` is an RFC 3339 date and time.
#[verifier::external_body]
fn parse_rfc3339(text: &str) -> (r: Option<Instant>)
    ensures
        r == chrono_rfc3339(text@),
{
    chrono::DateTime::parse_from_rfc3339(text).ok().map(|d| {
        let utc = d.with_timezone(&chrono::Utc);
        Instant { secs: utc.timestamp(), nanos: utc.timestamp_subsec_nanos() }
    })
}

/// The instant `chrono::NaiveDateTime::parse_from_str(text, format)` reads, taken as UTC.
pub uninterp spec fn chrono_naive_datetime(text: Seq<char>, format: Seq<char>) -> Option<Instant>;

/// `chrono::NaiveDateTime::parse_from_str(text, format)` taken as UTC (`and_utc`).
#[verifier::external_body]
fn parse_naive_datetime(text: &str, format: &str) -> (r: Option<Instant>)
    ensures
        r == chrono_naive_datetime(text@, format@),
{
    chrono::NaiveDateTime::parse_from_str(text, format).ok().map(|d| {
        let utc = d.and_utc();
        Instant { secs: utc.timestamp(), nanos: utc.nanosecond() }
    })
}

/// The first instant of the year 1 and of the year 10000, in seconds since the epoch.
pub const FIRST_SECOND_OF_YEAR_1: i64 = -62_135_596_800;
pub const FIRST_SECOND_OF_YEAR_10000: i64 = 253_402_300_800;

/// An instant in the years 1 to 9999 and not inside a leap second.
pub open spec fn plain_instant(i: Instant) -> bool {
    FIRST_SECOND_OF_YEAR_1 <= i.secs < FIRST_SECOND_OF_YEAR_10000 && i.nanos < 1_000_000_000
}

/// The deadline a text gives: an RFC 3339 instant, or a valid day followed by `T` and a
/// time of day (`HH:MM`, or `HH:MM:SS` with optional fraction), read as UTC; in either
/// case within the years 1 to 9999.
pub open spec fn deadline_of(text: Seq<char>) -> Option<Instant> {
    let parsed = match chrono_rfc3339(text) {
        Some(i) => Some(i),
        None => match first_index_of(text, 'T') {
            None => None,
            Some(t) => if day_of(text.take(t)) is None {
                None
            } else {
                match chrono_naive_datetime(text, "%Y-%m-%dT%H:%M"@) {
                    Some(i) => Some(i),
                    None => chrono_naive_datetime(text, "%Y-%m-%dT%H:%M:%S%.f"@),
                }
            },
        },
    };
    match parsed {
        Some(i) => if plain_instant(i) { Some(i) } else { None },
        None => None,
    }
}

fn deadline(text: &str) -> (r: Option<Instant>)
    ensures
        r == deadline_of(text@),
{
    let parsed = match parse_rfc3339(text) {
        Some(i) => Some(i),
        None => {
            let cs = chars_of(text);
            match find_char(cs.as_slice(), 'T') {
                None => None,
                Some(t) => {
                    let day = crate::text::string_of(crate::text::sub_chars(cs.as_slice(), 0, t).as_slice());
                    assert(day@ =~= text@.take(t as int));
                    if date(day.as_str()).is_none() {
                        None
                    } else {
                        match parse_naive_datetime(text, "%Y-%m-%dT%H:%M") {
                            Some(i) => Some(i),
                            None => parse_naive_datetime(text, "%Y-%m-%dT%H:%M:%S%.f"),
                        }
                    }
                },
            }
        },
    };
    match parsed {
        Some(i) => if FIRST_SECOND_OF_YEAR_1 <= i.secs && i.secs < FIRST_SECOND_OF_YEAR_10000 && i.nanos
            < 1_000_000_000 {
            Some(i)
        } else {
            None
        },
        None => None,
    }
}

// ---------------------------------------------------------------------------
// The year form
// ---------------------------------------------------------------------------

/// The errors of an academic-year form.
pub open spec fn year_errs(input: AcademicYearInput) -> Errs {
    let name = trim(input.name@);
    let start = day_of(trim(input.start_date@));
    let end = day_of(trim(input.end_date@));
    let dl = trim(input.deadline@);
    let m1 = if !(1 <= name.len() <= 40) || has_ctrl(name) {
        add_msg(Map::empty(), "name"@, "学年名称须为 1-40 个字符，不能包含控制字符"@)
    } else {
        Map::empty()
    };
    let m2 = if start is None { add_msg(m1, "start_date"@, "请输入有效的开始日期（YYYY-MM-DD）"@) } else { m1 };
    let m3 = if end is None { add_msg(m2, "end_date"@, "请输入有效的结束日期（YYYY-MM-DD）"@) } else { m2 };
    let m4 = if start is Some && end is Some && date_lt(end.unwrap(), start.unwrap()) {
        add_msg(m3, "end_date"@, "结束日期不能早于开始日期"@)
    } else {
        m3
    };
    let m5 = if dl.len() > 0 && deadline_of(dl) is None {
        add_msg(m4, "deadline"@, "请输入有效的申报截止时间（UTC）"@)
    } else {
        m4
    };
    if trim(input.announcement@).len() > 4000 {
        add_msg(m5, "announcement"@, "首页说明最多 4000 个字符"@)
    } else {
        m5
    }
}

/// The year a valid form describes.
pub open spec fn year_from_form(y: NewAcademicYear, input: AcademicYearInput) -> bool {
    let dl = trim(input.deadline@);
    let ann = trim(input.announcement@);
    &&& y.name@ == trim(input.name@)
    &&& day_of(trim(input.start_date@)) == Some(y.start_date)
    &&& day_of(trim(input.end_date@)) == Some(y.end_date)
    &&& y.deadline == (if dl.len() == 0 { None } else { deadline_of(dl) })
    &&& !y.is_active
    &&& (match y.announcement {
        Some(a) => ann.len() > 0 && a@ == ann,
        None => ann.len() == 0,
    })
}

/// Checks an academic-year form: a name of 1 to 40 characters without control
/// characters, valid start and end days with the end not before the start, a deadline
/// that is empty or a valid instant, and an announcement of at most 4000 characters.
pub fn validate_year(input: &AcademicYearInput) -> (r: Result<NewAcademicYear, ValidationErrors>)
    ensures
        match r {
            Ok(y) => year_errs(*input) == Map::<Seq<char>, Seq<Seq<char>>>::empty() && year_from_form(y, *input),
            Err(e) => e.wf() && e@ == year_errs(*input) && e@ != Map::<Seq<char>, Seq<Seq<char>>>::empty(),
        },
{
    let mut errors = ValidationErrors::new();
    let name = trimmed(input.name.as_str());
    let name_cs = chars_of(name.as_str());
    if !(1 <= name_cs.len() && name_cs.len() <= 40) || chars_have_control(name_cs.as_slice()) {
        errors.add("name", "学年名称须为 1-40 个字符，不能包含控制字符");
    }
    let start_date = date(trimmed(input.start_date.as_str()).as_str());
    let end_date = date(trimmed(input.end_date.as_str()).as_str());
    if start_date.is_none() {
        errors.add("start_date", "请输入有效的开始日期（YYYY-MM-DD）");
    }
    if end_date.is_none() {
        errors.add("end_date", "请输入有效的结束日期（YYYY-MM-DD）");
    }
    match (start_date, end_date) {
        (Some(s), Some(e)) => {
            if e.before(&s) {
                errors.add("end_date", "结束日期不能早于开始日期");
            }
        },
        _ => {},
    }
    let dl = trimmed(input.deadline.as_str());
    let parsed_deadline = if dl.as_str().is_empty() {
        None
    } else {
        let parsed = deadline(dl.as_str());
        if parsed.is_none() {
            errors.add("deadline", "请输入有效的申报截止时间（UTC）");
        }
        parsed
    };
    let announcement = trimmed(input.announcement.as_str());
    if chars_of(announcement.as_str()).len() > 4000 {
        errors.add("announcement", "首页说明最多 4000 个字符");
    }
    proof {
        assert(errors@ == year_errs(*input));
        if errors@ != Map::<Seq<char>, Seq<Seq<char>>>::empty() {
            assert(errors.wf());
        }
    }
    if !errors.is_empty() {
        return Err(errors);
    }
    proof {
        if start_date is None {
            assert(errors@.contains_key("start_date"@));
        }
        if end_date is None {
            assert(errors@.contains_key("end_date"@));
        }
    }
    match (start_date, end_date) {
        (Some(start_date), Some(end_date)) => {
            let announcement = if announcement.as_str().is_empty() {
                None
            } else {
                Some(announcement)
            };
            Ok(NewAcademicYear {
                name,
                start_date,
                end_date,
                deadline: parsed_deadline,
                is_active: false,
                announcement,
            })
        },
        _ => Err(errors),
    }
}

/// The error of a class access code, if any.
pub open spec fn class_code_errs(code: Seq<char>) -> Errs {
    if trim(code).len() == 0 || code.len() > 256 || has_ctrl(code) {
        add_msg(Map::empty(), "class_access_code"@, "班级口令须为 1-256 个字符，不能全为空白或包含控制字符"@)
    } else {
        Map::empty()
    }
}

/// Checks a new class access code: not blank, at most 256 characters, no control character.
pub fn validate_class_code(code: &str) -> (r: Result<(), ValidationErrors>)
    ensures
        super::rejects_with(r, class_code_errs(code@)),
{
    let mut errors = ValidationErrors::new();
    let cs = chars_of(code);
    if trimmed(code).as_str().is_empty() || cs.len() > 256 || chars_have_control(cs.as_slice()) {
        errors.add("class_access_code", "班级口令须为 1-256 个字符，不能全为空白或包含控制字符");
        assert(errors@.contains_key("class_access_code"@));
    }
    if errors.is_empty() {
        Ok(())
    } else {
        Err(errors)
    }
}

/// The text `chrono` writes for an instant with `%Y-%m-%dT%H:%M:%S%.f`.
pub uninterp spec fn chrono_deadline_text(i: Instant) -> Option<Seq<char>>;

/// `chrono::DateTime::from_timestamp(secs, nanos)` written with `%Y-%m-%dT%H:%M:%S%.f`;
/// `None` for an instant chrono cannot represent.
#[verifier::external_body]
fn format_deadline(i: Instant) -> (r: Option<String>)
    ensures
        match r {
            Some(t) => chrono_deadline_text(i) == Some(t@),
            None => chrono_deadline_text(i) is None,
        },
{
    chrono::DateTime::from_timestamp(i.secs, i.nanos).map(|d| d.format("%Y-%m-%dT%H:%M:%S%.f").to_string())
}

impl AcademicYearInput {
    /// The form filled with a stored year's settings; a deadline chrono cannot write stays empty.
    pub fn from_year(year: &AcademicYear) -> (r: AcademicYearInput)
        ensures
            r.name@ == year.name@,
            r.start_date@ == date_text(year.start_date),
            r.end_date@ == date_text(year.end_date),
            r.deadline@ == (match year.deadline {
                Some(d) => match chrono_deadline_text(d) {
                    Some(t) => t,
                    None => Seq::empty(),
                },
                None => Seq::<char>::empty(),
            }),
            r.announcement@ == (match year.announcement {
                Some(a) => a@,
                None => Seq::<char>::empty(),
            }),
    {
        let deadline = match year.deadline {
            Some(d) => match format_deadline(d) {
                Some(t) => t,
                None => String::new(),
            },
            None => String::new(),
        };
        let announcement = match &year.announcement {
            Some(a) => a.clone(),
            None => String::new(),
        };
        AcademicYearInput {
            name: year.name.clone(),
            start_date: date_string(year.start_date),
            end_date: date_string(year.end_date),
            deadline,
            announcement,
        }
    }
}


// ---------------------------------------------------------------------------
// Failed writes of the settings
// ---------------------------------------------------------------------------

/// What a failed write of the settings means to the administrator.
#[derive(Debug, Clone, Copy, PartialEq, Eq, Structural)]
pub enum SettingsFailure {
    /// The year to change does not exist.
    NotFound,
    /// Another year has the name.
    NameTaken,
    /// The database is busy with another change.
    Busy,
    /// Any other failure.
    Other,
}

/// Whether a database error code is SQLite's busy (5) or locked (6) result in the low byte
/// of an extended code read as an `i32`.
pub open spec fn busy_code(code: Option<Seq<char>>) -> bool {
    match code {
        Some(c) => match parse_i64_spec(c) {
            Some(n) => i32::MIN <= n <= i32::MAX && (((n as i32) & 0xffi32) == 5 || ((n as i32) & 0xffi32) == 6),
            None => false,
        },
        None => false,
    }
}

/// Classifies a failed settings write from what the database error says: a missing row,
/// a unique constraint (the year's name), a busy or locked database, or anything else.
pub fn settings_failure(row_not_found: bool, unique_violation: bool, code: Option<&str>) -> (r: SettingsFailure)
    ensures
        r == (if row_not_found {
            SettingsFailure::NotFound
        } else if unique_violation {
            SettingsFailure::NameTaken
        } else if busy_code(match code { Some(c) => Some(c@), None => None }) {
            SettingsFailure::Busy
        } else {
            SettingsFailure::Other
        }),
{
    if row_not_found {
        return SettingsFailure::NotFound;
    }
    if unique_violation {
        return SettingsFailure::NameTaken;
    }
    let busy = match code {
        Some(c) => match parse_i64(c) {
            Some(n) => {
                if i32::MIN as i64 <= n && n <= i32::MAX as i64 {
                    let v = n as i32;
                    (v & 0xff) == 5 || (v & 0xff) == 6
                } else {
                    false
                }
            },
            None => false,
        },
        None => false,
    };
    if busy {
        SettingsFailure::Busy
    } else {
        SettingsFailure::Other
    }
}

/// `sqlx::Error::RowNotFound`: whether the error says that no row was found.
#[verifier::external_body]
fn db_row_not_found(error: &sqlx::Error) -> bool {
    matches!(error, sqlx::Error::RowNotFound)
}

/// `DatabaseError::is_unique_violation` of a database error; `false` for other errors.
#[verifier::external_body]
fn db_unique_violation(error: &sqlx::Error) -> bool {
    match error {
        sqlx::Error::Database(db) => db.is_unique_violation(),
        _ => false,
    }
}

/// `DatabaseError::code` of a database error; `None` for other errors.
#[verifier::external_body]
fn db_error_code(error: &sqlx::Error) -> Option<String> {
    match error {
        sqlx::Error::Database(db) => db.code().map(|code| code.into_owned()),
        _ => None,
    }
}

/// Why saving the settings failed.
#[derive(Debug)]
pub enum SettingsError {
    /// The input is refused with these messages.
    Invalid(ValidationErrors),
    /// Another change is under way; nothing was saved.
    Conflict,
    /// Another failure.
    Internal(AppError),
}

/// The classification of a failed settings write, as `settings_failure` computes it from
/// what the database error says.
pub open spec fn settings_failure_of(row_not_found: bool, unique_violation: bool, code: Option<Seq<char>>) -> SettingsFailure {
    if row_not_found {
        SettingsFailure::NotFound
    } else if unique_violation {
        SettingsFailure::NameTaken
    } else if busy_code(code) {
        SettingsFailure::Busy
    } else {
        SettingsFailure::Other
    }
}

/// The refusal of a year's name that another year has.
pub open spec fn name_taken_errs() -> Map<Seq<char>, Seq<Seq<char>>> {
    add_msg(Map::empty(), "name"@, "学年名称已存在，请使用其他名称"@)
}

/// Whether `r` is the settings error that a failure of kind `kind` stands for, `error`
/// being the database error: not found, the name refused, a conflict, or `error` kept.
pub open spec fn settings_error_for(r: SettingsError, kind: SettingsFailure, error: sqlx::Error) -> bool {
    match kind {
        SettingsFailure::NotFound => r matches SettingsError::Internal(AppError::NotFound),
        SettingsFailure::NameTaken => r matches SettingsError::Invalid(e) && e.wf() && e@ == name_taken_errs(),
        SettingsFailure::Busy => r is Conflict,
        SettingsFailure::Other => r matches SettingsError::Internal(AppError::Database(e)) && e == error,
    }
}

impl SettingsError {
    /// The settings failure a database error stands for: a missing row is not found, a
    /// taken name is a refusal of the name field, a busy database a conflict, and any other
    /// error is kept. What the error says (a missing row, a unique violation, its code) is
    /// read from the opaque `sqlx::Error` by calls whose answers are not named here; the
    /// result is the one `settings_failure` gives for those answers.
    pub fn from_database(error: sqlx::Error) -> (r: SettingsError)
        ensures
            exists|row_not_found: bool, unique_violation: bool, code: Option<Seq<char>>|
                settings_error_for(r, #[trigger] settings_failure_of(row_not_found, unique_violation, code), error),
    {
        let code = db_error_code(&error);
        let row_not_found = db_row_not_found(&error);
        let unique_violation = db_unique_violation(&error);
        let ghost code_view: Option<Seq<char>> = match &code {
            Some(c) => Some(c@),
            None => None,
        };
        let kind = match &code {
            Some(c) => settings_failure(row_not_found, unique_violation, Some(c.as_str())),
            None => settings_failure(row_not_found, unique_violation, None),
        };
        assert(kind == settings_failure_of(row_not_found, unique_violation, code_view));
        let ghost original = error;
        let r = match kind {
            SettingsFailure::NotFound => SettingsError::Internal(AppError::NotFound),
            SettingsFailure::NameTaken => {
                let mut errors = ValidationErrors::new();
                errors.add("name", "学年名称已存在，请使用其他名称");
                SettingsError::Invalid(errors)
            },
            SettingsFailure::Busy => SettingsError::Conflict,
            SettingsFailure::Other => SettingsError::Internal(AppError::Database(error)),
        };
        assert(settings_error_for(r, settings_failure_of(row_not_found, unique_violation, code_view), original));
        r
    }
}

} // verus!
