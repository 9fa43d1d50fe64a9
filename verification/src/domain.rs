//! Categories, review states and the academic-year record the rules read.
use vstd::prelude::*;

pub mod keys;

use chrono::Datelike;

use crate::text::{decimal, decimal_string, push_char, push_str, push_zero_padded, str_eq, zero_padded};

verus! {

/// The kind of achievement a submission declares.
#[derive(Debug, Clone, Copy, PartialEq, Eq, Structural)]
pub enum Category {
    AcademicCompetition,
    SportsArtsCompetition,
    OtherAward,
    PublishedArticle,
    SocialPractice,
    Patent,
    Certification,
}

/// The stored identifier of a category.
pub open spec fn category_name(c: Category) -> Seq<char> {
    match c {
        Category::AcademicCompetition => "academic_competition"@,
        Category::SportsArtsCompetition => "sports_arts_competition"@,
        Category::OtherAward => "other_award"@,
        Category::PublishedArticle => "published_article"@,
        Category::SocialPractice => "social_practice"@,
        Category::Patent => "patent"@,
        Category::Certification => "certification"@,
    }
}

/// The category whose stored identifier is `s`, if any.
pub open spec fn category_from_name(s: Seq<char>) -> Option<Category> {
    if s == "academic_competition"@ {
        Some(Category::AcademicCompetition)
    } else if s == "sports_arts_competition"@ {
        Some(Category::SportsArtsCompetition)
    } else if s == "other_award"@ {
        Some(Category::OtherAward)
    } else if s == "published_article"@ {
        Some(Category::PublishedArticle)
    } else if s == "social_practice"@ {
        Some(Category::SocialPractice)
    } else if s == "patent"@ {
        Some(Category::Patent)
    } else if s == "certification"@ {
        Some(Category::Certification)
    } else {
        None
    }
}

/// The categories in the order the forms and reports list them.
pub open spec fn all_categories() -> Seq<Category> {
    seq![
        Category::AcademicCompetition,
        Category::SportsArtsCompetition,
        Category::OtherAward,
        Category::PublishedArticle,
        Category::SocialPractice,
        Category::Patent,
        Category::Certification,
    ]
}

impl Category {
    pub fn as_str(self) -> (r: &'static str)
        ensures
            r@ == category_name(self),
    {
        match self {
            Category::AcademicCompetition => "academic_competition",
            Category::SportsArtsCompetition => "sports_arts_competition",
            Category::OtherAward => "other_award",
            Category::PublishedArticle => "published_article",
            Category::SocialPractice => "social_practice",
            Category::Patent => "patent",
            Category::Certification => "certification",
        }
    }

    pub fn all() -> (r: [Category; 7])
        ensures
            r@ == all_categories(),
    {
        let r = [
            Category::AcademicCompetition,
            Category::SportsArtsCompetition,
            Category::OtherAward,
            Category::PublishedArticle,
            Category::SocialPractice,
            Category::Patent,
            Category::Certification,
        ];
        assert(r@ =~= all_categories());
        r
    }
}


/// The stored identifier of a category, as `Category::from_str` reads it.
pub fn parse_category(value: &str) -> (r: Option<Category>)
    ensures
        r == category_from_name(value@),
{
    if str_eq(value, "academic_competition") {
        Some(Category::AcademicCompetition)
    } else if str_eq(value, "sports_arts_competition") {
        Some(Category::SportsArtsCompetition)
    } else if str_eq(value, "other_award") {
        Some(Category::OtherAward)
    } else if str_eq(value, "published_article") {
        Some(Category::PublishedArticle)
    } else if str_eq(value, "social_practice") {
        Some(Category::SocialPractice)
    } else if str_eq(value, "patent") {
        Some(Category::Patent)
    } else if str_eq(value, "certification") {
        Some(Category::Certification)
    } else {
        None
    }
}

/// The display label of a category.
pub open spec fn category_label(c: Category) -> Seq<char> {
    match c {
        Category::AcademicCompetition => "学术科技类竞赛"@,
        Category::SportsArtsCompetition => "文体类比赛"@,
        Category::OtherAward => "其他获奖表彰"@,
        Category::PublishedArticle => "发表文章"@,
        Category::SocialPractice => "社会实践/服务"@,
        Category::Patent => "专利"@,
        Category::Certification => "学习技能/资格证书"@,
    }
}

impl Category {
    pub fn label(self) -> (r: &'static str)
        ensures
            r@ == category_label(self),
    {
        match self {
            Category::AcademicCompetition => "学术科技类竞赛",
            Category::SportsArtsCompetition => "文体类比赛",
            Category::OtherAward => "其他获奖表彰",
            Category::PublishedArticle => "发表文章",
            Category::SocialPractice => "社会实践/服务",
            Category::Patent => "专利",
            Category::Certification => "学习技能/资格证书",
        }
    }

    /// `FromStr`: the category with this identifier.
    pub fn from_str(value: &str) -> (r: Result<Category, String>)
        ensures
            r matches Ok(c) ==> category_from_name(value@) == Some(c),
            r matches Err(m) ==> category_from_name(value@) is None && m@ == "unknown category: "@
                + value@,
    {
        match parse_category(value) {
            Some(c) => Ok(c),
            None => {
                let mut m = String::new();
                push_str(&mut m, "unknown category: ");
                push_str(&mut m, value);
                Err(m)
            },
        }
    }
}

/// The review state of a submission.
#[derive(Debug, Clone, Copy, PartialEq, Eq, Structural)]
pub enum SubmissionStatus {
    Pending,
    Approved,
    NeedsRevision,
    Rejected,
}

pub open spec fn status_name(s: SubmissionStatus) -> Seq<char> {
    match s {
        SubmissionStatus::Pending => "pending"@,
        SubmissionStatus::Approved => "approved"@,
        SubmissionStatus::NeedsRevision => "needs_revision"@,
        SubmissionStatus::Rejected => "rejected"@,
    }
}

pub open spec fn status_label(s: SubmissionStatus) -> Seq<char> {
    match s {
        SubmissionStatus::Pending => "待审核"@,
        SubmissionStatus::Approved => "已通过"@,
        SubmissionStatus::NeedsRevision => "需补充材料"@,
        SubmissionStatus::Rejected => "不予认定"@,
    }
}

pub open spec fn status_from_name(s: Seq<char>) -> Option<SubmissionStatus> {
    if s == "pending"@ {
        Some(SubmissionStatus::Pending)
    } else if s == "approved"@ {
        Some(SubmissionStatus::Approved)
    } else if s == "needs_revision"@ {
        Some(SubmissionStatus::NeedsRevision)
    } else if s == "rejected"@ {
        Some(SubmissionStatus::Rejected)
    } else {
        None
    }
}

/// The states in the order the dashboard and review form list them.
pub open spec fn all_statuses() -> Seq<SubmissionStatus> {
    seq![
        SubmissionStatus::Pending,
        SubmissionStatus::Approved,
        SubmissionStatus::NeedsRevision,
        SubmissionStatus::Rejected,
    ]
}

pub fn parse_status(value: &str) -> (r: Option<SubmissionStatus>)
    ensures
        r == status_from_name(value@),
{
    if str_eq(value, "pending") {
        Some(SubmissionStatus::Pending)
    } else if str_eq(value, "approved") {
        Some(SubmissionStatus::Approved)
    } else if str_eq(value, "needs_revision") {
        Some(SubmissionStatus::NeedsRevision)
    } else if str_eq(value, "rejected") {
        Some(SubmissionStatus::Rejected)
    } else {
        None
    }
}

impl SubmissionStatus {
    /// A student may still change a submission that waits for review or was sent back.
    pub fn can_student_edit(self) -> (r: bool)
        ensures
            r == (self == SubmissionStatus::Pending || self == SubmissionStatus::NeedsRevision),
    {
        match self {
            SubmissionStatus::Pending | SubmissionStatus::NeedsRevision => true,
            _ => false,
        }
    }

    pub fn as_str(self) -> (r: &'static str)
        ensures
            r@ == status_name(self),
    {
        match self {
            SubmissionStatus::Pending => "pending",
            SubmissionStatus::Approved => "approved",
            SubmissionStatus::NeedsRevision => "needs_revision",
            SubmissionStatus::Rejected => "rejected",
        }
    }

    pub fn label(self) -> (r: &'static str)
        ensures
            r@ == status_label(self),
    {
        match self {
            SubmissionStatus::Pending => "待审核",
            SubmissionStatus::Approved => "已通过",
            SubmissionStatus::NeedsRevision => "需补充材料",
            SubmissionStatus::Rejected => "不予认定",
        }
    }

    pub fn all() -> (r: [SubmissionStatus; 4])
        ensures
            r@ == all_statuses(),
    {
        let r = [
            SubmissionStatus::Pending,
            SubmissionStatus::Approved,
            SubmissionStatus::NeedsRevision,
            SubmissionStatus::Rejected,
        ];
        assert(r@ =~= all_statuses());
        r
    }

    /// `FromStr`: the state with this identifier.
    pub fn from_str(value: &str) -> (r: Result<SubmissionStatus, String>)
        ensures
            r matches Ok(c) ==> status_from_name(value@) == Some(c),
            r matches Err(m) ==> status_from_name(value@) is None && m@
                == "unknown submission status: "@ + value@,
    {
        match parse_status(value) {
            Some(c) => Ok(c),
            None => {
                let mut m = String::new();
                push_str(&mut m, "unknown submission status: ");
                push_str(&mut m, value);
                Err(m)
            },
        }
    }
}

/// Parsing a category's identifier gives the category back.
pub proof fn law_category_name_round_trip(c: Category)
    ensures
        category_from_name(category_name(c)) == Some(c),
{
    reveal_strlit("academic_competition");
    reveal_strlit("sports_arts_competition");
    reveal_strlit("other_award");
    reveal_strlit("published_article");
    reveal_strlit("social_practice");
    reveal_strlit("patent");
    reveal_strlit("certification");
    assert("academic_competition"@.len() == 20);
    assert("sports_arts_competition"@.len() == 23);
    assert("other_award"@.len() == 11);
    assert("published_article"@.len() == 17);
    assert("social_practice"@.len() == 15);
    assert("patent"@.len() == 6);
    assert("certification"@.len() == 13);
}

/// Parsing a review state's identifier gives the state back.
pub proof fn law_status_name_round_trip(s: SubmissionStatus)
    ensures
        status_from_name(status_name(s)) == Some(s),
{
    reveal_strlit("pending");
    reveal_strlit("approved");
    reveal_strlit("needs_revision");
    reveal_strlit("rejected");
    assert("pending"@.len() == 7);
    assert("approved"@.len() == 8);
    assert("needs_revision"@.len() == 14);
    assert("rejected"@[0] == 'r');
    assert("approved"@[0] == 'a');
}

/// Every category is listed exactly once.
pub proof fn law_all_categories_listed_once(c: Category)
    ensures
        all_categories().contains(c),
        all_categories().no_duplicates(),
        all_categories().len() == 7,
{
    assert(all_categories()[match c {
        Category::AcademicCompetition => 0int,
        Category::SportsArtsCompetition => 1,
        Category::OtherAward => 2,
        Category::PublishedArticle => 3,
        Category::SocialPractice => 4,
        Category::Patent => 5,
        Category::Certification => 6,
    }] == c);
}

/// A calendar date (year, month 1-12, day 1-31), as the application reads it from the database.
#[derive(Debug, Clone, Copy, PartialEq, Eq, Structural)]
pub struct Date {
    pub year: i32,
    pub month: u32,
    pub day: u32,
}

/// Chronological order of dates.
pub open spec fn date_lt(a: Date, b: Date) -> bool {
    a.year < b.year || (a.year == b.year && (a.month < b.month || (a.month == b.month && a.day
        < b.day)))
}

impl Date {
    pub fn before(&self, other: &Date) -> (r: bool)
        ensures
            r == date_lt(*self, *other),
    {
        self.year < other.year || (self.year == other.year && (self.month < other.month || (
        self.month == other.month && self.day < other.day)))
    }
}

/// A leap year of the proleptic Gregorian calendar.
pub open spec fn is_leap(y: int) -> bool {
    (y % 4 == 0 && y % 100 != 0) || y % 400 == 0
}

/// The number of days of month `m` (1-12) of year `y`.
pub open spec fn days_in_month(y: int, m: int) -> int {
    if m == 2 {
        if is_leap(y) { 29 } else { 28 }
    } else if m == 4 || m == 6 || m == 9 || m == 11 {
        30
    } else {
        31
    }
}

/// A day of the calendar.
pub open spec fn valid_date(d: Date) -> bool {
    1 <= d.month <= 12 && 1 <= d.day <= days_in_month(d.year as int, d.month as int)
}

/// The date that `chrono::NaiveDate::parse_from_str(text, "%Y-%m-%d")` reads from `text`.
pub uninterp spec fn chrono_ymd(text: Seq<char>) -> Option<Date>;

/// `chrono::NaiveDate::parse_from_str(text, "%Y-%m-%d")`: the date read, if `text` holds
/// one. A chrono date is always a day of the calendar.
#[verifier::external_body]
pub(crate) fn parse_ymd(text: &str) -> (r: Option<Date>)
    ensures
        r == chrono_ymd(text@),
        r matches Some(d) ==> valid_date(d),
{
    chrono::NaiveDate::parse_from_str(text, "%Y-%m-%d").ok().map(
        |d| Date { year: d.year(), month: d.month(), day: d.day() },
    )
}

/// A date as `chrono::NaiveDate` writes it (`Display`): the year with four digits, or
/// with a sign and at least four digits outside 0 to 9999, then month and day with two.
pub open spec fn date_text(d: Date) -> Seq<char> {
    let y = d.year as int;
    let yt = if 0 <= y && y <= 9999 {
        zero_padded(decimal(y as nat), 4)
    } else if y > 9999 {
        seq!['+'] + zero_padded(decimal(y as nat), 4)
    } else {
        seq!['-'] + zero_padded(decimal((-y) as nat), 4)
    };
    yt + seq!['-'] + zero_padded(decimal(d.month as nat), 2) + seq!['-'] + zero_padded(
        decimal(d.day as nat),
        2,
    )
}

/// The text of a date, `YYYY-MM-DD` for the years 0 to 9999.
pub fn date_string(d: Date) -> (r: String)
    ensures
        r@ == date_text(d),
{
    let mut r = String::new();
    let y = d.year;
    if y >= 0 && y <= 9999 {
        let digits = decimal_string(y as u64);
        push_zero_padded(&mut r, digits.as_str(), 4);
    } else if y > 9999 {
        push_char(&mut r, '+');
        let digits = decimal_string(y as u64);
        push_zero_padded(&mut r, digits.as_str(), 4);
    } else {
        push_char(&mut r, '-');
        let digits = decimal_string((-(y as i64)) as u64);
        push_zero_padded(&mut r, digits.as_str(), 4);
    }
    push_char(&mut r, '-');
    let m = decimal_string(d.month as u64);
    push_zero_padded(&mut r, m.as_str(), 2);
    push_char(&mut r, '-');
    let dd = decimal_string(d.day as u64);
    push_zero_padded(&mut r, dd.as_str(), 2);
    r
}

/// An instant in UTC: whole seconds since the Unix epoch and the nanoseconds past them.
#[derive(Debug, Clone, Copy, PartialEq, Eq, Structural)]
pub struct Instant {
    pub secs: i64,
    pub nanos: u32,
}

/// Chronological order of instants.
pub open spec fn instant_lt(a: Instant, b: Instant) -> bool {
    a.secs < b.secs || (a.secs == b.secs && a.nanos < b.nanos)
}

impl Instant {
    pub fn before(&self, other: &Instant) -> (r: bool)
        ensures
            r == instant_lt(*self, *other),
    {
        self.secs < other.secs || (self.secs == other.secs && self.nanos < other.nanos)
    }
}

/// How a value reads as a floating-point number once parsed (`f64`): not a finite number,
/// a finite negative number, or a finite number that is at least zero.
#[derive(Debug, Clone, Copy, PartialEq, Eq, Structural)]
pub enum NumberReading {
    Invalid,
    Negative,
    NonNegative,
}

/// One value inside the category data (a JSON value). Numbers keep their JSON text;
/// strings keep their text and how that text, trimmed, reads as a number. The contents
/// of nested arrays and objects are never read by the rules.
#[derive(Debug, Clone, PartialEq, Eq)]
pub enum JsonValue {
    Null,
    Bool(bool),
    Number(String, NumberReading),
    Str(String, NumberReading),
    Array,
    Object,
}

/// The category-specific answers of a submission: a JSON object's entries, or a value
/// that is not an object at all.
#[derive(Debug, Clone, PartialEq, Eq)]
pub enum CategoryData {
    Object(Vec<(String, JsonValue)>),
    NotObject,
}

/// The value stored under `k`, the first entry with that key.
pub open spec fn lookup(s: Seq<(String, JsonValue)>, k: Seq<char>) -> Option<JsonValue>
    decreases s.len(),
{
    if s.len() == 0 {
        None
    } else if s[0].0@ == k {
        Some(s[0].1)
    } else {
        lookup(s.drop_first(), k)
    }
}

/// The text of a string value.
pub open spec fn text_of(v: Option<JsonValue>) -> Option<Seq<char>> {
    match v {
        Some(JsonValue::Str(t, _)) => Some(t@),
        _ => None,
    }
}

/// `Map::get`: the value stored under `key`.
pub fn data_get<'a>(data: &'a [(String, JsonValue)], key: &str) -> (r: Option<&'a JsonValue>)
    ensures
        r matches Some(v) ==> lookup(data@, key@) == Some(*v),
        r is None ==> lookup(data@, key@) is None,
{
    let mut i: usize = 0;
    assert(data@.skip(0) =~= data@);
    while i < data.len()
        invariant
            i <= data@.len(),
            lookup(data@, key@) == lookup(data@.skip(i as int), key@),
        decreases data@.len() - i,
    {
        proof {
            assert(data@.skip(i as int).drop_first() =~= data@.skip(i + 1));
        }
        if str_eq(data[i].0.as_str(), key) {
            return Some(&data[i].1);
        }
        i = i + 1;
    }
    None
}

/// `Value::as_str`: the text when the value under `key` is a string.
pub fn data_text<'a>(data: &'a [(String, JsonValue)], key: &str) -> (r: Option<&'a str>)
    ensures
        r matches Some(t) ==> text_of(lookup(data@, key@)) == Some(t@),
        r is None ==> text_of(lookup(data@, key@)) is None,
{
    match data_get(data, key) {
        Some(JsonValue::Str(t, _)) => Some(t.as_str()),
        _ => None,
    }
}

/// The current time, `chrono::Utc::now()`, as whole seconds and the nanoseconds past them.
/// Nothing is claimed of the value: it is the clock's.
#[verifier::external_body]
pub(crate) fn utc_now() -> (r: Instant) {
    let now = chrono::Utc::now();
    Instant { secs: now.timestamp(), nanos: now.timestamp_subsec_nanos() }
}

/// One academic year: the period in which achievements count and the submission deadline.
#[derive(Debug, Clone, PartialEq, Eq)]
pub struct AcademicYear {
    pub id: i64,
    pub name: String,
    pub start_date: Date,
    pub end_date: Date,
    pub deadline: Option<Instant>,
    pub is_active: bool,
    pub announcement: Option<String>,
    pub created_at: Instant,
    pub updated_at: Instant,
}

/// A stored submission. Its approved score, a floating-point number, stays with the
/// caller: the record says only whether there is one.
#[derive(Debug, Clone)]
pub struct Submission {
    pub id: i64,
    pub submission_no: String,
    pub academic_year_id: i64,
    pub student_name: String,
    pub student_no: String,
    pub category: Category,
    pub result_name: String,
    pub obtained_date: Date,
    pub detail: Option<String>,
    pub remark: Option<String>,
    pub category_data: CategoryData,
    pub status: SubmissionStatus,
    pub review_note: Option<String>,
    pub has_approved_score: bool,
    pub edit_code_hash: String,
    pub student_modified_after_review: bool,
    pub created_at: Instant,
    pub updated_at: Instant,
}

/// A stored attachment of a submission.
#[derive(Debug, Clone, PartialEq, Eq)]
pub struct Attachment {
    pub id: i64,
    pub submission_id: i64,
    pub original_name: String,
    pub stored_name: String,
    pub mime_type: String,
    pub file_size: i64,
    pub created_at: Instant,
}

/// A student's declaration for a year, with or without achievement material.
#[derive(Debug, Clone, PartialEq, Eq)]
pub struct StudentDeclaration {
    pub id: i64,
    pub academic_year_id: i64,
    pub student_name: String,
    pub student_no: String,
    pub has_submission_material: bool,
    pub created_at: Instant,
    pub updated_at: Instant,
}

} // verus!
