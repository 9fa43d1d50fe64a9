//! The forms and queries that the pages post, as the library reads them.
use vstd::prelude::*;

use crate::validation::settings::AcademicYearInput;

verus! {

/// The administrator's sign-in form.
pub struct LoginForm {
    pub csrf_token: String,
    pub username: String,
    pub password: String,
}

/// The sign-out form.
pub struct LogoutForm {
    pub csrf_token: String,
}

/// The settings page's query: the year being edited and whether a save succeeded.
pub struct SettingsQuery {
    pub edit: Option<i64>,
    pub saved: String,
}

/// The academic-year form.
pub struct YearForm {
    pub csrf_token: String,
    pub fields: AcademicYearInput,
}

/// A form that carries only its token.
pub struct CsrfForm {
    pub csrf_token: String,
}

/// The form that replaces the class access code.
pub struct ClassCodeForm {
    pub csrf_token: String,
    pub class_access_code: String,
}

/// The review form of a submission.
pub struct ReviewForm {
    pub csrf_token: String,
    pub status: String,
    pub review_note: String,
    pub approved_score: String,
}

/// The submission page's query: whether a review was saved or the edit code reset.
pub struct DetailQuery {
    pub saved: String,
    pub code_reset: String,
}

/// The form that resets a submission's edit code.
pub struct ResetForm {
    pub csrf_token: String,
    pub confirm_reset: String,
    pub edit_code_version: Option<i64>,
}

/// The student's form to look up a submission.
pub struct QueryForm {
    pub csrf_token: String,
    pub submission_no: String,
    pub edit_code: String,
}

impl ResetForm {
    /// The version of the edit code to reset, when the reset is confirmed (`yes`) and the
    /// version is not negative.
    pub fn confirmed_version(&self) -> (r: Option<i64>)
        ensures
            r == (if self.confirm_reset@ == "yes"@ && (self.edit_code_version matches Some(v) && v >= 0) {
                self.edit_code_version
            } else {
                None
            }),
    {
        if crate::text::str_eq(self.confirm_reset.as_str(), "yes") {
            match self.edit_code_version {
                Some(v) => if v >= 0 { Some(v) } else { None },
                None => None,
            }
        } else {
            None
        }
    }
}

} // verus!
