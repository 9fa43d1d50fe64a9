//! The application's error kinds, the HTTP status each maps to and the safe page text.
use vstd::prelude::*;

use crate::auth::AuthError;
use crate::config::ConfigError;
use crate::storage::StorageError;
use crate::validation::ValidationErrors;

verus! {

#[verifier::external_type_specification]
#[verifier::external_body]
pub struct ExSqlxError(sqlx::Error);

/// Every way a request can fail.
#[derive(Debug)]
pub enum AppError {
    Auth(AuthError),
    Storage(StorageError),
    Config(ConfigError),
    Database(sqlx::Error),
    BadRequest,
    NotFound,
    Forbidden,
    Conflict,
    Validation(ValidationErrors),
    Template,
    Multipart,
    PayloadTooLarge,
    Export,
}

/// The HTTP status of an error: a missing file is not found, any other failed file
/// operation a server error.
pub open spec fn status_of(e: &AppError) -> u16 {
    match e {
        AppError::Storage(StorageError::Io { not_found: true }) => 404,
        AppError::Storage(StorageError::Io { not_found: false }) => 500,
        AppError::Auth(AuthError::InvalidCredentials) => 401,
        AppError::Auth(AuthError::MissingSession) => 403,
        AppError::Forbidden => 403,
        AppError::Storage(StorageError::InvalidPath) => 400,
        AppError::Storage(StorageError::UnsupportedType) => 400,
        AppError::Storage(StorageError::InvalidSize) => 413,
        AppError::Storage(StorageError::TooManyAttachments) => 413,
        AppError::PayloadTooLarge => 413,
        AppError::BadRequest => 400,
        AppError::Conflict => 409,
        AppError::Validation(_) => 422,
        AppError::Multipart => 400,
        AppError::NotFound => 404,
        _ => 500,
    }
}

impl AppError {
    /// The error for a form the framework refused with this status: too large, or a bad request.
    pub fn from_form_rejection(status: u16) -> (r: AppError)
        ensures
            status == 413 ==> r is PayloadTooLarge,
            status != 413 ==> r is BadRequest,
    {
        if status == 413 {
            AppError::PayloadTooLarge
        } else {
            AppError::BadRequest
        }
    }

    /// The error for a multipart body the framework refused with this status: too large,
    /// or malformed.
    pub fn from_multipart_rejection(status: u16) -> (r: AppError)
        ensures
            status == 413 ==> r is PayloadTooLarge,
            status != 413 ==> r is Multipart,
    {
        if status == 413 {
            AppError::PayloadTooLarge
        } else {
            AppError::Multipart
        }
    }

    pub fn not_found() -> (r: AppError)
        ensures
            r is NotFound,
    {
        AppError::NotFound
    }

    /// The HTTP status code of the error page.
    pub fn status(&self) -> (r: u16)
        ensures
            r == status_of(self),
    {
        match self {
            AppError::Auth(AuthError::InvalidCredentials) => 401,
            AppError::Auth(AuthError::MissingSession) | AppError::Forbidden => 403,
            AppError::Storage(StorageError::InvalidPath) | AppError::Storage(StorageError::UnsupportedType) => 400,
            AppError::Storage(StorageError::InvalidSize) | AppError::Storage(StorageError::TooManyAttachments) | AppError::PayloadTooLarge => 413,
            AppError::Storage(StorageError::Io { not_found }) => {
                if *not_found {
                    404
                } else {
                    500
                }
            },
            AppError::BadRequest => 400,
            AppError::Conflict => 409,
            AppError::Validation(_) => 422,
            AppError::Multipart => 400,
            AppError::NotFound => 404,
            _ => 500,
        }
    }
}

/// The message of the generic error page for a status.
pub open spec fn safe_message(status: u16) -> Seq<char> {
    if status == 400 || status == 405 || status == 415 {
        "请求无效，请检查填写内容后重试"@
    } else if status == 401 {
        "凭据不正确，请重试"@
    } else if status == 403 {
        "无权访问，请重新验证身份"@
    } else if status == 404 {
        "页面不存在或资源已不可用"@
    } else if status == 409 {
        "记录已更新，请刷新页面后重试"@
    } else if status == 413 {
        "请求内容过大，请减少附件数量或文件大小"@
    } else if status == 422 {
        "表单校验失败，请检查填写内容"@
    } else {
        "服务暂时不可用，请稍后重试"@
    }
}

pub fn safe_error_message(status: u16) -> (r: &'static str)
    ensures
        r@ == safe_message(status),
{
    if status == 400 || status == 405 || status == 415 {
        "请求无效，请检查填写内容后重试"
    } else if status == 401 {
        "凭据不正确，请重试"
    } else if status == 403 {
        "无权访问，请重新验证身份"
    } else if status == 404 {
        "页面不存在或资源已不可用"
    } else if status == 409 {
        "记录已更新，请刷新页面后重试"
    } else if status == 413 {
        "请求内容过大，请减少附件数量或文件大小"
    } else if status == 422 {
        "表单校验失败，请检查填写内容"
    } else {
        "服务暂时不可用，请稍后重试"
    }
}

/// The page message for an error: exports have their own, the rest the status's safe text.
pub fn page_message(error: &AppError, status: u16) -> (r: &'static str)
    ensures
        error is Export ==> r@ == "导出失败，请稍后重试"@,
        !(error is Export) ==> r@ == safe_message(status),
{
    match error {
        AppError::Export => "导出失败，请稍后重试",
        _ => safe_error_message(status),
    }
}


/// Whether an error response's body is replaced by the service's own page: a client or
/// server error (400 to 599) whose content type is not HTML, as a framework's plain text is.
pub open spec fn replaced_body(status: u16, content_type: Option<Seq<char>>) -> bool {
    400 <= status <= 599 && !(content_type matches Some(t) && t.len() >= 9 && t.take(9) == "text/html"@)
}

pub fn replaces_body(status: u16, content_type: Option<&str>) -> (r: bool)
    ensures
        r == replaced_body(status, match content_type { Some(t) => Some(t@), None => None }),
{
    if !(400 <= status && status <= 599) {
        return false;
    }
    let html = match content_type {
        Some(t) => {
            let cs = crate::text::chars_of(t);
            let prefix = crate::text::chars_of("text/html");
            proof {
                reveal_strlit("text/html");
            }
            if cs.len() < 9 {
                false
            } else {
                let head = crate::text::sub_chars(cs.as_slice(), 0, 9);
                assert(head@ =~= t@.take(9));
                crate::text::seq_eq(head.as_slice(), prefix.as_slice())
            }
        },
        None => false,
    };
    !html
}

} // verus!
