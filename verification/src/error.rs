//! The errors of the platform and how each one is answered over HTTP.
use vstd::prelude::*;

verus! {

/// An error of the platform. The variants that wrap a failure of the
/// filesystem, the database, the configuration parser or the multipart reader
/// carry that failure's message.
#[derive(Debug)]
pub enum AppError {
    BadRequest(String),
    Unauthorized,
    Forbidden,
    NotFound(String),
    Conflict(String),
    Io(String),
    Sqlx(String),
    Toml(String),
    Multipart(String),
    Password(String),
    External(String),
}

/// Whether `e` is a `BadRequest` whose message is `m`.
pub open spec fn is_bad_request(e: AppError, m: Seq<char>) -> bool {
    e matches AppError::BadRequest(s) && s@ == m
}

/// Whether `e` is a `Conflict` whose message is `m`.
pub open spec fn is_conflict(e: AppError, m: Seq<char>) -> bool {
    e matches AppError::Conflict(s) && s@ == m
}

/// Whether `e` is an `External` failure whose message is `m`.
pub open spec fn is_external(e: AppError, m: Seq<char>) -> bool {
    e matches AppError::External(s) && s@ == m
}

/// Whether `e` is a `NotFound` whose message is `m`.
pub open spec fn is_not_found(e: AppError, m: Seq<char>) -> bool {
    e matches AppError::NotFound(s) && s@ == m
}

/// The HTTP status with which the error is answered.
pub open spec fn status_of(e: AppError) -> u16 {
    match e {
        AppError::BadRequest(_) | AppError::Multipart(_) => 400,
        AppError::Unauthorized => 401,
        AppError::Forbidden => 403,
        AppError::NotFound(_) => 404,
        AppError::Conflict(_) => 409,
        _ => 500,
    }
}

/// The text of the error, as its `Display` writes it.
pub open spec fn message_of(e: AppError) -> Seq<char> {
    match e {
        AppError::BadRequest(s) => s@,
        AppError::Unauthorized => "authentication required"@,
        AppError::Forbidden => "permission denied"@,
        AppError::NotFound(s) => s@,
        AppError::Conflict(s) => s@,
        AppError::Io(s) => s@,
        AppError::Sqlx(s) => s@,
        AppError::Toml(s) => s@,
        AppError::Multipart(s) => s@,
        AppError::Password(s) => s@,
        AppError::External(s) => s@,
    }
}

/// The message shown to the client: the error's own text, except that server
/// errors are hidden behind a fixed notice.
pub open spec fn public_message_of(e: AppError) -> Seq<char> {
    if status_of(e) >= 500 {
        "服务器内部错误，请联系管理员"@
    } else {
        message_of(e)
    }
}

impl AppError {
    /// The HTTP status with which the error is answered.
    pub fn status_code(&self) -> (code: u16)
        ensures
            code == status_of(*self),
    {
        match self {
            AppError::BadRequest(_) | AppError::Multipart(_) => 400,
            AppError::Unauthorized => 401,
            AppError::Forbidden => 403,
            AppError::NotFound(_) => 404,
            AppError::Conflict(_) => 409,
            AppError::Io(_) | AppError::Sqlx(_) | AppError::Toml(_) | AppError::Password(_)
            | AppError::External(_) => 500,
        }
    }

    /// Whether the error is a server error (status 500 and above).
    pub fn is_server_error(&self) -> (b: bool)
        ensures
            b == (status_of(*self) >= 500),
    {
        self.status_code() >= 500
    }

    /// The text of the error, as its `Display` writes it.
    pub fn message(&self) -> (m: String)
        ensures
            m@ == message_of(*self),
    {
        match self {
            AppError::BadRequest(s) => s.clone(),
            AppError::Unauthorized => crate::text::owned("authentication required"),
            AppError::Forbidden => crate::text::owned("permission denied"),
            AppError::NotFound(s) => s.clone(),
            AppError::Conflict(s) => s.clone(),
            AppError::Io(s) => s.clone(),
            AppError::Sqlx(s) => s.clone(),
            AppError::Toml(s) => s.clone(),
            AppError::Multipart(s) => s.clone(),
            AppError::Password(s) => s.clone(),
            AppError::External(s) => s.clone(),
        }
    }

    /// The message shown to the client in the error body.
    pub fn public_message(&self) -> (m: String)
        ensures
            m@ == public_message_of(*self),
    {
        if self.is_server_error() {
            crate::text::owned("服务器内部错误，请联系管理员")
        } else {
            self.message()
        }
    }
}

/// A `BadRequest` error with the given message.
pub fn bad_request(m: &str) -> (e: AppError)
    ensures
        is_bad_request(e, m@),
{
    AppError::BadRequest(crate::text::owned(m))
}

/// A `Conflict` error with the given message.
pub fn conflict(m: &str) -> (e: AppError)
    ensures
        is_conflict(e, m@),
{
    AppError::Conflict(crate::text::owned(m))
}

/// A `NotFound` error with the given message.
pub fn not_found(m: &str) -> (e: AppError)
    ensures
        is_not_found(e, m@),
{
    AppError::NotFound(crate::text::owned(m))
}

/// The answer to a request for an API path that does not exist.
pub fn api_not_found() -> (e: AppError)
    ensures
        is_not_found(e, "api endpoint not found"@),
{
    not_found("api endpoint not found")
}

} // verus!
