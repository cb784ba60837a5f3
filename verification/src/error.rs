//! What can go wrong with a request, and how it is answered.

use vstd::prelude::*;

verus! {

/// Why a request is not fulfilled.
#[derive(Debug)]
pub enum AppError {
    NotFound,
    Unauthorized,
    Forbidden,
    BadRequest(String),
    Conflict(String),
    InsufficientStorage,
    /// The database failed; its message.
    Database(String),
    /// The file system failed; its message.
    Io(String),
    Internal(String),
}

/// The mathematical content of an [`AppError`].
#[verifier::ext_equal]
pub enum ErrorView {
    NotFound,
    Unauthorized,
    Forbidden,
    BadRequest(Seq<char>),
    Conflict(Seq<char>),
    InsufficientStorage,
    Database(Seq<char>),
    Io(Seq<char>),
    Internal(Seq<char>),
}

impl View for AppError {
    type V = ErrorView;

    open spec fn view(&self) -> ErrorView {
        match self {
            AppError::NotFound => ErrorView::NotFound,
            AppError::Unauthorized => ErrorView::Unauthorized,
            AppError::Forbidden => ErrorView::Forbidden,
            AppError::BadRequest(m) => ErrorView::BadRequest(m@),
            AppError::Conflict(m) => ErrorView::Conflict(m@),
            AppError::InsufficientStorage => ErrorView::InsufficientStorage,
            AppError::Database(m) => ErrorView::Database(m@),
            AppError::Io(m) => ErrorView::Io(m@),
            AppError::Internal(m) => ErrorView::Internal(m@),
        }
    }
}

/// A result with its error taken by its content.
pub open spec fn outcome<T>(r: Result<T, AppError>) -> Result<T, ErrorView> {
    match r {
        Ok(v) => Ok(v),
        Err(e) => Err(e@),
    }
}

/// The answer to a request that failed: an HTTP status, and a code and a message for the body.
pub struct ErrorResponse {
    pub status: u16,
    pub error: String,
    pub message: String,
}

/// The status that an error is answered with.
pub open spec fn status_of(e: ErrorView) -> u16 {
    match e {
        ErrorView::NotFound => 404,
        ErrorView::Unauthorized => 401,
        ErrorView::Forbidden => 403,
        ErrorView::BadRequest(_) => 400,
        ErrorView::Conflict(_) => 409,
        ErrorView::InsufficientStorage => 507,
        ErrorView::Database(_) | ErrorView::Io(_) | ErrorView::Internal(_) => 500,
    }
}

/// The code that names an error to a client.
pub open spec fn code_of(e: ErrorView) -> Seq<char> {
    match e {
        ErrorView::NotFound => "not_found"@,
        ErrorView::Unauthorized => "unauthorized"@,
        ErrorView::Forbidden => "forbidden"@,
        ErrorView::BadRequest(_) => "bad_request"@,
        ErrorView::Conflict(_) => "conflict"@,
        ErrorView::InsufficientStorage => "insufficient_storage"@,
        ErrorView::Database(_) | ErrorView::Io(_) | ErrorView::Internal(_) => "internal_error"@,
    }
}

/// What an error says of itself.
pub open spec fn text_of_error(e: ErrorView) -> Seq<char> {
    match e {
        ErrorView::NotFound => "not found"@,
        ErrorView::Unauthorized => "unauthorized"@,
        ErrorView::Forbidden => "forbidden"@,
        ErrorView::BadRequest(m) => "bad request: "@ + m,
        ErrorView::Conflict(m) => "conflict: "@ + m,
        ErrorView::InsufficientStorage => "insufficient storage"@,
        ErrorView::Database(m) => "database error: "@ + m,
        ErrorView::Io(m) => "io error: "@ + m,
        ErrorView::Internal(m) => "internal error: "@ + m,
    }
}

/// The server's own failure, whose details a client is not told.
pub open spec fn is_internal(e: ErrorView) -> bool {
    e is Database || e is Io || e is Internal
}

/// What a client is told of an error.
pub open spec fn message_of(e: ErrorView) -> Seq<char> {
    if is_internal(e) {
        "an internal error occurred"@
    } else {
        text_of_error(e)
    }
}

/// `head` followed by `tail`.
pub fn joined(head: &str, tail: &str) -> (r: String)
    ensures
        r@ == head@ + tail@,
{
    let mut r = head.to_owned();
    r.append(tail);
    r
}

impl AppError {
    /// What the error says of itself.
    pub fn text(&self) -> (r: String)
        ensures
            r@ == text_of_error(self@),
    {
        match self {
            AppError::NotFound => "not found".to_owned(),
            AppError::Unauthorized => "unauthorized".to_owned(),
            AppError::Forbidden => "forbidden".to_owned(),
            AppError::BadRequest(m) => joined("bad request: ", m.as_str()),
            AppError::Conflict(m) => joined("conflict: ", m.as_str()),
            AppError::InsufficientStorage => "insufficient storage".to_owned(),
            AppError::Database(m) => joined("database error: ", m.as_str()),
            AppError::Io(m) => joined("io error: ", m.as_str()),
            AppError::Internal(m) => joined("internal error: ", m.as_str()),
        }
    }

    /// How the error is answered.
    pub fn into_response(self) -> (r: ErrorResponse)
        ensures
            r.status == status_of(self@),
            r.error@ == code_of(self@),
            r.message@ == message_of(self@),
    {
        let text = self.text();
        let hidden = "an internal error occurred".to_owned();
        match self {
            AppError::NotFound => ErrorResponse {
                status: 404,
                error: "not_found".to_owned(),
                message: text,
            },
            AppError::Unauthorized => ErrorResponse {
                status: 401,
                error: "unauthorized".to_owned(),
                message: text,
            },
            AppError::Forbidden => ErrorResponse {
                status: 403,
                error: "forbidden".to_owned(),
                message: text,
            },
            AppError::BadRequest(_) => ErrorResponse {
                status: 400,
                error: "bad_request".to_owned(),
                message: text,
            },
            AppError::Conflict(_) => ErrorResponse {
                status: 409,
                error: "conflict".to_owned(),
                message: text,
            },
            AppError::InsufficientStorage => ErrorResponse {
                status: 507,
                error: "insufficient_storage".to_owned(),
                message: text,
            },
            AppError::Database(_) => ErrorResponse {
                status: 500,
                error: "internal_error".to_owned(),
                message: hidden,
            },
            AppError::Io(_) => ErrorResponse {
                status: 500,
                error: "internal_error".to_owned(),
                message: hidden,
            },
            AppError::Internal(_) => ErrorResponse {
                status: 500,
                error: "internal_error".to_owned(),
                message: hidden,
            },
        }
    }
}

/// The details of the server's own failures stay with the server: all of them are answered alike.
pub proof fn law_internal_details_stay_hidden(a: ErrorView, b: ErrorView)
    requires
        is_internal(a),
        is_internal(b),
    ensures
        status_of(a) == status_of(b) == 500,
        code_of(a) == code_of(b),
        message_of(a) == message_of(b),
{
}

} // verus!
