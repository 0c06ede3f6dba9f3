use vstd::prelude::*;

verus! {

/// A failure reported to the caller: a numeric status, a short title and a
/// sentence for a human reader.
#[derive(Debug, PartialEq, Eq)]
pub struct APIError {
    pub code: u16,
    pub title: String,
    pub message: String,
}

/// The four ways an operation can fail.
#[derive(Clone, Copy, Debug, PartialEq, Eq, Structural)]
pub enum ErrorKind {
    BadRequest,
    Forbidden,
    NotFound,
    Internal,
}

impl ErrorKind {
    /// The status number that stands for this kind.
    pub open spec fn spec_code(self) -> u16 {
        match self {
            ErrorKind::BadRequest => 400,
            ErrorKind::Forbidden => 403,
            ErrorKind::NotFound => 404,
            ErrorKind::Internal => 500,
        }
    }

    /// The title that goes with this kind.
    pub open spec fn spec_title(self) -> Seq<char> {
        match self {
            ErrorKind::BadRequest => "Bad Request"@,
            ErrorKind::Forbidden => "Forbidden"@,
            ErrorKind::NotFound => "Not Found"@,
            ErrorKind::Internal => "Internal Server Error"@,
        }
    }

    /// The status number that stands for this kind.
    #[verifier::when_used_as_spec(spec_code)]
    pub fn code(self) -> (code: u16)
        ensures
            code == self.spec_code(),
    {
        match self {
            ErrorKind::BadRequest => 400,
            ErrorKind::Forbidden => 403,
            ErrorKind::NotFound => 404,
            ErrorKind::Internal => 500,
        }
    }
}

/// Is `error` the failure of the given kind that carries exactly `message`?
pub open spec fn failure(error: APIError, kind: ErrorKind, message: Seq<char>) -> bool {
    &&& error.code == kind.spec_code()
    &&& error.title@ == kind.spec_title()
    &&& error.message@ == message
}

impl Clone for APIError {
    fn clone(&self) -> (copy: Self)
        ensures
            copy == *self,
    {
        APIError { code: self.code, title: self.title.clone(), message: self.message.clone() }
    }
}

impl APIError {
    /// A failure with the given status, title and message.
    pub fn new(code: u16, title: &str, message: &str) -> (error: Self)
        ensures
            error.code == code,
            error.title@ == title@,
            error.message@ == message@,
    {
        APIError { code, title: title.to_owned(), message: message.to_owned() }
    }

    /// The failure of the given kind with the given message.
    pub fn of_kind(kind: ErrorKind, message: &str) -> (error: Self)
        ensures
            failure(error, kind, message@),
    {
        let title = match kind {
            ErrorKind::BadRequest => "Bad Request",
            ErrorKind::Forbidden => "Forbidden",
            ErrorKind::NotFound => "Not Found",
            ErrorKind::Internal => "Internal Server Error",
        };
        APIError { code: kind.code(), title: title.to_owned(), message: message.to_owned() }
    }

    /// The request itself is at fault.
    pub fn bad_request(message: &str) -> (error: Self)
        ensures
            failure(error, ErrorKind::BadRequest, message@),
    {
        APIError::of_kind(ErrorKind::BadRequest, message)
    }

    /// The caller may not do what was asked.
    pub fn forbidden(message: &str) -> (error: Self)
        ensures
            failure(error, ErrorKind::Forbidden, message@),
    {
        APIError::of_kind(ErrorKind::Forbidden, message)
    }

    /// What was asked for is not there.
    pub fn not_found(message: &str) -> (error: Self)
        ensures
            failure(error, ErrorKind::NotFound, message@),
    {
        APIError::of_kind(ErrorKind::NotFound, message)
    }

    /// The service itself is at fault.
    pub fn internal(message: &str) -> (error: Self)
        ensures
            failure(error, ErrorKind::Internal, message@),
    {
        APIError::of_kind(ErrorKind::Internal, message)
    }

    /// Does this failure say that something was not found?
    pub open spec fn spec_is_not_found(&self) -> bool {
        self.code == 404
    }

    /// Does this failure say that something was not found?
    #[verifier::when_used_as_spec(spec_is_not_found)]
    pub fn is_not_found(&self) -> (missing: bool)
        ensures
            missing == self.spec_is_not_found(),
    {
        self.code == 404
    }
}

} // verus!
