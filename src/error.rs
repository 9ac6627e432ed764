use vstd::prelude::*;

verus! {

/// The four kinds of failure that stop a request before any body is sent.
#[derive(Debug, Clone, Copy, PartialEq, Eq, Structural)]
pub enum ErrorKind {
    Internal,
    Forbidden,
    NotFound,
    BadRequest,
}

/// The HTTP status that answers a failure of the given kind.
pub open spec fn status_of(kind: ErrorKind) -> u16 {
    match kind {
        ErrorKind::Internal => 500,
        ErrorKind::Forbidden => 403,
        ErrorKind::NotFound => 404,
        ErrorKind::BadRequest => 400,
    }
}

impl ErrorKind {
    /// The status code that a response for this kind carries.
    pub fn status_code(self) -> (r: u16)
        ensures
            r == status_of(self),
    {
        match self {
            ErrorKind::Internal => 500,
            ErrorKind::Forbidden => 403,
            ErrorKind::NotFound => 404,
            ErrorKind::BadRequest => 400,
        }
    }

    /// The name of the kind, as it reads in a log line.
    pub fn as_str(self) -> (r: &'static str)
        ensures
            r@ == match self {
                ErrorKind::Internal => "Internal"@,
                ErrorKind::Forbidden => "Forbidden"@,
                ErrorKind::NotFound => "NotFound"@,
                ErrorKind::BadRequest => "BadRequest"@,
            },
    {
        match self {
            ErrorKind::Internal => "Internal",
            ErrorKind::Forbidden => "Forbidden",
            ErrorKind::NotFound => "NotFound",
            ErrorKind::BadRequest => "BadRequest",
        }
    }
}

/// A failure of one kind, with the text of its underlying cause kept for
/// diagnostics only (it never reaches the client).
#[derive(Debug)]
pub struct Error {
    kind: ErrorKind,
    source: Option<String>,
}

impl Error {
    /// The kind of the failure; it never changes once the error is made.
    pub closed spec fn spec_kind(&self) -> ErrorKind {
        self.kind
    }

    /// The cause kept for diagnostics.
    pub closed spec fn spec_source(&self) -> Option<String> {
        self.source
    }

    pub fn kind(&self) -> (r: ErrorKind)
        ensures
            r == self.spec_kind(),
    {
        self.kind
    }

    pub fn bad_req() -> (r: Self)
        ensures
            r.spec_kind() == ErrorKind::BadRequest,
            r.spec_source() is None,
    {
        Error { kind: ErrorKind::BadRequest, source: None }
    }

    pub fn forbidden() -> (r: Self)
        ensures
            r.spec_kind() == ErrorKind::Forbidden,
            r.spec_source() is None,
    {
        Error { kind: ErrorKind::Forbidden, source: None }
    }

    pub fn not_found() -> (r: Self)
        ensures
            r.spec_kind() == ErrorKind::NotFound,
            r.spec_source() is None,
    {
        Error { kind: ErrorKind::NotFound, source: None }
    }

    /// An unexpected failure; `source` describes its cause.
    pub fn internal(source: String) -> (r: Self)
        ensures
            r.spec_kind() == ErrorKind::Internal,
            r.spec_source() == Some(source),
    {
        Error { kind: ErrorKind::Internal, source: Some(source) }
    }

    /// The status code of the response that reports this failure.
    pub fn status_code(&self) -> (r: u16)
        ensures
            r == status_of(self.spec_kind()),
    {
        self.kind.status_code()
    }

    /// The cause kept for diagnostics, if any.
    pub fn source(&self) -> (r: &Option<String>)
        ensures
            *r == self.spec_source(),
    {
        &self.source
    }
}

} // verus!
