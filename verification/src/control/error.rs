//! The failures of the control plane and how each is shown to a caller.
use crate::domain::DomainError;
use crate::text::join;
use vstd::prelude::*;

verus! {

#[derive(Debug)]
pub enum ServiceError {
    Invalid(String),
    NotFound,
    Conflict(String),
    InsufficientFunds(String),
    Unauthorized,
    Forbidden,
    InternalAuthUnavailable,
    InvalidInternalToken,
    Dependency(String),
    Database(String),
    Internal(String),
}

pub type ServiceResult<T> = Result<T, ServiceError>;

/// A failure with its text spelled out.
pub enum Fault {
    Invalid(Seq<char>),
    NotFound,
    Conflict(Seq<char>),
    InsufficientFunds(Seq<char>),
    Unauthorized,
    Forbidden,
    InternalAuthUnavailable,
    InvalidInternalToken,
    Dependency(Seq<char>),
    Database(Seq<char>),
    Internal(Seq<char>),
}

impl View for ServiceError {
    type V = Fault;

    open spec fn view(&self) -> Fault {
        match self {
            ServiceError::Invalid(m) => Fault::Invalid(m@),
            ServiceError::NotFound => Fault::NotFound,
            ServiceError::Conflict(m) => Fault::Conflict(m@),
            ServiceError::InsufficientFunds(m) => Fault::InsufficientFunds(m@),
            ServiceError::Unauthorized => Fault::Unauthorized,
            ServiceError::Forbidden => Fault::Forbidden,
            ServiceError::InternalAuthUnavailable => Fault::InternalAuthUnavailable,
            ServiceError::InvalidInternalToken => Fault::InvalidInternalToken,
            ServiceError::Dependency(m) => Fault::Dependency(m@),
            ServiceError::Database(m) => Fault::Database(m@),
            ServiceError::Internal(m) => Fault::Internal(m@),
        }
    }
}

/// A call that fails exactly when `fault` names a failure, and with it.
pub open spec fn refused<T>(r: Result<T, ServiceError>, fault: Option<Fault>) -> bool {
    match r {
        Ok(_) => fault is None,
        Err(e) => fault == Some(e@),
    }
}

/// What a failure looks like from outside: status, code and message.
pub open spec fn public_face(e: Fault) -> (u16, Seq<char>, Seq<char>) {
    match e {
        Fault::Invalid(m) => (400, "invalid_request"@, m),
        Fault::NotFound => (404, "not_found"@, "resource not found"@),
        Fault::Conflict(m) => (409, "conflict"@, m),
        Fault::InsufficientFunds(m) => (402, "billing_limit_exceeded"@, m),
        Fault::Unauthorized => (
            401,
            "authentication_required"@,
            "console authentication is required"@,
        ),
        Fault::Forbidden => (403, "forbidden"@, "the current user cannot access this tenant"@),
        Fault::InternalAuthUnavailable => (
            503,
            "internal_auth_unavailable"@,
            "internal authentication is not configured"@,
        ),
        Fault::InvalidInternalToken => (
            401,
            "invalid_internal_token"@,
            "a valid internal token is required"@,
        ),
        Fault::Dependency(m) => (
            503,
            "dependency_unavailable"@,
            "dependent service is unavailable: "@ + m,
        ),
        Fault::Database(_) => (503, "database_unavailable"@, "platform database is unavailable"@),
        Fault::Internal(_) => (500, "internal_error"@, "an internal error occurred"@),
    }
}

impl ServiceError {
    /// The response of a failed request. Database and internal failures keep
    /// their details to themselves.
    pub fn into_response(self) -> (r: (u16, &'static str, String))
        ensures
            (r.0, r.1@, r.2@) == public_face(self@),
    {
        match self {
            ServiceError::Invalid(message) => (400, "invalid_request", message),
            ServiceError::NotFound => (404, "not_found", "resource not found".to_owned()),
            ServiceError::Conflict(message) => (409, "conflict", message),
            ServiceError::InsufficientFunds(message) => (402, "billing_limit_exceeded", message),
            ServiceError::Unauthorized => (
                401,
                "authentication_required",
                "console authentication is required".to_owned(),
            ),
            ServiceError::Forbidden => (
                403,
                "forbidden",
                "the current user cannot access this tenant".to_owned(),
            ),
            ServiceError::InternalAuthUnavailable => (
                503,
                "internal_auth_unavailable",
                "internal authentication is not configured".to_owned(),
            ),
            ServiceError::InvalidInternalToken => (
                401,
                "invalid_internal_token",
                "a valid internal token is required".to_owned(),
            ),
            ServiceError::Dependency(message) => (
                503,
                "dependency_unavailable",
                join("dependent service is unavailable: ", message.as_str()),
            ),
            ServiceError::Database(_) => (
                503,
                "database_unavailable",
                "platform database is unavailable".to_owned(),
            ),
            ServiceError::Internal(_) => (
                500,
                "internal_error",
                "an internal error occurred".to_owned(),
            ),
        }
    }
}

pub(crate) fn conflict(message: &str) -> (r: ServiceError)
    ensures
        r@ == Fault::Conflict(message@),
{
    ServiceError::Conflict(message.to_owned())
}

pub(crate) fn invalid(message: &str) -> (r: ServiceError)
    ensures
        r@ == Fault::Invalid(message@),
{
    ServiceError::Invalid(message.to_owned())
}

pub(crate) fn internal(message: &str) -> (r: ServiceError)
    ensures
        r@ == Fault::Internal(message@),
{
    ServiceError::Internal(message.to_owned())
}

pub(crate) fn out_of_funds(message: &str) -> (r: ServiceError)
    ensures
        r@ == Fault::InsufficientFunds(message@),
{
    ServiceError::InsufficientFunds(message.to_owned())
}

/// A domain rule that a request breaks is shown as an invalid request.
pub(crate) fn from_domain(e: DomainError) -> (r: ServiceError)
    ensures
        r@ == Fault::Invalid(e.text()),
{
    ServiceError::Invalid(e.message())
}

/// What went wrong inside is not shown: errors of the database and of the service itself look
/// alike from outside, whatever they say.
pub proof fn law_inner_errors_are_not_shown(a: Seq<char>, b: Seq<char>)
    ensures
        public_face(Fault::Database(a)) == public_face(Fault::Database(b)),
        public_face(Fault::Internal(a)) == public_face(Fault::Internal(b)),
        public_face(Fault::Invalid(a)).2 == a,
        public_face(Fault::Conflict(a)).2 == a,
        public_face(Fault::InsufficientFunds(a)).2 == a,
{
}

/// Errors of the caller are answered in the four hundreds and those of the service in the five
/// hundreds; want of money, of identity, of permission and of the resource each have the
/// status that HTTP has for it.
pub proof fn law_errors_have_their_status(e: Fault)
    ensures
        public_face(e).0 / 100 == 5 <==> e is InternalAuthUnavailable || e is Dependency || e
            is Database || e is Internal,
        public_face(e).0 / 100 == 4 || public_face(e).0 / 100 == 5,
        public_face(e).0 == 400 <==> e is Invalid,
        public_face(e).0 == 401 <==> e is Unauthorized || e is InvalidInternalToken,
        public_face(e).0 == 402 <==> e is InsufficientFunds,
        public_face(e).0 == 403 <==> e is Forbidden,
        public_face(e).0 == 404 <==> e is NotFound,
        public_face(e).0 == 409 <==> e is Conflict,
        public_face(e).0 == 500 <==> e is Internal,
{
}

} // verus!
