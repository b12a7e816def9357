use crate::services::object::ObjectError;
use crate::services::session::SessionError;
use vstd::prelude::*;

verus! {

/// How a request ended, in the terms of HTTP.
#[derive(Clone, Copy, Debug, PartialEq, Eq, Structural)]
pub enum StatusCode {
    Success,
    NoContent,
    BadRequest,
    Unauthorized,
    NotFound,
    InternalServerError,
}

impl StatusCode {
    /// The number of the status.
    pub open spec fn spec_as_u16(&self) -> u16 {
        match self {
            StatusCode::Success => 200,
            StatusCode::NoContent => 204,
            StatusCode::BadRequest => 400,
            StatusCode::Unauthorized => 401,
            StatusCode::NotFound => 404,
            StatusCode::InternalServerError => 500,
        }
    }

    #[verifier::when_used_as_spec(spec_as_u16)]
    pub fn as_u16(&self) -> (code: u16)
        ensures
            code == self.spec_as_u16(),
    {
        match self {
            StatusCode::Success => 200,
            StatusCode::NoContent => 204,
            StatusCode::BadRequest => 400,
            StatusCode::Unauthorized => 401,
            StatusCode::NotFound => 404,
            StatusCode::InternalServerError => 500,
        }
    }
}

impl SessionError {
    /// The status that tells a client of this failure: absence as 404, a
    /// key that does not open as 401, a failing store as 500.
    pub open spec fn spec_status_code(&self) -> StatusCode {
        match self {
            SessionError::NotFound => StatusCode::NotFound,
            SessionError::AuthFail => StatusCode::Unauthorized,
            SessionError::Other(_) => StatusCode::InternalServerError,
        }
    }

    pub fn into_status_code(self) -> (status: StatusCode)
        ensures
            status == self.spec_status_code(),
    {
        match self {
            SessionError::NotFound => StatusCode::NotFound,
            SessionError::AuthFail => StatusCode::Unauthorized,
            SessionError::Other(_) => StatusCode::InternalServerError,
        }
    }
}

impl ObjectError {
    /// The status that tells a client of this failure: absence as 404, a
    /// failing store as 500.
    pub open spec fn spec_status_code(&self) -> StatusCode {
        match self {
            ObjectError::NotFound => StatusCode::NotFound,
            ObjectError::Other(_) => StatusCode::InternalServerError,
        }
    }

    pub fn into_status_code(self) -> (status: StatusCode)
        ensures
            status == self.spec_status_code(),
    {
        match self {
            ObjectError::NotFound => StatusCode::NotFound,
            ObjectError::Other(_) => StatusCode::InternalServerError,
        }
    }
}

/// What became of a request that a service answered: its answer, or the
/// status that tells of its failure.
pub fn normalize_session_result<T>(res: Result<T, SessionError>) -> (result: Result<T, StatusCode>)
    ensures
        match res {
            Ok(value) => result == Ok::<T, StatusCode>(value),
            Err(e) => result == Err::<T, StatusCode>(e.spec_status_code()),
        },
{
    match res {
        Ok(value) => Ok(value),
        Err(e) => Err(e.into_status_code()),
    }
}

/// What became of a request that a service answered: its answer, or the
/// status that tells of its failure.
pub fn normalize_object_result<T>(res: Result<T, ObjectError>) -> (result: Result<T, StatusCode>)
    ensures
        match res {
            Ok(value) => result == Ok::<T, StatusCode>(value),
            Err(e) => result == Err::<T, StatusCode>(e.spec_status_code()),
        },
{
    match res {
        Ok(value) => Ok(value),
        Err(e) => Err(e.into_status_code()),
    }
}

} // verus!
