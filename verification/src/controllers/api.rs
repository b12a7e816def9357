use super::auth::AuthKeyExtractor;
use super::status::StatusCode;
use crate::models::session::SessionId;
use crate::repositories::auth::spec_check_auth_key;
use crate::repositories::session::{spec_key_of, SessionRepository};
use crate::services::session::{SessionError, SessionService};
use vstd::prelude::*;

verus! {

/// The answer to a request that only asks whether a session is there.
pub open spec fn spec_head_status(found: Result<bool, SessionError>) -> StatusCode {
    match found {
        Ok(true) => StatusCode::Success,
        Ok(false) => StatusCode::NotFound,
        Err(e) => e.spec_status_code(),
    }
}

pub fn head_status(found: Result<bool, SessionError>) -> (status: StatusCode)
    ensures
        status == spec_head_status(found),
{
    match found {
        Ok(found) => {
            if found {
                StatusCode::Success
            } else {
                StatusCode::NotFound
            }
        },
        Err(e) => e.into_status_code(),
    }
}

/// Whether a request may go on, by what the session service said of its
/// key: it may where the key opens the session; otherwise it is turned down
/// with the status of the failure.
pub open spec fn spec_gate(verdict: Result<(), SessionError>) -> Result<(), StatusCode> {
    match verdict {
        Ok(_) => Ok(()),
        Err(e) => Err(e.spec_status_code()),
    }
}

pub fn gate(verdict: Result<(), SessionError>) -> (pass: Result<(), StatusCode>)
    ensures
        pass == spec_gate(verdict),
{
    match verdict {
        Ok(_) => Ok(()),
        Err(e) => Err(e.into_status_code()),
    }
}

/// Checks the key that a request shows against a session's secret. The
/// request is turned down with the carrier's status where the key cannot be
/// had from it, as unauthorized where the key does not open the session,
/// and with an internal error where the store could not tell.
pub fn check_auth_key<R: SessionRepository, X: AuthKeyExtractor>(
    service: &SessionService<R>,
    sid: &SessionId,
    headers: &X,
) -> (pass: Result<(), StatusCode>)
    requires
        service.wf(),
    ensures
        match headers.spec_auth_key() {
            Err(status) => pass == Err::<(), StatusCode>(status),
            Ok(key) => spec_asked(service, sid, key, pass) && match pass {
                Ok(_) => spec_check_auth_key(spec_key_of(service.spec_repository().auth_keys(), *sid), key)
                    == Some(true),
                Err(StatusCode::Unauthorized) => spec_check_auth_key(
                    spec_key_of(service.spec_repository().auth_keys(), *sid),
                    key,
                ) == Some(false),
                Err(StatusCode::InternalServerError) => true,
                Err(_) => false,
            },
        },
{
    match headers.extract_auth_key() {
        Ok(auth_key) => gate(service.auth(sid, auth_key.as_slice())),
        Err(status) => {
            proof {
                assert(headers.spec_auth_key() == Err::<Seq<u8>, StatusCode>(status));
            }
            Err(status)
        },
    }
}

/// The session service was asked whether `key` opens the session, and
/// the request goes on or is turned down by its verdict, as `spec_gate`
/// has it.
pub open spec fn spec_asked<R: SessionRepository>(
    service: &SessionService<R>,
    sid: &SessionId,
    key: Seq<u8>,
    pass: Result<(), StatusCode>,
) -> bool {
    exists|auth_key: &[u8], verdict: Result<(), SessionError>|
        {
            &&& auth_key@ == key
            &&& #[trigger] call_ensures(SessionService::<R>::auth, (service, sid, auth_key), verdict)
            &&& pass == spec_gate(verdict)
        }
}

} // verus!
