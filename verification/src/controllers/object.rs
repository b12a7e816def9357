use super::auth::{AuthHeader, AuthKeyExtractor, AuthParams};
use super::status::StatusCode;
use crate::repositories::auth::spec_check_auth_key;
use crate::repositories::object::ObjectRepository;
use crate::services::object::{ObjectError, ObjectService};
use crate::utils::text::text_eq;
use vstd::prelude::*;
use vstd::string::*;

verus! {

/// One part of a multipart upload, as far as the upload looks at it.
#[derive(Debug)]
pub struct UploadField {
    pub name: Option<String>,
    pub file_name: Option<String>,
    pub content_type: Option<String>,
}

impl UploadField {
    /// Whether the part carries the file of the upload: it is named `file`
    /// and names a file.
    pub open spec fn spec_is_file(&self) -> bool {
        self.name matches Some(name) && self.file_name is Some && name@ == "file"@
    }

    /// The media type of the part: the one it declares, or else that of
    /// arbitrary bytes.
    pub open spec fn spec_mime(&self) -> Seq<char> {
        match self.content_type {
            Some(mime) => mime@,
            None => "application/octet-stream"@,
        }
    }

    pub fn is_file(&self) -> (r: bool)
        ensures
            r == self.spec_is_file(),
    {
        match (&self.name, &self.file_name) {
            (Some(name), Some(_)) => text_eq(name.as_str(), "file"),
            _ => false,
        }
    }

    pub fn mime(&self) -> (mime: String)
        ensures
            mime@ == self.spec_mime(),
    {
        match &self.content_type {
            Some(mime) => mime.clone(),
            None => String::from_str("application/octet-stream"),
        }
    }
}

/// Whether a request may go on, by what the object service said of its
/// key.
pub open spec fn spec_gate(verdict: Result<bool, ObjectError>) -> Result<(), StatusCode> {
    match verdict {
        Ok(true) => Ok(()),
        Ok(false) => Err(StatusCode::Unauthorized),
        Err(e) => Err(e.spec_status_code()),
    }
}

pub fn gate(verdict: Result<bool, ObjectError>) -> (pass: Result<(), StatusCode>)
    ensures
        pass == spec_gate(verdict),
{
    match verdict {
        Ok(opens) => {
            if opens {
                Ok(())
            } else {
                Err(StatusCode::Unauthorized)
            }
        },
        Err(e) => Err(e.into_status_code()),
    }
}

/// Checks a key against the secret of the session whose objects the
/// service keeps: the request goes on where the key opens the session, is
/// unauthorized where it does not, and meets an internal error where the
/// store could not tell.
pub fn check_auth_key<O: ObjectRepository>(service: &ObjectService<O>, auth_key: &[u8]) -> (pass: Result<
    (),
    StatusCode,
>)
    requires
        service.wf(),
    ensures
        spec_asked(service, auth_key@, pass),
        match pass {
            Ok(_) => spec_check_auth_key(service.spec_repository().auth_key(), auth_key@) == Some(true),
            Err(StatusCode::Unauthorized) => spec_check_auth_key(
                service.spec_repository().auth_key(),
                auth_key@,
            ) == Some(false),
            Err(StatusCode::InternalServerError) => true,
            Err(_) => false,
        },
{
    gate(service.auth(auth_key))
}

/// Checks the key that a request carries: as `check_auth_key`, after the
/// key was had from its carrier; where it cannot be had, the request is
/// turned down with the carrier's status.
pub fn check_carried_auth_key<O: ObjectRepository, X: AuthKeyExtractor>(
    service: &ObjectService<O>,
    carrier: &X,
) -> (pass: Result<(), StatusCode>)
    requires
        service.wf(),
    ensures
        match carrier.spec_auth_key() {
            Err(status) => pass == Err::<(), StatusCode>(status),
            Ok(key) => spec_asked(service, key, pass) && match pass {
                Ok(_) => spec_check_auth_key(service.spec_repository().auth_key(), key) == Some(true),
                Err(StatusCode::Unauthorized) => spec_check_auth_key(
                    service.spec_repository().auth_key(),
                    key,
                ) == Some(false),
                Err(StatusCode::InternalServerError) => true,
                Err(_) => false,
            },
        },
{
    match carrier.extract_auth_key() {
        Ok(auth_key) => check_auth_key(service, auth_key.as_slice()),
        Err(status) => Err(status),
    }
}

/// Checks the key that a request carries in its query.
pub fn check_query_auth_key<O: ObjectRepository>(service: &ObjectService<O>, params: &AuthParams) -> (pass:
    Result<(), StatusCode>)
    requires
        service.wf(),
    ensures
        match params.spec_auth_key() {
            Err(status) => pass == Err::<(), StatusCode>(status),
            Ok(key) => spec_asked(service, key, pass) && match pass {
                Ok(_) => spec_check_auth_key(service.spec_repository().auth_key(), key) == Some(true),
                Err(StatusCode::Unauthorized) => spec_check_auth_key(
                    service.spec_repository().auth_key(),
                    key,
                ) == Some(false),
                Err(StatusCode::InternalServerError) => true,
                Err(_) => false,
            },
        },
{
    check_carried_auth_key(service, params)
}

/// Checks the key that a request carries in its header.
pub fn check_header_auth_key<O: ObjectRepository>(service: &ObjectService<O>, headers: &AuthHeader) -> (pass:
    Result<(), StatusCode>)
    requires
        service.wf(),
    ensures
        match headers.spec_auth_key() {
            Err(status) => pass == Err::<(), StatusCode>(status),
            Ok(key) => spec_asked(service, key, pass) && match pass {
                Ok(_) => spec_check_auth_key(service.spec_repository().auth_key(), key) == Some(true),
                Err(StatusCode::Unauthorized) => spec_check_auth_key(
                    service.spec_repository().auth_key(),
                    key,
                ) == Some(false),
                Err(StatusCode::InternalServerError) => true,
                Err(_) => false,
            },
        },
{
    check_carried_auth_key(service, headers)
}

/// The object service was asked whether `key` opens the session, and the
/// request goes on or is turned down by its verdict, as `spec_gate` has
/// it.
pub open spec fn spec_asked<O: ObjectRepository>(
    service: &ObjectService<O>,
    key: Seq<u8>,
    pass: Result<(), StatusCode>,
) -> bool {
    exists|auth_key: &[u8], verdict: Result<bool, ObjectError>|
        {
            &&& auth_key@ == key
            &&& #[trigger] call_ensures(ObjectService::<O>::auth, (service, auth_key), verdict)
            &&& pass == spec_gate(verdict)
        }
}

} // verus!
