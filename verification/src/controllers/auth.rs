use super::status::StatusCode;
use crate::repositories::auth::{
    base64_standard_decode, base64_url_safe_no_pad_decode, spec_base64_standard_decode,
    spec_base64_url_safe_no_pad_decode,
};
use vstd::prelude::*;
use vstd::utf8::encode_utf8;

verus! {

/// The key that a request shows, as it came in the query: URL-safe base64
/// without padding.
#[derive(Debug)]
pub struct AuthParams {
    auth: Option<String>,
}

/// The key that a request shows, as it came in the `X-Auth-Key` header:
/// standard base64.
#[derive(Debug)]
pub struct AuthHeader {
    value: Option<Vec<u8>>,
}

/// The key that an encoded text stands for. No text at all stands for the
/// empty key; a text that cannot be decoded is a bad request.
pub open spec fn spec_extracted(encoded: Option<Seq<u8>>, decoded: Option<Seq<u8>>) -> Result<
    Seq<u8>,
    StatusCode,
> {
    match encoded {
        None => Ok(Seq::<u8>::empty()),
        Some(_) => match decoded {
            Some(key) => Ok(key),
            None => Err(StatusCode::BadRequest),
        },
    }
}

/// The key that a carrier's text was decoded to, or the status that turns
/// the request down where it could not be decoded.
pub fn decoded_key(decoded: Option<Vec<u8>>) -> (key: Result<Vec<u8>, StatusCode>)
    ensures
        match decoded {
            Some(bytes) => key == Ok::<Vec<u8>, StatusCode>(bytes),
            None => key == Err::<Vec<u8>, StatusCode>(StatusCode::BadRequest),
        },
{
    match decoded {
        Some(key) => Ok(key),
        None => Err(StatusCode::BadRequest),
    }
}

/// Something that carries the key a request shows.
pub trait AuthKeyExtractor {
    /// The key carried, or the status that turns the request down.
    spec fn spec_auth_key(&self) -> Result<Seq<u8>, StatusCode>;

    fn extract_auth_key(&self) -> (key: Result<Vec<u8>, StatusCode>)
        ensures
            match key {
                Ok(key) => self.spec_auth_key() == Ok::<Seq<u8>, StatusCode>(key@),
                Err(status) => self.spec_auth_key() == Err::<Seq<u8>, StatusCode>(status),
            },
    ;
}

impl AuthParams {
    pub closed spec fn spec_auth(&self) -> Option<String> {
        self.auth
    }

    pub fn new(auth: Option<String>) -> (params: Self)
        ensures
            params.spec_auth() == auth,
    {
        AuthParams { auth }
    }
}

impl AuthHeader {
    pub closed spec fn spec_value(&self) -> Option<Vec<u8>> {
        self.value
    }

    pub fn new(value: Option<Vec<u8>>) -> (header: Self)
        ensures
            header.spec_value() == value,
    {
        AuthHeader { value }
    }
}

impl AuthKeyExtractor for AuthParams {
    open spec fn spec_auth_key(&self) -> Result<Seq<u8>, StatusCode> {
        match self.spec_auth() {
            Some(encoded) => spec_extracted(
                Some(encode_utf8(encoded@)),
                spec_base64_url_safe_no_pad_decode(encode_utf8(encoded@)),
            ),
            None => spec_extracted(None, None),
        }
    }

    fn extract_auth_key(&self) -> (key: Result<Vec<u8>, StatusCode>) {
        match &self.auth {
            Some(encoded) => decoded_key(base64_url_safe_no_pad_decode(encoded.as_str().as_bytes())),
            None => {
                let key: Vec<u8> = Vec::new();
                Ok(key)
            },
        }
    }
}

impl AuthKeyExtractor for AuthHeader {
    open spec fn spec_auth_key(&self) -> Result<Seq<u8>, StatusCode> {
        match self.spec_value() {
            Some(encoded) => spec_extracted(Some(encoded@), spec_base64_standard_decode(encoded@)),
            None => spec_extracted(None, None),
        }
    }

    fn extract_auth_key(&self) -> (key: Result<Vec<u8>, StatusCode>) {
        match &self.value {
            Some(encoded) => decoded_key(base64_standard_decode(encoded.as_slice())),
            None => {
                let key: Vec<u8> = Vec::new();
                Ok(key)
            },
        }
    }
}

} // verus!
