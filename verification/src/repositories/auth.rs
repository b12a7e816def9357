use super::error::RepositoryError;
use crate::utils::text::bytes_eq;
use base64::prelude::{BASE64_STANDARD, BASE64_URL_SAFE_NO_PAD};
use base64::Engine;
use vstd::prelude::*;
use vstd::utf8::encode_utf8;

verus! {

/// The bytes that a text in standard base64, with padding, stands for;
/// `None` where the text is no such encoding.
pub uninterp spec fn spec_base64_standard_decode(encoded: Seq<u8>) -> Option<Seq<u8>>;

/// The bytes that a text in URL-safe base64 without padding stands for;
/// `None` where the text is no such encoding.
pub uninterp spec fn spec_base64_url_safe_no_pad_decode(encoded: Seq<u8>) -> Option<Seq<u8>>;

/// Decodes with `base64`'s `Engine::decode` on its `STANDARD` engine. The
/// result depends on the input alone; which bytes it is, is left to the
/// crate.
#[verifier::external_body]
pub(crate) fn base64_standard_decode(encoded: &[u8]) -> (decoded: Option<Vec<u8>>)
    ensures
        match decoded {
            Some(bytes) => spec_base64_standard_decode(encoded@) == Some(bytes@),
            None => spec_base64_standard_decode(encoded@) is None,
        },
{
    match BASE64_STANDARD.decode(encoded) {
        Ok(bytes) => Some(bytes),
        Err(_) => None,
    }
}

/// Decodes with `base64`'s `Engine::decode` on its `URL_SAFE_NO_PAD`
/// engine. The result depends on the input alone; which bytes it is, is
/// left to the crate.
#[verifier::external_body]
pub(crate) fn base64_url_safe_no_pad_decode(encoded: &[u8]) -> (decoded: Option<Vec<u8>>)
    ensures
        match decoded {
            Some(bytes) => spec_base64_url_safe_no_pad_decode(encoded@) == Some(bytes@),
            None => spec_base64_url_safe_no_pad_decode(encoded@) is None,
        },
{
    match BASE64_URL_SAFE_NO_PAD.decode(encoded) {
        Ok(bytes) => Some(bytes),
        Err(_) => None,
    }
}

/// A secret as a store keeps it: the bytes of the text it was sent as.
pub open spec fn spec_stored_key(auth_key: Option<String>) -> Option<Seq<u8>> {
    match auth_key {
        Some(key) => Some(encode_utf8(key@)),
        None => None,
    }
}

/// Whether a key that a caller shows opens what is kept under a stored
/// secret. Where no secret is kept, any key does. Where one is kept, the
/// key must equal, byte for byte, what the stored text decodes to. `None`
/// where the stored text cannot be decoded.
pub open spec fn spec_check_auth_key(stored: Option<Seq<u8>>, auth_key: Seq<u8>) -> Option<bool> {
    match stored {
        None => Some(true),
        Some(encoded) => match spec_base64_standard_decode(encoded) {
            Some(expected) => Some(expected == auth_key),
            None => None,
        },
    }
}

/// What a stored secret, once decoded, says of the key that a caller
/// shows: the key opens exactly where it equals the secret byte for byte;
/// a secret that could not be decoded is a failure of the store.
pub fn match_decoded(decoded: Option<Vec<u8>>, auth_key: &[u8]) -> (verdict: Result<bool, RepositoryError>)
    ensures
        match decoded {
            Some(expected) => verdict == Ok::<bool, RepositoryError>(expected@ == auth_key@),
            None => verdict matches Err(e) && e is Other,
        },
{
    match decoded {
        Some(expected) => Ok(bytes_eq(expected.as_slice(), auth_key)),
        None => Err(RepositoryError::other("Invalid encoding of the stored key")),
    }
}

/// Compares the key that a caller shows with a stored secret.
pub fn check_auth_key(stored: Option<&String>, auth_key: &[u8]) -> (verdict: Result<bool, RepositoryError>)
    ensures
        match verdict {
            Ok(opens) => spec_check_auth_key(spec_stored_key(spec_owned(stored)), auth_key@) == Some(opens),
            Err(e) => spec_check_auth_key(spec_stored_key(spec_owned(stored)), auth_key@) is None && e
                is Other,
        },
{
    match stored {
        Some(encoded) => match_decoded(base64_standard_decode(encoded.as_str().as_bytes()), auth_key),
        None => {
            // Nothing is kept for the session: every key opens it.
            Ok(true)
        },
    }
}

/// The text behind an optional reference.
pub open spec fn spec_owned(text: Option<&String>) -> Option<String> {
    match text {
        Some(text) => Some(*text),
        None => None,
    }
}

} // verus!
