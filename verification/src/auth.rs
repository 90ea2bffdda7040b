//! Request-boundary authentication: resolves the header-carried token value
//! to an identity before the request reaches application logic.
use crate::codec::hex_bytes;
use crate::codec::hex_decode;
use crate::codec::valid_hex;
use crate::tokens::spec_find_token;
use crate::tokens::TokenStore;
use crate::ApiError;
use vstd::prelude::*;

verus! {

/// The bytes a request-boundary header denotes. A missing or undecodable
/// header counts as empty, which can never match a stored 64-byte token.
pub open spec fn spec_header_bytes(header: Option<Seq<char>>) -> Seq<u8> {
    match header {
        Some(h) => if valid_hex(h) {
            hex_bytes(h)
        } else {
            Seq::empty()
        },
        None => Seq::empty(),
    }
}

/// Token resolution of the middleware: hex-decodes the header value and
/// matches it byte-for-byte against the live stored tokens. Anything that
/// does not resolve — header missing, not hex, unknown bytes, or a token
/// past its expiry — is `Unauthorized`.
pub fn check_auth(store: &TokenStore, header: Option<&str>, now: u64) -> (r: Result<
    u128,
    ApiError,
>)
    ensures
        ({
            let bytes = spec_header_bytes(
                match header {
                    Some(h) => Some(h@),
                    None => None,
                },
            );
            match spec_find_token(store@, bytes, now) {
                Some(u) => r == Ok::<u128, ApiError>(u),
                None => r == Err::<u128, ApiError>(ApiError::Unauthorized),
            }
        }),
{
    let decoded: Vec<u8> = match header {
        None => Vec::new(),
        Some(h) => match hex_decode(h) {
            Some(b) => b,
            None => Vec::new(),
        },
    };
    match store.validate(&decoded, now) {
        Some(u) => Ok(u),
        None => Err(ApiError::Unauthorized),
    }
}

} // verus!
