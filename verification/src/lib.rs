//! Trust and admission-control core for a multi-tenant content platform: a
//! concurrency-bounded password-hashing pool, a timing-defensive sign-in
//! protocol, bearer-token lifecycle policy, and a per-client sliding-window
//! rate limiter. Persistence and transport are external collaborators; the
//! functions here work on in-memory models of the records those collaborators
//! own, so every admission decision is made by verified code.
use vstd::prelude::*;

pub mod auth;
pub mod codec;
pub mod email;
pub mod hash;
pub mod models;
pub mod objects;
pub mod rate_limit;
pub mod search;
pub mod tokens;
pub mod user_websocket;
pub mod users;

verus! {

/// Error taxonomy of the service. `ValidationError` is the only failure that
/// may short-circuit the sign-in timing pad, since malformed input is not a
/// secret; `AuthenticationFailure` deliberately does not distinguish an
/// unknown email from a wrong password.
#[derive(Clone, Copy, Debug, PartialEq, Eq, Structural)]
pub enum ApiError {
    /// Malformed or oversized input.
    ValidationError,
    /// Unknown email or wrong password; one generic message for both.
    AuthenticationFailure,
    /// A request-boundary token that did not resolve to an identity.
    Unauthorized,
    /// The requester may not modify the record it addressed.
    Forbidden,
    /// The addressed record does not exist.
    NotFound,
    /// A sign-up that collides with an existing username or email.
    AlreadyExists,
    /// Admission denied by the sliding-window rate limiter.
    RateLimited,
    /// No hash buffer was free; explicit backpressure, never an unbounded queue.
    ResourceExhausted,
    /// A persistence or crypto collaborator failed.
    InternalError,
}

/// The HTTP status that the transport layer maps each error to.
pub open spec fn spec_status_code(e: ApiError) -> u16 {
    match e {
        ApiError::ValidationError => 400,
        ApiError::AuthenticationFailure => 400,
        ApiError::Unauthorized => 401,
        ApiError::Forbidden => 403,
        ApiError::NotFound => 404,
        ApiError::AlreadyExists => 400,
        ApiError::RateLimited => 429,
        ApiError::ResourceExhausted => 503,
        ApiError::InternalError => 500,
    }
}

impl ApiError {
    pub fn status_code(&self) -> (c: u16)
        ensures
            c == spec_status_code(*self),
    {
        match self {
            ApiError::ValidationError => 400,
            ApiError::AuthenticationFailure => 400,
            ApiError::Unauthorized => 401,
            ApiError::Forbidden => 403,
            ApiError::NotFound => 404,
            ApiError::AlreadyExists => 400,
            ApiError::RateLimited => 429,
            ApiError::ResourceExhausted => 503,
            ApiError::InternalError => 500,
        }
    }

    /// Whether a sign-in response carrying this error must wait out the
    /// timing-defense ceiling before it is sent. Only the generic
    /// authentication failure is padded: validation errors are not secret,
    /// and the buffer-exhaustion path is knowingly left unpadded (a flagged
    /// residual side channel, kept as designed).
    pub fn needs_timing_pad(&self) -> (r: bool)
        ensures
            r == (*self == ApiError::AuthenticationFailure),
    {
        match self {
            ApiError::AuthenticationFailure => true,
            _ => false,
        }
    }
}

/// An element-for-element copy of a vector of plain values.
pub fn copy_vec<T: Copy>(v: &Vec<T>) -> (r: Vec<T>)
    ensures
        r@ == v@,
{
    let mut r: Vec<T> = Vec::new();
    let n = v.len();
    let mut i: usize = 0;
    while i < n
        invariant
            n == v@.len(),
            0 <= i <= n,
            r@ == v@.subrange(0, i as int),
        decreases n - i,
    {
        r.push(v[i]);
        proof {
            assert(r@ =~= v@.subrange(0, i + 1));
        }
        i = i + 1;
    }
    proof {
        assert(v@.subrange(0, n as int) =~= v@);
    }
    r
}

} // verus!
