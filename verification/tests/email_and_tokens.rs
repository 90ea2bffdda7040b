use butterfly_core::auth::check_auth;
use butterfly_core::email::check_email;
use butterfly_core::models::Token;
use butterfly_core::tokens::TokenStore;
use butterfly_core::tokens::NEW_TOKEN_EXPIRY_SECS;
use butterfly_core::ApiError;

fn bytes64(seed: u8) -> Vec<u8> {
    let mut v = vec![0u8; 64];
    for i in 0..64 {
        v[i] = seed.wrapping_add(i as u8);
    }
    v
}

#[test]
fn accepts_plain_addresses() {
    assert!(check_email("a@b.c"));
    assert!(check_email("user.name@example.com"));
    assert!(check_email("x@sub.domain.example"));
}

#[test]
fn rejects_missing_or_doubled_at() {
    assert!(!check_email("plain"));
    assert!(!check_email("a@@b.c"));
    assert!(!check_email("a@b@c.d"));
    assert!(!check_email("@b.c"));
    assert!(!check_email("a@"));
}

#[test]
fn rejects_bad_domains_and_spaces() {
    assert!(!check_email("a@b"));
    assert!(!check_email("a@.b"));
    assert!(!check_email("a@b."));
    assert!(!check_email("a@b..c"));
    assert!(!check_email("a b@c.d"));
    assert!(!check_email("a@c. d"));
}

#[test]
fn validate_returns_owner_of_live_token() {
    let mut store = TokenStore::new();
    let bytes = bytes64(1);
    let now: u64 = 1_000_000;
    let t = store.issue(42, now, true, bytes.clone());
    assert_eq!(t.user, 42);
    assert_eq!(t.expiry, Some(now + NEW_TOKEN_EXPIRY_SECS));
    assert!(t.renewable);
    // P4: exact byte match of a live token resolves to its owner
    assert_eq!(store.validate(&bytes, now), Some(42));
    // a different byte string never resolves
    assert_eq!(store.validate(&bytes64(2), now), None);
}

#[test]
fn round_trip_expires_after_thirty_days() {
    let mut store = TokenStore::new();
    let bytes = bytes64(7);
    let now: u64 = 5_000;
    store.issue(9, now, false, bytes.clone());
    // immediate validation succeeds
    assert_eq!(store.validate(&bytes, now), Some(9));
    // just before the expiry instant the token is still live
    assert_eq!(store.validate(&bytes, now + NEW_TOKEN_EXPIRY_SECS - 1), Some(9));
    // at the expiry instant (30 days) and one second later validation fails
    assert_eq!(store.validate(&bytes, now + NEW_TOKEN_EXPIRY_SECS), None);
    assert_eq!(store.validate(&bytes, now + NEW_TOKEN_EXPIRY_SECS + 1), None);
}

#[test]
fn token_without_expiry_stays_live() {
    let mut store = TokenStore::new();
    let bytes = bytes64(3);
    store.insert_token(Token { user: 77, token: bytes.clone(), expiry: None, renewable: false });
    assert_eq!(store.validate(&bytes, u64::MAX), Some(77));
}

#[test]
fn check_auth_resolves_hex_header() {
    let mut store = TokenStore::new();
    let bytes = bytes64(11);
    let now: u64 = 100;
    store.issue(5, now, true, bytes.clone());
    let header = hex::encode(&bytes);
    // the hex header resolves to the owner; if decoding handed the
    // characters back unchanged this could never match the stored bytes
    assert_eq!(check_auth(&store, Some(header.as_str()), now), Ok(5));
    // uppercase hex decodes to the same bytes
    let upper = header.to_uppercase();
    assert_eq!(check_auth(&store, Some(upper.as_str()), now), Ok(5));
    // missing, malformed and unknown headers are all unauthorized
    assert_eq!(check_auth(&store, None, now), Err(ApiError::Unauthorized));
    assert_eq!(check_auth(&store, Some("zz"), now), Err(ApiError::Unauthorized));
    assert_eq!(check_auth(&store, Some("abc"), now), Err(ApiError::Unauthorized));
    let other = hex::encode(bytes64(12));
    assert_eq!(check_auth(&store, Some(other.as_str()), now), Err(ApiError::Unauthorized));
    // an expired token no longer authenticates
    assert_eq!(
        check_auth(&store, Some(header.as_str()), now + NEW_TOKEN_EXPIRY_SECS),
        Err(ApiError::Unauthorized)
    );
}

#[test]
fn status_codes_follow_the_taxonomy() {
    assert_eq!(ApiError::ValidationError.status_code(), 400);
    assert_eq!(ApiError::AuthenticationFailure.status_code(), 400);
    assert_eq!(ApiError::Unauthorized.status_code(), 401);
    assert_eq!(ApiError::Forbidden.status_code(), 403);
    assert_eq!(ApiError::NotFound.status_code(), 404);
    assert_eq!(ApiError::AlreadyExists.status_code(), 400);
    assert_eq!(ApiError::RateLimited.status_code(), 429);
    assert_eq!(ApiError::ResourceExhausted.status_code(), 503);
    assert_eq!(ApiError::InternalError.status_code(), 500);
}

#[test]
fn only_authentication_failures_are_padded() {
    assert!(ApiError::AuthenticationFailure.needs_timing_pad());
    assert!(!ApiError::ValidationError.needs_timing_pad());
    assert!(!ApiError::ResourceExhausted.needs_timing_pad());
    assert!(!ApiError::InternalError.needs_timing_pad());
}
