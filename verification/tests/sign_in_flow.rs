use butterfly_core::hash::hash_password;
use butterfly_core::hash::HasherPool;
use butterfly_core::models::User;
use butterfly_core::tokens::renew;
use butterfly_core::tokens::sign_in;
use butterfly_core::tokens::timing_pad_remaining;
use butterfly_core::tokens::SignInRequest;
use butterfly_core::tokens::TokenStore;
use butterfly_core::tokens::NEW_TOKEN_EXPIRY_SECS;
use butterfly_core::users::sign_up;
use butterfly_core::users::sign_up_with_entropy;
use butterfly_core::users::SignUpRequest;
use butterfly_core::users::UserStore;
use butterfly_core::ApiError;

fn bytes64(seed: u8) -> Vec<u8> {
    let mut v = vec![0u8; 64];
    for i in 0..64 {
        v[i] = seed.wrapping_add(i as u8);
    }
    v
}

fn store_with_account(pool: &mut HasherPool, pwd: &Vec<u8>, salt: &Vec<u8>) -> UserStore {
    let digest = hash_password(pool, pwd, salt).unwrap();
    let mut users = UserStore::new();
    users.insert_user(User {
        id: 42,
        username: String::from("somebody"),
        password: digest,
        salt: salt.clone(),
        email: String::from("somebody@example.com"),
        permisions: Vec::new(),
        trust: 0,
        homeworld: None,
        avatar: None,
    });
    users
}

#[test]
fn sign_in_issues_a_month_long_token() {
    let mut pool = HasherPool::new(1);
    let pwd = bytes64(1);
    let salt = bytes64(2);
    let users = store_with_account(&mut pool, &pwd, &salt);
    let mut tokens = TokenStore::new();
    let now: u64 = 1_700_000_000;
    let req = SignInRequest {
        email: String::from("somebody@example.com"),
        password_hash: pwd.clone(),
        allow_renew: true,
    };
    let resp = sign_in(&users, &mut tokens, &mut pool, &req, now).unwrap();
    assert_eq!(resp.token.len(), 64);
    assert_eq!(resp.token_expiry, now + NEW_TOKEN_EXPIRY_SECS);
    assert!(resp.renewable);
    // the issued token validates for its owner until its lifetime elapses
    assert_eq!(tokens.validate(&resp.token, now), Some(42));
    assert_eq!(tokens.validate(&resp.token, now + NEW_TOKEN_EXPIRY_SECS + 1), None);
}

#[test]
fn sign_in_rejects_wrong_password_and_unknown_email() {
    let mut pool = HasherPool::new(1);
    let pwd = bytes64(1);
    let salt = bytes64(2);
    let users = store_with_account(&mut pool, &pwd, &salt);
    let mut tokens = TokenStore::new();
    let now: u64 = 1_700_000_000;
    // wrong password: the same generic failure as an unknown email
    let wrong = SignInRequest {
        email: String::from("somebody@example.com"),
        password_hash: bytes64(9),
        allow_renew: false,
    };
    assert_eq!(
        sign_in(&users, &mut tokens, &mut pool, &wrong, now),
        Err(ApiError::AuthenticationFailure)
    );
    let unknown = SignInRequest {
        email: String::from("nobody@example.com"),
        password_hash: pwd.clone(),
        allow_renew: false,
    };
    assert_eq!(
        sign_in(&users, &mut tokens, &mut pool, &unknown, now),
        Err(ApiError::AuthenticationFailure)
    );
    // malformed email short-circuits as a validation error
    let malformed = SignInRequest {
        email: String::from("not an email"),
        password_hash: pwd.clone(),
        allow_renew: false,
    };
    assert_eq!(
        sign_in(&users, &mut tokens, &mut pool, &malformed, now),
        Err(ApiError::ValidationError)
    );
}

#[test]
fn sign_in_surfaces_buffer_exhaustion() {
    let mut pool = HasherPool::new(1);
    let pwd = bytes64(1);
    let salt = bytes64(2);
    let users = store_with_account(&mut pool, &pwd, &salt);
    let mut tokens = TokenStore::new();
    // hold the only buffer: the sign-in cannot hash and reports exhaustion
    let _slot = pool.try_acquire().unwrap();
    let req = SignInRequest {
        email: String::from("somebody@example.com"),
        password_hash: pwd.clone(),
        allow_renew: false,
    };
    assert_eq!(
        sign_in(&users, &mut tokens, &mut pool, &req, 1_700_000_000),
        Err(ApiError::ResourceExhausted)
    );
}

#[test]
fn renew_issues_a_fresh_renewable_token() {
    let mut tokens = TokenStore::new();
    let now: u64 = 1_000;
    let first = renew(&mut tokens, 8, now).unwrap();
    let second = renew(&mut tokens, 8, now).unwrap();
    assert!(first.renewable && second.renewable);
    assert_eq!(first.token_expiry, now + NEW_TOKEN_EXPIRY_SECS);
    // a brand-new token every time, never a reused value
    assert_ne!(first.token, second.token);
    // the old token stays valid beside the new one
    assert_eq!(tokens.validate(&first.token, now), Some(8));
    assert_eq!(tokens.validate(&second.token, now), Some(8));
}

#[test]
fn sign_up_stores_an_unverified_account() {
    let mut pool = HasherPool::new(1);
    let users = UserStore::new();
    let mut unverified = Vec::new();
    let req = SignUpRequest {
        username: String::from("newcomer"),
        password_hash: bytes64(5),
        email: String::from("newcomer@example.com"),
    };
    assert_eq!(sign_up(&users, &mut unverified, &mut pool, &req), Ok(()));
    assert_eq!(unverified.len(), 1);
    assert_eq!(unverified[0].username, "newcomer");
    assert_eq!(unverified[0].email, "newcomer@example.com");
    assert_eq!(unverified[0].salt.len(), 64);
    // the stored bytes are the memory-hard digest, not the password
    assert_eq!(unverified[0].password.len(), 64);
    assert_ne!(unverified[0].password, bytes64(5));
}

#[test]
fn sign_up_rejects_bad_sizes_and_duplicates() {
    let mut pool = HasherPool::new(1);
    let pwd = bytes64(1);
    let salt = bytes64(2);
    let users = store_with_account(&mut pool, &pwd, &salt);
    let mut unverified = Vec::new();
    let short_name = SignUpRequest {
        username: String::from("abc"),
        password_hash: bytes64(5),
        email: String::from("a@b.c"),
    };
    assert_eq!(
        sign_up(&users, &mut unverified, &mut pool, &short_name),
        Err(ApiError::ValidationError)
    );
    let bad_email = SignUpRequest {
        username: String::from("longenough"),
        password_hash: bytes64(5),
        email: String::from("not an email"),
    };
    assert_eq!(
        sign_up(&users, &mut unverified, &mut pool, &bad_email),
        Err(ApiError::ValidationError)
    );
    let taken = SignUpRequest {
        username: String::from("somebody"),
        password_hash: bytes64(5),
        email: String::from("other@example.com"),
    };
    assert_eq!(sign_up(&users, &mut unverified, &mut pool, &taken), Err(ApiError::AlreadyExists));
    let taken_email = SignUpRequest {
        username: String::from("othername"),
        password_hash: bytes64(5),
        email: String::from("somebody@example.com"),
    };
    assert_eq!(
        sign_up(&users, &mut unverified, &mut pool, &taken_email),
        Err(ApiError::AlreadyExists)
    );
    assert_eq!(unverified.len(), 0);
}

#[test]
fn sign_up_with_chosen_entropy_is_reproducible() {
    let mut pool = HasherPool::new(1);
    let users = UserStore::new();
    let mut unverified = Vec::new();
    let req = SignUpRequest {
        username: String::from("newcomer"),
        password_hash: bytes64(5),
        email: String::from("newcomer@example.com"),
    };
    let salt = bytes64(6);
    assert_eq!(
        sign_up_with_entropy(&users, &mut unverified, &mut pool, &req, 123, salt.clone()),
        Ok(())
    );
    assert_eq!(unverified[0].id, 123);
    assert_eq!(unverified[0].salt, salt);
    // the stored digest is exactly the pool's hash of password and salt
    let expected = hash_password(&mut pool, &bytes64(5), &salt).unwrap();
    assert_eq!(unverified[0].password, expected);
}

#[test]
fn signed_in_token_authenticates_until_its_lifetime_elapses() {
    let mut pool = HasherPool::new(1);
    let pwd = bytes64(1);
    let salt = bytes64(2);
    let users = store_with_account(&mut pool, &pwd, &salt);
    let mut tokens = TokenStore::new();
    let t0: u64 = 1_700_000_000;
    let req = SignInRequest {
        email: String::from("somebody@example.com"),
        password_hash: pwd.clone(),
        allow_renew: false,
    };
    let resp = sign_in(&users, &mut tokens, &mut pool, &req, t0).unwrap();
    let header = hex::encode(&resp.token);
    // the header-carried token resolves to the signing-in user's identity
    // while the token lives
    assert_eq!(
        butterfly_core::auth::check_auth(&tokens, Some(header.as_str()), t0),
        Ok(42)
    );
    assert_eq!(
        butterfly_core::auth::check_auth(&tokens, Some(header.as_str()), t0 + NEW_TOKEN_EXPIRY_SECS - 1),
        Ok(42)
    );
    // one second past the lifetime it no longer authenticates
    assert_eq!(
        butterfly_core::auth::check_auth(&tokens, Some(header.as_str()), t0 + NEW_TOKEN_EXPIRY_SECS + 1),
        Err(ApiError::Unauthorized)
    );
    // the expired record is filtered at query time, not deleted
    assert!(tokens.contains_token(&resp.token));
}

#[test]
fn user_lookup_shows_the_full_record_only_to_its_owner() {
    let mut pool = HasherPool::new(1);
    let pwd = bytes64(1);
    let salt = bytes64(2);
    let users = store_with_account(&mut pool, &pwd, &salt);
    match butterfly_core::users::get_user(&users, 42, 42) {
        Ok(butterfly_core::users::GetUserResult::User(u)) => {
            assert_eq!(u.id, 42);
            assert_eq!(u.email, "somebody@example.com");
        },
        _ => panic!("owner should see the full record"),
    }
    match butterfly_core::users::get_user(&users, 7, 42) {
        Ok(butterfly_core::users::GetUserResult::PublicUser(p)) => {
            assert_eq!(p.id, 42);
            assert_eq!(p.username, "somebody");
        },
        _ => panic!("strangers should see the public projection"),
    }
    match butterfly_core::users::get_user(&users, 7, 8) {
        Err(e) => assert_eq!(e, ApiError::NotFound),
        _ => panic!("missing users are not found"),
    }
    // the profile behind a validated token
    match butterfly_core::tokens::get_user(&users, 42) {
        Ok(p) => assert_eq!(p.username, "somebody"),
        _ => panic!("the token's owner has a profile"),
    }
    assert_eq!(butterfly_core::tokens::get_user(&users, 9).unwrap_err(), ApiError::NotFound);
}

#[test]
fn timing_pad_stretches_to_the_ceiling() {
    // elapsed time plus the pad equals the ceiling while the budget
    // holds, and the violation is flagged once it does not
    let (pad, violated) = timing_pad_remaining(300, 1_000);
    assert_eq!(pad, 700);
    assert!(!violated);
    assert_eq!(300 + pad, 1_000);
    let (pad2, violated2) = timing_pad_remaining(1_000, 1_000);
    assert_eq!(pad2, 0);
    assert!(!violated2);
    let (pad3, violated3) = timing_pad_remaining(1_500, 1_000);
    assert_eq!(pad3, 0);
    assert!(violated3);
}
