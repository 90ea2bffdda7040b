//! Bearer-token lifecycle policy and the timing-defensive sign-in protocol.
//!
//! Tokens are opaque 64-byte random values. Validation is an exact
//! byte-for-byte match against the stored records, counting only records
//! whose expiry is absent or strictly in the future; expired records are
//! filtered at query time, never proactively deleted. Renewal always issues
//! a brand-new token and never extends or reuses an old value.
use crate::codec::bytes_eq;
use crate::email::check_email;
use crate::email::valid_email;
use crate::hash::argon2_digest;
use crate::hash::has_free;
use crate::hash::hash_password;
use crate::hash::HasherPool;
use crate::models::Token;
use crate::users::fit64;
use crate::users::fit64_exec;
use crate::users::spec_find_credential;
use crate::users::UserStore;
use crate::ApiError;
use vstd::prelude::*;

verus! {

/// Fixed lifetime of a newly issued token: 30 days, in seconds.
pub const NEW_TOKEN_EXPIRY_SECS: u64 = 30 * 24 * 60 * 60;

/// Relies on rand_core::OsRng::try_fill_bytes (the operating system's
/// entropy source): on success the whole buffer has been filled; nothing
/// more can be promised of random bytes. Shared by token issuance and the
/// sign-up salt.
#[verifier::external_body]
pub(crate) fn os_random_bytes64() -> (r: Result<Vec<u8>, ()>)
    ensures
        r matches Ok(b) ==> b@.len() == 64,
{
    let mut buf = vec![0u8; 64];
    match rand_core::TryRngCore::try_fill_bytes(&mut rand_core::OsRng, buf.as_mut_slice()) {
        Ok(()) => Ok(buf),
        Err(_) => Err(()),
    }
}

/// The owner of the first stored record whose bytes match and which is live
/// at `now`, if any.
pub open spec fn spec_find_token(s: Seq<Token>, raw: Seq<u8>, now: u64) -> Option<u128>
    decreases s.len(),
{
    if s.len() == 0 {
        None
    } else if s[0].token@ == raw && s[0].live(now) {
        Some(s[0].user)
    } else {
        spec_find_token(s.drop_first(), raw, now)
    }
}

/// Some stored record carries exactly these bytes, live or not.
pub open spec fn spec_has_token(s: Seq<Token>, raw: Seq<u8>) -> bool {
    exists|i: int| 0 <= i < s.len() && (#[trigger] s[i]).token@ == raw
}

/// In-memory model of the token table the persistence collaborator owns.
pub struct TokenStore {
    records: Vec<Token>,
}

impl View for TokenStore {
    type V = Seq<Token>;

    closed spec fn view(&self) -> Seq<Token> {
        self.records@
    }
}

impl TokenStore {
    /// Every record is 64 bytes of token, and no two records share their
    /// bytes: token values are never reused.
    pub open spec fn wf(&self) -> bool {
        &&& forall|i: int| 0 <= i < self@.len() ==> (#[trigger] self@[i]).wf()
        &&& forall|i: int, j: int|
            #![trigger self@[i], self@[j]]
            0 <= i < j < self@.len() ==> self@[i].token@ != self@[j].token@
    }

    pub fn new() -> (s: TokenStore)
        ensures
            s@ == Seq::<Token>::empty(),
            s.wf(),
    {
        TokenStore { records: Vec::new() }
    }

    /// Resolves raw token bytes to the owning user: an exact byte match
    /// against the stored records, counting only live ones.
    pub fn validate(&self, raw: &Vec<u8>, now: u64) -> (r: Option<u128>)
        ensures
            r == spec_find_token(self@, raw@, now),
    {
        let n = self.records.len();
        let mut i: usize = 0;
        proof {
            assert(self@.skip(0) =~= self@);
        }
        while i < n
            invariant
                n == self@.len(),
                0 <= i <= n,
                spec_find_token(self@, raw@, now) == spec_find_token(
                    self@.skip(i as int),
                    raw@,
                    now,
                ),
            decreases n - i,
        {
            proof {
                assert(self@.skip(i as int)[0] == self@[i as int]);
                assert(self@.skip(i as int).drop_first() =~= self@.skip(i as int + 1));
            }
            let rec = &self.records[i];
            if bytes_eq(&rec.token, raw) {
                let live = match rec.expiry {
                    None => true,
                    Some(e) => e > now,
                };
                if live {
                    return Some(rec.user);
                }
            }
            i = i + 1;
        }
        proof {
            assert(self@.skip(n as int) =~= Seq::<Token>::empty());
        }
        None
    }

    /// Whether any record, live or expired, carries these bytes.
    pub fn contains_token(&self, raw: &Vec<u8>) -> (r: bool)
        ensures
            r == spec_has_token(self@, raw@),
    {
        let n = self.records.len();
        let mut i: usize = 0;
        while i < n
            invariant
                n == self@.len(),
                0 <= i <= n,
                forall|j: int| 0 <= j < i ==> (#[trigger] self@[j]).token@ != raw@,
            decreases n - i,
        {
            if bytes_eq(&self.records[i].token, raw) {
                return true;
            }
            i = i + 1;
        }
        false
    }

    /// Stores one token record, as the persistence collaborator would; its
    /// bytes must not already be in use.
    pub fn insert_token(&mut self, t: Token)
        requires
            old(self).wf(),
            t.wf(),
            !spec_has_token(old(self)@, t.token@),
        ensures
            final(self).wf(),
            final(self)@ == old(self)@.push(t),
    {
        self.records.push(t);
        proof {
            assert forall|i: int, j: int|
                #![trigger self@[i], self@[j]]
                0 <= i < j < self@.len() implies self@[i].token@ != self@[j].token@ by {
                assert(self@[i] == old(self)@[i]);
                if j < self@.len() - 1 {
                    assert(self@[j] == old(self)@[j]);
                }
            }
        }
    }

    /// Issues and stores a brand-new token for `user`, expiring a fixed 30
    /// days after `now`. The caller supplies bytes that are not yet in use.
    pub fn issue(&mut self, user: u128, now: u64, renewable: bool, bytes: Vec<u8>) -> (t: Token)
        requires
            old(self).wf(),
            bytes@.len() == 64,
            !spec_has_token(old(self)@, bytes@),
            now <= u64::MAX - NEW_TOKEN_EXPIRY_SECS,
        ensures
            final(self).wf(),
            t.user == user,
            t.token@ == bytes@,
            t.expiry == Some((now + NEW_TOKEN_EXPIRY_SECS) as u64),
            t.renewable == renewable,
            final(self)@.len() == old(self)@.len() + 1,
            final(self)@.drop_last() == old(self)@,
            final(self)@.last().user == user,
            final(self)@.last().token@ == bytes@,
            final(self)@.last().expiry == Some((now + NEW_TOKEN_EXPIRY_SECS) as u64),
            final(self)@.last().renewable == renewable,
    {
        let stored = Token {
            user,
            token: crate::copy_vec(&bytes),
            expiry: Some(now + NEW_TOKEN_EXPIRY_SECS),
            renewable,
        };
        self.records.push(stored);
        proof {
            assert(self@.drop_last() =~= old(self)@);
            assert forall|i: int, j: int|
                #![trigger self@[i], self@[j]]
                0 <= i < j < self@.len() implies self@[i].token@ != self@[j].token@ by {
                if j < self@.len() - 1 {
                    assert(self@[i] == old(self)@[i]);
                    assert(self@[j] == old(self)@[j]);
                } else {
                    assert(self@[i] == old(self)@[i]);
                }
            }
        }
        Token { user, token: bytes, expiry: Some(now + NEW_TOKEN_EXPIRY_SECS), renewable }
    }
}

/// No record carries the bytes, so the lookup finds nothing.
proof fn lemma_find_token_absent(s: Seq<Token>, raw: Seq<u8>, now: u64)
    requires
        forall|i: int| 0 <= i < s.len() ==> (#[trigger] s[i]).token@ != raw,
    ensures
        spec_find_token(s, raw, now) is None,
    decreases s.len(),
{
    if s.len() > 0 {
        assert(s[0].token@ != raw);
        assert forall|i: int| 0 <= i < s.drop_first().len() implies (#[trigger] s.drop_first()[i]).token@
            != raw by {
            assert(s.drop_first()[i] == s[i + 1]);
        }
        lemma_find_token_absent(s.drop_first(), raw, now);
    }
}

/// Validation law: under the store invariant (token bytes never reused),
/// `validate` returns owner `u` exactly when some stored record carries the
/// same bytes, is live at `now` — expiry absent or strictly later — and
/// belongs to `u`. In particular, once the lifetime of the only matching
/// record has elapsed, validation fails.
pub proof fn lemma_validate_iff(s: Seq<Token>, raw: Seq<u8>, now: u64, u: u128)
    requires
        forall|i: int, j: int|
            #![trigger s[i], s[j]]
            0 <= i < j < s.len() ==> s[i].token@ != s[j].token@,
    ensures
        spec_find_token(s, raw, now) == Some(u) <==> exists|i: int|
            0 <= i < s.len() && (#[trigger] s[i]).token@ == raw && s[i].live(now) && s[i].user
                == u,
    decreases s.len(),
{
    if s.len() > 0 {
        if s[0].token@ == raw {
            // records past the head never carry these bytes
            assert forall|i: int| 0 <= i < s.drop_first().len() implies (#[trigger] s.drop_first()[i]).token@
                != raw by {
                assert(s.drop_first()[i] == s[i + 1]);
            }
            if s[0].live(now) {
                if spec_find_token(s, raw, now) == Some(u) {
                    assert(s[0].user == u);
                }
                if exists|i: int|
                    0 <= i < s.len() && (#[trigger] s[i]).token@ == raw && s[i].live(now)
                        && s[i].user == u {
                    let i = choose|i: int|
                        0 <= i < s.len() && (#[trigger] s[i]).token@ == raw && s[i].live(now)
                            && s[i].user == u;
                    if i > 0 {
                        assert(s.drop_first()[i - 1] == s[i]);
                        assert(false);
                    }
                }
            } else {
                lemma_find_token_absent(s.drop_first(), raw, now);
                if exists|i: int|
                    0 <= i < s.len() && (#[trigger] s[i]).token@ == raw && s[i].live(now)
                        && s[i].user == u {
                    let i = choose|i: int|
                        0 <= i < s.len() && (#[trigger] s[i]).token@ == raw && s[i].live(now)
                            && s[i].user == u;
                    if i > 0 {
                        assert(s.drop_first()[i - 1] == s[i]);
                    }
                    assert(false);
                }
            }
        } else {
            assert forall|i: int, j: int|
                #![trigger s.drop_first()[i], s.drop_first()[j]]
                0 <= i < j < s.drop_first().len() implies s.drop_first()[i].token@
                != s.drop_first()[j].token@ by {
                assert(s.drop_first()[i] == s[i + 1]);
                assert(s.drop_first()[j] == s[j + 1]);
            }
            lemma_validate_iff(s.drop_first(), raw, now, u);
            assert forall|i: int|
                0 <= i < s.len() && (#[trigger] s[i]).token@ == raw && s[i].live(now) && s[i].user
                    == u implies exists|k: int|
                0 <= k < s.drop_first().len() && (#[trigger] s.drop_first()[k]).token@ == raw
                    && s.drop_first()[k].live(now) && s.drop_first()[k].user == u by {
                assert(i > 0);
                assert(s.drop_first()[i - 1] == s[i]);
            }
            assert forall|k: int|
                0 <= k < s.drop_first().len() && (#[trigger] s.drop_first()[k]).token@ == raw
                    && s.drop_first()[k].live(now) && s.drop_first()[k].user == u implies exists|
                i: int,
            |
                0 <= i < s.len() && (#[trigger] s[i]).token@ == raw && s[i].live(now) && s[i].user
                    == u by {
                assert(s.drop_first()[k] == s[k + 1]);
            }
        }
    }
}

/// A sign-in request: the email names the credential, the password bytes
/// are the client-side pre-hash, and `allow_renew` asks for a renewable
/// token.
pub struct SignInRequest {
    pub email: String,
    pub password_hash: Vec<u8>,
    pub allow_renew: bool,
}

/// What a successful sign-in returns to the caller: the raw token bytes,
/// the expiry instant in seconds since the epoch, and the renewable flag.
#[derive(Debug, PartialEq, Eq)]
pub struct SignInResponse {
    pub token: Vec<u8>,
    pub token_expiry: u64,
    pub renewable: bool,
}

impl From<Token> for SignInResponse {
    fn from(value: Token) -> (r: Self) {
        SignInResponse {
            token: value.token,
            token_expiry: match value.expiry {
                Some(e) => e,
                None => 0,
            },
            renewable: value.renewable,
        }
    }
}

impl vstd::std_specs::convert::FromSpecImpl<Token> for SignInResponse {
    open spec fn obeys_from_spec() -> bool {
        true
    }

    open spec fn from_spec(t: Token) -> Self {
        SignInResponse {
            token: t.token,
            token_expiry: match t.expiry {
                Some(e) => e,
                None => 0,
            },
            renewable: t.renewable,
        }
    }
}

/// Input validation of the sign-in endpoint; rejected before any
/// secret-dependent work, exempt from the timing pad.
pub open spec fn valid_sign_in_request(req: SignInRequest) -> bool {
    &&& valid_email(req.email@)
    &&& req.email@.len() <= 128
}

/// The sign-in protocol: `Start -> LookupCredential -> Hash -> Compare`,
/// converging on `Success` or a failure. Credential lookup, hashing and
/// token insertion happen in this one call, the atomic unit a persistence
/// transaction wraps. The caller measures elapsed time around this call and
/// applies `timing_pad_remaining` to any error with `needs_timing_pad`, so
/// found/not-found/mismatch are indistinguishable by latency.
pub fn sign_in(
    users: &UserStore,
    store: &mut TokenStore,
    pool: &mut HasherPool,
    req: &SignInRequest,
    now: u64,
) -> (r: Result<SignInResponse, ApiError>)
    requires
        users.wf(),
        old(store).wf(),
        old(pool).wf(),
        now <= u64::MAX - NEW_TOKEN_EXPIRY_SECS,
    ensures
        final(store).wf(),
        final(pool).wf(),
        final(pool)@ == old(pool)@,
        !valid_sign_in_request(*req) ==> r == Err::<SignInResponse, ApiError>(
            ApiError::ValidationError,
        ) && final(store)@ == old(store)@,
        valid_sign_in_request(*req) ==> match spec_find_credential(users@, req.email@) {
            None => r == Err::<SignInResponse, ApiError>(ApiError::AuthenticationFailure)
                && final(store)@ == old(store)@,
            Some(u) => {
                if !has_free(old(pool)@) {
                    r == Err::<SignInResponse, ApiError>(ApiError::ResourceExhausted)
                        && final(store)@ == old(store)@
                } else if argon2_digest(fit64(req.password_hash@), u.salt@) != u.password@ {
                    r == Err::<SignInResponse, ApiError>(ApiError::AuthenticationFailure)
                        && final(store)@ == old(store)@
                } else {
                    match r {
                        Ok(resp) => {
                            &&& resp.token@.len() == 64
                            &&& resp.token_expiry == now + NEW_TOKEN_EXPIRY_SECS
                            &&& resp.renewable == req.allow_renew
                            &&& final(store)@.len() == old(store)@.len() + 1
                            &&& final(store)@.drop_last() == old(store)@
                            &&& final(store)@.last().user == u.id
                            &&& final(store)@.last().token@ == resp.token@
                            &&& final(store)@.last().expiry == Some(
                                (now + NEW_TOKEN_EXPIRY_SECS) as u64,
                            )
                            &&& final(store)@.last().renewable == req.allow_renew
                        },
                        Err(e) => e == ApiError::InternalError && final(store)@ == old(store)@,
                    }
                }
            },
        },
{
    if !check_email(req.email.as_str()) || req.email.as_str().unicode_len() > 128 {
        return Err(ApiError::ValidationError);
    }
    match users.find_credential_by_email(&req.email) {
        None => Err(ApiError::AuthenticationFailure),
        Some(u) => {
            proof {
                crate::users::lemma_find_credential_wf(users@, req.email@);
            }
            let pwd = fit64_exec(&req.password_hash);
            match hash_password(pool, &pwd, &u.salt) {
                Err(_) => Err(ApiError::ResourceExhausted),
                Ok(digest) => {
                    if !bytes_eq(&digest, &u.password) {
                        Err(ApiError::AuthenticationFailure)
                    } else {
                        match os_random_bytes64() {
                            Err(_) => Err(ApiError::InternalError),
                            Ok(bytes) => {
                                if store.contains_token(&bytes) {
                                    // the persistence layer would refuse the
                                    // duplicate row; surface it the same way
                                    Err(ApiError::InternalError)
                                } else {
                                    let t = store.issue(u.id, now, req.allow_renew, bytes);
                                    Ok(SignInResponse::from(t))
                                }
                            },
                        }
                    }
                },
            }
        },
    }
}

/// Renewal issues a brand-new random token for the same user, renewable,
/// with a fresh 30-day expiry; the old token is neither extended nor
/// reused, and stays valid until its own expiry.
pub fn renew(store: &mut TokenStore, user_id: u128, now: u64) -> (r: Result<
    SignInResponse,
    ApiError,
>)
    requires
        old(store).wf(),
        now <= u64::MAX - NEW_TOKEN_EXPIRY_SECS,
    ensures
        final(store).wf(),
        r matches Ok(resp) ==> ({
            &&& resp.token@.len() == 64
            &&& resp.token_expiry == now + NEW_TOKEN_EXPIRY_SECS
            &&& resp.renewable == true
            &&& final(store)@.len() == old(store)@.len() + 1
            &&& final(store)@.drop_last() == old(store)@
            &&& final(store)@.last().user == user_id
            &&& final(store)@.last().token@ == resp.token@
            &&& final(store)@.last().expiry == Some((now + NEW_TOKEN_EXPIRY_SECS) as u64)
            &&& final(store)@.last().renewable == true
        }),
        r matches Err(e) ==> e == ApiError::InternalError && final(store)@ == old(store)@,
{
    match os_random_bytes64() {
        Err(_) => Err(ApiError::InternalError),
        Ok(bytes) => {
            if store.contains_token(&bytes) {
                Err(ApiError::InternalError)
            } else {
                let t = store.issue(user_id, now, true, bytes);
                Ok(SignInResponse::from(t))
            }
        },
    }
}

/// Resolves the identity a validated token names to its public profile.
pub fn get_user(users: &crate::users::UserStore, user_id: u128) -> (r: Result<
    crate::models::PublicUserInfo,
    ApiError,
>)
    ensures
        match crate::users::spec_find_user_by_id(users@, user_id) {
            None => r == Err::<crate::models::PublicUserInfo, ApiError>(ApiError::NotFound),
            Some(u) => r matches Ok(p) && p.id == u.id && p.username == u.username && p.homeworld
                == u.homeworld && p.avatar == u.avatar,
        },
{
    match users.find_user_by_id(user_id) {
        None => Err(ApiError::NotFound),
        Some(u) => Ok(
            crate::models::PublicUserInfo {
                id: u.id,
                username: u.username.clone(),
                homeworld: u.homeworld,
                avatar: u.avatar,
            },
        ),
    }
}

/// How long a padded response must still wait once `elapsed_ms` have
/// passed, against a configured ceiling.
pub open spec fn spec_pad_remaining(elapsed_ms: u64, ceiling_ms: u64) -> int {
    if elapsed_ms <= ceiling_ms {
        ceiling_ms - elapsed_ms
    } else {
        0
    }
}

/// The timing defense: after all branches of a padded sign-in converge, the
/// caller sleeps the returned remainder. The flag reports a violated budget
/// (elapsed beyond the ceiling): the response then goes out immediately,
/// with a diagnostic, rather than failing the request.
pub fn timing_pad_remaining(elapsed_ms: u64, ceiling_ms: u64) -> (r: (u64, bool))
    ensures
        r.0 == spec_pad_remaining(elapsed_ms, ceiling_ms),
        r.1 == (elapsed_ms > ceiling_ms),
{
    if elapsed_ms <= ceiling_ms {
        (ceiling_ms - elapsed_ms, false)
    } else {
        (0, true)
    }
}

/// Timing-defense law: whenever the budget was kept, elapsed time plus the
/// pad is exactly the ceiling `C` — so every padded response leaves at
/// latency `C`, whichever branch produced it; once the budget is violated
/// the pad is zero and the violation is flagged instead.
pub proof fn lemma_timing_pad_exact(elapsed_ms: u64, ceiling_ms: u64)
    ensures
        elapsed_ms <= ceiling_ms ==> elapsed_ms + spec_pad_remaining(elapsed_ms, ceiling_ms)
            == ceiling_ms,
        elapsed_ms > ceiling_ms ==> spec_pad_remaining(elapsed_ms, ceiling_ms) == 0,
{
}

} // verus!
