//! Accounts: the credential store that the sign-in protocol reads, and the
//! sign-up protocol that creates an account awaiting email verification.
use crate::email::check_email;
use crate::email::valid_email;
use crate::hash::argon2_digest;
use crate::hash::has_free;
use crate::hash::hash_password;
use crate::hash::HasherPool;
use crate::models::PublicUserInfo;
use crate::models::UnverifiedUser;
use crate::models::User;
use crate::ApiError;
use vstd::prelude::*;

verus! {

/// In-memory model of the verified-accounts table the persistence
/// collaborator owns.
pub struct UserStore {
    records: Vec<User>,
}

impl View for UserStore {
    type V = Seq<User>;

    closed spec fn view(&self) -> Seq<User> {
        self.records@
    }
}

/// The first stored credential whose email matches, if any.
pub open spec fn spec_find_credential(s: Seq<User>, email: Seq<char>) -> Option<User>
    decreases s.len(),
{
    if s.len() == 0 {
        None
    } else if s[0].email@ == email {
        Some(s[0])
    } else {
        spec_find_credential(s.drop_first(), email)
    }
}

/// Whatever credential a lookup finds came out of the store, so it carries
/// a 64-byte digest and salt whenever every stored record does.
pub proof fn lemma_find_credential_wf(s: Seq<User>, email: Seq<char>)
    requires
        forall|i: int| 0 <= i < s.len() ==> (#[trigger] s[i]).wf(),
    ensures
        spec_find_credential(s, email) matches Some(u) ==> u.wf(),
    decreases s.len(),
{
    if s.len() > 0 && !(s[0].email@ == email) {
        assert forall|i: int| 0 <= i < s.drop_first().len() implies (#[trigger] s.drop_first()[i]).wf() by {
            assert(s.drop_first()[i] == s[i + 1]);
        }
        lemma_find_credential_wf(s.drop_first(), email);
    }
}

/// The first stored user with this id, if any.
pub open spec fn spec_find_user_by_id(s: Seq<User>, id: u128) -> Option<User>
    decreases s.len(),
{
    if s.len() == 0 {
        None
    } else if s[0].id == id {
        Some(s[0])
    } else {
        spec_find_user_by_id(s.drop_first(), id)
    }
}

/// Some account already uses this username or this email.
pub open spec fn spec_name_or_email_taken(
    s: Seq<User>,
    username: Seq<char>,
    email: Seq<char>,
) -> bool {
    exists|i: int|
        0 <= i < s.len() && ((#[trigger] s[i]).username@ == username || s[i].email@ == email)
}

impl UserStore {
    /// Every stored credential carries a 64-byte digest and salt.
    pub open spec fn wf(&self) -> bool {
        forall|i: int| 0 <= i < self@.len() ==> (#[trigger] self@[i]).wf()
    }

    pub fn new() -> (s: UserStore)
        ensures
            s@ == Seq::<User>::empty(),
            s.wf(),
    {
        UserStore { records: Vec::new() }
    }

    pub fn insert_user(&mut self, u: User)
        requires
            u.wf(),
        ensures
            final(self)@ == old(self)@.push(u),
            old(self).wf() ==> final(self).wf(),
    {
        self.records.push(u);
        proof {
            if old(self).wf() {
                assert forall|i: int| 0 <= i < self@.len() implies (#[trigger] self@[i]).wf() by {
                    if i < self@.len() - 1 {
                        assert(self@[i] == old(self)@[i]);
                    }
                }
            }
        }
    }

    /// Credential lookup of the sign-in protocol: the first record whose
    /// email matches, byte for byte.
    pub fn find_credential_by_email(&self, email: &String) -> (r: Option<&User>)
        ensures
            match r {
                Some(u) => spec_find_credential(self@, email@) == Some(*u),
                None => spec_find_credential(self@, email@) is None,
            },
    {
        let n = self.records.len();
        let mut i: usize = 0;
        proof {
            assert(self@.skip(0) =~= self@);
        }
        while i < n
            invariant
                n == self@.len(),
                0 <= i <= n,
                spec_find_credential(self@, email@) == spec_find_credential(
                    self@.skip(i as int),
                    email@,
                ),
            decreases n - i,
        {
            proof {
                assert(self@.skip(i as int)[0] == self@[i as int]);
                assert(self@.skip(i as int).drop_first() =~= self@.skip(i as int + 1));
            }
            if self.records[i].email == *email {
                return Some(&self.records[i]);
            }
            i = i + 1;
        }
        proof {
            assert(self@.skip(n as int) =~= Seq::<User>::empty());
        }
        None
    }

    /// Whether a username or an email is already in use.
    pub fn name_or_email_taken(&self, username: &String, email: &String) -> (r: bool)
        ensures
            r == spec_name_or_email_taken(self@, username@, email@),
    {
        let n = self.records.len();
        let mut i: usize = 0;
        while i < n
            invariant
                n == self@.len(),
                0 <= i <= n,
                forall|j: int|
                    0 <= j < i ==> !((#[trigger] self@[j]).username@ == username@ || self@[j].email@
                        == email@),
            decreases n - i,
        {
            if self.records[i].username == *username || self.records[i].email == *email {
                return true;
            }
            i = i + 1;
        }
        false
    }

    /// Looks a user up by id; the first record with the id, if any.
    pub fn find_user_by_id(&self, id: u128) -> (r: Option<&User>)
        ensures
            match r {
                Some(u) => spec_find_user_by_id(self@, id) == Some(*u),
                None => spec_find_user_by_id(self@, id) is None,
            },
    {
        let n = self.records.len();
        let mut i: usize = 0;
        proof {
            assert(self@.skip(0) =~= self@);
        }
        while i < n
            invariant
                n == self@.len(),
                0 <= i <= n,
                spec_find_user_by_id(self@, id) == spec_find_user_by_id(
                    self@.skip(i as int),
                    id,
                ),
            decreases n - i,
        {
            proof {
                assert(self@.skip(i as int)[0] == self@[i as int]);
                assert(self@.skip(i as int).drop_first() =~= self@.skip(i as int + 1));
            }
            if self.records[i].id == id {
                return Some(&self.records[i]);
            }
            i = i + 1;
        }
        proof {
            assert(self@.skip(n as int) =~= Seq::<User>::empty());
        }
        None
    }
}

/// A sign-up request: client-side pre-hashed password bytes, never the
/// plaintext.
pub struct SignUpRequest {
    pub username: String,
    pub password_hash: Vec<u8>,
    pub email: String,
}

/// The fields a fresh account is created from.
pub struct NewUser {
    pub username: String,
    pub password: Vec<u8>,
    pub salt: Vec<u8>,
    pub email: String,
}

impl NewUser {
    /// Builds the record awaiting verification, under the identity the
    /// caller generated for it.
    pub fn into_unverified(self, id: u128) -> (u: UnverifiedUser)
        ensures
            u.id == id,
            u.username == self.username,
            u.password == self.password,
            u.salt == self.salt,
            u.email == self.email,
    {
        UnverifiedUser {
            id,
            username: self.username,
            password: self.password,
            salt: self.salt,
            email: self.email,
        }
    }
}

/// The sizes a sign-up request must respect, and the email syntax check.
pub open spec fn valid_sign_up_request(req: SignUpRequest) -> bool {
    &&& 6 <= req.username@.len() <= 32
    &&& req.email@.len() <= 128
    &&& valid_email(req.email@)
}

/// Pads or passes the candidate password bytes to the fixed 64-byte buffer
/// the hash consumes: anything that is not exactly 64 bytes is replaced by
/// zeros, as the stored credential can then never match it.
pub open spec fn fit64(b: Seq<u8>) -> Seq<u8> {
    if b.len() == 64 {
        b
    } else {
        Seq::new(64, |i: int| 0u8)
    }
}

pub fn fit64_exec(b: &Vec<u8>) -> (r: Vec<u8>)
    ensures
        r@ == fit64(b@),
{
    if b.len() == 64 {
        crate::copy_vec(b)
    } else {
        let mut r: Vec<u8> = Vec::new();
        let mut i: usize = 0;
        while i < 64
            invariant
                i <= 64,
                r@.len() == i,
                forall|j: int| 0 <= j < i ==> r@[j] == 0u8,
            decreases 64 - i,
        {
            r.push(0u8);
            i = i + 1;
        }
        proof {
            assert(r@ =~= fit64(b@));
        }
        r
    }
}

/// The sign-up decision and its effect, for a given fresh identity and
/// salt; the caller draws both from its entropy source. Rejects bad sizes
/// and bad email syntax, refuses a taken username or email, hashes the
/// password under the pool's admission limit, and stores the new account as
/// unverified.
pub fn sign_up_with_entropy(
    users: &UserStore,
    unverified: &mut Vec<UnverifiedUser>,
    pool: &mut HasherPool,
    req: &SignUpRequest,
    new_id: u128,
    salt: Vec<u8>,
) -> (r: Result<(), ApiError>)
    requires
        old(pool).wf(),
        salt@.len() == 64,
    ensures
        final(pool).wf(),
        final(pool)@ == old(pool)@,
        !valid_sign_up_request(*req) ==> r == Err::<(), ApiError>(ApiError::ValidationError)
            && final(unverified)@ == old(unverified)@,
        valid_sign_up_request(*req) && spec_name_or_email_taken(users@, req.username@, req.email@)
            ==> r == Err::<(), ApiError>(ApiError::AlreadyExists) && final(unverified)@ == old(
            unverified,
        )@,
        valid_sign_up_request(*req) && !spec_name_or_email_taken(
            users@,
            req.username@,
            req.email@,
        ) && !has_free(old(pool)@) ==> r == Err::<(), ApiError>(ApiError::ResourceExhausted)
            && final(unverified)@ == old(unverified)@,
        valid_sign_up_request(*req) && !spec_name_or_email_taken(
            users@,
            req.username@,
            req.email@,
        ) && has_free(old(pool)@) ==> r is Ok && final(unverified)@.len() == old(
            unverified,
        )@.len() + 1 && final(unverified)@.drop_last() == old(unverified)@ && ({
            let u = final(unverified)@.last();
            &&& u.id == new_id
            &&& u.username@ == req.username@
            &&& u.password@ == argon2_digest(fit64(req.password_hash@), salt@)
            &&& u.salt@ == salt@
            &&& u.email@ == req.email@
        }),
{
    if req.username.as_str().unicode_len() < 6 || req.username.as_str().unicode_len() > 32
        || req.email.as_str().unicode_len() > 128 {
        return Err(ApiError::ValidationError);
    }
    if !check_email(req.email.as_str()) {
        return Err(ApiError::ValidationError);
    }
    if users.name_or_email_taken(&req.username, &req.email) {
        return Err(ApiError::AlreadyExists);
    }
    let pwd = fit64_exec(&req.password_hash);
    match hash_password(pool, &pwd, &salt) {
        Err(_) => Err(ApiError::ResourceExhausted),
        Ok(digest) => {
            let new_user = NewUser {
                username: req.username.clone(),
                password: digest,
                salt,
                email: req.email.clone(),
            };
            unverified.push(new_user.into_unverified(new_id));
            proof {
                assert(unverified@.drop_last() =~= old(unverified)@);
            }
            Ok(())
        },
    }
}

/// Assembles a version-4 identifier from 16 random bytes, as the random
/// UUID constructor does: 122 random bits, the version nibble set to 4 and
/// the variant bits to the RFC pattern. The randomness itself comes from
/// the caller's entropy draw, so an entropy failure surfaces there as an
/// error instead of ending the process.
fn v4_id_from_bytes(b: &Vec<u8>) -> (r: u128)
    requires
        b@.len() >= 16,
{
    let mut acc: u128 = 0;
    let mut i: usize = 0;
    while i < 16
        invariant
            0 <= i <= 16,
            b@.len() >= 16,
        decreases 16 - i,
    {
        acc = (acc << 8) | (b[i] as u128);
        i = i + 1;
    }
    (acc & !0xF0000000000000000000u128 & !0xC000000000000000u128) | 0x40000000000000000000u128
        | 0x8000000000000000u128
}

/// The sign-up protocol as the endpoint runs it: validates, refuses taken
/// names, then draws a fresh 64-byte salt and the bytes of the account id
/// from the entropy source and stores the hashed account. A failing
/// entropy source surfaces as `InternalError`, never a crash.
pub fn sign_up(
    users: &UserStore,
    unverified: &mut Vec<UnverifiedUser>,
    pool: &mut HasherPool,
    req: &SignUpRequest,
) -> (r: Result<(), ApiError>)
    requires
        old(pool).wf(),
    ensures
        final(pool).wf(),
        final(pool)@ == old(pool)@,
        ({
            let fu = final(unverified)@;
            let ou = old(unverified)@;
            let valid = valid_sign_up_request(*req);
            let taken = spec_name_or_email_taken(users@, req.username@, req.email@);
            &&& (!valid ==> r == Err::<(), ApiError>(ApiError::ValidationError) && fu == ou)
            &&& (valid && taken ==> r == Err::<(), ApiError>(ApiError::AlreadyExists) && fu == ou)
            &&& (valid && !taken && !has_free(old(pool)@) ==> (r == Err::<(), ApiError>(
                ApiError::ResourceExhausted,
            ) || r == Err::<(), ApiError>(ApiError::InternalError)) && fu == ou)
            &&& (valid && !taken && has_free(old(pool)@) ==> match r {
                Ok(_) => fu.len() == ou.len() + 1 && fu.drop_last() == ou && ({
                    let u = fu.last();
                    &&& u.username@ == req.username@
                    &&& u.salt@.len() == 64
                    &&& u.password@ == argon2_digest(fit64(req.password_hash@), u.salt@)
                    &&& u.email@ == req.email@
                }),
                Err(e) => e == ApiError::InternalError && fu == ou,
            })
        }),
{
    if req.username.as_str().unicode_len() < 6 || req.username.as_str().unicode_len() > 32
        || req.email.as_str().unicode_len() > 128 {
        return Err(ApiError::ValidationError);
    }
    if !check_email(req.email.as_str()) {
        return Err(ApiError::ValidationError);
    }
    if users.name_or_email_taken(&req.username, &req.email) {
        return Err(ApiError::AlreadyExists);
    }
    match crate::tokens::os_random_bytes64() {
        Err(_) => Err(ApiError::InternalError),
        Ok(salt) => match crate::tokens::os_random_bytes64() {
            Err(_) => Err(ApiError::InternalError),
            Ok(id_bytes) => {
                let new_id = v4_id_from_bytes(&id_bytes);
                sign_up_with_entropy(users, unverified, pool, req, new_id, salt)
            },
        },
    }
}

/// What a user lookup shows the requester: the full record to its owner,
/// only the public fields to anyone else.
pub enum GetUserResult {
    PublicUser(PublicUserInfo),
    FriendUser(()),
    User(User),
}

/// Resolves a user-profile request: the full record when the requester asks
/// about itself, the public projection for any other existing user, and
/// `NotFound` otherwise.
pub fn get_user(users: &UserStore, requester: u128, usr_id: u128) -> (r: Result<
    GetUserResult,
    ApiError,
>)
    ensures
        match spec_find_user_by_id(users@, usr_id) {
            None => r == Err::<GetUserResult, ApiError>(ApiError::NotFound),
            Some(u) => if u.id == requester {
                r matches Ok(g) && g matches GetUserResult::User(v) && v.id == u.id && v.username
                    == u.username && v.password@ == u.password@ && v.salt@ == u.salt@ && v.email
                    == u.email && v.permisions@ == u.permisions@ && v.trust == u.trust
                    && v.homeworld == u.homeworld && v.avatar == u.avatar
            } else {
                r matches Ok(g) && g matches GetUserResult::PublicUser(p) && p.id == u.id
                    && p.username == u.username && p.homeworld == u.homeworld && p.avatar
                    == u.avatar
            },
        },
{
    match users.find_user_by_id(usr_id) {
        None => Err(ApiError::NotFound),
        Some(u) => {
            if u.id == requester {
                let v = User {
                    id: u.id,
                    username: u.username.clone(),
                    password: crate::copy_vec(&u.password),
                    salt: crate::copy_vec(&u.salt),
                    email: u.email.clone(),
                    permisions: crate::copy_vec(&u.permisions),
                    trust: u.trust,
                    homeworld: u.homeworld,
                    avatar: u.avatar,
                };
                Ok(GetUserResult::User(v))
            } else {
                Ok(GetUserResult::PublicUser(PublicUserInfo {
                    id: u.id,
                    username: u.username.clone(),
                    homeworld: u.homeworld,
                    avatar: u.avatar,
                }))
            }
        },
    }
}

} // verus!
