//! Data model of the records that the persistence collaborator owns. The
//! core holds transient copies during a request. Identifiers and instants
//! are plain values (128-bit ids, seconds since the Unix epoch), and
//! enum-like type codes are closed variants, converted to their integer
//! encoding only at the persistence edge.
use vstd::prelude::*;

verus! {

/// Kind of uploadable object.
#[derive(Clone, Copy, Debug, PartialEq, Eq, Structural)]
pub enum ObjectType {
    World,
    Avatar,
}

/// Integer encoding of an object kind at the persistence edge.
pub open spec fn spec_object_type_code(t: ObjectType) -> i16 {
    match t {
        ObjectType::World => 0,
        ObjectType::Avatar => 1,
    }
}

/// The kind a stored integer code denotes, if any.
pub open spec fn spec_object_type_from_code(c: i16) -> Option<ObjectType> {
    if c == 0 {
        Some(ObjectType::World)
    } else if c == 1 {
        Some(ObjectType::Avatar)
    } else {
        None
    }
}

impl ObjectType {
    pub fn code(&self) -> (c: i16)
        ensures
            c == spec_object_type_code(*self),
    {
        match self {
            ObjectType::World => 0,
            ObjectType::Avatar => 1,
        }
    }

    pub fn from_code(c: i16) -> (r: Option<ObjectType>)
        ensures
            r == spec_object_type_from_code(c),
    {
        if c == 0 {
            Some(ObjectType::World)
        } else if c == 1 {
            Some(ObjectType::Avatar)
        } else {
            None
        }
    }
}

/// The integer encoding of object kinds loses nothing: decoding an encoded
/// kind gives the kind back, and every decodable code re-encodes to itself.
pub proof fn lemma_object_type_code_round_trip()
    ensures
        forall|t: ObjectType| spec_object_type_from_code(spec_object_type_code(t)) == Some(t),
        forall|c: i16|
            (#[trigger] spec_object_type_from_code(c)) matches Some(t) ==> spec_object_type_code(
                t,
            ) == c,
{
}

/// An uploadable object's record.
#[derive(Debug)]
pub struct Object {
    pub id: u128,
    pub name: String,
    pub description: String,
    pub flags: Vec<Option<bool>>,
    pub updated_at: u64,
    pub created_at: u64,
    pub verified: bool,
    pub object_size: i64,
    pub image_size: i64,
    pub creator: u128,
    pub object_type: i16,
    pub publicity: i16,
    pub license: i32,
    pub encryption_key: Vec<u8>,
    pub encryption_iv: Vec<u8>,
}

/// A verified account; doubles as the credential record the sign-in
/// protocol reads.
pub struct User {
    pub id: u128,
    pub username: String,
    pub password: Vec<u8>,
    pub salt: Vec<u8>,
    pub email: String,
    pub permisions: Vec<Option<bool>>,
    pub trust: i32,
    pub homeworld: Option<u128>,
    pub avatar: Option<u128>,
}

impl User {
    /// The stored digest and salt are always exactly 64 bytes; the digest is
    /// never derivable back to the plaintext password.
    pub open spec fn wf(&self) -> bool {
        &&& self.password@.len() == 64
        &&& self.salt@.len() == 64
    }
}

/// An account awaiting email verification.
pub struct UnverifiedUser {
    pub id: u128,
    pub username: String,
    pub password: Vec<u8>,
    pub salt: Vec<u8>,
    pub email: String,
}

/// The fields of a user that anyone may see.
#[derive(Debug)]
pub struct PublicUserInfo {
    pub id: u128,
    pub username: String,
    pub homeworld: Option<u128>,
    pub avatar: Option<u128>,
}

impl From<User> for PublicUserInfo {
    fn from(value: User) -> (r: Self) {
        PublicUserInfo {
            id: value.id,
            username: value.username,
            homeworld: value.homeworld,
            avatar: value.avatar,
        }
    }
}

impl vstd::std_specs::convert::FromSpecImpl<User> for PublicUserInfo {
    open spec fn obeys_from_spec() -> bool {
        true
    }

    open spec fn from_spec(t: User) -> Self {
        PublicUserInfo { id: t.id, username: t.username, homeworld: t.homeworld, avatar: t.avatar }
    }
}

/// A bearer token record: opaque random bytes, the owning user, an optional
/// expiry instant and whether the token may be renewed.
pub struct Token {
    pub user: u128,
    pub token: Vec<u8>,
    pub expiry: Option<u64>,
    pub renewable: bool,
}

impl Token {
    /// Token bytes are always exactly 64 bytes.
    pub open spec fn wf(&self) -> bool {
        self.token@.len() == 64
    }

    /// A token is live when its expiry is absent or strictly in the future.
    pub open spec fn live(&self, now: u64) -> bool {
        match self.expiry {
            None => true,
            Some(e) => e > now,
        }
    }
}

/// A license text and its stored integer code.
pub struct License {
    pub license: i32,
    pub text: String,
}

/// A search tag attached to an object.
pub struct Tag {
    pub object: u128,
    pub tag: String,
}

} // verus!
