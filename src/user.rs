//! Users, password hashing, and HTTP Basic credentials.

use vstd::prelude::*;
use vstd::utf8::{valid_utf8, decode_utf8, encode_utf8};
use crate::text::{digit_char, chars_of, string_of, starts_with, find_char_exec, find_char, lemma_find_char_from};

verus! {

/// The work factor of every stored hash: low on purpose, so that hashing stays fast.
pub const HASH_COST: u32 = 4;

/// How bcrypt begins a hash made at `cost`: version `2b`, then the cost in two
/// digits.
pub open spec fn bcrypt_prefix(cost: nat) -> Seq<char> {
    seq!['$', '2', 'b', '$', digit_char(cost / 10), digit_char(cost % 10), '$']
}

/// Whether `hash` has the shape bcrypt writes at `cost`: sixty characters
/// that begin with `bcrypt_prefix(cost)`.
pub open spec fn bcrypt_hash_at(hash: Seq<char>, cost: nat) -> bool {
    hash.len() == 60 && hash.subrange(0, 7) == bcrypt_prefix(cost)
}

/// Whether bcrypt accepts `password` against the stored `hash`.
pub uninterp spec fn password_matches(password: Seq<char>, hash: Seq<char>) -> bool;

/// What base64's standard engine decodes `input` to; nothing when `input` is
/// not padded standard base64.
pub uninterp spec fn base64_decoded(input: Seq<u8>) -> Option<Seq<u8>>;

/// Relies on bcrypt::hash: a salted hash of `password` at the given cost, which
/// bcrypt::verify accepts for that same password, written as `$2b$`, the cost
/// in two digits, `$`, then 53 characters of salt and hash. It fails only when
/// the operating system gives no random salt.
#[verifier::external_body]
fn hash_password(password: &str, cost: u32) -> (r: Option<String>)
    requires
        4 <= cost <= 31,
    ensures
        match r {
            Some(h) => password_matches(password@, h@) && bcrypt_hash_at(h@, cost as nat),
            None => true,
        },
{
    bcrypt::hash(password, cost).ok()
}

/// Relies on bcrypt::verify: hashes `password` again with the salt and cost
/// that `hash` holds and compares; a malformed hash accepts nothing.
#[verifier::external_body]
fn verify_password(password: &str, hash: &str) -> (r: bool)
    ensures
        r == password_matches(password@, hash@),
{
    bcrypt::verify(password, hash).unwrap_or(false)
}

/// Relies on base64's STANDARD engine, `Engine::decode`.
#[verifier::external_body]
fn decode_base64(input: &[u8]) -> (r: Option<Vec<u8>>)
    ensures
        match r {
            Some(b) => base64_decoded(input@) == Some(b@),
            None => base64_decoded(input@) is None,
        },
{
    base64::Engine::decode(&base64::engine::general_purpose::STANDARD, input).ok()
}

/// Relies on String::from_utf8: it succeeds exactly on valid UTF-8 and keeps
/// the text those bytes encode.
#[verifier::external_body]
pub(crate) fn utf8_text(bytes: Vec<u8>) -> (r: Option<String>)
    ensures
        match r {
            Some(s) => valid_utf8(bytes@) && s@ == decode_utf8(bytes@),
            None => !valid_utf8(bytes@),
        },
{
    String::from_utf8(bytes).ok()
}

/// A registered user. The password itself is never kept.
pub struct User {
    pub username: String,
    pub password_hash: String,
}

impl User {
    /// A user whose stored hash, made at cost 4, accepts `password`; nothing
    /// when no salt could be drawn.
    pub fn new(username: &str, password: &str) -> (r: Option<User>)
        ensures
            match r {
                Some(u) => {
                    &&& u.username@ == username@
                    &&& password_matches(password@, u.password_hash@)
                    &&& bcrypt_hash_at(u.password_hash@, 4)
                    &&& u.password_hash@.subrange(0, 7) == seq!['$', '2', 'b', '$', '0', '4', '$']
                },
                None => true,
            },
    {
        proof {
            assert(bcrypt_prefix(4) == seq!['$', '2', 'b', '$', '0', '4', '$']);
        }
        match hash_password(password, HASH_COST) {
            Some(password_hash) => Some(User { username: String::from_str(username), password_hash }),
            None => None,
        }
    }

    /// Whether `password` is this user's password.
    pub fn authenticate(&self, password: &str) -> (r: bool)
        ensures
            r == password_matches(password@, self.password_hash@),
    {
        verify_password(password, self.password_hash.as_str())
    }
}

/// What of a user may be shown to anyone: the name.
pub struct PublicUser {
    pub username: String,
}

impl<'a> From<&'a User> for PublicUser {
    fn from(user: &'a User) -> (r: PublicUser) {
        PublicUser { username: user.username.clone() }
    }
}

impl<'a> vstd::std_specs::convert::FromSpecImpl<&'a User> for PublicUser {
    open spec fn obeys_from_spec() -> bool {
        true
    }

    open spec fn from_spec(user: &'a User) -> PublicUser {
        PublicUser { username: user.username }
    }
}

/// The text split at its only colon into name and password; nothing when it
/// holds no colon or more than one.
pub open spec fn credentials_of(text: Seq<char>) -> Option<(Seq<char>, Seq<char>)> {
    match find_char(text, ':') {
        Some(i) => {
            let password = text.subrange(i + 1, text.len() as int);
            match find_char(password, ':') {
                Some(_) => None,
                None => Some((text.subrange(0, i), password)),
            }
        },
        None => None,
    }
}

/// The credentials an `Authorization` header value carries: the literal
/// `Basic `, then base64 of UTF-8 text holding exactly one colon.
pub open spec fn basic_credentials(value: Seq<char>) -> Option<(Seq<char>, Seq<char>)> {
    let prefix = "Basic "@;
    if prefix.len() <= value.len() && value.subrange(0, prefix.len() as int) == prefix {
        match base64_decoded(encode_utf8(value.subrange(prefix.len() as int, value.len() as int))) {
            Some(bytes) => if valid_utf8(bytes) {
                credentials_of(decode_utf8(bytes))
            } else {
                None
            },
            None => None,
        }
    } else {
        None
    }
}

/// Splits decoded credentials at their only colon.
pub fn split_credentials(text: &str) -> (r: Option<(String, String)>)
    ensures
        match r {
            Some(p) => credentials_of(text@) == Some((p.0@, p.1@)),
            None => credentials_of(text@) is None,
        },
{
    let v = chars_of(text);
    match find_char_exec(&v, ':', 0) {
        Some(i) => {
            proof {
                lemma_find_char_from(v@, ':', 0);
            }
            let n = v.len();
            let rest = crate::text::slice_of(&v, i + 1, n);
            match find_char_exec(&rest, ':', 0) {
                Some(_) => None,
                None => Some((string_of(&v, 0, i), string_of(&v, i + 1, n))),
            }
        },
        None => None,
    }
}

/// Decodes the value of an `Authorization` header into name and password.
pub fn decode_basic(value: &str) -> (r: Option<(String, String)>)
    ensures
        match r {
            Some(p) => basic_credentials(value@) == Some((p.0@, p.1@)),
            None => basic_credentials(value@) is None,
        },
{
    let v = chars_of(value);
    if !starts_with(&v, "Basic ") {
        return None;
    }
    let skip = "Basic ".unicode_len();
    let encoded = string_of(&v, skip, v.len());
    let bytes = encoded.as_str().as_bytes();
    match decode_base64(bytes) {
        Some(decoded) => match utf8_text(decoded) {
            Some(text) => split_credentials(text.as_str()),
            None => None,
        },
        None => None,
    }
}

} // verus!
