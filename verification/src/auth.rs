//! Who a caller is, as far as the store cares: the prefix under which the
//! caller's keys are kept, and whether the claims of a token hold together.
//!
//! Signing tokens and checking their signatures and dates is left to the
//! server around this library; this module takes claims that have been read
//! already.

use vstd::prelude::*;
use vstd::string::*;
use vstd::utf8::*;

verus! {

/// How long a token is good for, in seconds: four hours.
pub const TOKEN_LIFETIME: i64 = 14_400;

/// The SHA-256 digest of `data`.
pub uninterp spec fn sha256_digest(data: Seq<u8>) -> Seq<u8>;

/// The base64 text of `data`, in the standard alphabet and with padding.
pub uninterp spec fn base64_text(data: Seq<u8>) -> Seq<char>;

/// Computes the SHA-256 digest of `data`.
///
/// Calls `Digest::digest` of `sha2::Sha256`. The contract gives the result
/// its name, and claims that it is 32 bytes long, which is the output size
/// that the type `Sha256` is declared with. Not proved.
#[verifier::external_body]
fn sha256(data: &[u8]) -> (digest: Vec<u8>)
    ensures
        digest@ == sha256_digest(data@),
        digest@.len() == 32,
{
    <sha2::Sha256 as sha2::Digest>::digest(data).to_vec()
}

/// Whether `c` is a character of base64 text in the standard alphabet: a
/// letter, a digit, `+`, `/`, or the `=` that pads the text.
pub open spec fn is_base64_char(c: char) -> bool {
    ||| 'A' <= c <= 'Z'
    ||| 'a' <= c <= 'z'
    ||| '0' <= c <= '9'
    ||| c == '+'
    ||| c == '/'
    ||| c == '='
}

/// Writes `data` as base64.
///
/// Calls `Engine::encode` of the `base64` crate on its engine `STANDARD`,
/// which writes in the standard alphabet and pads with `=`. The contract
/// gives the result its name, and claims of it what the source fixes: four
/// characters for every three bytes begun, each of them a character of that
/// alphabet or the pad. The call panics where the length of the text does
/// not fit the machine's word, which happens from three quarters of the
/// largest length on; the bound keeps well below that. Not proved.
#[verifier::external_body]
fn base64_standard(data: &[u8]) -> (text: String)
    requires
        data@.len() <= 0x4000_0000,
    ensures
        text@ == base64_text(data@),
        text@.len() == 4 * ((data@.len() + 2) / 3),
        forall|i: int| 0 <= i < text@.len() ==> is_base64_char(#[trigger] text@[i]),
{
    base64::Engine::encode(&base64::engine::general_purpose::STANDARD, data)
}

/// The identifier of the user `username`: the base64 text of the SHA-256
/// digest of the name's UTF-8 bytes.
pub open spec fn user_id(username: Seq<char>) -> Seq<char> {
    base64_text(sha256_digest(encode_utf8(username)))
}

/// Derives the identifier under which a user's keys are kept. It is 44
/// characters of base64, so that it holds neither a space nor a newline.
pub fn create_user_id(username: &str) -> (id: String)
    ensures
        id@ == user_id(username@),
        id@.len() == 44,
        forall|i: int| 0 <= i < id@.len() ==> is_base64_char(#[trigger] id@[i]),
        !id@.contains(' '),
        !id@.contains('\n'),
{
    let digest = sha256(username.as_bytes());
    base64_standard(digest.as_slice())
}

/// The key under which the store keeps what the user `user_id` calls `key`.
pub open spec fn scoped(user_id: Seq<char>, key: Seq<char>) -> Seq<char> {
    user_id + seq![':'] + key
}

/// Puts the user's identifier and a colon in front of `key`.
pub fn scoped_key(user_id: &str, key: &str) -> (scoped_key: String)
    ensures
        scoped_key@ == scoped(user_id@, key@),
{
    proof {
        reveal_strlit(":");
    }
    let mut text = String::from_str(user_id);
    text.append(":");
    assert(":"@ =~= seq![':']);
    text.append(key);
    text
}

/// What a token says of its bearer.
#[derive(Clone, Debug, PartialEq, Eq)]
pub struct Claims {
    /// The identifier of the user.
    pub sub: String,
    /// The name of the user.
    pub username: String,
    /// When the token ends, in seconds since the start of 1970.
    pub exp: i64,
}

/// The claims that a token for `username` carries when it is issued at
/// `now`, in seconds since the start of 1970: the user's identifier as its
/// subject, and an end four hours on.
pub fn issue_claims(username: &str, now: i64) -> (claims: Claims)
    requires
        now + TOKEN_LIFETIME <= i64::MAX,
    ensures
        claims.sub@ == user_id(username@),
        claims.username@ == username@,
        claims.exp == now + TOKEN_LIFETIME,
{
    Claims {
        sub: create_user_id(username),
        username: String::from_str(username),
        exp: now + TOKEN_LIFETIME,
    }
}

/// The bearer of a token was not let in.
#[derive(Clone, Copy, Debug, PartialEq, Eq, Structural)]
pub struct Forbidden;

/// Checks the subject of a token's claims against `id`, the identifier
/// that the bearer ought to have. `claims` is what reading the token gave,
/// and `None` where the token could not be read or was refused.
///
/// The bearer is let in exactly when there are claims and their subject is
/// `id`, which is then the result.
pub fn check_subject(id: String, claims: Option<&Claims>) -> (r: Result<String, Forbidden>)
    ensures
        r is Ok <==> (claims matches Some(c) && c.sub@ == id@),
        r matches Ok(subject) ==> subject@ == id@,
{
    match claims {
        Some(claims) => {
            if id == claims.sub {
                Ok(id)
            } else {
                Err(Forbidden)
            }
        },
        None => Err(Forbidden),
    }
}

/// Checks what a token's claims say. `claims` is what reading the token
/// gave, and `None` where the token could not be read or was refused.
///
/// The bearer is let in exactly when there are claims and their subject is
/// the identifier of the user that they name. The result is then that
/// identifier.
pub fn validate_token(claims: Option<&Claims>) -> (r: Result<String, Forbidden>)
    ensures
        r is Ok <==> (claims matches Some(c) && c.sub@ == user_id(c.username@)),
        r matches Ok(id) ==> id@ == user_id(claims->0.username@),
{
    match claims {
        Some(named) => check_subject(create_user_id(named.username.as_str()), claims),
        None => Err(Forbidden),
    }
}

/// A key that a user names stays fit for the log under the user's
/// identifier: where neither of the two holds a space or a newline, the
/// scoped key holds none either.
pub proof fn lemma_scoped_key_is_plain(user_id: Seq<char>, key: Seq<char>)
    requires
        !user_id.contains(' '),
        !user_id.contains('\n'),
        !key.contains(' '),
        !key.contains('\n'),
    ensures
        !scoped(user_id, key).contains(' '),
        !scoped(user_id, key).contains('\n'),
{
    let whole = scoped(user_id, key);
    assert forall|i: int| 0 <= i < whole.len() implies whole[i] != ' ' && whole[i] != '\n' by {
        if i < user_id.len() {
            assert(user_id.contains(user_id[i]));
        } else if i > user_id.len() {
            assert(key.contains(key[i - user_id.len() - 1]));
        }
    }
}

} // verus!
