//! Session-token issuance: claims built from an authenticated user's
//! identity, framed as a JWT and signed with HMAC-SHA-256 under a symmetric
//! secret. A token is valid for exactly 180 days from its issue time; the
//! service keeps no session state, so an issued token cannot be revoked
//! before it expires.

use vstd::prelude::*;
use vstd::utf8::encode_utf8;
use crate::base64url::{b64url_bytes, b64url_encode, lemma_b64url_ascii};
use crate::directory::User;
use crate::errors::AuthError;
use crate::numeral::dec_chars;

verus! {

/// Seconds in the 180-day validity window.
pub const SECONDS_IN_180_DAYS: u64 = 15552000;

/// The base64url HMAC-SHA-256 signature of `message` under `key`. A
/// function of its arguments alone.
pub uninterp spec fn hmac_sha256_b64_of(message: Seq<u8>, key: Seq<u8>) -> Seq<char>;

/// Relies on `jsonwebtoken::crypto::sign` with `Algorithm::HS256`, which
/// always returns the base64url HMAC-SHA-256 signature of the message under
/// the key (`jsonwebtoken::EncodingKey::from_secret` merely wraps the key
/// bytes); the `unwrap` cannot fail because the HS256 arm never errors.
#[verifier::external_body]
pub(crate) fn sign_hs256(message: &[u8], key: &[u8]) -> (r: String)
    ensures
        r@ == hmac_sha256_b64_of(message@, key@),
{
    let k = jsonwebtoken::EncodingKey::from_secret(key);
    jsonwebtoken::crypto::sign(message, &k, jsonwebtoken::Algorithm::HS256).unwrap()
}

/// The characters that a sequence of ASCII bytes reads as.
pub open spec fn ascii_chars_of(b: Seq<u8>) -> Seq<char> {
    Seq::new(b.len(), |i: int| b[i] as char)
}

/// Relies on `String::from_utf8`: ASCII bytes are valid UTF-8 and decode to
/// exactly the characters they spell, so the `unwrap` cannot fail.
#[verifier::external_body]
fn ascii_string_from_bytes(bytes: Vec<u8>) -> (r: String)
    requires
        forall|i: int| 0 <= i < bytes@.len() ==> bytes@[i] < 128,
    ensures
        r@ == ascii_chars_of(bytes@),
{
    String::from_utf8(bytes).unwrap()
}

/// The mathematical image of a `Claims` value.
pub ghost struct ClaimsV {
    pub sub: Seq<char>,
    pub iss: Seq<char>,
    pub iat: u64,
    pub exp: u64,
    pub id: Seq<char>,
}

/// The claims issued for a user: subject is the stored username, issuer the
/// fixed application identifier, expiry exactly 180 days after issue, and
/// the user's directory identifier as a custom claim.
pub open spec fn spec_claims(username: Seq<char>, id: Seq<char>, iat: u64) -> ClaimsV {
    ClaimsV {
        sub: username,
        iss: "AnkiCC"@,
        iat,
        exp: (iat + SECONDS_IN_180_DAYS) as u64,
        id,
    }
}

/// The session claims carried by a signed token.
pub struct Claims {
    sub: String,
    iss: String,
    iat: u64,
    exp: u64,
    id: String,
}

impl View for Claims {
    type V = ClaimsV;

    closed spec fn view(&self) -> ClaimsV {
        ClaimsV {
            sub: self.sub@,
            iss: self.iss@,
            iat: self.iat,
            exp: self.exp,
            id: self.id@,
        }
    }
}

/// The claims object as a JSON text, fields in a fixed order.
pub open spec fn claims_json(c: ClaimsV) -> Seq<char> {
    "{\"sub\":\""@ + c.sub + "\",\"iss\":\""@ + c.iss + "\",\"iat\":"@ + dec_chars(c.iat as nat)
        + ",\"exp\":"@ + dec_chars(c.exp as nat) + ",\"id\":\""@ + c.id + "\"}"@
}

/// The fixed JWT header: HMAC-SHA-256, token type JWT.
pub open spec fn header_json() -> Seq<char> {
    "{\"typ\":\"JWT\",\"alg\":\"HS256\"}"@
}

/// The unsigned part of a token: base64url of the header, a dot, base64url
/// of the claims JSON.
pub open spec fn signing_input_of(c: ClaimsV) -> Seq<char> {
    ascii_chars_of(b64url_bytes(encode_utf8(header_json()))) + "."@ + ascii_chars_of(
        b64url_bytes(encode_utf8(claims_json(c))),
    )
}

/// The complete signed token for claims `c` under signing key `key`.
pub open spec fn token_of(c: ClaimsV, key: Seq<u8>) -> Seq<char> {
    signing_input_of(c) + "."@ + hmac_sha256_b64_of(encode_utf8(signing_input_of(c)), key)
}

impl Claims {
    /// Fresh claims for a user, issued at `iat`.
    pub fn new(username: String, id: String, iat: u64) -> (c: Claims)
        requires
            iat <= u64::MAX - SECONDS_IN_180_DAYS,
        ensures
            c@ == spec_claims(username@, id@, iat),
    {
        Claims {
            sub: username,
            iss: "AnkiCC".to_owned(),
            iat,
            exp: iat + SECONDS_IN_180_DAYS,
            id,
        }
    }

    /// The subject claim.
    pub fn sub(&self) -> (r: &String)
        ensures
            r@ == self@.sub,
    {
        &self.sub
    }

    /// The expiry timestamp.
    pub fn exp(&self) -> (r: u64)
        ensures
            r == self@.exp,
    {
        self.exp
    }

    /// The issue timestamp.
    pub fn iat(&self) -> (r: u64)
        ensures
            r == self@.iat,
    {
        self.iat
    }

    /// Renders the claims as JSON.
    pub fn to_json(&self) -> (s: String)
        ensures
            s@ == claims_json(self@),
    {
        let mut s = String::new();
        s.append("{\"sub\":\"");
        s.append(self.sub.as_str());
        s.append("\",\"iss\":\"");
        s.append(self.iss.as_str());
        s.append("\",\"iat\":");
        let iat_str = crate::numeral::u64_to_dec_string(self.iat);
        s.append(iat_str.as_str());
        s.append(",\"exp\":");
        let exp_str = crate::numeral::u64_to_dec_string(self.exp);
        s.append(exp_str.as_str());
        s.append(",\"id\":\"");
        s.append(self.id.as_str());
        s.append("\"}");
        proof {
            assert(s@ =~= claims_json(self@));
        }
        s
    }
}

/// The token expires exactly 180 days after it is issued, and its subject
/// is the stored username it was issued for.
pub proof fn lemma_claims_window(username: Seq<char>, id: Seq<char>, iat: u64)
    requires
        iat <= u64::MAX - SECONDS_IN_180_DAYS,
    ensures
        spec_claims(username, id, iat).exp == iat + 180 * 86400,
        spec_claims(username, id, iat).sub == username,
        spec_claims(username, id, iat).iat == iat,
{
}

/// Builds and signs the session token for an authenticated user. The user
/// must already carry a directory-assigned identifier. Signing itself
/// cannot fail for an HMAC algorithm, so the result is always the token.
pub fn generate_jwt(user: &User, jwt_secret: &str, now: u64) -> (r: Result<String, AuthError>)
    requires
        user@.id is Some,
        now <= u64::MAX - SECONDS_IN_180_DAYS,
    ensures
        r is Ok,
        r->Ok_0@ == token_of(
            spec_claims(user@.username, user@.id->0, now),
            encode_utf8(jwt_secret@),
        ),
{
    let id = match &user.id {
        Some(s) => s.clone(),
        None => {
            proof {
                assert(false);
            }
            String::new()
        },
    };
    let claims = Claims::new(user.username.clone(), id, now);
    let claims_text = claims.to_json();
    let header = "{\"typ\":\"JWT\",\"alg\":\"HS256\"}";
    let header_bytes = header.as_bytes_vec();
    let claims_bytes = claims_text.as_str().as_bytes_vec();
    let b64_header = b64url_encode(&header_bytes);
    let b64_claims = b64url_encode(&claims_bytes);
    proof {
        lemma_b64url_ascii(header_bytes@);
        lemma_b64url_ascii(claims_bytes@);
    }
    let mut signing_input = ascii_string_from_bytes(b64_header);
    signing_input.append(".");
    let claims_part = ascii_string_from_bytes(b64_claims);
    signing_input.append(claims_part.as_str());
    let ghost c = spec_claims(user@.username, user@.id->0, now);
    proof {
        assert(signing_input@ =~= signing_input_of(c));
    }
    let message = signing_input.as_str().as_bytes_vec();
    let signature = sign_hs256(message.as_slice(), jwt_secret.as_bytes());
    let mut token = signing_input;
    token.append(".");
    token.append(signature.as_str());
    proof {
        assert(token@ =~= token_of(c, encode_utf8(jwt_secret@)));
    }
    Ok(token)
}

} // verus!
