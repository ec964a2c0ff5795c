//! Password hashing and verification, through the Argon2i algorithm with the
//! service's fixed parameters: version 1.3, 65536 KiB of memory, 10
//! iterations, 4 lanes, a 32-byte digest, and no secret key or associated
//! data. The hash is a self-describing encoded string holding the
//! parameters, the salt and the digest, so verification needs only the
//! stored string and the candidate password.

use vstd::prelude::*;
use vstd::utf8::encode_utf8;

verus! {

pub const MEM_COST_KIB: u32 = 65536;

pub const TIME_COST: u32 = 10;

pub const LANES: u32 = 4;

pub const HASH_LENGTH: u32 = 32;

/// The encoded hash string that Argon2i, under the fixed parameters above,
/// derives from a password and a salt. A function of its arguments alone.
pub uninterp spec fn argon2i_hash_of(password: Seq<u8>, salt: Seq<u8>) -> Seq<char>;

/// The outcome of checking a password against an encoded hash string:
/// `None` when the encoded string cannot be decoded, `Some(m)` with `m`
/// telling whether the password matches. A function of its arguments alone.
pub uninterp spec fn argon2i_verify_of(encoded: Seq<char>, password: Seq<u8>) -> Option<bool>;

/// The arguments on which hashing succeeds: a salt of 8 to 2^32 - 1 bytes
/// and a password of at most 2^32 - 1 bytes.
pub open spec fn hash_args_ok(password: Seq<u8>, salt: Seq<u8>) -> bool {
    8 <= salt.len() <= 0xFFFF_FFFFnat && password.len() <= 0xFFFF_FFFFnat
}

/// The opening every encoded hash string shares: the algorithm marker and
/// the fixed parameters, before the salt and digest fields.
pub open spec fn encoded_hash_prefix() -> Seq<char> {
    "$argon2i$v=19$m=65536,t=10,p=4$"@
}

/// An encoded hash begins with the parameter prefix, so it never equals a
/// submitted password unless that password itself opens with the `'$'`
/// marker. This is the sense in which the stored value is never the
/// plaintext.
pub proof fn lemma_hash_differs_from_password(hash: Seq<char>, password: Seq<char>)
    requires
        hash.len() > encoded_hash_prefix().len(),
        hash.subrange(0, encoded_hash_prefix().len() as int) == encoded_hash_prefix(),
        password.len() == 0 || password[0] != '$',
    ensures
        hash != password,
{
    reveal_strlit("$argon2i$v=19$m=65536,t=10,p=4$");
    assert(hash.subrange(0, encoded_hash_prefix().len() as int)[0] == hash[0]);
    assert(hash[0] == '$');
}

/// Relies on `argon2::hash_encoded` (rust-argon2): it derives the encoded
/// hash from password, salt and parameters alone; it fails exactly when a
/// length bound on the salt or password is broken, the remaining parameters
/// being fixed and valid here; its own verifier accepts its output with the
/// password that produced it; and its output spells the fixed parameters
/// first, then the salt and digest fields, so it is strictly longer than
/// that prefix.
#[verifier::external_body]
pub(crate) fn hash_password(password: &str, salt: &str) -> (r: Result<String, ()>)
    ensures
        r is Ok <==> hash_args_ok(encode_utf8(password@), encode_utf8(salt@)),
        r is Ok ==> r->Ok_0@ == argon2i_hash_of(encode_utf8(password@), encode_utf8(salt@)),
        r is Ok ==> argon2i_verify_of(r->Ok_0@, encode_utf8(password@)) == Some(true),
        r is Ok ==> r->Ok_0@.len() > encoded_hash_prefix().len() && r->Ok_0@.subrange(
            0,
            encoded_hash_prefix().len() as int,
        ) == encoded_hash_prefix(),
{
    let config = argon2::Config {
        variant: argon2::Variant::Argon2i, version: argon2::Version::Version13,
        mem_cost: MEM_COST_KIB, time_cost: TIME_COST, lanes: LANES,
        secret: &[], ad: &[], hash_length: HASH_LENGTH,
    };
    match argon2::hash_encoded(password.as_bytes(), salt.as_bytes(), &config) {
        Ok(s) => Ok(s),
        Err(_) => Err(()),
    }
}

/// Relies on `argon2::verify_encoded` (rust-argon2): its outcome is a
/// function of the encoded string and the password alone; every error it
/// returns arises from decoding the encoded string or from a candidate
/// password over 2^32 - 1 bytes.
#[verifier::external_body]
pub(crate) fn verify_password(encoded: &str, password: &str) -> (r: Result<bool, ()>)
    ensures
        r is Ok <==> argon2i_verify_of(encoded@, encode_utf8(password@)) is Some,
        r is Ok ==> Some(r->Ok_0) == argon2i_verify_of(encoded@, encode_utf8(password@)),
{
    match argon2::verify_encoded(encoded, password.as_bytes()) {
        Ok(b) => Ok(b),
        Err(_) => Err(()),
    }
}

} // verus!
