//! The authentication service: registration and login over the user
//! directory, with the failed-attempt bookkeeping and token issuance the
//! service performs on every login.

use vstd::prelude::*;
use vstd::utf8::encode_utf8;
use crate::directory::{
    dir_wf, find_identifier, find_identifier_from, has_email, has_username,
    lemma_dir_ids_unique, lemma_find_identifier_in_range, lemma_find_identifier_skip,
    matches_identifier, set_attempts, User, UserDirectory, UserV,
};
use crate::errors::AuthError;
use crate::hashing::{argon2i_hash_of, argon2i_verify_of, hash_args_ok, hash_password,
    verify_password};
use crate::numeral::dec_chars;
use crate::token::{generate_jwt, spec_claims, token_of, SECONDS_IN_180_DAYS};
use crate::validation::{check_email, check_password, check_username, lemma_username_is_no_email,
    valid_credentials, valid_email, valid_username};

verus! {

/// A registration request: the raw credentials a new account is created
/// from.
pub struct RegistrationFormData {
    pub username: String,
    pub email: String,
    pub password: String,
}

/// A login request: one identifier, matched against username or email, and
/// the raw password.
pub struct LoginFormData {
    pub username_or_email: String,
    pub password: String,
}

/// Process configuration, read once at startup and passed in: the
/// process-wide hashing salt and the token-signing secret.
pub struct AuthConfig {
    pub salt: String,
    pub jwt_secret: String,
}

/// What registration does: validation first, then the two uniqueness
/// pre-checks (email before username), then hashing, then insertion. The
/// result pairs the directory afterwards with the outcome.
pub open spec fn spec_register(
    dir: Seq<UserV>,
    username: Seq<char>,
    email: Seq<char>,
    password: Seq<char>,
    salt: Seq<char>,
) -> (Seq<UserV>, Result<Seq<char>, AuthError>) {
    if !valid_credentials(username, email, password) {
        (dir, Err(AuthError::BadInput))
    } else if has_email(dir, email) {
        (dir, Err(AuthError::Conflict))
    } else if has_username(dir, username) {
        (dir, Err(AuthError::Conflict))
    } else if !hash_args_ok(encode_utf8(password), encode_utf8(salt)) {
        (dir, Err(AuthError::Unavailable))
    } else {
        let record = UserV {
            id: Some(dec_chars(dir.len())),
            is_admin: false,
            username,
            email,
            password: argon2i_hash_of(encode_utf8(password), encode_utf8(salt)),
            failed_login_attempts: 0,
        };
        (dir.push(record), Ok("Registered"@))
    }
}

/// The failed-attempt counter after one more failure; the counter sticks at
/// the machine maximum rather than wrapping.
pub open spec fn inc_attempts(c: u64) -> u64 {
    if c < u64::MAX {
        (c + 1) as u64
    } else {
        c
    }
}

/// What login does: look the identifier up, verify the password against the
/// stored hash, set the counter before answering, and issue a token only on
/// a verified password. A stored hash that cannot be decoded counts as a
/// failed verification.
pub open spec fn spec_login(
    dir: Seq<UserV>,
    ident: Seq<char>,
    password: Seq<char>,
    key: Seq<u8>,
    now: u64,
) -> (Seq<UserV>, Result<Seq<char>, AuthError>) {
    match find_identifier(dir, ident) {
        None => (dir, Err(AuthError::InvalidCredentials)),
        Some(i) => {
            let u = dir[i];
            let id = u.id->0;
            if argon2i_verify_of(u.password, encode_utf8(password)) == Some(true) {
                (
                    set_attempts(dir, id, 0),
                    Ok(token_of(spec_claims(u.username, id, now), key)),
                )
            } else {
                (
                    set_attempts(dir, id, inc_attempts(u.failed_login_attempts)),
                    Err(AuthError::InvalidCredentials),
                )
            }
        },
    }
}

/// Registers a new account: validates the input, rejects a duplicate email
/// or username, hashes the password under the configured salt, and inserts
/// the new record with no administrator rights and a zeroed failed-attempt
/// counter. On success the stored hash verifies against the submitted
/// password.
pub fn register_user(
    dir: &mut UserDirectory,
    form: &RegistrationFormData,
    config: &AuthConfig,
) -> (r: Result<String, AuthError>)
    requires
        old(dir).wf(),
    ensures
        final(dir).wf(),
        final(dir)@ == spec_register(
            old(dir)@,
            form.username@,
            form.email@,
            form.password@,
            config.salt@,
        ).0,
        ({
            let outcome = spec_register(
                old(dir)@,
                form.username@,
                form.email@,
                form.password@,
                config.salt@,
            ).1;
            &&& r is Ok <==> outcome is Ok
            &&& r is Ok ==> r->Ok_0@ == outcome->Ok_0
            &&& r is Err ==> r->Err_0 == outcome->Err_0
        }),
        r is Ok ==> argon2i_verify_of(
            final(dir)@.last().password,
            encode_utf8(form.password@),
        ) == Some(true),
        r is Ok && (form.password@.len() == 0 || form.password@[0] != '$')
            ==> final(dir)@.last().password != form.password@,
{
    if !check_username(form.username.as_str()) {
        return Err(AuthError::BadInput);
    }
    if !check_email(form.email.as_str()) {
        return Err(AuthError::BadInput);
    }
    if !check_password(form.password.as_str()) {
        return Err(AuthError::BadInput);
    }
    if let Some(_) = dir.find_by_email(&form.email) {
        return Err(AuthError::Conflict);
    }
    if let Some(_) = dir.find_by_username(&form.username) {
        return Err(AuthError::Conflict);
    }
    let hashed = match hash_password(form.password.as_str(), config.salt.as_str()) {
        Ok(h) => h,
        Err(_) => {
            return Err(AuthError::Unavailable);
        },
    };
    let record = User {
        id: None,
        is_admin: false,
        username: form.username.clone(),
        email: form.email.clone(),
        password: hashed,
        failed_login_attempts: 0,
    };
    match dir.insert(record) {
        Ok(_assigned) => {
            proof {
                assert(dir@ =~= spec_register(
                    old(dir)@,
                    form.username@,
                    form.email@,
                    form.password@,
                    config.salt@,
                ).0);
                if form.password@.len() == 0 || form.password@[0] != '$' {
                    crate::hashing::lemma_hash_differs_from_password(
                        dir@.last().password,
                        form.password@,
                    );
                }
            }
            Ok("Registered".to_owned())
        },
        Err(_) => {
            proof {
                assert(false);
            }
            Err(AuthError::Unavailable)
        },
    }
}

/// Logs a user in: looks the identifier up as username or email, verifies
/// the password, updates the failed-attempt counter before answering (reset
/// on success, one more on failure), and returns a signed session token on
/// success. The counter is never consulted to block an attempt.
pub fn login(
    dir: &mut UserDirectory,
    form: &LoginFormData,
    config: &AuthConfig,
    now: u64,
) -> (r: Result<String, AuthError>)
    requires
        old(dir).wf(),
        now <= u64::MAX - SECONDS_IN_180_DAYS,
    ensures
        final(dir).wf(),
        final(dir)@ == spec_login(
            old(dir)@,
            form.username_or_email@,
            form.password@,
            encode_utf8(config.jwt_secret@),
            now,
        ).0,
        ({
            let outcome = spec_login(
                old(dir)@,
                form.username_or_email@,
                form.password@,
                encode_utf8(config.jwt_secret@),
                now,
            ).1;
            &&& r is Ok <==> outcome is Ok
            &&& r is Ok ==> r->Ok_0@ == outcome->Ok_0
            &&& r is Err ==> r->Err_0 == outcome->Err_0
        }),
{
    let found = dir.find_by_identifier(&form.username_or_email);
    let i = match found {
        Some(i) => i,
        None => {
            return Err(AuthError::InvalidCredentials);
        },
    };
    let user = dir.get(i);
    let id = match &user.id {
        Some(s) => s.clone(),
        None => {
            proof {
                assert(false);
            }
            return Err(AuthError::Unavailable);
        },
    };
    let verified = match verify_password(user.password.as_str(), form.password.as_str()) {
        Ok(true) => true,
        Ok(false) => false,
        Err(_) => false,
    };
    let (new_count, outcome) = login_decision(user, verified, config.jwt_secret.as_str(), now);
    dir.set_failed_attempts(&id, new_count);
    outcome
}

/// The decision a login makes once the directory record and the password
/// verification outcome are at hand: the counter value to store (zero on
/// success, one more on failure) and the response (a signed token on
/// success, `InvalidCredentials` otherwise). `login` runs it against the
/// in-memory directory; a deployment over an outside store can run the
/// same decision after its own lookup and verification, keeping only the
/// lookups and the counter write outside the library.
pub fn login_decision(user: &User, verified: bool, jwt_secret: &str, now: u64) -> (r: (
    u64,
    Result<String, AuthError>,
))
    requires
        user@.id is Some,
        now <= u64::MAX - SECONDS_IN_180_DAYS,
    ensures
        r.0 == (if verified {
            0u64
        } else {
            inc_attempts(user@.failed_login_attempts)
        }),
        verified ==> r.1 is Ok && r.1->Ok_0@ == token_of(
            spec_claims(user@.username, user@.id->0, now),
            encode_utf8(jwt_secret@),
        ),
        !verified ==> r.1 == Err::<String, AuthError>(AuthError::InvalidCredentials),
{
    let new_count = if verified {
        0
    } else if user.failed_login_attempts < u64::MAX {
        user.failed_login_attempts + 1
    } else {
        user.failed_login_attempts
    };
    let outcome = if verified {
        match generate_jwt(user, jwt_secret, now) {
            Ok(t) => Ok(t),
            Err(_) => {
                proof {
                    assert(false);
                }
                Err(AuthError::Unavailable)
            },
        }
    } else {
        Err(AuthError::InvalidCredentials)
    };
    (new_count, outcome)
}

/// A well-formed directory resolves an identifier matching its newest
/// record to that record: no earlier record can share its username or
/// email, and no username ever reads as an email.
proof fn lemma_identifier_finds_last(dir: Seq<UserV>, ident: Seq<char>)
    requires
        dir_wf(dir),
        dir.len() >= 1,
        matches_identifier(dir.last(), ident),
    ensures
        find_identifier(dir, ident) == Some(dir.len() - 1),
{
    let n = dir.len() - 1;
    assert forall|j: int| 0 <= j < n implies !matches_identifier(#[trigger] dir[j], ident) by {
        assert(valid_username(dir[j].username));
        assert(valid_email(dir[j].email));
        assert(valid_username(dir[n].username));
        assert(valid_email(dir[n].email));
        if dir[j].username == ident {
            if dir.last().username == ident {
                assert(dir[j].username != dir[n].username);
            } else {
                lemma_username_is_no_email(dir[j].username);
                assert(valid_email(dir[n].email));
            }
        }
        if dir[j].email == ident {
            if dir.last().email == ident {
                assert(dir[j].email != dir[n].email);
            } else {
                lemma_username_is_no_email(dir[n].username);
            }
        }
    }
    lemma_find_identifier_skip(dir, ident, n);
    assert(find_identifier_from(dir, ident, n) == Some(n));
}

/// Registration followed immediately by login succeeds: a successful
/// registration leaves the directory exactly in the state these premises
/// describe for its newest record (see the postconditions of
/// `register_user`), and from that state a login with the same password,
/// under either the new username or the new email, returns the token naming
/// the stored username and resets the failed-attempt counter.
pub proof fn lemma_register_then_login_succeeds(
    dir: Seq<UserV>,
    ident: Seq<char>,
    password: Seq<char>,
    key: Seq<u8>,
    now: u64,
)
    requires
        dir_wf(dir),
        dir.len() >= 1,
        matches_identifier(dir.last(), ident),
        argon2i_verify_of(dir.last().password, encode_utf8(password)) == Some(true),
    ensures
        spec_login(dir, ident, password, key, now).1 == Ok::<Seq<char>, AuthError>(
            token_of(spec_claims(dir.last().username, dir.last().id->0, now), key),
        ),
        spec_login(dir, ident, password, key, now).0 == set_attempts(
            dir,
            dir.last().id->0,
            0,
        ),
{
    lemma_identifier_finds_last(dir, ident);
    assert(dir[dir.len() - 1] == dir.last());
}

/// Registering an email the directory already holds stores no second
/// record and yields an error outcome; uniqueness is the storage layer's
/// guarantee, not the pre-check's.
pub proof fn lemma_duplicate_email_rejected(
    dir: Seq<UserV>,
    username: Seq<char>,
    email: Seq<char>,
    password: Seq<char>,
    salt: Seq<char>,
)
    requires
        has_email(dir, email),
    ensures
        spec_register(dir, username, email, password, salt).0 == dir,
        spec_register(dir, username, email, password, salt).1 is Err,
{
}

/// Registering a username the directory already holds stores no second
/// record and yields an error outcome.
pub proof fn lemma_duplicate_username_rejected(
    dir: Seq<UserV>,
    username: Seq<char>,
    email: Seq<char>,
    password: Seq<char>,
    salt: Seq<char>,
)
    requires
        has_username(dir, username),
    ensures
        spec_register(dir, username, email, password, salt).0 == dir,
        spec_register(dir, username, email, password, salt).1 is Err,
{
}

/// A failed login against an existing account is rejected, raises that
/// account's failed-attempt counter by exactly one from its prior value,
/// and touches no other record. (At the machine maximum the counter stays
/// put instead of wrapping.)
pub proof fn lemma_failed_login_counts(
    dir: Seq<UserV>,
    ident: Seq<char>,
    password: Seq<char>,
    key: Seq<u8>,
    now: u64,
    i: int,
)
    requires
        dir_wf(dir),
        find_identifier(dir, ident) == Some(i),
        argon2i_verify_of(dir[i].password, encode_utf8(password)) != Some(true),
        dir[i].failed_login_attempts < u64::MAX,
    ensures
        spec_login(dir, ident, password, key, now).1 == Err::<Seq<char>, AuthError>(
            AuthError::InvalidCredentials,
        ),
        spec_login(dir, ident, password, key, now).0.len() == dir.len(),
        spec_login(dir, ident, password, key, now).0[i].failed_login_attempts == dir[
            i
        ].failed_login_attempts + 1,
        forall|j: int|
            0 <= j < dir.len() && j != i ==> spec_login(dir, ident, password, key, now).0[j]
                == dir[j],
{
    lemma_find_identifier_in_range(dir, ident, i);
    let after = spec_login(dir, ident, password, key, now).0;
    assert(after == set_attempts(dir, dir[i].id->0, inc_attempts(dir[i].failed_login_attempts)));
    assert(dir[i].id == Some(dec_chars(i as nat)));
    assert(after[i].failed_login_attempts == dir[i].failed_login_attempts + 1);
    assert forall|j: int| 0 <= j < dir.len() && j != i implies spec_login(
        dir,
        ident,
        password,
        key,
        now,
    ).0[j] == dir[j] by {
        if dir[j].id == dir[i].id {
            lemma_dir_ids_unique(dir, i, j);
        }
        assert(after[j] == dir[j]);
    }
}

/// A login with a correct password is never rejected, however large the
/// failed-attempt counter already is: the counter is recorded, not
/// enforced, and success resets it to zero.
pub proof fn lemma_no_lockout(
    dir: Seq<UserV>,
    ident: Seq<char>,
    password: Seq<char>,
    key: Seq<u8>,
    now: u64,
    i: int,
)
    requires
        dir_wf(dir),
        find_identifier(dir, ident) == Some(i),
        argon2i_verify_of(dir[i].password, encode_utf8(password)) == Some(true),
    ensures
        spec_login(dir, ident, password, key, now).1 is Ok,
        spec_login(dir, ident, password, key, now).0[i].failed_login_attempts == 0,
{
    lemma_find_identifier_in_range(dir, ident, i);
    let after = spec_login(dir, ident, password, key, now).0;
    assert(after == set_attempts(dir, dir[i].id->0, 0));
    assert(after[i].failed_login_attempts == 0);
}

} // verus!
