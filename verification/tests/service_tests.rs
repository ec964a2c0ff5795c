use auth_core::directory::UserDirectory;
use auth_core::errors::AuthError;
use auth_core::service::{login, register_user, AuthConfig, LoginFormData, RegistrationFormData};
use auth_core::token::SECONDS_IN_180_DAYS;

const NOW: u64 = 4_000_000_000;

fn config() -> AuthConfig {
    AuthConfig {
        salt: "saltysalt".to_string(),
        jwt_secret: "sosecret".to_string(),
    }
}

fn alice_form() -> RegistrationFormData {
    RegistrationFormData {
        username: "alice".to_string(),
        email: "alice@x.com".to_string(),
        password: "password123".to_string(),
    }
}

fn login_form(ident: &str, password: &str) -> LoginFormData {
    LoginFormData {
        username_or_email: ident.to_string(),
        password: password.to_string(),
    }
}

fn decoded_claims(token: &str) -> serde_json::Value {
    let key = jsonwebtoken::DecodingKey::from_secret(b"sosecret");
    let validation = jsonwebtoken::Validation::new(jsonwebtoken::Algorithm::HS256);
    jsonwebtoken::decode::<serde_json::Value>(token, &key, &validation)
        .unwrap()
        .claims
}

#[test]
fn register_then_login_succeeds() {
    let mut dir = UserDirectory::new();
    let cfg = config();
    let r = register_user(&mut dir, &alice_form(), &cfg);
    assert_eq!(r.unwrap(), "Registered");
    assert_eq!(dir.len(), 1);
    let stored = dir.get(0);
    assert_eq!(stored.username.as_str(), "alice");
    assert_eq!(stored.email.as_str(), "alice@x.com");
    assert!(!stored.is_admin);
    assert_eq!(stored.failed_login_attempts, 0);
    // The stored value is a hash, never the submitted password, and it
    // spells the fixed parameters first.
    assert_ne!(stored.password.as_str(), "password123");
    assert!(stored
        .password
        .as_str()
        .starts_with("$argon2i$v=19$m=65536,t=10,p=4$"));
    let token = login(&mut dir, &login_form("alice", "password123"), &cfg, NOW).unwrap();
    let claims = decoded_claims(&token);
    assert_eq!(claims["sub"], "alice");
}

#[test]
fn login_by_email_keeps_username_as_subject() {
    let mut dir = UserDirectory::new();
    let cfg = config();
    register_user(&mut dir, &alice_form(), &cfg).unwrap();
    let token = login(&mut dir, &login_form("alice@x.com", "password123"), &cfg, NOW).unwrap();
    let claims = decoded_claims(&token);
    assert_eq!(claims["sub"], "alice");
    assert_eq!(claims["iss"], "AnkiCC");
    assert_eq!(claims["iat"].as_u64().unwrap(), NOW);
    assert_eq!(claims["exp"].as_u64().unwrap(), NOW + SECONDS_IN_180_DAYS);
    assert_eq!(claims["exp"].as_u64().unwrap() - claims["iat"].as_u64().unwrap(), 180 * 86400);
}

#[test]
fn wrong_password_increments_counter() {
    let mut dir = UserDirectory::new();
    let cfg = config();
    register_user(&mut dir, &alice_form(), &cfg).unwrap();
    let r = login(&mut dir, &login_form("alice@x.com", "wrongpass"), &cfg, NOW);
    assert_eq!(r.unwrap_err(), AuthError::InvalidCredentials);
    assert_eq!(dir.get(0).failed_login_attempts, 1);
}

#[test]
fn successful_login_resets_counter() {
    let mut dir = UserDirectory::new();
    let cfg = config();
    register_user(&mut dir, &alice_form(), &cfg).unwrap();
    let id = dir.get(0).id.clone().unwrap();
    assert!(dir.set_failed_attempts(&id, 5));
    let r = login(&mut dir, &login_form("alice", "password123"), &cfg, NOW);
    assert!(r.is_ok());
    assert_eq!(dir.get(0).failed_login_attempts, 0);
}

#[test]
fn duplicate_email_conflicts() {
    let mut dir = UserDirectory::new();
    let cfg = config();
    register_user(&mut dir, &alice_form(), &cfg).unwrap();
    let second = RegistrationFormData {
        username: "alice2".to_string(),
        email: "alice@x.com".to_string(),
        password: "password456".to_string(),
    };
    assert_eq!(
        register_user(&mut dir, &second, &cfg).unwrap_err(),
        AuthError::Conflict
    );
    assert_eq!(dir.len(), 1);
}

#[test]
fn duplicate_username_conflicts() {
    let mut dir = UserDirectory::new();
    let cfg = config();
    register_user(&mut dir, &alice_form(), &cfg).unwrap();
    let second = RegistrationFormData {
        username: "alice".to_string(),
        email: "bob@x.com".to_string(),
        password: "password123".to_string(),
    };
    assert_eq!(
        register_user(&mut dir, &second, &cfg).unwrap_err(),
        AuthError::Conflict
    );
    assert_eq!(dir.len(), 1);
}

#[test]
fn no_lockout_at_any_counter() {
    let mut dir = UserDirectory::new();
    let cfg = config();
    register_user(&mut dir, &alice_form(), &cfg).unwrap();
    let id = dir.get(0).id.clone().unwrap();
    assert!(dir.set_failed_attempts(&id, u64::MAX));
    assert_eq!(dir.get(0).failed_login_attempts, u64::MAX);
    let r = login(&mut dir, &login_form("alice", "password123"), &cfg, NOW);
    assert!(r.is_ok());
    assert_eq!(dir.get(0).failed_login_attempts, 0);
}

#[test]
fn login_decision_counts_and_rejects() {
    let user = auth_core::directory::User {
        id: Some("4".to_string()),
        is_admin: false,
        username: "dora".to_string(),
        email: "dora@x.com".to_string(),
        password: "irrelevant".to_string(),
        failed_login_attempts: 6,
    };
    let (count, outcome) = auth_core::service::login_decision(&user, false, "sosecret", NOW);
    assert_eq!(count, 7);
    assert_eq!(outcome.unwrap_err(), AuthError::InvalidCredentials);
    let (count2, outcome2) = auth_core::service::login_decision(&user, true, "sosecret", NOW);
    assert_eq!(count2, 0);
    let claims = decoded_claims(&outcome2.unwrap());
    assert_eq!(claims["sub"], "dora");
    assert_eq!(claims["id"], "4");
}

#[test]
fn unknown_identifier_rejected() {
    let mut dir = UserDirectory::new();
    let cfg = config();
    let r = login(&mut dir, &login_form("nobody", "password123"), &cfg, NOW);
    assert_eq!(r.unwrap_err(), AuthError::InvalidCredentials);
}

#[test]
fn invalid_registration_inputs_rejected() {
    let mut dir = UserDirectory::new();
    let cfg = config();
    let cases = vec![
        ("al", "alice@x.com", "password123"),
        ("alice", "not-an-email", "password123"),
        ("alice", "alice@x.com", "short"),
        ("al ice", "alice@x.com", "password123"),
    ];
    for (u, e, p) in cases {
        let form = RegistrationFormData {
            username: u.to_string(),
            email: e.to_string(),
            password: p.to_string(),
        };
        assert_eq!(
            register_user(&mut dir, &form, &cfg).unwrap_err(),
            AuthError::BadInput
        );
    }
    assert_eq!(dir.len(), 0);
}

#[test]
fn short_salt_is_unavailable() {
    let mut dir = UserDirectory::new();
    let cfg = AuthConfig {
        salt: "abc".to_string(),
        jwt_secret: "sosecret".to_string(),
    };
    assert_eq!(
        register_user(&mut dir, &alice_form(), &cfg).unwrap_err(),
        AuthError::Unavailable
    );
    assert_eq!(dir.len(), 0);
}

#[test]
fn malformed_stored_hash_is_invalid_credentials() {
    let mut dir = UserDirectory::new();
    let cfg = config();
    let broken = auth_core::directory::User {
        id: None,
        is_admin: false,
        username: "carol".to_string(),
        email: "carol@x.com".to_string(),
        password: "not-an-encoded-hash".to_string(),
        failed_login_attempts: 0,
    };
    dir.insert(broken).unwrap();
    let r = login(&mut dir, &login_form("carol", "whatever123"), &cfg, NOW);
    assert_eq!(r.unwrap_err(), AuthError::InvalidCredentials);
    assert_eq!(dir.get(0).failed_login_attempts, 1);
}
