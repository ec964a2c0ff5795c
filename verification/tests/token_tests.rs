use auth_core::base64url::b64url_encode;
use auth_core::directory::User;
use auth_core::errors::AuthError;
use auth_core::token::{generate_jwt, Claims, SECONDS_IN_180_DAYS};
use base64::Engine;

#[test]
fn base64url_matches_reference() {
    let cases: Vec<Vec<u8>> = vec![
        b"".to_vec(),
        b"f".to_vec(),
        b"fo".to_vec(),
        b"foo".to_vec(),
        b"foob".to_vec(),
        b"fooba".to_vec(),
        b"foobar".to_vec(),
        (0u8..=255).collect(),
    ];
    for input in cases {
        let ours = String::from_utf8(b64url_encode(&input)).unwrap();
        let reference = base64::engine::general_purpose::URL_SAFE_NO_PAD.encode(&input);
        assert_eq!(ours, reference);
    }
}

#[test]
fn claims_json_is_exact() {
    let c = Claims::new("alice".to_string(), "7".to_string(), 100);
    assert_eq!(
        c.to_json(),
        "{\"sub\":\"alice\",\"iss\":\"AnkiCC\",\"iat\":100,\"exp\":15552100,\"id\":\"7\"}"
    );
    assert_eq!(c.sub().as_str(), "alice");
    assert_eq!(c.iat(), 100);
    assert_eq!(c.exp(), 100 + SECONDS_IN_180_DAYS);
}

#[test]
fn generated_token_decodes_with_reference_library() {
    let user = User {
        id: Some("3".to_string()),
        is_admin: false,
        username: "bob".to_string(),
        email: "bob@x.com".to_string(),
        password: "irrelevant".to_string(),
        failed_login_attempts: 0,
    };
    let now: u64 = 4_000_000_000;
    let token = generate_jwt(&user, "sosecret", now).unwrap();
    let key = jsonwebtoken::DecodingKey::from_secret(b"sosecret");
    let validation = jsonwebtoken::Validation::new(jsonwebtoken::Algorithm::HS256);
    let data = jsonwebtoken::decode::<serde_json::Value>(&token, &key, &validation).unwrap();
    assert_eq!(data.claims["sub"], "bob");
    assert_eq!(data.claims["iss"], "AnkiCC");
    assert_eq!(data.claims["id"], "3");
    assert_eq!(data.claims["iat"].as_u64().unwrap(), now);
    assert_eq!(
        data.claims["exp"].as_u64().unwrap(),
        now + SECONDS_IN_180_DAYS
    );
}

#[test]
fn wrong_secret_fails_decode() {
    let user = User {
        id: Some("0".to_string()),
        is_admin: false,
        username: "bob".to_string(),
        email: "bob@x.com".to_string(),
        password: "irrelevant".to_string(),
        failed_login_attempts: 0,
    };
    let token = generate_jwt(&user, "sosecret", 4_000_000_000).unwrap();
    let key = jsonwebtoken::DecodingKey::from_secret(b"othersecret");
    let validation = jsonwebtoken::Validation::new(jsonwebtoken::Algorithm::HS256);
    assert!(jsonwebtoken::decode::<serde_json::Value>(&token, &key, &validation).is_err());
}

#[test]
fn status_codes() {
    assert_eq!(AuthError::BadInput.status_code(), 400);
    assert_eq!(AuthError::Conflict.status_code(), 400);
    assert_eq!(AuthError::InvalidCredentials.status_code(), 400);
    assert_eq!(AuthError::Unavailable.status_code(), 500);
}
