use auth_core::validation::{check_email, check_password, check_username, validate_credentials};

#[test]
fn username_rules() {
    assert!(check_username("alice"));
    assert!(check_username("a_b3"));
    assert!(check_username("abc"));
    assert!(!check_username("ab"));
    assert!(!check_username(""));
    assert!(!check_username("al ice"));
    assert!(!check_username("alice@x.com"));
    assert!(!check_username("häns"));
}

#[test]
fn email_rules() {
    assert!(check_email("alice@x.com"));
    assert!(check_email("user.name+tag@ex-ample.co.uk"));
    assert!(check_email("a_b-c@d.e-f"));
    assert!(check_email("a@b.c.d"));
    // A single-segment domain is a domain of one segment.
    assert!(check_email("a@b"));
    assert!(check_email("alice@localhost"));
    // Empty segments are not.
    assert!(!check_email("a@b."));
    assert!(!check_email("a@b..c"));
    assert!(!check_email("a@.com"));
    assert!(!check_email("a@"));
    assert!(!check_email("@x.com"));
    assert!(!check_email("a b@x.com"));
    assert!(!check_email("a@@b.c"));
    assert!(!check_email("a@b.c@d"));
    assert!(!check_email("alice"));
    assert!(!check_email(""));
}

#[test]
fn password_rules() {
    assert!(check_password("12345678"));
    assert!(check_password("password123"));
    assert!(!check_password("1234567"));
    assert!(!check_password(""));
    // Length counts bytes, so four two-byte characters pass.
    assert!(check_password("ääää"));
}

#[test]
fn credentials_together() {
    assert!(validate_credentials("alice", "alice@x.com", "password123"));
    assert!(!validate_credentials("al", "alice@x.com", "password123"));
    assert!(!validate_credentials("alice", "alice@x..y", "password123"));
    assert!(!validate_credentials("alice", "alice@x.com", "short"));
}

#[test]
fn decimal_rendering() {
    assert_eq!(auth_core::numeral::u64_to_dec_string(0), "0");
    assert_eq!(auth_core::numeral::u64_to_dec_string(7), "7");
    assert_eq!(auth_core::numeral::u64_to_dec_string(1234567890), "1234567890");
    assert_eq!(
        auth_core::numeral::u64_to_dec_string(u64::MAX),
        "18446744073709551615"
    );
}
