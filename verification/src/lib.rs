//! Credential authentication core: registration input validation, password
//! hashing and verification, the login decision procedure with failed-attempt
//! bookkeeping, and session-token issuance.

pub mod base64url;
pub mod directory;
pub mod errors;
pub mod hashing;
pub mod numeral;
pub mod service;
pub mod token;
pub mod validation;
