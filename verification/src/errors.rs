//! The error taxonomy of the authentication service.

use vstd::prelude::*;

verus! {

/// Why a registration or login request was rejected.
///
/// `BadInput` is malformed registration input; `Conflict` a duplicate
/// username or email at registration; `InvalidCredentials` a login whose
/// identifier matched no account or whose password failed verification
/// (a malformed stored hash counts as a failed verification); `Unavailable`
/// an infrastructure operation that itself failed rather than returning a
/// negative answer.
#[derive(Clone, Copy, Debug, PartialEq, Eq, Structural)]
pub enum AuthError {
    BadInput,
    Conflict,
    InvalidCredentials,
    Unavailable,
}

impl AuthError {
    /// The HTTP status the service answers with: every client
    /// fault maps to one generic client error, every infrastructure fault to
    /// one generic server error, with no detail leaked.
    pub fn status_code(&self) -> (code: u16)
        ensures
            code == (if self is Unavailable {
                500u16
            } else {
                400u16
            }),
    {
        match self {
            AuthError::BadInput => 400,
            AuthError::Conflict => 400,
            AuthError::InvalidCredentials => 400,
            AuthError::Unavailable => 500,
        }
    }
}

} // verus!
