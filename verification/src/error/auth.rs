use vstd::prelude::*;

verus! {

/// Failures of the authentication layer: the login exchange and the session
/// token codec.
#[derive(Clone, Copy, Debug, PartialEq, Eq, Structural)]
pub enum AuthError {
    /// The identity provider rejected the credential, the exchange could not
    /// be completed, or a bearer header was malformed.
    WrongCredentials,
    /// No credential was supplied at all.
    MissingCredentials,
    /// The token could not be signed.
    TokenCreation,
    /// The token's signature did not verify or its structure was malformed.
    InvalidToken,
    /// The token was well formed and correctly signed, but its expiry time has
    /// passed.
    Expired,
}

impl AuthError {
    /// The user-facing description of the failure.
    pub fn message(&self) -> (r: String)
        ensures
            *self is WrongCredentials ==> r@ == "Wrong credentials"@,
            *self is MissingCredentials ==> r@ == "Missing credentials"@,
            *self is TokenCreation ==> r@ == "Token creation error"@,
            *self is InvalidToken ==> r@ == "Invalid token"@,
            *self is Expired ==> r@ == "Token expired"@,
    {
        match self {
            AuthError::WrongCredentials => "Wrong credentials".to_owned(),
            AuthError::MissingCredentials => "Missing credentials".to_owned(),
            AuthError::TokenCreation => "Token creation error".to_owned(),
            AuthError::InvalidToken => "Invalid token".to_owned(),
            AuthError::Expired => "Token expired".to_owned(),
        }
    }
}

} // verus!
