use vstd::prelude::*;

verus! {

/// The login response: the signed credential, its scheme, and the absolute
/// expiry time the token carries.
#[derive(Debug)]
pub struct AuthBody {
    pub access_token: String,
    pub token_type: String,
    pub expires_in: i64,
}

impl AuthBody {
    /// Wraps a freshly issued token as a bearer credential.
    pub fn new(access_token: String, expires_in: i64) -> (r: AuthBody)
        ensures
            r.access_token == access_token,
            r.token_type@ == "Bearer"@,
            r.expires_in == expires_in,
    {
        AuthBody { access_token, token_type: "Bearer".to_owned(), expires_in }
    }
}

/// What the identity provider reports for a one-time code: the stable
/// external identity and an opaque session secret.
#[derive(Debug)]
pub struct WxUser {
    pub openid: String,
    pub session_key: String,
}

} // verus!
