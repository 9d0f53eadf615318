use vstd::prelude::*;

use crate::error::auth::AuthError;

verus! {

/// The typed failures every core operation may return. The gateway alone maps
/// them to transport status codes; the core never encodes those.
#[derive(Debug)]
pub enum ApiError {
    /// An id with no matching row.
    NotFound,
    /// An authentication failure, carried through unchanged.
    Auth(AuthError),
    /// An ownership check failed or an identifier was malformed; carries the
    /// user-facing message.
    BadRequest(String),
    /// The membership quota was reached.
    QuotaExceeded,
    /// A store or codec failure not otherwise classified.
    Internal(String),
}

impl From<AuthError> for ApiError {
    fn from(err: AuthError) -> (r: ApiError) {
        ApiError::Auth(err)
    }
}

impl vstd::std_specs::convert::FromSpecImpl<AuthError> for ApiError {
    open spec fn obeys_from_spec() -> bool {
        true
    }

    open spec fn from_spec(err: AuthError) -> ApiError {
        ApiError::Auth(err)
    }
}

} // verus!
