use vstd::prelude::*;

use crate::db::user::Users;
use crate::db::{has_user, user_idx, Store};
use crate::error::api::ApiError;

verus! {

/// The endpoints this module serves, for the gateway to mount.
pub fn routes() -> (r: Vec<String>)
    ensures
        r@.len() == 1,
        r@[0]@ == "GET /"@,
{
    let mut v: Vec<String> = Vec::new();
    v.push("GET /".to_owned());
    v
}

/// Looks the caller's own user row up; the id comes from the verified token.
pub fn detail(s: &Store, id: u64) -> (r: Result<Users, ApiError>)
    requires
        s.wf(),
    ensures
        r is Ok <==> has_user(*s, id),
        r matches Ok(u) ==> u == s.users@[user_idx(*s, id)] && u.id == id,
        r matches Err(e) ==> e is NotFound,
{
    Users::detail(s, id)
}

} // verus!
