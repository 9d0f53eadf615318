pub mod member;
pub mod record;
pub mod user;

use vstd::prelude::*;

use crate::config::{valid_time, Config};
use crate::db::user::{NewUser, Users};
use crate::db::{lemma_user_idx_is, user_idx, Store};
use crate::error::api::ApiError;
use crate::error::auth::AuthError;
use crate::model::auth::{AuthBody, WxUser};
use crate::util::jwt::{issue, token_of};

verus! {

/// The endpoints this module serves, for the gateway to mount.
pub fn routes() -> (r: Vec<String>)
    ensures
        r@.len() == 1,
        r@[0]@ == "POST /login"@,
{
    let mut v: Vec<String> = Vec::new();
    v.push("POST /login".to_owned());
    v
}

/// The pre-network check of the identity exchange: an empty one-time code is
/// refused as `MissingCredentials` before any call leaves the process.
pub fn validate_login_code(code: &str) -> (r: Result<(), AuthError>)
    ensures
        r is Ok <==> code@.len() > 0,
        r matches Err(e) ==> e is MissingCredentials,
{
    if code.is_empty() {
        Err(AuthError::MissingCredentials)
    } else {
        Ok(())
    }
}

/// Some user row carries this external identity.
pub open spec fn has_user_openid(s: Store, openid: Seq<char>) -> bool {
    exists|i: int| 0 <= i < s.users@.len() && (#[trigger] s.users@[i]).openid@ == openid
}

/// The first user row carrying this external identity: the row the login
/// upsert refreshes.
pub open spec fn first_openid_idx(s: Store, openid: Seq<char>) -> int {
    choose|i: int|
        0 <= i < s.users@.len() && (#[trigger] s.users@[i]).openid@ == openid && forall|k: int|
            0 <= k < i ==> (#[trigger] s.users@[k]).openid@ != openid
}

/// Any index that matches and has no earlier match is the one
/// `first_openid_idx` names.
proof fn lemma_first_openid_is(s: Store, openid: Seq<char>, i: int)
    requires
        0 <= i < s.users@.len(),
        s.users@[i].openid@ == openid,
        forall|k: int| 0 <= k < i ==> (#[trigger] s.users@[k]).openid@ != openid,
    ensures
        first_openid_idx(s, openid) == i,
{
    let j = first_openid_idx(s, openid);
    assert(0 <= j < s.users@.len() && s.users@[j].openid@ == openid && forall|k: int|
        0 <= k < j ==> (#[trigger] s.users@[k]).openid@ != openid);
    if i < j {
        assert(s.users@[i].openid@ != openid);
    } else if j < i {
        assert(s.users@[j].openid@ != openid);
    }
}

/// What the login answer owes once the user row is settled: a bearer body
/// carrying a token signed for `uid` and expiring `cfg.jwt_expire` seconds
/// after `now`. Signing cannot fail, so success is owed outright.
pub open spec fn login_success(r: Result<AuthBody, ApiError>, uid: u64, cfg: Config, now: i64) -> bool {
    match r {
        Result::Ok(body) => body.token_type@ == "Bearer"@ && body.expires_in == now
            + cfg.jwt_expire && body.access_token@ == token_of(
            uid,
            (now + cfg.jwt_expire) as i64,
            cfg.jwt_secret@,
        ),
        Result::Err(_) => false,
    }
}

/// The login flow, after the gateway has performed the identity exchange:
/// classify the exchange outcome (`None` stands for a transport failure or an
/// unparseable answer, both indistinguishable from a bad code on purpose),
/// upsert the user row keyed by the external identity, and issue a session
/// token for that user.
pub fn login(s: &mut Store, cfg: &Config, exchange: Option<WxUser>, now: i64) -> (r: Result<
    AuthBody,
    ApiError,
>)
    requires
        old(s).wf(),
        cfg.wf(),
        valid_time(now),
    ensures
        final(s).wf(),
        final(s).members@ == old(s).members@,
        final(s).links@ == old(s).links@,
        final(s).records@ == old(s).records@,
        exchange is None ==> (r matches Err(e) && e matches ApiError::Auth(a)
            && a is WrongCredentials) && *final(s) == *old(s),
        exchange matches Some(w) ==> (w.openid@.len() == 0 ==> (r matches Err(e)
            && e matches ApiError::Auth(a) && a is WrongCredentials) && *final(s) == *old(s)),
        exchange matches Some(w) ==> (w.openid@.len() > 0 && !has_user_openid(
            *old(s),
            w.openid@,
        ) && old(s).next_id == u64::MAX ==> (r matches Err(e) && e is Internal) && *final(s)
            == *old(s)),
        exchange matches Some(w) ==> (w.openid@.len() > 0 && !has_user_openid(
            *old(s),
            w.openid@,
        ) && old(s).next_id < u64::MAX ==> final(s).users@.len() == old(s).users@.len() + 1
            && final(s).users@.subrange(0, old(s).users@.len() as int) == old(s).users@
            && final(s).users@.last().openid == w.openid && final(s).users@.last().session_key
            == w.session_key && final(s).users@.last().id == old(s).next_id
            && final(s).users@.last().created_at == now && final(s).users@.last().updated_at == now
            && final(s).next_id == old(s).next_id + 1 && login_success(
            r,
            old(s).next_id,
            *cfg,
            now,
        )),
        exchange matches Some(w) ==> (w.openid@.len() > 0 && has_user_openid(*old(s), w.openid@)
            ==> final(s).users@ == old(s).users@.update(
            first_openid_idx(*old(s), w.openid@),
            (Users {
                id: old(s).users@[first_openid_idx(*old(s), w.openid@)].id,
                openid: w.openid,
                session_key: w.session_key,
                created_at: old(s).users@[first_openid_idx(*old(s), w.openid@)].created_at,
                updated_at: now,
            }),
        ) && final(s).next_id == old(s).next_id && login_success(
            r,
            old(s).users@[first_openid_idx(*old(s), w.openid@)].id,
            *cfg,
            now,
        )),
{
    let w = match exchange {
        Option::None => {
            return Err(ApiError::Auth(AuthError::WrongCredentials));
        },
        Option::Some(w) => w,
    };
    if w.openid.as_str().is_empty() {
        return Err(ApiError::Auth(AuthError::WrongCredentials));
    }
    // find the first user row with this external identity
    let n = s.users.len();
    let mut i: usize = 0;
    let mut found: Option<usize> = None;
    while i < n && found.is_none()
        invariant
            i <= n,
            n == s.users@.len(),
            *s == *old(s),
            found is None ==> forall|k: int| 0 <= k < i ==> (#[trigger] s.users@[k]).openid@
                != w.openid@,
            found matches Some(f) ==> 0 <= f < n && s.users@[f as int].openid@ == w.openid@ && (
            forall|k: int| 0 <= k < f ==> (#[trigger] s.users@[k]).openid@ != w.openid@),
        decreases n - i + if found is None {
            1int
        } else {
            0int
        },
    {
        if s.users[i].openid.eq(&w.openid) {
            found = Some(i);
        } else {
            i += 1;
        }
    }
    let uid: u64 = match found {
        Some(f) => {
            proof {
                lemma_first_openid_is(*s, w.openid@, f as int);
                lemma_user_idx_is(*s, s.users@[f as int].id, f as int);
            }
            let target = s.users[f].id;
            let refreshed = NewUser { openid: w.openid, session_key: w.session_key };
            match Users::update(s, target, refreshed, now) {
                Ok(u) => u.id,
                Err(_) => {
                    proof {
                        assert(false);
                    }
                    return Err(ApiError::NotFound);
                },
            }
        },
        None => {
            proof {
                assert(!has_user_openid(*s, w.openid@));
            }
            let fresh = NewUser { openid: w.openid, session_key: w.session_key };
            match Users::insert(s, fresh, now) {
                Ok(u) => u.id,
                Err(e) => {
                    return Err(e);
                },
            }
        },
    };
    let (token, exp) = issue(uid, cfg, now);
    Ok(AuthBody::new(token, exp))
}

} // verus!
