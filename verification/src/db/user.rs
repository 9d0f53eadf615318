use vstd::prelude::*;

use crate::db::{
    find_user_index, has_member, has_user, lemma_user_idx_is, member_idx, user_has_links, user_idx,
    Store,
};
use crate::error::api::ApiError;

verus! {

/// An authenticated account, keyed by the external identity (`openid`) the
/// identity provider reports. `session_key` is the opaque session secret the
/// provider returned last.
#[derive(Debug)]
pub struct Users {
    pub id: u64,
    pub openid: String,
    pub session_key: String,
    pub created_at: i64,
    pub updated_at: i64,
}

impl Clone for Users {
    fn clone(&self) -> (r: Users)
        ensures
            r == *self,
    {
        Users {
            id: self.id,
            openid: self.openid.clone(),
            session_key: self.session_key.clone(),
            created_at: self.created_at,
            updated_at: self.updated_at,
        }
    }
}

/// An optional filter over the user table.
#[derive(Debug)]
pub struct UserQuery {
    pub openid: Option<String>,
    pub session_key: Option<String>,
}

/// The caller-supplied fields of a user insert or update.
#[derive(Debug)]
pub struct NewUser {
    pub openid: String,
    pub session_key: String,
}

/// A user row passes the optional filter: exact match on either field.
pub open spec fn user_matches(u: Users, q: Option<UserQuery>) -> bool {
    match q {
        Option::None => true,
        Option::Some(qq) => (match qq.openid {
            Option::Some(o) => u.openid@ == o@,
            Option::None => true,
        }) && (match qq.session_key {
            Option::Some(k) => u.session_key@ == k@,
            Option::None => true,
        }),
    }
}

/// The filter predicate `Users::select` applies.
pub open spec fn matches_user_query(q: Option<UserQuery>) -> spec_fn(Users) -> bool {
    |u: Users| user_matches(u, q)
}

impl Users {
    /// Single-row lookup of a user by id.
    pub fn detail(s: &Store, id: u64) -> (r: Result<Users, ApiError>)
        requires
            s.wf(),
        ensures
            r is Ok <==> has_user(*s, id),
            r matches Ok(u) ==> u == s.users@[user_idx(*s, id)] && u.id == id,
            r matches Err(e) ==> e is NotFound,
    {
        match find_user_index(s, id) {
            Some(i) => {
                proof {
                    lemma_user_idx_is(*s, id, i as int);
                }
                Ok(s.users[i].clone())
            },
            None => Err(ApiError::NotFound),
        }
    }

    /// Filtered listing of the user table, in table order: exact match on
    /// `openid` and `session_key`, no filter when absent.
    pub fn select(s: &Store, query: Option<UserQuery>) -> (r: Result<Vec<Users>, ApiError>)
        ensures
            r matches Ok(v) && v@ == s.users@.filter(matches_user_query(query)),
    {
        let n = s.users.len();
        let mut out: Vec<Users> = Vec::new();
        let mut i: usize = 0;
        proof {
            assert(s.users@.take(0).filter(matches_user_query(query)) =~= out@);
        }
        while i < n
            invariant
                i <= n,
                n == s.users@.len(),
                out@ == s.users@.take(i as int).filter(matches_user_query(query)),
            decreases n - i,
        {
            let u = &s.users[i];
            let keep = match &query {
                Option::None => true,
                Option::Some(q) => {
                    let openid_ok = match &q.openid {
                        Option::Some(want) => u.openid.eq(want),
                        Option::None => true,
                    };
                    let key_ok = match &q.session_key {
                        Option::Some(want) => u.session_key.eq(want),
                        Option::None => true,
                    };
                    openid_ok && key_ok
                },
            };
            proof {
                assert(s.users@.take(i + 1) =~= s.users@.take(i as int).push(s.users@[i as int]));
                s.users@.take(i as int).lemma_filter_push(
                    s.users@[i as int],
                    matches_user_query(query),
                );
                assert(keep == user_matches(s.users@[i as int], query));
            }
            if keep {
                out.push(u.clone());
            }
            i += 1;
        }
        proof {
            assert(s.users@.take(n as int) =~= s.users@);
        }
        Ok(out)
    }

    /// Inserts a user row; performed on the first successful identity
    /// exchange for a given external identity. An exhausted id allocator is
    /// a store failure, reported as `Internal`.
    pub fn insert(s: &mut Store, new_user: NewUser, now: i64) -> (r: Result<Users, ApiError>)
        requires
            old(s).wf(),
        ensures
            final(s).wf(),
            old(s).next_id == u64::MAX ==> (r matches Err(e) && e is Internal) && *final(s) == *old(
                s,
            ),
            old(s).next_id < u64::MAX ==> (r matches Ok(u) && u.id == old(s).next_id && u.openid
                == new_user.openid && u.session_key == new_user.session_key && u.created_at == now
                && u.updated_at == now && final(s).users@ == old(s).users@.push(u)
                && final(s).members@ == old(s).members@ && final(s).links@ == old(s).links@
                && final(s).records@ == old(s).records@ && final(s).next_id == old(s).next_id + 1),
    {
        if s.next_id == u64::MAX {
            return Err(ApiError::Internal("id allocator exhausted".to_owned()));
        }
        let id = s.next_id;
        let user = Users {
            id,
            openid: new_user.openid,
            session_key: new_user.session_key,
            created_at: now,
            updated_at: now,
        };
        let ret = user.clone();
        s.users.push(user);
        s.next_id = id + 1;
        proof {
            let post = *s;
            let pre = *old(s);
            assert forall|k: int| 0 <= k < post.records@.len() implies has_member(
                post,
                (#[trigger] post.records@[k]).member_id,
            ) by {
                assert(has_member(pre, pre.records@[k].member_id));
                let w = member_idx(pre, pre.records@[k].member_id);
                assert(post.members@[w].id == pre.records@[k].member_id);
            }
            assert forall|k: int| 0 <= k < post.links@.len() implies has_user(
                post,
                (#[trigger] post.links@[k]).user_id,
            ) && has_member(post, post.links@[k].member_id) by {
                assert(has_user(pre, pre.links@[k].user_id));
                let wu = user_idx(pre, pre.links@[k].user_id);
                assert(post.users@[wu].id == pre.links@[k].user_id);
                assert(has_member(pre, pre.links@[k].member_id));
                let w = member_idx(pre, pre.links@[k].member_id);
                assert(post.members@[w].id == pre.links@[k].member_id);
            }
        }
        Ok(ret)
    }

    /// Single-statement update of a user's external identity and session
    /// secret, bumping `updated_at`; performed on every later successful
    /// exchange for the same identity.
    pub fn update(s: &mut Store, id: u64, new_user: NewUser, now: i64) -> (r: Result<
        Users,
        ApiError,
    >)
        requires
            old(s).wf(),
        ensures
            final(s).wf(),
            !has_user(*old(s), id) ==> (r matches Err(e) && e is NotFound) && *final(s) == *old(s),
            has_user(*old(s), id) ==> (r matches Ok(u) && u.id == id && u.openid == new_user.openid
                && u.session_key == new_user.session_key && u.created_at == old(s).users@[user_idx(
                *old(s),
                id,
            )].created_at && u.updated_at == now && final(s).users@ == old(s).users@.update(
                user_idx(*old(s), id),
                u,
            ) && final(s).members@ == old(s).members@ && final(s).links@ == old(s).links@
                && final(s).records@ == old(s).records@ && final(s).next_id == old(s).next_id),
    {
        match find_user_index(s, id) {
            Some(i) => {
                proof {
                    lemma_user_idx_is(*s, id, i as int);
                }
                let created_at = s.users[i].created_at;
                let u = Users {
                    id,
                    openid: new_user.openid,
                    session_key: new_user.session_key,
                    created_at,
                    updated_at: now,
                };
                let ret = u.clone();
                s.users[i] = u;
                proof {
                    let post = *s;
                    let pre = *old(s);
                    assert forall|k: int| 0 <= k < post.records@.len() implies has_member(
                        post,
                        (#[trigger] post.records@[k]).member_id,
                    ) by {
                        assert(has_member(pre, pre.records@[k].member_id));
                        let w = member_idx(pre, pre.records@[k].member_id);
                        assert(post.members@[w].id == pre.records@[k].member_id);
                    }
                    assert forall|k: int| 0 <= k < post.links@.len() implies has_user(
                        post,
                        (#[trigger] post.links@[k]).user_id,
                    ) && has_member(post, post.links@[k].member_id) by {
                        assert(has_user(pre, pre.links@[k].user_id));
                        let wu = user_idx(pre, pre.links@[k].user_id);
                        assert(post.users@[wu].id == pre.links@[k].user_id);
                        assert(has_member(pre, pre.links@[k].member_id));
                        let w = member_idx(pre, pre.links@[k].member_id);
                        assert(post.members@[w].id == pre.links@[k].member_id);
                    }
                }
                Ok(ret)
            },
            None => Err(ApiError::NotFound),
        }
    }

    /// Deletes a user row; deleting an absent id reports zero rows affected.
    /// A user still holding member links cannot be removed — the store would
    /// be left with dangling links — so the delete fails as `Internal`.
    pub fn delete(s: &mut Store, id: u64) -> (r: Result<usize, ApiError>)
        requires
            old(s).wf(),
        ensures
            final(s).wf(),
            user_has_links(old(s).links@, id) ==> (r matches Err(e) && e is Internal) && *final(s)
                == *old(s),
            !user_has_links(old(s).links@, id) ==> (r matches Ok(n) && final(s).users@ == (
            if has_user(*old(s), id) {
                old(s).users@.remove(user_idx(*old(s), id))
            } else {
                old(s).users@
            }) && n == (if has_user(*old(s), id) {
                1int
            } else {
                0int
            }) && final(s).members@ == old(s).members@ && final(s).links@ == old(s).links@
                && final(s).records@ == old(s).records@ && final(s).next_id == old(s).next_id),
    {
        let ln = s.links.len();
        let mut i: usize = 0;
        while i < ln
            invariant
                old(s).wf(),
                i <= ln,
                ln == s.links@.len(),
                *s == *old(s),
                forall|k: int| 0 <= k < i ==> (#[trigger] s.links@[k]).user_id != id,
            decreases ln - i,
        {
            if s.links[i].user_id == id {
                return Err(ApiError::Internal("user still holds member links".to_owned()));
            }
            i += 1;
        }
        match find_user_index(s, id) {
            Some(ui) => {
                proof {
                    lemma_user_idx_is(*s, id, ui as int);
                    s.users@.remove_ensures(ui as int);
                }
                s.users.remove(ui);
                proof {
                    let post = *s;
                    let pre = *old(s);
                    assert forall|a: int, b: int| 0 <= a < b < post.users@.len() implies (
                    #[trigger] post.users@[a]).id != (#[trigger] post.users@[b]).id by {
                        let pa: int = if a >= ui {
                            a + 1
                        } else {
                            a
                        };
                        let pb: int = if b >= ui {
                            b + 1
                        } else {
                            b
                        };
                        assert(post.users@[a] == pre.users@[pa]);
                        assert(post.users@[b] == pre.users@[pb]);
                    }
                    assert forall|k: int| 0 <= k < post.users@.len() implies (
                    #[trigger] post.users@[k]).id < post.next_id by {
                        let p: int = if k >= ui {
                            k + 1
                        } else {
                            k
                        };
                        assert(post.users@[k] == pre.users@[p]);
                    }
                    assert forall|k: int| 0 <= k < post.records@.len() implies has_member(
                        post,
                        (#[trigger] post.records@[k]).member_id,
                    ) by {
                        assert(has_member(pre, pre.records@[k].member_id));
                        let w = member_idx(pre, pre.records@[k].member_id);
                        assert(post.members@[w].id == pre.records@[k].member_id);
                    }
                    assert forall|k: int| 0 <= k < post.links@.len() implies has_user(
                        post,
                        (#[trigger] post.links@[k]).user_id,
                    ) && has_member(post, post.links@[k].member_id) by {
                        assert(pre.links@[k].user_id != id);
                        assert(has_user(pre, pre.links@[k].user_id));
                        let wu = user_idx(pre, pre.links@[k].user_id);
                        assert(wu != ui);
                        let nu: int = if wu > ui {
                            wu - 1
                        } else {
                            wu
                        };
                        assert(post.users@[nu] == pre.users@[wu]);
                        assert(has_member(pre, pre.links@[k].member_id));
                        let w = member_idx(pre, pre.links@[k].member_id);
                        assert(post.members@[w].id == pre.links@[k].member_id);
                    }
                }
                Ok(1)
            },
            None => Ok(0),
        }
    }
}

} // verus!
