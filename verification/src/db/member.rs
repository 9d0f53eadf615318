use vstd::prelude::*;

use crate::config::Config;
use crate::db::{
    find_link_index, find_member_index, find_user_index, count_user_links, has_link, has_member,
    has_user, lemma_link_idx_is, lemma_member_idx_is, link_count, link_idx, member_idx,
    other_link_to, owned_by, records_not_of, user_idx, Store,
};
use crate::db::record::Records;
use crate::error::api::ApiError;

verus! {

/// The link table row: "user manages member". Existence of this row is the
/// sole authorization fact for all member and record operations.
#[derive(Clone, Copy, Debug)]
pub struct UserMember {
    pub user_id: u64,
    pub member_id: u64,
    pub is_default: bool,
    pub created_at: i64,
    pub updated_at: i64,
}

/// A person whose blood pressure is tracked. `updated_at` is a liveness
/// signal: it is bumped whenever a record of this member is created, modified
/// or deleted.
#[derive(Debug)]
pub struct Members {
    pub id: u64,
    pub name: String,
    pub memo: Option<String>,
    pub created_at: i64,
    pub updated_at: i64,
}

impl Clone for Members {
    fn clone(&self) -> (r: Members)
        ensures
            r == *self,
    {
        Members {
            id: self.id,
            name: self.name.clone(),
            memo: match &self.memo {
                Option::Some(m) => Option::Some(m.clone()),
                Option::None => Option::None,
            },
            created_at: self.created_at,
            updated_at: self.updated_at,
        }
    }
}

impl Members {
    /// The ownership gate. Succeeds exactly when the link row for
    /// `(user_id, member_id)` exists; every other outcome — the member being
    /// unknown or owned by someone else — collapses into one `BadRequest`
    /// answer, so a caller learns nothing about why the pair was refused.
    pub fn check_user(s: &Store, user_id: u64, member_id: u64) -> (r: Result<UserMember, ApiError>)
        requires
            s.wf(),
        ensures
            r is Ok <==> has_link(s.links@, user_id, member_id),
            r matches Ok(l) ==> l == s.links@[link_idx(s.links@, user_id, member_id)]
                && l.user_id == user_id && l.member_id == member_id,
            r matches Err(e) ==> e matches ApiError::BadRequest(m) && m@
                == "member does not belong to this user"@,
    {
        match find_link_index(s, user_id, member_id) {
            Some(i) => {
                let l = s.links[i];
                proof {
                    lemma_link_idx_is(s.links@, user_id, member_id, i as int);
                }
                Ok(l)
            },
            None => Err(
                ApiError::BadRequest("member does not belong to this user".to_owned()),
            ),
        }
    }

    /// Single-row lookup of a member by id.
    pub fn detail(s: &Store, id: u64) -> (r: Result<Members, ApiError>)
        requires
            s.wf(),
        ensures
            r is Ok <==> has_member(*s, id),
            r matches Ok(m) ==> m == s.members@[member_idx(*s, id)] && m.id == id,
            r matches Err(e) ==> e is NotFound,
    {
        match find_member_index(s, id) {
            Some(i) => {
                proof {
                    lemma_member_idx_is(*s, id, i as int);
                }
                Ok(s.members[i].clone())
            },
            None => Err(ApiError::NotFound),
        }
    }

    /// The quota-checked membership insert. Within one transaction: count the
    /// caller's links; refuse with `QuotaExceeded` when the quota is reached,
    /// writing nothing; otherwise insert the member row and the link row
    /// `(user_id, member.id)` together. A missing user (a broken reference
    /// the store would refuse) or an exhausted id allocator rolls the whole
    /// transaction back as `Internal`.
    pub fn insert(s: &mut Store, cfg: &Config, user_id: u64, new_member: NewMember, now: i64) -> (r:
        Result<Members, ApiError>)
        requires
            old(s).wf(),
        ensures
            final(s).wf(),
            link_count(old(s).links@, user_id) >= cfg.member_num ==> (r matches Err(e)
                && e is QuotaExceeded) && *final(s) == *old(s),
            link_count(old(s).links@, user_id) < cfg.member_num && !(has_user(*old(s), user_id)
                && old(s).next_id < u64::MAX) ==> (r matches Err(e) && e is Internal) && *final(s)
                == *old(s),
            link_count(old(s).links@, user_id) < cfg.member_num && has_user(*old(s), user_id)
                && old(s).next_id < u64::MAX ==> (r matches Ok(m) && m.id == old(s).next_id
                && m.name == new_member.name && m.memo == new_member.memo && m.created_at == now
                && m.updated_at == now && final(s).members@ == old(s).members@.push(m)
                && final(s).links@ == old(s).links@.push(
                (UserMember {
                    user_id,
                    member_id: m.id,
                    is_default: false,
                    created_at: now,
                    updated_at: now,
                }),
            ) && final(s).users@ == old(s).users@ && final(s).records@ == old(s).records@
                && final(s).next_id == old(s).next_id + 1),
    {
        let member_num = count_user_links(s, user_id);
        if member_num >= cfg.member_num {
            return Err(ApiError::QuotaExceeded);
        }
        if find_user_index(s, user_id).is_none() {
            return Err(ApiError::Internal("member link references no user".to_owned()));
        }
        if s.next_id == u64::MAX {
            return Err(ApiError::Internal("id allocator exhausted".to_owned()));
        }
        let id = s.next_id;
        let member = Members {
            id,
            name: new_member.name,
            memo: new_member.memo,
            created_at: now,
            updated_at: now,
        };
        let link = UserMember {
            user_id,
            member_id: id,
            is_default: false,
            created_at: now,
            updated_at: now,
        };
        let ret = member.clone();
        s.members.push(member);
        s.links.push(link);
        s.next_id = id + 1;
        proof {
            let post = *s;
            let pre = *old(s);
            assert forall|k: int| 0 <= k < post.records@.len() implies has_member(
                post,
                (#[trigger] post.records@[k]).member_id,
            ) by {
                assert(has_member(pre, pre.records@[k].member_id));
                let w = member_idx(pre, pre.records@[k].member_id);
                assert(post.members@[w].id == pre.records@[k].member_id);
            }
            assert forall|k: int| 0 <= k < post.links@.len() implies has_user(
                post,
                (#[trigger] post.links@[k]).user_id,
            ) && has_member(post, post.links@[k].member_id) by {
                if k < pre.links@.len() {
                    assert(has_user(pre, pre.links@[k].user_id));
                    assert(has_member(pre, pre.links@[k].member_id));
                    let wu = user_idx(pre, pre.links@[k].user_id);
                    assert(post.users@[wu].id == pre.links@[k].user_id);
                    let w = member_idx(pre, pre.links@[k].member_id);
                    assert(post.members@[w].id == pre.links@[k].member_id);
                } else {
                    let w = user_idx(pre, user_id);
                    assert(post.users@[w].id == user_id);
                    assert(post.members@[post.members@.len() - 1].id == id);
                }
            }
            assert forall|a: int, b: int|
                0 <= a < b < post.links@.len() implies !((#[trigger] post.links@[a]).user_id
                == (#[trigger] post.links@[b]).user_id && post.links@[a].member_id
                == post.links@[b].member_id) by {
                if b == post.links@.len() - 1 {
                    assert(has_member(pre, pre.links@[a].member_id));
                    let w = member_idx(pre, pre.links@[a].member_id);
                    assert(pre.members@[w].id < pre.next_id);
                }
            }
        }
        Ok(ret)
    }

    /// Single-statement update of a member's name and memo, bumping
    /// `updated_at`.
    pub fn update(s: &mut Store, member_id: u64, new_member: NewMember, now: i64) -> (r: Result<
        Members,
        ApiError,
    >)
        requires
            old(s).wf(),
        ensures
            final(s).wf(),
            !has_member(*old(s), member_id) ==> (r matches Err(e) && e is NotFound) && *final(s)
                == *old(s),
            has_member(*old(s), member_id) ==> (r matches Ok(m) && m.id == member_id && m.name
                == new_member.name && m.memo == new_member.memo && m.created_at == old(
                s,
            ).members@[member_idx(*old(s), member_id)].created_at && m.updated_at == now
                && final(s).members@ == old(s).members@.update(member_idx(*old(s), member_id), m)
                && final(s).users@ == old(s).users@ && final(s).links@ == old(s).links@
                && final(s).records@ == old(s).records@ && final(s).next_id == old(s).next_id),
    {
        match find_member_index(s, member_id) {
            Some(i) => {
                proof {
                    lemma_member_idx_is(*s, member_id, i as int);
                }
                let created_at = s.members[i].created_at;
                let m = Members {
                    id: member_id,
                    name: new_member.name,
                    memo: new_member.memo,
                    created_at,
                    updated_at: now,
                };
                let ret = m.clone();
                s.members[i] = m;
                proof {
                    let post = *s;
                    let pre = *old(s);
                    assert forall|k: int| 0 <= k < post.records@.len() implies has_member(
                        post,
                        (#[trigger] post.records@[k]).member_id,
                    ) by {
                        assert(has_member(pre, pre.records@[k].member_id));
                        let w = member_idx(pre, pre.records@[k].member_id);
                        assert(post.members@[w].id == pre.records@[k].member_id);
                    }
                    assert forall|k: int| 0 <= k < post.links@.len() implies has_user(
                        post,
                        (#[trigger] post.links@[k]).user_id,
                    ) && has_member(post, post.links@[k].member_id) by {
                        assert(has_user(pre, pre.links@[k].user_id));
                        let wu = user_idx(pre, pre.links@[k].user_id);
                        assert(post.users@[wu].id == pre.links@[k].user_id);
                        assert(has_member(pre, pre.links@[k].member_id));
                        let w = member_idx(pre, pre.links@[k].member_id);
                        assert(post.members@[w].id == pre.links@[k].member_id);
                    }
                }
                Ok(ret)
            },
            None => Err(ApiError::NotFound),
        }
    }

    /// The cascading delete. Within one transaction, in dependency order:
    /// delete every record of the member, delete the `(user_id, member_id)`
    /// link row if present (absence is tolerated), and delete the member row
    /// last; deleting an absent member reports zero rows affected, not an
    /// error. A link held by a different user would leave a dangling
    /// reference, so the store refuses the member delete and the whole
    /// transaction rolls back as `Internal`.
    pub fn delete(s: &mut Store, user_id: u64, member_id: u64) -> (r: Result<usize, ApiError>)
        requires
            old(s).wf(),
        ensures
            final(s).wf(),
            other_link_to(old(s).links@, user_id, member_id) ==> (r matches Err(e)
                && e is Internal) && *final(s) == *old(s),
            !other_link_to(old(s).links@, user_id, member_id) ==> (r matches Ok(n)
                && final(s).records@ == old(s).records@.filter(records_not_of(member_id))
                && final(s).links@ == (if has_link(old(s).links@, user_id, member_id) {
                old(s).links@.remove(link_idx(old(s).links@, user_id, member_id))
            } else {
                old(s).links@
            }) && final(s).members@ == (if has_member(*old(s), member_id) {
                old(s).members@.remove(member_idx(*old(s), member_id))
            } else {
                old(s).members@
            }) && n == (if has_member(*old(s), member_id) {
                1int
            } else {
                0int
            }) && final(s).users@ == old(s).users@ && final(s).next_id == old(s).next_id),
            r is Ok ==> !has_link(final(s).links@, user_id, member_id) && !has_member(
                *final(s),
                member_id,
            ) && (forall|k: int|
                0 <= k < final(s).records@.len() ==> (#[trigger] final(s).records@[k]).member_id
                    != member_id),
    {
        let ghost pre = *old(s);
        // a link held by another user blocks the member delete
        let ln = s.links.len();
        let mut i: usize = 0;
        while i < ln
            invariant
                old(s).wf(),
                i <= ln,
                ln == s.links@.len(),
                *s == *old(s),
                forall|k: int|
                    0 <= k < i ==> !((#[trigger] s.links@[k]).member_id == member_id
                        && s.links@[k].user_id != user_id),
            decreases ln - i,
        {
            let l = s.links[i];
            if l.member_id == member_id && l.user_id != user_id {
                return Err(ApiError::Internal("member is still linked to another user".to_owned()));
            }
            i += 1;
        }
        proof {
            assert(!other_link_to(pre.links@, user_id, member_id));
        }
        // delete every record of the member
        let rn = s.records.len();
        let mut kept: Vec<Records> = Vec::new();
        let mut i: usize = 0;
        proof {
            assert(s.records@.take(0).filter(records_not_of(member_id)) =~= kept@);
        }
        while i < rn
            invariant
                old(s).wf(),
                i <= rn,
                rn == s.records@.len(),
                *s == *old(s),
                kept@ == s.records@.take(i as int).filter(records_not_of(member_id)),
                forall|k: int|
                    0 <= k < kept@.len() ==> exists|j: int|
                        0 <= j < i && s.records@[j] == #[trigger] kept@[k],
                forall|a: int, b: int|
                    0 <= a < b < kept@.len() ==> (#[trigger] kept@[a]).id != (
                    #[trigger] kept@[b]).id,
            decreases rn - i,
        {
            let rec = s.records[i];
            proof {
                assert(s.records@.take(i + 1) =~= s.records@.take(i as int).push(rec));
                s.records@.take(i as int).lemma_filter_push(rec, records_not_of(member_id));
            }
            if rec.member_id != member_id {
                proof {
                    assert forall|a: int| 0 <= a < kept@.len() implies (#[trigger] kept@[a]).id
                        != rec.id by {
                        let j = choose|j: int| 0 <= j < i && s.records@[j] == kept@[a];
                        assert(s.records@[j].id != s.records@[i as int].id);
                    }
                }
                kept.push(rec);
                proof {
                    assert(s.records@[i as int] == kept@[kept@.len() - 1]);
                }
            }
            i += 1;
        }
        proof {
            assert(s.records@.take(rn as int) =~= s.records@);
        }
        let ghost keptv = kept@;
        s.records = kept;
        // delete the link row if it is present
        let ghost had_link = has_link(pre.links@, user_id, member_id);
        match find_link_index(s, user_id, member_id) {
            Some(li) => {
                proof {
                    lemma_link_idx_is(pre.links@, user_id, member_id, li as int);
                    pre.links@.remove_ensures(li as int);
                }
                s.links.remove(li);
            },
            None => {
            },
        }
        proof {
            assert forall|k: int| 0 <= k < s.links@.len() implies (#[trigger] s.links@[k]).member_id
                != member_id by {
                let p: int = if had_link && k >= link_idx(pre.links@, user_id, member_id) {
                    k + 1
                } else {
                    k
                };
                assert(s.links@[k] == pre.links@[p]);
                if pre.links@[p].member_id == member_id {
                    assert(pre.links@[p].user_id == user_id);
                    assert(has_link(pre.links@, user_id, member_id));
                    let li = link_idx(pre.links@, user_id, member_id);
                    lemma_link_idx_is(pre.links@, user_id, member_id, p);
                }
            }
        }
        // delete the member row last
        let found = find_member_index(s, member_id);
        proof {
            if has_member(pre, member_id) {
                let w = member_idx(pre, member_id);
                assert(s.members@[w].id == member_id);
            }
        }
        let n: usize = match found {
            Some(mi) => {
                proof {
                    lemma_member_idx_is(pre, member_id, mi as int);
                    pre.members@.remove_ensures(mi as int);
                }
                s.members.remove(mi);
                1
            },
            None => {
                proof {
                    assert(!has_member(pre, member_id));
                }
                0
            },
        };
        proof {
            let post = *s;
            let ghost mdel = member_id;
            // surviving members keep their ids, minus the deleted one
            assert forall|k: int| 0 <= k < post.members@.len() implies exists|p: int|
                0 <= p < pre.members@.len() && pre.members@[p] == #[trigger] post.members@[k] && (
                has_member(pre, mdel) ==> p != member_idx(pre, mdel)) by {
                if has_member(pre, mdel) {
                    let mi = member_idx(pre, mdel);
                    let p: int = if k >= mi {
                        k + 1
                    } else {
                        k
                    };
                    assert(pre.members@[p] == post.members@[k]);
                } else {
                    assert(pre.members@[k] == post.members@[k]);
                }
            }
            // member-id distinctness survives
            assert forall|a: int, b: int| 0 <= a < b < post.members@.len() implies (
            #[trigger] post.members@[a]).id != (#[trigger] post.members@[b]).id by {
                if has_member(pre, mdel) {
                    let mi = member_idx(pre, mdel);
                    let pa: int = if a >= mi {
                        a + 1
                    } else {
                        a
                    };
                    let pb: int = if b >= mi {
                        b + 1
                    } else {
                        b
                    };
                    assert(post.members@[a] == pre.members@[pa]);
                    assert(post.members@[b] == pre.members@[pb]);
                }
            }
            // no member with the deleted id survives
            assert forall|k: int| 0 <= k < post.members@.len() implies (
            #[trigger] post.members@[k]).id != mdel by {
                if has_member(pre, mdel) {
                    let mi = member_idx(pre, mdel);
                    let p: int = if k >= mi {
                        k + 1
                    } else {
                        k
                    };
                    assert(post.members@[k] == pre.members@[p]);
                    lemma_member_idx_is(pre, mdel, mi);
                    if pre.members@[p].id == mdel {
                        lemma_member_idx_is(pre, mdel, p);
                    }
                }
            }
            // any member other than the deleted one is still present
            assert forall|x: u64| has_member(pre, x) && x != mdel implies has_member(post, x) by {
                let w = member_idx(pre, x);
                if has_member(pre, mdel) {
                    let mi = member_idx(pre, mdel);
                    assert(w != mi);
                    let k: int = if w > mi {
                        w - 1
                    } else {
                        w
                    };
                    assert(post.members@[k] == pre.members@[w]);
                } else {
                    assert(post.members@[w] == pre.members@[w]);
                }
            }
            // link rows: distinct composite keys, live references
            assert forall|a: int, b: int| 0 <= a < b < post.links@.len() implies !((
            #[trigger] post.links@[a]).user_id == (#[trigger] post.links@[b]).user_id
                && post.links@[a].member_id == post.links@[b].member_id) by {
                if had_link {
                    let li = link_idx(pre.links@, user_id, member_id);
                    let pa: int = if a >= li {
                        a + 1
                    } else {
                        a
                    };
                    let pb: int = if b >= li {
                        b + 1
                    } else {
                        b
                    };
                    assert(post.links@[a] == pre.links@[pa]);
                    assert(post.links@[b] == pre.links@[pb]);
                }
            }
            assert forall|k: int| 0 <= k < post.links@.len() implies has_user(
                post,
                (#[trigger] post.links@[k]).user_id,
            ) && has_member(post, post.links@[k].member_id) by {
                let p: int = if had_link && k >= link_idx(pre.links@, user_id, member_id) {
                    k + 1
                } else {
                    k
                };
                assert(post.links@[k] == pre.links@[p]);
                assert(has_user(pre, pre.links@[p].user_id));
                let wu = user_idx(pre, pre.links@[p].user_id);
                assert(post.users@[wu].id == pre.links@[p].user_id);
                assert(post.links@[k].member_id != mdel);
                assert(has_member(pre, pre.links@[p].member_id));
            }
            // record rows: distinct ids (carried), surviving references
            assert forall|k: int| 0 <= k < post.records@.len() implies has_member(
                post,
                (#[trigger] post.records@[k]).member_id,
            ) && post.records@[k].id < post.next_id by {
                let j = choose|j: int| 0 <= j < rn && pre.records@[j] == keptv[k];
                assert(has_member(pre, pre.records@[j].member_id));
                pre.records@.lemma_filter_pred(records_not_of(mdel), k);
                assert(post.records@[k].member_id != mdel);
            }
            // id bounds for surviving members
            assert forall|k: int| 0 <= k < post.members@.len() implies (
            #[trigger] post.members@[k]).id < post.next_id by {
                if has_member(pre, mdel) {
                    let mi = member_idx(pre, mdel);
                    let p: int = if k >= mi {
                        k + 1
                    } else {
                        k
                    };
                    assert(post.members@[k] == pre.members@[p]);
                }
            }
            // the ownership check can no longer find the pair
            assert(!has_link(post.links@, user_id, member_id));
        }
        Ok(n)
    }
}

/// An optional filter over the member table.
#[derive(Debug)]
pub struct MemberQuery {
    pub name: Option<String>,
    pub memo: Option<String>,
}

/// The caller-supplied fields of a member create or update request.
#[derive(Debug)]
pub struct NewMember {
    pub name: String,
    pub memo: Option<String>,
}

/// The needle occurs in the haystack starting at position `i`.
pub open spec fn seq_contains_at(h: Seq<char>, n: Seq<char>, i: int) -> bool {
    forall|j: int| 0 <= j < n.len() ==> h[i + j] == n[j]
}

/// The needle occurs somewhere in the haystack: the semantics of the memo
/// filter's substring match.
pub open spec fn seq_contains(h: Seq<char>, n: Seq<char>) -> bool {
    exists|i: int| 0 <= i <= h.len() - n.len() && seq_contains_at(h, n, i)
}

/// Substring search over characters.
fn str_contains(hay: &str, needle: &str) -> (r: bool)
    ensures
        r == seq_contains(hay@, needle@),
{
    let hn = hay.unicode_len();
    let nn = needle.unicode_len();
    if nn > hn {
        return false;
    }
    let mut i: usize = 0;
    while i <= hn - nn
        invariant
            nn <= hn,
            hn == hay@.len(),
            nn == needle@.len(),
            i <= hn - nn + 1,
            forall|k: int| 0 <= k < i ==> !seq_contains_at(hay@, needle@, k),
        decreases hn - nn - i + 1,
    {
        let mut j: usize = 0;
        let mut matched = true;
        while matched && j < nn
            invariant
                nn <= hn,
                hn == hay@.len(),
                nn == needle@.len(),
                i <= hn - nn,
                j <= nn,
                matched ==> forall|l: int| 0 <= l < j ==> hay@[i + l] == needle@[l],
                !matched ==> !seq_contains_at(hay@, needle@, i as int),
            decreases nn - j + if matched {
                1int
            } else {
                0int
            },
        {
            if hay.get_char(i + j) != needle.get_char(j) {
                matched = false;
            } else {
                j += 1;
            }
        }
        if matched {
            proof {
                assert(seq_contains_at(hay@, needle@, i as int));
            }
            return true;
        }
        i += 1;
    }
    false
}

/// A member row passes the optional filter: the name must match exactly, the
/// memo must contain the given text.
pub open spec fn member_matches(m: Members, q: Option<MemberQuery>) -> bool {
    match q {
        Option::None => true,
        Option::Some(qq) => (match qq.name {
            Option::Some(n) => m.name@ == n@,
            Option::None => true,
        }) && (match qq.memo {
            Option::Some(t) => m.memo matches Option::Some(x) && seq_contains(x@, t@),
            Option::None => true,
        }),
    }
}

/// The filter predicate `Members::select` applies.
pub open spec fn matches_member_query(q: Option<MemberQuery>) -> spec_fn(Members) -> bool {
    |m: Members| member_matches(m, q)
}

impl Members {
    /// Filtered listing of the member table: exact match on name, substring
    /// match on memo, no filter when absent.
    pub fn select(s: &Store, query: Option<MemberQuery>) -> (r: Result<Vec<Members>, ApiError>)
        ensures
            r matches Ok(v) && v@ == s.members@.filter(matches_member_query(query)),
    {
        let n = s.members.len();
        let mut out: Vec<Members> = Vec::new();
        let mut i: usize = 0;
        proof {
            assert(s.members@.take(0).filter(matches_member_query(query)) =~= out@);
        }
        while i < n
            invariant
                i <= n,
                n == s.members@.len(),
                out@ == s.members@.take(i as int).filter(matches_member_query(query)),
            decreases n - i,
        {
            let m = &s.members[i];
            let keep = match &query {
                Option::None => true,
                Option::Some(q) => {
                    let name_ok = match &q.name {
                        Option::Some(want) => m.name.eq(want),
                        Option::None => true,
                    };
                    let memo_ok = match (&m.memo, &q.memo) {
                        (_, Option::None) => true,
                        (Option::Some(have), Option::Some(want)) => str_contains(
                            have.as_str(),
                            want.as_str(),
                        ),
                        (Option::None, Option::Some(_)) => false,
                    };
                    name_ok && memo_ok
                },
            };
            proof {
                assert(s.members@.take(i + 1) =~= s.members@.take(i as int).push(
                    s.members@[i as int],
                ));
                s.members@.take(i as int).lemma_filter_push(
                    s.members@[i as int],
                    matches_member_query(query),
                );
                assert(keep == member_matches(s.members@[i as int], query));
            }
            if keep {
                out.push(m.clone());
            }
            i += 1;
        }
        proof {
            assert(s.members@.take(n as int) =~= s.members@);
        }
        Ok(out)
    }
}

/// Insertion sort, most recently updated first: the listing order of I7.
fn sort_members_by_updated_desc(input: Vec<Members>) -> (out: Vec<Members>)
    ensures
        out@.to_multiset() == input@.to_multiset(),
        forall|a: int, b: int|
            0 <= a < b < out@.len() ==> (#[trigger] out@[a]).updated_at >= (
            #[trigger] out@[b]).updated_at,
        forall|x: Members| #[trigger] out@.contains(x) ==> input@.contains(x),
{
    let n = input.len();
    let mut out: Vec<Members> = Vec::new();
    let mut i: usize = 0;
    proof {
        assert(input@.take(0).to_multiset() =~= out@.to_multiset()) by {
            assert(input@.take(0) =~= Seq::<Members>::empty());
            input@.take(0).to_multiset_ensures();
            out@.to_multiset_ensures();
        }
    }
    while i < n
        invariant
            i <= n,
            n == input@.len(),
            out@.to_multiset() == input@.take(i as int).to_multiset(),
            forall|a: int, b: int|
                0 <= a < b < out@.len() ==> (#[trigger] out@[a]).updated_at >= (
                #[trigger] out@[b]).updated_at,
        decreases n - i,
    {
        let x = input[i].clone();
        let mut j: usize = 0;
        while j < out.len() && out[j].updated_at >= x.updated_at
            invariant
                j <= out@.len(),
                forall|k: int| 0 <= k < j ==> (#[trigger] out@[k]).updated_at >= x.updated_at,
            decreases out@.len() - j,
        {
            j += 1;
        }
        proof {
            let ghost prev = out@;
            prev.insert_ensures(j as int, x);
            assert(input@.take(i + 1) =~= input@.take(i as int).push(input@[i as int]));
            input@.take(i as int).to_multiset_ensures();
            vstd::seq_lib::to_multiset_insert(prev, j as int, x);
        }
        out.insert(j, x);
        proof {
            let ghost cur = out@;
            assert forall|a: int, b: int|
                0 <= a < b < cur.len() implies (#[trigger] cur[a]).updated_at >= (
            #[trigger] cur[b]).updated_at by {
                let prev = cur.remove(j as int);
                assert(prev.insert(j as int, x) =~= cur);
            }
        }
        i += 1;
    }
    proof {
        assert(input@.take(n as int) =~= input@);
        assert forall|x: Members| #[trigger] out@.contains(x) implies input@.contains(x) by {
            out@.to_multiset_ensures();
            input@.to_multiset_ensures();
            assert(out@.to_multiset().count(x) > 0);
            assert(input@.to_multiset().count(x) > 0);
        }
    }
    out
}

impl UserMember {
    /// Lists the members a user manages, most recently updated first (I7):
    /// the join of the member table with the link table, filtered to the
    /// user, ordered by `updated_at` descending.
    pub fn get_user_members(s: &Store, user_id: u64) -> (r: Result<Vec<Members>, ApiError>)
        requires
            s.wf(),
        ensures
            r matches Ok(v) && v@.to_multiset() == s.members@.filter(
                owned_by(s.links@, user_id),
            ).to_multiset() && (forall|a: int, b: int|
                0 <= a < b < v@.len() ==> (#[trigger] v@[a]).updated_at >= (
                #[trigger] v@[b]).updated_at) && (forall|k: int|
                0 <= k < v@.len() ==> has_link(s.links@, user_id, (#[trigger] v@[k]).id)
                    && s.members@.contains(v@[k])),
    {
        let n = s.members.len();
        let mut acc: Vec<Members> = Vec::new();
        let mut i: usize = 0;
        proof {
            assert(s.members@.take(0).filter(owned_by(s.links@, user_id)) =~= acc@);
        }
        while i < n
            invariant
                i <= n,
                n == s.members@.len(),
                acc@ == s.members@.take(i as int).filter(owned_by(s.links@, user_id)),
                forall|k: int|
                    0 <= k < acc@.len() ==> has_link(s.links@, user_id, (#[trigger] acc@[k]).id)
                        && s.members@.contains(acc@[k]),
            decreases n - i,
        {
            let m = &s.members[i];
            let linked = find_link_index(s, user_id, m.id).is_some();
            proof {
                assert(s.members@.take(i + 1) =~= s.members@.take(i as int).push(
                    s.members@[i as int],
                ));
                s.members@.take(i as int).lemma_filter_push(
                    s.members@[i as int],
                    owned_by(s.links@, user_id),
                );
            }
            if linked {
                acc.push(m.clone());
                proof {
                    assert(s.members@[i as int] == acc@[acc@.len() - 1]);
                }
            }
            i += 1;
        }
        proof {
            assert(s.members@.take(n as int) =~= s.members@);
        }
        let ghost accv = acc@;
        let sorted = sort_members_by_updated_desc(acc);
        proof {
            assert forall|k: int| 0 <= k < sorted@.len() implies has_link(
                s.links@,
                user_id,
                (#[trigger] sorted@[k]).id,
            ) && s.members@.contains(sorted@[k]) by {
                assert(sorted@.contains(sorted@[k]));
                assert(accv.contains(sorted@[k]));
                let w = choose|w: int| 0 <= w < accv.len() && accv[w] == sorted@[k];
                assert(has_link(s.links@, user_id, accv[w].id));
            }
        }
        Ok(sorted)
    }
}

} // verus!
