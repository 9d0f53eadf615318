use vstd::prelude::*;

use crate::config::Config;
use crate::db::member::{Members, NewMember, UserMember};
use crate::db::{
    has_link, has_member, has_user, link_count, link_idx, member_idx, other_link_to,
    owned_by, records_not_of, Store,
};
use crate::error::api::ApiError;

verus! {

/// The endpoints this module serves, for the gateway to mount.
pub fn routes() -> (r: Vec<String>)
    ensures
        r@.len() == 5,
        r@[0]@ == "GET /all"@,
        r@[1]@ == "POST /"@,
        r@[2]@ == "PUT /<member_id>"@,
        r@[3]@ == "DELETE /<member_id>"@,
        r@[4]@ == "GET /<member_id>"@,
{
    let mut v: Vec<String> = Vec::new();
    v.push("GET /all".to_owned());
    v.push("POST /".to_owned());
    v.push("PUT /<member_id>".to_owned());
    v.push("DELETE /<member_id>".to_owned());
    v.push("GET /<member_id>".to_owned());
    v
}

/// Lists the caller's members, most recently updated first.
pub fn members(s: &Store, user_id: u64) -> (r: Result<Vec<Members>, ApiError>)
    requires
        s.wf(),
    ensures
        r matches Ok(v) && v@.to_multiset() == s.members@.filter(
            owned_by(s.links@, user_id),
        ).to_multiset() && (forall|a: int, b: int|
            0 <= a < b < v@.len() ==> (#[trigger] v@[a]).updated_at >= (
            #[trigger] v@[b]).updated_at),
{
    UserMember::get_user_members(s, user_id)
}

/// Creates a member for the caller, under the membership quota.
pub fn add_member(s: &mut Store, cfg: &Config, user_id: u64, new_member: NewMember, now: i64) -> (r:
    Result<Members, ApiError>)
    requires
        old(s).wf(),
    ensures
        final(s).wf(),
        link_count(old(s).links@, user_id) >= cfg.member_num ==> (r matches Err(e)
            && e is QuotaExceeded) && *final(s) == *old(s),
        r matches Err(e) ==> *final(s) == *old(s),
        link_count(old(s).links@, user_id) < cfg.member_num && has_user(*old(s), user_id) && old(
            s,
        ).next_id < u64::MAX ==> (r matches Ok(m) && m.name == new_member.name && m.memo
            == new_member.memo && final(s).members@ == old(s).members@.push(m) && final(s).links@
            == old(s).links@.push(
            (UserMember {
                user_id,
                member_id: m.id,
                is_default: false,
                created_at: now,
                updated_at: now,
            }),
        ) && final(s).users@ == old(s).users@ && final(s).records@ == old(s).records@
            && final(s).next_id == old(s).next_id + 1 && link_count(final(s).links@, user_id)
            == link_count(old(s).links@, user_id) + 1),
{
    let r = Members::insert(s, cfg, user_id, new_member, now);
    proof {
        if r is Ok {
            crate::db::lemma_link_count_push(
                old(s).links@,
                s.links@.last(),
                user_id,
            );
        }
    }
    r
}

/// Updates a member's name and memo, after the ownership gate admits the
/// caller; its denial is the only failure an owner-less caller sees.
pub fn edit_member(s: &mut Store, user_id: u64, member_id: u64, new_member: NewMember, now: i64) -> (r:
    Result<Members, ApiError>)
    requires
        old(s).wf(),
    ensures
        final(s).wf(),
        !has_link(old(s).links@, user_id, member_id) ==> (r matches Err(e)
            && e matches ApiError::BadRequest(msg) && msg@ == "member does not belong to this user"@)
            && *final(s) == *old(s),
        has_link(old(s).links@, user_id, member_id) ==> (r matches Ok(m) && m.id == member_id
            && m.name == new_member.name && m.memo == new_member.memo && m.updated_at == now
            && final(s).members@ == old(s).members@.update(member_idx(*old(s), member_id), m)
            && final(s).users@ == old(s).users@ && final(s).links@ == old(s).links@
            && final(s).records@ == old(s).records@ && final(s).next_id == old(s).next_id),
{
    let user_member = match Members::check_user(s, user_id, member_id) {
        Ok(l) => l,
        Err(e) => {
            return Err(e);
        },
    };
    proof {
        let li = link_idx(s.links@, user_id, member_id);
        assert(has_member(*s, s.links@[li].member_id));
    }
    Members::update(s, user_member.member_id, new_member, now)
}

/// Deletes a member and everything that hangs off it, after the ownership
/// gate admits the caller.
pub fn delete_member(s: &mut Store, user_id: u64, member_id: u64) -> (r: Result<(), ApiError>)
    requires
        old(s).wf(),
    ensures
        final(s).wf(),
        !has_link(old(s).links@, user_id, member_id) ==> (r matches Err(e)
            && e matches ApiError::BadRequest(msg) && msg@ == "member does not belong to this user"@)
            && *final(s) == *old(s),
        has_link(old(s).links@, user_id, member_id) && other_link_to(
            old(s).links@,
            user_id,
            member_id,
        ) ==> (r matches Err(e) && e is Internal) && *final(s) == *old(s),
        has_link(old(s).links@, user_id, member_id) && !other_link_to(
            old(s).links@,
            user_id,
            member_id,
        ) ==> (r matches Ok(u2) && final(s).records@ == old(s).records@.filter(
            records_not_of(member_id),
        ) && final(s).links@ == old(s).links@.remove(link_idx(old(s).links@, user_id, member_id))
            && final(s).members@ == old(s).members@.remove(member_idx(*old(s), member_id))
            && final(s).users@ == old(s).users@ && final(s).next_id == old(s).next_id),
        r is Ok ==> !has_link(final(s).links@, user_id, member_id) && !has_member(
            *final(s),
            member_id,
        ) && (forall|k: int|
            0 <= k < final(s).records@.len() ==> (#[trigger] final(s).records@[k]).member_id
                != member_id),
{
    let user_member = match Members::check_user(s, user_id, member_id) {
        Ok(l) => l,
        Err(e) => {
            return Err(e);
        },
    };
    proof {
        let li = link_idx(s.links@, user_id, member_id);
        assert(has_member(*s, s.links@[li].member_id));
    }
    match Members::delete(s, user_id, user_member.member_id) {
        Ok(_) => Ok(()),
        Err(e) => Err(e),
    }
}

/// Looks a member up, after the ownership gate admits the caller.
pub fn detail(s: &Store, user_id: u64, member_id: u64) -> (r: Result<Members, ApiError>)
    requires
        s.wf(),
    ensures
        !has_link(s.links@, user_id, member_id) ==> (r matches Err(e)
            && e matches ApiError::BadRequest(msg) && msg@
            == "member does not belong to this user"@),
        has_link(s.links@, user_id, member_id) ==> (r matches Ok(m) && m == s.members@[member_idx(
            *s,
            member_id,
        )] && m.id == member_id),
{
    let user_member = match Members::check_user(s, user_id, member_id) {
        Ok(l) => l,
        Err(e) => {
            return Err(e);
        },
    };
    proof {
        let li = link_idx(s.links@, user_id, member_id);
        assert(has_member(*s, s.links@[li].member_id));
    }
    Members::detail(s, user_member.member_id)
}

} // verus!
