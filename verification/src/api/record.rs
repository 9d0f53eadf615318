use vstd::prelude::*;

use crate::config::{valid_time, Config};
use crate::db::member::Members;
use crate::db::record::{in_window_of, rec_ge, NewRecord, Records};
use crate::db::{
    has_link, has_member, has_record, link_idx, member_idx, record_idx, touched, Store,
};
use crate::error::api::ApiError;
use crate::util::time::months_before_of;

verus! {

/// The endpoints this module serves, for the gateway to mount.
pub fn routes() -> (r: Vec<String>)
    ensures
        r@.len() == 5,
        r@[0]@ == "GET /<member_id>"@,
        r@[1]@ == "POST /<member_id>"@,
        r@[2]@ == "PUT /<member_id>/<record_id>"@,
        r@[3]@ == "DELETE /<member_id>/<record_id>"@,
        r@[4]@ == "GET /<member_id>/<record_id>"@,
{
    let mut v: Vec<String> = Vec::new();
    v.push("GET /<member_id>".to_owned());
    v.push("POST /<member_id>".to_owned());
    v.push("PUT /<member_id>/<record_id>".to_owned());
    v.push("DELETE /<member_id>/<record_id>".to_owned());
    v.push("GET /<member_id>/<record_id>".to_owned());
    v
}

/// Lists a member's records inside the rolling window, newest measurement
/// first, after the ownership gate admits the caller.
pub fn records(s: &Store, cfg: &Config, user_id: u64, member_id: u64, now: i64) -> (r: Result<
    Vec<Records>,
    ApiError,
>)
    requires
        s.wf(),
        cfg.wf(),
        valid_time(now),
    ensures
        !has_link(s.links@, user_id, member_id) ==> (r matches Err(e)
            && e matches ApiError::BadRequest(msg) && msg@
            == "member does not belong to this user"@),
        has_link(s.links@, user_id, member_id) ==> (r matches Ok(v) && v@.to_multiset()
            == s.records@.filter(
            in_window_of(member_id, months_before_of(now, cfg.record_month)),
        ).to_multiset() && (forall|a: int, b: int|
            0 <= a < b < v@.len() ==> #[trigger] rec_ge(v@[a], v@[b])) && (forall|k: int|
            0 <= k < v@.len() ==> (#[trigger] v@[k]).member_id == member_id && v@[k].record_at
                >= months_before_of(now, cfg.record_month))),
{
    let user_member = match Members::check_user(s, user_id, member_id) {
        Ok(l) => l,
        Err(e) => {
            return Err(e);
        },
    };
    Records::get_member_record(s, cfg, user_member.member_id, now)
}

/// Adds a record to a member and touches the member, after the ownership
/// gate admits the caller.
pub fn add_record(s: &mut Store, user_id: u64, member_id: u64, new_record: NewRecord, now: i64) -> (r:
    Result<Records, ApiError>)
    requires
        old(s).wf(),
    ensures
        final(s).wf(),
        !has_link(old(s).links@, user_id, member_id) ==> (r matches Err(e)
            && e matches ApiError::BadRequest(msg) && msg@ == "member does not belong to this user"@)
            && *final(s) == *old(s),
        r matches Err(e) ==> *final(s) == *old(s),
        has_link(old(s).links@, user_id, member_id) && old(s).next_id < u64::MAX ==> (r matches
            Ok(rec) && rec.member_id == member_id && rec.systolic == new_record.systolic
            && rec.diastolic == new_record.diastolic && rec.bmp == new_record.bmp && rec.record_at
            == new_record.record_at && final(s).records@ == old(s).records@.push(rec)
            && final(s).members@ == old(s).members@.update(
            member_idx(*old(s), member_id),
            touched(old(s).members@[member_idx(*old(s), member_id)], now),
        ) && final(s).links@ == old(s).links@ && final(s).users@ == old(s).users@
            && final(s).next_id == old(s).next_id + 1),
        // the touch strictly advances the liveness signal whenever the clock
        // has moved past its prior value
        has_link(old(s).links@, user_id, member_id) && r is Ok && old(s).members@[member_idx(
            *old(s),
            member_id,
        )].updated_at < now ==> final(s).members@[member_idx(*old(s), member_id)].updated_at
            > old(s).members@[member_idx(*old(s), member_id)].updated_at,
{
    let user_member = match Members::check_user(s, user_id, member_id) {
        Ok(l) => l,
        Err(e) => {
            return Err(e);
        },
    };
    proof {
        let li = link_idx(s.links@, user_id, member_id);
        assert(has_member(*s, s.links@[li].member_id));
    }
    Records::insert(s, user_member.member_id, new_record, now)
}

/// Rewrites a record — the caller may re-parent it to another member it owns
/// — and touches the target member, after the ownership gate admits the
/// caller for the target member. As in the reference behaviour, the record
/// id itself is not re-checked against the verified member.
pub fn edit_record(
    s: &mut Store,
    user_id: u64,
    member_id: u64,
    record_id: u64,
    new_record: NewRecord,
    now: i64,
) -> (r: Result<Records, ApiError>)
    requires
        old(s).wf(),
    ensures
        final(s).wf(),
        !has_link(old(s).links@, user_id, member_id) ==> (r matches Err(e)
            && e matches ApiError::BadRequest(msg) && msg@ == "member does not belong to this user"@)
            && *final(s) == *old(s),
        r matches Err(e) ==> *final(s) == *old(s),
        has_link(old(s).links@, user_id, member_id) && !has_record(*old(s), record_id) ==> (
        r matches Err(e) && e is NotFound),
        has_link(old(s).links@, user_id, member_id) && has_record(*old(s), record_id) ==> (
        r matches Ok(rec) && rec.id == record_id && rec.member_id == member_id && rec.systolic
            == new_record.systolic && rec.diastolic == new_record.diastolic && rec.bmp
            == new_record.bmp && rec.record_at == new_record.record_at && rec.updated_at == now
            && final(s).records@ == old(s).records@.update(record_idx(*old(s), record_id), rec)
            && final(s).members@ == old(s).members@.update(
            member_idx(*old(s), member_id),
            touched(old(s).members@[member_idx(*old(s), member_id)], now),
        ) && final(s).links@ == old(s).links@ && final(s).users@ == old(s).users@
            && final(s).next_id == old(s).next_id),
        has_link(old(s).links@, user_id, member_id) && r is Ok && old(s).members@[member_idx(
            *old(s),
            member_id,
        )].updated_at < now ==> final(s).members@[member_idx(*old(s), member_id)].updated_at
            > old(s).members@[member_idx(*old(s), member_id)].updated_at,
{
    let user_member = match Members::check_user(s, user_id, member_id) {
        Ok(l) => l,
        Err(e) => {
            return Err(e);
        },
    };
    proof {
        let li = link_idx(s.links@, user_id, member_id);
        assert(has_member(*s, s.links@[li].member_id));
    }
    Records::update(s, record_id, user_member.member_id, new_record, now)
}

/// Deletes a record and touches its member, after the ownership gate admits
/// the caller. As in the reference behaviour, the record id itself is not
/// re-checked against the verified member.
pub fn delete_record(s: &mut Store, user_id: u64, member_id: u64, record_id: u64, now: i64) -> (r:
    Result<(), ApiError>)
    requires
        old(s).wf(),
    ensures
        final(s).wf(),
        !has_link(old(s).links@, user_id, member_id) ==> (r matches Err(e)
            && e matches ApiError::BadRequest(msg) && msg@ == "member does not belong to this user"@)
            && *final(s) == *old(s),
        has_link(old(s).links@, user_id, member_id) ==> r is Ok && !has_record(
            *final(s),
            record_id,
        ),
        has_link(old(s).links@, user_id, member_id) && !has_record(*old(s), record_id) ==> *final(s)
            == *old(s),
        has_link(old(s).links@, user_id, member_id) && has_record(*old(s), record_id)
            ==> final(s).records@ == old(s).records@.remove(record_idx(*old(s), record_id))
            && final(s).members@ == old(s).members@.update(
            member_idx(*old(s), old(s).records@[record_idx(*old(s), record_id)].member_id),
            touched(
                old(s).members@[member_idx(
                    *old(s),
                    old(s).records@[record_idx(*old(s), record_id)].member_id,
                )],
                now,
            ),
        ) && final(s).links@ == old(s).links@ && final(s).users@ == old(s).users@
            && final(s).next_id == old(s).next_id,
{
    if let Err(e) = Members::check_user(s, user_id, member_id) {
        return Err(e);
    }
    match Records::delete(s, record_id, now) {
        Ok(_) => Ok(()),
        Err(e) => Err(e),
    }
}

/// Looks a record up, after the ownership gate admits the caller. As in the
/// reference behaviour, the record id itself is not re-checked against the
/// verified member.
pub fn detail(s: &Store, user_id: u64, member_id: u64, record_id: u64) -> (r: Result<
    Records,
    ApiError,
>)
    requires
        s.wf(),
    ensures
        !has_link(s.links@, user_id, member_id) ==> (r matches Err(e)
            && e matches ApiError::BadRequest(msg) && msg@
            == "member does not belong to this user"@),
        has_link(s.links@, user_id, member_id) && !has_record(*s, record_id) ==> (r matches Err(e)
            && e is NotFound),
        has_link(s.links@, user_id, member_id) && has_record(*s, record_id) ==> (r matches Ok(rec)
            && rec == s.records@[record_idx(*s, record_id)] && rec.id == record_id),
{
    if let Err(e) = Members::check_user(s, user_id, member_id) {
        return Err(e);
    }
    Records::detail(s, record_id)
}

} // verus!
