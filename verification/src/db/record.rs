use vstd::prelude::*;

use crate::config::{valid_time, Config};
use crate::db::member::Members;
use crate::db::{
    find_member_index, find_record_index, has_member, has_record, has_user, lemma_member_idx_is,
    lemma_record_idx_is, member_idx, record_idx, touched, user_idx, Store,
};
use crate::error::api::ApiError;
use crate::util::time::{months_before, months_before_of};

verus! {

/// One blood-pressure measurement for one member: systolic and diastolic
/// pressure and pulse (`bmp`), taken at `record_at`.
#[derive(Clone, Copy, Debug, PartialEq, Eq, Structural)]
pub struct Records {
    pub id: u64,
    pub member_id: u64,
    pub systolic: i32,
    pub diastolic: i32,
    pub bmp: i32,
    pub record_at: i64,
    pub created_at: i64,
    pub updated_at: i64,
}

/// The caller-supplied fields of a record create or update request.
#[derive(Clone, Copy, Debug)]
pub struct NewRecord {
    pub systolic: i32,
    pub diastolic: i32,
    pub bmp: i32,
    pub record_at: i64,
}

/// The listing order of I6: measurement time descending, modification time
/// descending as tie-break. `rec_ge(a, b)` says `a` may stand before `b`.
pub open spec fn rec_ge(a: Records, b: Records) -> bool {
    a.record_at > b.record_at || (a.record_at == b.record_at && a.updated_at >= b.updated_at)
}

/// The predicate a record row is listed by: it belongs to the member and its
/// measurement time falls inside the rolling window.
pub open spec fn in_window_of(member_id: u64, cutoff: i64) -> spec_fn(Records) -> bool {
    |r: Records| r.member_id == member_id && r.record_at >= cutoff
}

/// Once a member has been purged — no record row references it, as the
/// cascading delete guarantees — the windowed listing for it is empty,
/// whatever the clock says. Together with the ownership check denying the removed
/// link, a deleted member is unreachable.
pub proof fn lemma_purged_member_lists_empty(records: Seq<Records>, member_id: u64, cutoff: i64)
    requires
        forall|k: int| 0 <= k < records.len() ==> (#[trigger] records[k]).member_id != member_id,
    ensures
        records.filter(in_window_of(member_id, cutoff)).len() == 0,
{
    assert(records.all(|x: Records| !(in_window_of(member_id, cutoff)(x)))) by {
        reveal(Seq::all);
    }
    records.lemma_all_neg_filter_empty(in_window_of(member_id, cutoff));
}

/// Insertion sort for the record listing: measurement time descending,
/// modification time descending as tie-break.
fn sort_records_desc(input: Vec<Records>) -> (out: Vec<Records>)
    ensures
        out@.to_multiset() == input@.to_multiset(),
        forall|a: int, b: int| 0 <= a < b < out@.len() ==> #[trigger] rec_ge(out@[a], out@[b]),
        forall|x: Records| #[trigger] out@.contains(x) ==> input@.contains(x),
{
    let n = input.len();
    let mut out: Vec<Records> = Vec::new();
    let mut i: usize = 0;
    proof {
        assert(input@.take(0).to_multiset() =~= out@.to_multiset()) by {
            assert(input@.take(0) =~= Seq::<Records>::empty());
            input@.take(0).to_multiset_ensures();
            out@.to_multiset_ensures();
        }
    }
    while i < n
        invariant
            i <= n,
            n == input@.len(),
            out@.to_multiset() == input@.take(i as int).to_multiset(),
            forall|a: int, b: int| 0 <= a < b < out@.len() ==> #[trigger] rec_ge(out@[a], out@[b]),
        decreases n - i,
    {
        let x = input[i];
        let mut j: usize = 0;
        while j < out.len() && (out[j].record_at > x.record_at || (out[j].record_at == x.record_at
            && out[j].updated_at >= x.updated_at))
            invariant
                j <= out@.len(),
                forall|k: int| 0 <= k < j ==> #[trigger] rec_ge(out@[k], x),
            decreases out@.len() - j,
        {
            j += 1;
        }
        let ghost prev = out@;
        proof {
            prev.insert_ensures(j as int, x);
            assert(input@.take(i + 1) =~= input@.take(i as int).push(input@[i as int]));
            input@.take(i as int).to_multiset_ensures();
            vstd::seq_lib::to_multiset_insert(prev, j as int, x);
        }
        out.insert(j, x);
        proof {
            let cur = out@;
            assert(cur == prev.insert(j as int, x));
            assert forall|a: int, b: int| 0 <= a < b < cur.len() implies #[trigger] rec_ge(
                cur[a],
                cur[b],
            ) by {
                if b < j {
                    assert(cur[a] == prev[a] && cur[b] == prev[b]);
                    assert(rec_ge(prev[a], prev[b]));
                } else if a > j {
                    assert(cur[a] == prev[a - 1] && cur[b] == prev[b - 1]);
                    assert(rec_ge(prev[a - 1], prev[b - 1]));
                } else if a < j && b == j {
                    assert(cur[a] == prev[a] && cur[b] == x);
                    assert(rec_ge(prev[a], x));
                } else if a < j && b > j {
                    assert(cur[a] == prev[a] && cur[b] == prev[b - 1]);
                    if a < b - 1 {
                        assert(rec_ge(prev[a], prev[b - 1]));
                    }
                } else {
                    assert(a == j && b > j);
                    assert(cur[a] == x && cur[b] == prev[b - 1]);
                    assert(j < prev.len());
                    assert(rec_ge(x, prev[j as int]));
                    if j < b - 1 {
                        assert(rec_ge(prev[j as int], prev[b - 1]));
                    }
                }
            }
        }
        i += 1;
    }
    proof {
        assert(input@.take(n as int) =~= input@);
        assert forall|x: Records| #[trigger] out@.contains(x) implies input@.contains(x) by {
            out@.to_multiset_ensures();
            input@.to_multiset_ensures();
            assert(out@.to_multiset().count(x) > 0);
            assert(input@.to_multiset().count(x) > 0);
        }
    }
    out
}

/// Bumps the liveness signal of an existing member row to `now`.
fn touch_member_row(s: &mut Store, member_id: u64, now: i64)
    requires
        old(s).wf(),
        has_member(*old(s), member_id),
    ensures
        final(s).wf(),
        final(s).members@ == old(s).members@.update(
            member_idx(*old(s), member_id),
            touched(old(s).members@[member_idx(*old(s), member_id)], now),
        ),
        final(s).users@ == old(s).users@,
        final(s).links@ == old(s).links@,
        final(s).records@ == old(s).records@,
        final(s).next_id == old(s).next_id,
{
    if let Some(i) = find_member_index(s, member_id) {
        proof {
            lemma_member_idx_is(*old(s), member_id, i as int);
        }
        let row = &s.members[i];
        let newrow = Members {
            id: row.id,
            name: row.name.clone(),
            memo: match &row.memo {
                Option::Some(m) => Option::Some(m.clone()),
                Option::None => Option::None,
            },
            created_at: row.created_at,
            updated_at: now,
        };
        s.members[i] = newrow;
        proof {
            let post = *s;
            let pre = *old(s);
            assert forall|k: int| 0 <= k < post.records@.len() implies has_member(
                post,
                (#[trigger] post.records@[k]).member_id,
            ) by {
                assert(has_member(pre, pre.records@[k].member_id));
                let w = member_idx(pre, pre.records@[k].member_id);
                assert(post.members@[w].id == pre.records@[k].member_id);
            }
            assert forall|k: int| 0 <= k < post.links@.len() implies has_user(
                post,
                (#[trigger] post.links@[k]).user_id,
            ) && has_member(post, post.links@[k].member_id) by {
                assert(has_user(pre, pre.links@[k].user_id));
                let wu = user_idx(pre, pre.links@[k].user_id);
                assert(post.users@[wu].id == pre.links@[k].user_id);
                assert(has_member(pre, pre.links@[k].member_id));
                let w = member_idx(pre, pre.links@[k].member_id);
                assert(post.members@[w].id == pre.links@[k].member_id);
            }
        }
    }
}

impl Records {
    /// Lists a member's records inside the rolling window of
    /// `cfg.record_month` calendar months back from `now`, ordered by
    /// measurement time descending, then modification time descending (I6).
    /// No returned record is older than the window start (P-style guarantee
    /// stated directly below).
    pub fn get_member_record(s: &Store, cfg: &Config, member_id: u64, now: i64) -> (r: Result<
        Vec<Records>,
        ApiError,
    >)
        requires
            s.wf(),
            cfg.wf(),
            valid_time(now),
        ensures
            r matches Ok(v) && v@.to_multiset() == s.records@.filter(
                in_window_of(member_id, months_before_of(now, cfg.record_month)),
            ).to_multiset() && (forall|a: int, b: int|
                0 <= a < b < v@.len() ==> #[trigger] rec_ge(v@[a], v@[b])) && (forall|k: int|
                0 <= k < v@.len() ==> (#[trigger] v@[k]).member_id == member_id && v@[k].record_at
                    >= months_before_of(now, cfg.record_month) && s.records@.contains(v@[k])),
    {
        let cutoff = months_before(now, cfg.record_month);
        let n = s.records.len();
        let mut acc: Vec<Records> = Vec::new();
        let mut i: usize = 0;
        proof {
            assert(s.records@.take(0).filter(in_window_of(member_id, cutoff)) =~= acc@);
        }
        while i < n
            invariant
                i <= n,
                n == s.records@.len(),
                acc@ == s.records@.take(i as int).filter(in_window_of(member_id, cutoff)),
                forall|k: int|
                    0 <= k < acc@.len() ==> (#[trigger] acc@[k]).member_id == member_id
                        && acc@[k].record_at >= cutoff && s.records@.contains(acc@[k]),
            decreases n - i,
        {
            let rec = s.records[i];
            proof {
                assert(s.records@.take(i + 1) =~= s.records@.take(i as int).push(
                    s.records@[i as int],
                ));
                s.records@.take(i as int).lemma_filter_push(rec, in_window_of(member_id, cutoff));
            }
            if rec.member_id == member_id && rec.record_at >= cutoff {
                acc.push(rec);
                proof {
                    assert(s.records@[i as int] == acc@[acc@.len() - 1]);
                }
            }
            i += 1;
        }
        proof {
            assert(s.records@.take(n as int) =~= s.records@);
        }
        let ghost accv = acc@;
        let sorted = sort_records_desc(acc);
        proof {
            assert forall|k: int| 0 <= k < sorted@.len() implies (#[trigger] sorted@[k]).member_id
                == member_id && sorted@[k].record_at >= months_before_of(now, cfg.record_month)
                && s.records@.contains(sorted@[k]) by {
                assert(sorted@.contains(sorted@[k]));
                assert(accv.contains(sorted@[k]));
                let w = choose|w: int| 0 <= w < accv.len() && accv[w] == sorted@[k];
                assert(accv[w].member_id == member_id);
            }
        }
        Ok(sorted)
    }

    /// Single-row lookup of a record by id.
    pub fn detail(s: &Store, record_id: u64) -> (r: Result<Records, ApiError>)
        requires
            s.wf(),
        ensures
            r is Ok <==> has_record(*s, record_id),
            r matches Ok(rec) ==> rec == s.records@[record_idx(*s, record_id)] && rec.id
                == record_id,
            r matches Err(e) ==> e is NotFound,
    {
        match find_record_index(s, record_id) {
            Some(i) => {
                proof {
                    lemma_record_idx_is(*s, record_id, i as int);
                }
                Ok(s.records[i])
            },
            None => Err(ApiError::NotFound),
        }
    }

    /// Within one transaction: insert the record row, then touch the parent
    /// member (I5). A missing member (the reference the store's foreign key
    /// enforces) or an exhausted id allocator rolls the transaction back as
    /// `Internal`, and the touch is skipped.
    pub fn insert(s: &mut Store, member_id: u64, new_record: NewRecord, now: i64) -> (r: Result<
        Records,
        ApiError,
    >)
        requires
            old(s).wf(),
        ensures
            final(s).wf(),
            !(has_member(*old(s), member_id) && old(s).next_id < u64::MAX) ==> (r matches Err(e)
                && e is Internal) && *final(s) == *old(s),
            has_member(*old(s), member_id) && old(s).next_id < u64::MAX ==> (r matches Ok(rec)
                && rec.id == old(s).next_id && rec.member_id == member_id && rec.systolic
                == new_record.systolic && rec.diastolic == new_record.diastolic && rec.bmp
                == new_record.bmp && rec.record_at == new_record.record_at && rec.created_at == now
                && rec.updated_at == now && final(s).records@ == old(s).records@.push(rec)
                && final(s).members@ == old(s).members@.update(
                member_idx(*old(s), member_id),
                touched(old(s).members@[member_idx(*old(s), member_id)], now),
            ) && final(s).users@ == old(s).users@ && final(s).links@ == old(s).links@
                && final(s).next_id == old(s).next_id + 1),
            // the touch strictly advances the liveness signal whenever the
            // clock has moved past its prior value
            r is Ok && old(s).members@[member_idx(*old(s), member_id)].updated_at < now
                ==> final(s).members@[member_idx(*old(s), member_id)].updated_at
                > old(s).members@[member_idx(*old(s), member_id)].updated_at,
    {
        if find_member_index(s, member_id).is_none() {
            return Err(ApiError::Internal("record references no member".to_owned()));
        }
        if s.next_id == u64::MAX {
            return Err(ApiError::Internal("id allocator exhausted".to_owned()));
        }
        let id = s.next_id;
        let rec = Records {
            id,
            member_id,
            systolic: new_record.systolic,
            diastolic: new_record.diastolic,
            bmp: new_record.bmp,
            record_at: new_record.record_at,
            created_at: now,
            updated_at: now,
        };
        s.next_id = id + 1;
        s.records.push(rec);
        proof {
            let mid = *s;
            let pre = *old(s);
            assert forall|k: int| 0 <= k < mid.records@.len() implies has_member(
                mid,
                (#[trigger] mid.records@[k]).member_id,
            ) by {
                if k < pre.records@.len() {
                    assert(has_member(pre, pre.records@[k].member_id));
                    let w = member_idx(pre, pre.records@[k].member_id);
                    assert(mid.members@[w].id == pre.records@[k].member_id);
                } else {
                    let w = member_idx(pre, member_id);
                    assert(mid.members@[w].id == member_id);
                }
            }
            assert forall|k: int| 0 <= k < mid.links@.len() implies has_user(
                mid,
                (#[trigger] mid.links@[k]).user_id,
            ) && has_member(mid, mid.links@[k].member_id) by {
                assert(has_user(pre, pre.links@[k].user_id));
                let wu = user_idx(pre, pre.links@[k].user_id);
                assert(mid.users@[wu].id == pre.links@[k].user_id);
                assert(has_member(pre, pre.links@[k].member_id));
                let w = member_idx(pre, pre.links@[k].member_id);
                assert(mid.members@[w].id == pre.links@[k].member_id);
            }
            assert(mid.wf());
            let w = member_idx(pre, member_id);
            assert(mid.members@[w].id == member_id);
            lemma_member_idx_is(mid, member_id, w);
        }
        touch_member_row(s, member_id, now);
        Ok(rec)
    }

    /// Within one transaction: update the record row — the caller may
    /// re-parent it to a different member it owns — then touch the (new)
    /// parent member (I5). A missing record is `NotFound`; a missing target
    /// member rolls the transaction back as `Internal`.
    pub fn update(s: &mut Store, record_id: u64, member_id: u64, new_record: NewRecord, now: i64) -> (r:
        Result<Records, ApiError>)
        requires
            old(s).wf(),
        ensures
            final(s).wf(),
            !has_record(*old(s), record_id) ==> (r matches Err(e) && e is NotFound) && *final(s)
                == *old(s),
            has_record(*old(s), record_id) && !has_member(*old(s), member_id) ==> (r matches Err(e)
                && e is Internal) && *final(s) == *old(s),
            has_record(*old(s), record_id) && has_member(*old(s), member_id) ==> (r matches Ok(rec)
                && rec.id == record_id && rec.member_id == member_id && rec.systolic
                == new_record.systolic && rec.diastolic == new_record.diastolic && rec.bmp
                == new_record.bmp && rec.record_at == new_record.record_at && rec.created_at == old(
                s,
            ).records@[record_idx(*old(s), record_id)].created_at && rec.updated_at == now
                && final(s).records@ == old(s).records@.update(record_idx(*old(s), record_id), rec)
                && final(s).members@ == old(s).members@.update(
                member_idx(*old(s), member_id),
                touched(old(s).members@[member_idx(*old(s), member_id)], now),
            ) && final(s).users@ == old(s).users@ && final(s).links@ == old(s).links@
                && final(s).next_id == old(s).next_id),
            r is Ok && old(s).members@[member_idx(*old(s), member_id)].updated_at < now
                ==> final(s).members@[member_idx(*old(s), member_id)].updated_at
                > old(s).members@[member_idx(*old(s), member_id)].updated_at,
    {
        let ri = match find_record_index(s, record_id) {
            Some(ri) => ri,
            None => {
                return Err(ApiError::NotFound);
            },
        };
        if find_member_index(s, member_id).is_none() {
            return Err(ApiError::Internal("record references no member".to_owned()));
        }
        proof {
            lemma_record_idx_is(*old(s), record_id, ri as int);
        }
        let created_at = s.records[ri].created_at;
        let rec = Records {
            id: record_id,
            member_id,
            systolic: new_record.systolic,
            diastolic: new_record.diastolic,
            bmp: new_record.bmp,
            record_at: new_record.record_at,
            created_at,
            updated_at: now,
        };
        s.records[ri] = rec;
        proof {
            let mid = *s;
            let pre = *old(s);
            assert forall|k: int| 0 <= k < mid.records@.len() implies has_member(
                mid,
                (#[trigger] mid.records@[k]).member_id,
            ) by {
                if k != ri {
                    assert(has_member(pre, pre.records@[k].member_id));
                    let w = member_idx(pre, pre.records@[k].member_id);
                    assert(mid.members@[w].id == pre.records@[k].member_id);
                } else {
                    let w = member_idx(pre, member_id);
                    assert(mid.members@[w].id == member_id);
                }
            }
            assert forall|k: int| 0 <= k < mid.links@.len() implies has_user(
                mid,
                (#[trigger] mid.links@[k]).user_id,
            ) && has_member(mid, mid.links@[k].member_id) by {
                assert(has_user(pre, pre.links@[k].user_id));
                let wu = user_idx(pre, pre.links@[k].user_id);
                assert(mid.users@[wu].id == pre.links@[k].user_id);
                assert(has_member(pre, pre.links@[k].member_id));
                let w = member_idx(pre, pre.links@[k].member_id);
                assert(mid.members@[w].id == pre.links@[k].member_id);
            }
            assert(mid.wf());
            let w = member_idx(pre, member_id);
            assert(mid.members@[w].id == member_id);
            lemma_member_idx_is(mid, member_id, w);
        }
        touch_member_row(s, member_id, now);
        Ok(rec)
    }

    /// Within one transaction: look the record up to learn its member, touch
    /// that member if the record was found, then delete the record row.
    /// Deleting a nonexistent id reports zero rows affected, not an error.
    pub fn delete(s: &mut Store, record_id: u64, now: i64) -> (r: Result<usize, ApiError>)
        requires
            old(s).wf(),
        ensures
            final(s).wf(),
            !has_record(*old(s), record_id) ==> (r matches Ok(nn) && nn == 0) && *final(s) == *old(
                s,
            ),
            has_record(*old(s), record_id) ==> (r matches Ok(nn) && nn == 1 && final(s).records@
                == old(s).records@.remove(record_idx(*old(s), record_id)) && final(s).members@
                == old(s).members@.update(
                member_idx(*old(s), old(s).records@[record_idx(*old(s), record_id)].member_id),
                touched(
                    old(s).members@[member_idx(
                        *old(s),
                        old(s).records@[record_idx(*old(s), record_id)].member_id,
                    )],
                    now,
                ),
            ) && final(s).users@ == old(s).users@ && final(s).links@ == old(s).links@
                && final(s).next_id == old(s).next_id),
            !has_record(*final(s), record_id),
            // the touch strictly advances the owner's liveness signal
            // whenever the clock has moved past its prior value
            has_record(*old(s), record_id) && old(s).members@[member_idx(
                *old(s),
                old(s).records@[record_idx(*old(s), record_id)].member_id,
            )].updated_at < now ==> final(s).members@[member_idx(
                *old(s),
                old(s).records@[record_idx(*old(s), record_id)].member_id,
            )].updated_at > old(s).members@[member_idx(
                *old(s),
                old(s).records@[record_idx(*old(s), record_id)].member_id,
            )].updated_at,
    {
        let ri = match find_record_index(s, record_id) {
            Some(ri) => ri,
            None => {
                return Ok(0);
            },
        };
        proof {
            lemma_record_idx_is(*old(s), record_id, ri as int);
        }
        let owner = s.records[ri].member_id;
        proof {
            assert(has_member(*old(s), owner));
        }
        touch_member_row(s, owner, now);
        proof {
            let w = member_idx(*old(s), owner);
            assert(s.members@[w].id == owner);
            lemma_member_idx_is(*s, owner, w);
            s.records@.remove_ensures(ri as int);
        }
        let ghost mid = *s;
        s.records.remove(ri);
        proof {
            let post = *s;
            let pre = *old(s);
            assert forall|a: int, b: int| 0 <= a < b < post.records@.len() implies (
            #[trigger] post.records@[a]).id != (#[trigger] post.records@[b]).id by {
                let pa: int = if a >= ri {
                    a + 1
                } else {
                    a
                };
                let pb: int = if b >= ri {
                    b + 1
                } else {
                    b
                };
                assert(post.records@[a] == pre.records@[pa]);
                assert(post.records@[b] == pre.records@[pb]);
            }
            assert forall|k: int| 0 <= k < post.records@.len() implies has_member(
                post,
                (#[trigger] post.records@[k]).member_id,
            ) && post.records@[k].id < post.next_id by {
                let p: int = if k >= ri {
                    k + 1
                } else {
                    k
                };
                assert(post.records@[k] == pre.records@[p]);
                assert(has_member(mid, mid.records@[p].member_id));
                let w = member_idx(mid, mid.records@[p].member_id);
                assert(post.members@[w].id == pre.records@[p].member_id);
            }
            assert forall|k: int| 0 <= k < post.records@.len() implies (
            #[trigger] post.records@[k]).id != record_id by {
                let p: int = if k >= ri {
                    k + 1
                } else {
                    k
                };
                assert(post.records@[k] == pre.records@[p]);
                if pre.records@[p].id == record_id {
                    lemma_record_idx_is(pre, record_id, p);
                }
            }
            assert forall|k: int| 0 <= k < post.links@.len() implies has_user(
                post,
                (#[trigger] post.links@[k]).user_id,
            ) && has_member(post, post.links@[k].member_id) by {
                assert(has_user(mid, mid.links@[k].user_id));
                let wu = user_idx(mid, mid.links@[k].user_id);
                assert(post.users@[wu].id == post.links@[k].user_id);
                assert(has_member(mid, mid.links@[k].member_id));
                let w = member_idx(mid, mid.links@[k].member_id);
                assert(post.members@[w].id == post.links@[k].member_id);
            }
        }
        Ok(1)
    }
}

} // verus!
