pub mod member;
pub mod record;
pub mod user;

use vstd::prelude::*;

use crate::db::member::{Members, UserMember};
use crate::db::record::Records;
use crate::db::user::Users;

verus! {

/// The relational state the service keeps: the four tables and the id
/// allocator. Every operation runs as a transaction script against this
/// store; a failed script leaves it exactly as it was.
pub struct Store {
    pub users: Vec<Users>,
    pub members: Vec<Members>,
    pub links: Vec<UserMember>,
    pub records: Vec<Records>,
    pub next_id: u64,
}

/// A user row with the given id exists.
pub open spec fn has_user(s: Store, id: u64) -> bool {
    exists|i: int| 0 <= i < s.users@.len() && (#[trigger] s.users@[i]).id == id
}

/// The index of the user row with the given id (unique under `Store::wf`).
pub open spec fn user_idx(s: Store, id: u64) -> int {
    choose|i: int| 0 <= i < s.users@.len() && (#[trigger] s.users@[i]).id == id
}

/// A member row with the given id exists.
pub open spec fn has_member(s: Store, id: u64) -> bool {
    exists|i: int| 0 <= i < s.members@.len() && (#[trigger] s.members@[i]).id == id
}

/// The index of the member row with the given id (unique under `Store::wf`).
pub open spec fn member_idx(s: Store, id: u64) -> int {
    choose|i: int| 0 <= i < s.members@.len() && (#[trigger] s.members@[i]).id == id
}

/// A record row with the given id exists.
pub open spec fn has_record(s: Store, id: u64) -> bool {
    exists|i: int| 0 <= i < s.records@.len() && (#[trigger] s.records@[i]).id == id
}

/// The index of the record row with the given id (unique under `Store::wf`).
pub open spec fn record_idx(s: Store, id: u64) -> int {
    choose|i: int| 0 <= i < s.records@.len() && (#[trigger] s.records@[i]).id == id
}

/// A link row for the composite key `(user_id, member_id)` exists: the sole
/// authorization fact for member and record operations.
pub open spec fn has_link(links: Seq<UserMember>, user_id: u64, member_id: u64) -> bool {
    exists|i: int|
        0 <= i < links.len() && (#[trigger] links[i]).user_id == user_id && links[i].member_id
            == member_id
}

/// The index of the link row for `(user_id, member_id)` (unique under
/// `Store::wf`).
pub open spec fn link_idx(links: Seq<UserMember>, user_id: u64, member_id: u64) -> int {
    choose|i: int|
        0 <= i < links.len() && (#[trigger] links[i]).user_id == user_id && links[i].member_id
            == member_id
}

/// Some user other than `user_id` also holds a link to `member_id`.
pub open spec fn other_link_to(links: Seq<UserMember>, user_id: u64, member_id: u64) -> bool {
    exists|i: int|
        0 <= i < links.len() && (#[trigger] links[i]).member_id == member_id && links[i].user_id
            != user_id
}

/// Some link row belongs to `user_id`.
pub open spec fn user_has_links(links: Seq<UserMember>, user_id: u64) -> bool {
    exists|i: int| 0 <= i < links.len() && (#[trigger] links[i]).user_id == user_id
}

/// The predicate a record row survives a member's cascading delete by: it
/// belongs to some other member.
pub open spec fn records_not_of(member_id: u64) -> spec_fn(Records) -> bool {
    |rr: Records| rr.member_id != member_id
}

/// A member row with its liveness signal bumped to `now`: the "touch" that
/// accompanies every write to one of its records.
pub open spec fn touched(m: Members, now: i64) -> Members {
    Members { updated_at: now, ..m }
}

/// The predicate a member row is listed for a user by: the user holds a link
/// to it.
pub open spec fn owned_by(links: Seq<UserMember>, user_id: u64) -> spec_fn(Members) -> bool {
    |m: Members| has_link(links, user_id, m.id)
}

/// How many links `user_id` holds: the quantity the membership quota bounds.
pub open spec fn link_count(links: Seq<UserMember>, user_id: u64) -> nat
    decreases links.len(),
{
    if links.len() == 0 {
        0
    } else {
        link_count(links.drop_last(), user_id) + if links.last().user_id == user_id {
            1nat
        } else {
            0nat
        }
    }
}

/// Appending one link raises its owner's count by exactly one and leaves
/// every other user's count unchanged: each successful membership insert
/// consumes exactly one unit of its owner's quota.
pub broadcast proof fn lemma_link_count_push(links: Seq<UserMember>, l: UserMember, user_id: u64)
    ensures
        #[trigger] link_count(links.push(l), user_id) == link_count(links, user_id) + if l.user_id
            == user_id {
            1nat
        } else {
            0nat
        },
{
    assert(links.push(l).drop_last() =~= links);
}

/// Under well-formedness, any index holding the member id is the one
/// `member_idx` names.
pub proof fn lemma_member_idx_is(s: Store, id: u64, i: int)
    requires
        s.wf(),
        0 <= i < s.members@.len(),
        s.members@[i].id == id,
    ensures
        has_member(s, id),
        member_idx(s, id) == i,
{
    assert(has_member(s, id));
    let j = member_idx(s, id);
    assert(0 <= j < s.members@.len() && s.members@[j].id == id);
    if i < j {
        assert(s.members@[i].id != s.members@[j].id);
    } else if j < i {
        assert(s.members@[j].id != s.members@[i].id);
    }
}

/// Under well-formedness, any index holding the user id is the one `user_idx`
/// names.
pub proof fn lemma_user_idx_is(s: Store, id: u64, i: int)
    requires
        s.wf(),
        0 <= i < s.users@.len(),
        s.users@[i].id == id,
    ensures
        has_user(s, id),
        user_idx(s, id) == i,
{
    assert(has_user(s, id));
    let j = user_idx(s, id);
    assert(0 <= j < s.users@.len() && s.users@[j].id == id);
    if i < j {
        assert(s.users@[i].id != s.users@[j].id);
    } else if j < i {
        assert(s.users@[j].id != s.users@[i].id);
    }
}

/// Under well-formedness, any index holding the record id is the one
/// `record_idx` names.
pub proof fn lemma_record_idx_is(s: Store, id: u64, i: int)
    requires
        s.wf(),
        0 <= i < s.records@.len(),
        s.records@[i].id == id,
    ensures
        has_record(s, id),
        record_idx(s, id) == i,
{
    assert(has_record(s, id));
    let j = record_idx(s, id);
    assert(0 <= j < s.records@.len() && s.records@[j].id == id);
    if i < j {
        assert(s.records@[i].id != s.records@[j].id);
    } else if j < i {
        assert(s.records@[j].id != s.records@[i].id);
    }
}

/// Under well-formedness, any index holding the composite link key is the one
/// `link_idx` names.
pub proof fn lemma_link_idx_is(links: Seq<UserMember>, user_id: u64, member_id: u64, i: int)
    requires
        forall|a: int, b: int|
            0 <= a < b < links.len() ==> !((#[trigger] links[a]).user_id
                == (#[trigger] links[b]).user_id && links[a].member_id == links[b].member_id),
        0 <= i < links.len(),
        links[i].user_id == user_id,
        links[i].member_id == member_id,
    ensures
        has_link(links, user_id, member_id),
        link_idx(links, user_id, member_id) == i,
{
    assert(has_link(links, user_id, member_id));
    let j = link_idx(links, user_id, member_id);
    assert(0 <= j < links.len() && links[j].user_id == user_id && links[j].member_id == member_id);
    if i < j {
        assert(!(links[i].user_id == links[j].user_id && links[i].member_id
            == links[j].member_id));
    } else if j < i {
        assert(!(links[j].user_id == links[i].user_id && links[j].member_id
            == links[i].member_id));
    }
}

/// Finds the position of the user row with the given id.
pub fn find_user_index(s: &Store, id: u64) -> (r: Option<usize>)
    ensures
        r matches Some(i) ==> 0 <= i < s.users@.len() && s.users@[i as int].id == id,
        r is Some <==> has_user(*s, id),
{
    let n = s.users.len();
    let mut i: usize = 0;
    while i < n
        invariant
            i <= n,
            n == s.users@.len(),
            forall|k: int| 0 <= k < i ==> (#[trigger] s.users@[k]).id != id,
        decreases n - i,
    {
        if s.users[i].id == id {
            return Some(i);
        }
        i += 1;
    }
    None
}

/// Finds the position of the member row with the given id.
pub fn find_member_index(s: &Store, id: u64) -> (r: Option<usize>)
    ensures
        r matches Some(i) ==> 0 <= i < s.members@.len() && s.members@[i as int].id == id,
        r is Some <==> has_member(*s, id),
{
    let n = s.members.len();
    let mut i: usize = 0;
    while i < n
        invariant
            i <= n,
            n == s.members@.len(),
            forall|k: int| 0 <= k < i ==> (#[trigger] s.members@[k]).id != id,
        decreases n - i,
    {
        if s.members[i].id == id {
            return Some(i);
        }
        i += 1;
    }
    None
}

/// Finds the position of the record row with the given id.
pub fn find_record_index(s: &Store, id: u64) -> (r: Option<usize>)
    ensures
        r matches Some(i) ==> 0 <= i < s.records@.len() && s.records@[i as int].id == id,
        r is Some <==> has_record(*s, id),
{
    let n = s.records.len();
    let mut i: usize = 0;
    while i < n
        invariant
            i <= n,
            n == s.records@.len(),
            forall|k: int| 0 <= k < i ==> (#[trigger] s.records@[k]).id != id,
        decreases n - i,
    {
        if s.records[i].id == id {
            return Some(i);
        }
        i += 1;
    }
    None
}

/// Finds the position of the link row for `(user_id, member_id)`.
pub fn find_link_index(s: &Store, user_id: u64, member_id: u64) -> (r: Option<usize>)
    ensures
        r matches Some(i) ==> 0 <= i < s.links@.len() && s.links@[i as int].user_id == user_id
            && s.links@[i as int].member_id == member_id,
        r is Some <==> has_link(s.links@, user_id, member_id),
{
    let n = s.links.len();
    let mut i: usize = 0;
    while i < n
        invariant
            i <= n,
            n == s.links@.len(),
            forall|k: int|
                0 <= k < i ==> !((#[trigger] s.links@[k]).user_id == user_id
                    && s.links@[k].member_id == member_id),
        decreases n - i,
    {
        let l = s.links[i];
        if l.user_id == user_id && l.member_id == member_id {
            return Some(i);
        }
        i += 1;
    }
    None
}

/// Counts the links a user holds.
pub fn count_user_links(s: &Store, user_id: u64) -> (r: usize)
    ensures
        r == link_count(s.links@, user_id),
{
    let n = s.links.len();
    let mut i: usize = 0;
    let mut count: usize = 0;
    proof {
        assert(s.links@.take(0) =~= Seq::<UserMember>::empty());
    }
    while i < n
        invariant
            i <= n,
            n == s.links@.len(),
            count <= i,
            count == link_count(s.links@.take(i as int), user_id),
        decreases n - i,
    {
        proof {
            assert(s.links@.take(i + 1).drop_last() =~= s.links@.take(i as int));
            assert(s.links@.take(i + 1).last() == s.links@[i as int]);
        }
        if s.links[i].user_id == user_id {
            count += 1;
        }
        i += 1;
    }
    proof {
        assert(s.links@.take(n as int) =~= s.links@);
    }
    count
}

impl Store {
    /// Well-formedness: ids are unique per table, the composite link key is
    /// unique, every record references an existing member, every link
    /// references an existing user and member, and every id is below the
    /// allocator's next value.
    pub open spec fn wf(self) -> bool {
        &&& forall|i: int, j: int|
            0 <= i < j < self.users@.len() ==> (#[trigger] self.users@[i]).id != (
            #[trigger] self.users@[j]).id
        &&& forall|i: int, j: int|
            0 <= i < j < self.members@.len() ==> (#[trigger] self.members@[i]).id != (
            #[trigger] self.members@[j]).id
        &&& forall|i: int, j: int|
            0 <= i < j < self.records@.len() ==> (#[trigger] self.records@[i]).id != (
            #[trigger] self.records@[j]).id
        &&& forall|i: int, j: int|
            0 <= i < j < self.links@.len() ==> !((#[trigger] self.links@[i]).user_id == (
            #[trigger] self.links@[j]).user_id && self.links@[i].member_id
                == self.links@[j].member_id)
        &&& forall|i: int|
            0 <= i < self.records@.len() ==> has_member(self, (#[trigger] self.records@[i]).member_id)
        &&& forall|i: int|
            0 <= i < self.links@.len() ==> has_user(self, (#[trigger] self.links@[i]).user_id)
                && has_member(self, self.links@[i].member_id)
        &&& forall|i: int| 0 <= i < self.users@.len() ==> (#[trigger] self.users@[i]).id < self.next_id
        &&& forall|i: int|
            0 <= i < self.members@.len() ==> (#[trigger] self.members@[i]).id < self.next_id
        &&& forall|i: int|
            0 <= i < self.records@.len() ==> (#[trigger] self.records@[i]).id < self.next_id
    }

    /// An empty store, as the service starts with.
    pub fn empty() -> (s: Store)
        ensures
            s.wf(),
            s.users@.len() == 0,
            s.members@.len() == 0,
            s.links@.len() == 0,
            s.records@.len() == 0,
            s.next_id == 0,
    {
        Store {
            users: Vec::new(),
            members: Vec::new(),
            links: Vec::new(),
            records: Vec::new(),
            next_id: 0,
        }
    }
}

} // verus!
