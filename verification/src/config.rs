//! The user-record store: one long-lived in-memory collection of records,
//! keyed by user identity. Records are created lazily, mutated only through
//! whole-record replacement, and never deleted. All read-modify-write
//! cycles against it happen through one exclusive borrow at a time, so two
//! mutations of the same record cannot race and lose an update.
//!
//! The collection is viewed as the sequence of its records, in insertion
//! order; uniqueness of identities and non-negativity of every counter are
//! the store's invariant.

use vstd::prelude::*;
use vstd::seq_lib::to_multiset_insert;
use crate::codec::decode_records;
use crate::codec::encode_records;
use crate::codec::spec_decode_records;
use crate::codec::spec_encode_records;
use crate::user_data::SECONDS_PER_DAY;
use crate::user_data::UserData;

verus! {

/// Records in non-increasing order of their counter.
pub open spec fn sorted_desc(s: Seq<UserData>) -> bool {
    forall|i: int, j: int| 0 <= i <= j < s.len() ==> (#[trigger] s[i]).pisun >= (#[trigger] s[j]).pisun
}

/// How many records of `s` hold a counter strictly greater than `v`.
pub open spec fn spec_count_greater(s: Seq<UserData>, v: i32) -> nat
    decreases s.len(),
{
    if s.len() == 0 {
        0
    } else {
        spec_count_greater(s.drop_last(), v) + if s.last().pisun > v {
            1nat
        } else {
            0nat
        }
    }
}

/// The count of greater counters never exceeds the number of records.
pub proof fn lemma_count_greater_le_len(s: Seq<UserData>, v: i32)
    ensures
        spec_count_greater(s, v) <= s.len(),
    decreases s.len(),
{
    if s.len() > 0 {
        lemma_count_greater_le_len(s.drop_last(), v);
    }
}

/// Whether some record of `s` carries the identity `user_id`.
pub open spec fn has_user(s: Seq<UserData>, user_id: i64) -> bool {
    exists|i: int| 0 <= i < s.len() && (#[trigger] s[i]).user_id == user_id
}

/// The index of the record carrying `user_id`; meaningful when `has_user`
/// holds and identities are unique.
pub open spec fn user_index(s: Seq<UserData>, user_id: i64) -> int {
    choose|i: int| 0 <= i < s.len() && (#[trigger] s[i]).user_id == user_id
}

/// The record of `s` carrying `user_id`.
pub open spec fn user_at(s: Seq<UserData>, user_id: i64) -> UserData {
    s[user_index(s, user_id)]
}

/// No two records carry the same identity.
pub open spec fn unique_ids(s: Seq<UserData>) -> bool {
    forall|i: int, j: int|
        0 <= i < j < s.len() ==> (#[trigger] s[i]).user_id != (#[trigger] s[j]).user_id
}

/// Every record is well formed.
pub open spec fn all_wf(s: Seq<UserData>) -> bool {
    forall|i: int| 0 <= i < s.len() ==> (#[trigger] s[i]).wf()
}

/// The store of user records.
pub struct Config {
    users: Vec<UserData>,
}

impl View for Config {
    type V = Seq<UserData>;

    closed spec fn view(&self) -> Seq<UserData> {
        self.users@
    }
}

impl Config {
    /// The store's invariant: unique identities, well-formed records.
    pub open spec fn wf(&self) -> bool {
        unique_ids(self@) && all_wf(self@)
    }

    /// An empty store. The durable image is loaded through `from_bytes`;
    /// absence of one starts from here.
    pub fn new() -> (c: Config)
        ensures
            c@ == Seq::<UserData>::empty(),
            c.wf(),
    {
        Config { users: Vec::new() }
    }

    /// The index of the record carrying `user_id`, if any.
    fn find_index(&self, user_id: i64) -> (r: Option<usize>)
        ensures
            match r {
                Some(i) => i < self@.len() && self@[i as int].user_id == user_id,
                None => !has_user(self@, user_id),
            },
    {
        let n = self.users.len();
        let mut i: usize = 0;
        while i < n
            invariant
                i <= n,
                n == self@.len(),
                forall|k: int| 0 <= k < i ==> (#[trigger] self@[k]).user_id != user_id,
            decreases n - i,
        {
            if self.users[i].user_id == user_id {
                return Some(i);
            }
            i += 1;
        }
        None
    }

    /// Read-only lookup: the record carrying `user_id`, or nothing; the
    /// store is untouched either way.
    pub fn get_user(&self, user_id: i64) -> (r: Option<UserData>)
        requires
            self.wf(),
        ensures
            match r {
                Some(u) => has_user(self@, user_id) && u == user_at(self@, user_id),
                None => !has_user(self@, user_id),
            },
    {
        match self.find_index(user_id) {
            Some(i) => {
                let u = self.users[i];
                proof {
                    let j = user_index(self@, user_id);
                    assert(0 <= j < self@.len() && self@[j].user_id == user_id);
                }
                Some(u)
            },
            None => None,
        }
    }

    /// The existing record for `user_id`, or a fresh one appended to the
    /// store: counter at zero, both channels immediately eligible.
    pub fn get_or_create_user(&mut self, user_id: i64, now: i64) -> (u: UserData)
        requires
            old(self).wf(),
            i64::MIN + SECONDS_PER_DAY <= now,
        ensures
            final(self).wf(),
            u.user_id == user_id,
            u.wf(),
            has_user(final(self)@, user_id),
            u == user_at(final(self)@, user_id),
            has_user(old(self)@, user_id) ==> final(self)@ == old(self)@ && u == user_at(
                old(self)@,
                user_id,
            ),
            !has_user(old(self)@, user_id) ==> final(self)@ == old(self)@.push(u) && u.pisun == 0
                && u.last_command == now - SECONDS_PER_DAY && u.last_train == now
                - SECONDS_PER_DAY,
    {
        match self.find_index(user_id) {
            Some(i) => {
                let u = self.users[i];
                proof {
                    let j = user_index(self@, user_id);
                    assert(0 <= j < self@.len() && self@[j].user_id == user_id);
                }
                u
            },
            None => {
                let u = UserData::new(user_id, now);
                self.users.push(u);
                proof {
                    let s = self@;
                    assert(s[s.len() - 1] == u);
                    assert forall|i: int, j: int| 0 <= i < j < s.len() implies (
                    #[trigger] s[i]).user_id != (#[trigger] s[j]).user_id by {
                        if j == s.len() - 1 {
                            assert(old(self)@[i].user_id != user_id);
                        }
                    }
                    let k = user_index(s, user_id);
                    assert(0 <= k < s.len() && s[k].user_id == user_id);
                    assert(k == s.len() - 1);
                }
                u
            },
        }
    }

    /// Replaces the record carrying `user_id` with `new_data`; a silent
    /// no-op when no such record exists. Creation on demand is
    /// `get_or_create_user`'s job, not this one's.
    pub fn update_user(&mut self, user_id: i64, new_data: UserData)
        requires
            old(self).wf(),
            new_data.wf(),
            new_data.user_id == user_id,
        ensures
            final(self).wf(),
            has_user(old(self)@, user_id) ==> final(self)@ == old(self)@.update(
                user_index(old(self)@, user_id),
                new_data,
            ),
            !has_user(old(self)@, user_id) ==> final(self)@ == old(self)@,
    {
        match self.find_index(user_id) {
            Some(i) => {
                self.users.set(i, new_data);
                proof {
                    let s0 = old(self)@;
                    let s = self@;
                    let j = user_index(s0, user_id);
                    assert(0 <= j < s0.len() && s0[j].user_id == user_id);
                    assert(j == i) by {
                        if j != i {
                            assert(s0[j].user_id != s0[i as int].user_id);
                        }
                    }
                    assert forall|p: int, q: int| 0 <= p < q < s.len() implies (
                    #[trigger] s[p]).user_id != (#[trigger] s[q]).user_id by {
                        assert(s0[p].user_id != s0[q].user_id);
                    }
                }
            },
            None => {},
        }
    }

    /// All records, in insertion order.
    pub fn get_all_users(&self) -> (r: &Vec<UserData>)
        ensures
            r@ == self@,
    {
        &self.users
    }

    /// A sorted, read-only view of every record, by counter descending: a
    /// permutation of the store. Ties keep a deterministic order; which one
    /// is left open.
    pub fn snapshot(&self) -> (r: Vec<UserData>)
        ensures
            sorted_desc(r@),
            r@.to_multiset() == self@.to_multiset(),
            r@.len() == self@.len(),
    {
        let mut out: Vec<UserData> = Vec::new();
        let n = self.users.len();
        let ghost s = self@;
        proof {
            assert(s.subrange(0, 0) =~= Seq::<UserData>::empty());
            Seq::<UserData>::empty().to_multiset_ensures();
        }
        let mut i: usize = 0;
        while i < n
            invariant
                i <= n,
                n == s.len(),
                s == self@,
                sorted_desc(out@),
                out@.len() == i,
                out@.to_multiset() == s.subrange(0, i as int).to_multiset(),
            decreases n - i,
        {
            insert_sorted(&mut out, self.users[i]);
            proof {
                let pre = s.subrange(0, i as int);
                assert(s.subrange(0, i + 1) =~= pre.push(s[i as int]));
                pre.to_multiset_ensures();
            }
            i += 1;
        }
        proof {
            assert(s.subrange(0, n as int) =~= s);
        }
        out
    }

    /// How many records hold a counter strictly greater than `v`.
    fn count_greater(&self, v: i32) -> (cnt: usize)
        ensures
            cnt == spec_count_greater(self@, v),
    {
        let ghost s = self@;
        let n = self.users.len();
        let mut cnt: usize = 0;
        proof {
            assert(s.subrange(0, 0) =~= Seq::<UserData>::empty());
        }
        let mut i: usize = 0;
        while i < n
            invariant
                i <= n,
                n == s.len(),
                s == self@,
                cnt == spec_count_greater(s.subrange(0, i as int), v),
                cnt <= i,
            decreases n - i,
        {
            proof {
                let pre1 = s.subrange(0, i + 1);
                assert(pre1.drop_last() =~= s.subrange(0, i as int));
                assert(pre1.last() == s[i as int]);
            }
            if self.users[i].pisun > v {
                cnt += 1;
            }
            i += 1;
        }
        proof {
            assert(s.subrange(0, n as int) =~= s);
        }
        cnt
    }

    /// The user's counter, rank, and the total number of records. The rank
    /// is tie-inclusive: one more than the number of records with a
    /// strictly greater counter, so equal counters share a rank.
    pub fn get_rank_and_value(&self, user_id: i64) -> (r: Option<(i32, usize, usize)>)
        requires
            self.wf(),
            self@.len() < usize::MAX,
        ensures
            match r {
                Some(t) => has_user(self@, user_id) && t.0 == user_at(self@, user_id).pisun
                    && t.1 == 1 + spec_count_greater(self@, t.0) && t.2 == self@.len(),
                None => !has_user(self@, user_id),
            },
    {
        match self.get_user(user_id) {
            Some(u) => {
                let cnt = self.count_greater(u.pisun);
                proof {
                    lemma_count_greater_le_len(self@, u.pisun);
                }
                Some((u.pisun, cnt + 1, self.users.len()))
            },
            None => None,
        }
    }

    /// The leading `n` entries of the ranking: position (1-based, in
    /// snapshot order) paired with the counter at that position.
    pub fn top_n(&self, n: usize) -> (r: Vec<(usize, i32)>)
        ensures
            r@.len() == if n <= self@.len() {
                n as int
            } else {
                self@.len() as int
            },
            forall|i: int| 0 <= i < r@.len() ==> (#[trigger] r@[i]).0 == i + 1,
            exists|snap: Seq<UserData>|
                #![trigger sorted_desc(snap)]
                sorted_desc(snap) && snap.to_multiset() == self@.to_multiset() && snap.len()
                    == self@.len() && (forall|i: int|
                    0 <= i < r@.len() ==> (#[trigger] r@[i]).1 == snap[i].pisun),
    {
        let snap = self.snapshot();
        let take = if n <= snap.len() {
            n
        } else {
            snap.len()
        };
        let mut r: Vec<(usize, i32)> = Vec::new();
        let mut i: usize = 0;
        while i < take
            invariant
                i <= take,
                take <= snap@.len(),
                r@.len() == i,
                forall|k: int| 0 <= k < i ==> (#[trigger] r@[k]).0 == k + 1,
                forall|k: int| 0 <= k < i ==> (#[trigger] r@[k]).1 == snap@[k].pisun,
            decreases take - i,
        {
            r.push((i + 1, snap[i].pisun));
            i += 1;
        }
        proof {
            assert(sorted_desc(snap@));
        }
        r
    }
}

impl Config {
    /// The byte image of the whole store, rewritten in full on every
    /// persist; writing it to durable storage is the caller's part.
    pub fn to_bytes(&self) -> (r: Vec<u8>)
        ensures
            r@ == spec_encode_records(self@),
    {
        encode_records(&self.users)
    }

    /// The store loaded back from a byte image. A malformed image — a
    /// partial block, an out-of-range counter, a duplicated identity —
    /// degrades to the empty collection rather than to a failure.
    pub fn from_bytes(bytes: &[u8]) -> (c: Config)
        ensures
            c.wf(),
            match spec_decode_records(bytes@) {
                Some(rs) => c@ == if unique_ids(rs) {
                    rs
                } else {
                    Seq::<UserData>::empty()
                },
                None => c@ == Seq::<UserData>::empty(),
            },
    {
        match decode_records(bytes) {
            None => Config::new(),
            Some(v) => {
                if ids_unique(&v) {
                    Config { users: v }
                } else {
                    Config::new()
                }
            },
        }
    }
}

/// Whether no two records of `users` share an identity.
fn ids_unique(users: &Vec<UserData>) -> (r: bool)
    ensures
        r == unique_ids(users@),
{
    let n = users.len();
    let mut i: usize = 0;
    while i < n
        invariant
            i <= n,
            n == users@.len(),
            forall|p: int, q: int|
                0 <= p < q < n && p < i ==> (#[trigger] users@[p]).user_id != (#[trigger] users@[q]).user_id,
        decreases n - i,
    {
        let mut j: usize = i + 1;
        while j < n
            invariant
                i < j <= n,
                n == users@.len(),
                forall|q: int| i < q < j ==> (#[trigger] users@[q]).user_id != users@[i as int].user_id,
            decreases n - j,
        {
            if users[i].user_id == users[j].user_id {
                proof {
                    assert(users@[i as int].user_id == users@[j as int].user_id);
                    if unique_ids(users@) {
                        assert(users@[i as int].user_id != users@[j as int].user_id);
                        assert(false);
                    }
                    assert(!unique_ids(users@));
                }
                return false;
            }
            j += 1;
        }
        i += 1;
    }
    true
}

/// Inserts `u` into a sequence sorted by counter descending, keeping it
/// sorted, before the first record with a strictly smaller counter.
fn insert_sorted(out: &mut Vec<UserData>, u: UserData)
    requires
        sorted_desc(old(out)@),
    ensures
        sorted_desc(final(out)@),
        final(out)@.to_multiset() == old(out)@.to_multiset().insert(u),
        final(out)@.len() == old(out)@.len() + 1,
{
    let n = out.len();
    let mut j: usize = 0;
    while j < n && out[j].pisun >= u.pisun
        invariant
            j <= n,
            n == out@.len(),
            out@ == old(out)@,
            forall|k: int| 0 <= k < j ==> (#[trigger] out@[k]).pisun >= u.pisun,
        decreases n - j,
    {
        j += 1;
    }
    let ghost s0 = out@;
    out.insert(j, u);
    proof {
        s0.insert_ensures(j as int, u);
        to_multiset_insert(s0, j as int, u);
        let s = out@;
        assert forall|p: int, q: int| 0 <= p <= q < s.len() implies (#[trigger] s[p]).pisun >= (
        #[trigger] s[q]).pisun by {
            if q < j {
                assert(s[p] == s0[p] && s[q] == s0[q]);
            } else if p < j && q == j {
                assert(s[p] == s0[p]);
            } else if p < j && q > j {
                assert(s[p] == s0[p] && s[q] == s0[q - 1]);
            } else if p == j && q > j {
                assert(s[q] == s0[q - 1]);
                assert(j < s0.len());
                assert(s0[j as int].pisun < u.pisun);
                assert(s0[j as int].pisun >= s0[q - 1].pisun);
            } else if p > j {
                assert(s[p] == s0[p - 1] && s[q] == s0[q - 1]);
            }
        }
    }
}

} // verus!
