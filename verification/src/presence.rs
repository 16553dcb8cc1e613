//! The presence store: the set of known users contributed by join events.
//! User ids are unique; a repeated join with the same id overwrites the
//! record (last write wins). No removal exists in this design: a user who
//! disconnects is narrated away, never retracted.

use vstd::prelude::*;
use vstd::assert_seqs_equal;
use crate::events::{User, UserV};

verus! {

/// True when some record in `s` has id `id`.
pub open spec fn has_user(s: Seq<UserV>, id: Seq<char>) -> bool {
    exists|i: int| 0 <= i < s.len() && s[i].id == id
}

/// All user ids in `s` are distinct.
pub open spec fn pres_wf(s: Seq<UserV>) -> bool {
    forall|i: int, j: int|
        0 <= i < s.len() && 0 <= j < s.len() && i != j ==> s[i].id != s[j].id
}

/// The first record in `s` with id `id`, if any.
pub open spec fn lookup(s: Seq<UserV>, id: Seq<char>) -> Option<UserV>
    decreases s.len(),
{
    if s.len() == 0 {
        None
    } else if s[0].id == id {
        Some(s[0])
    } else {
        lookup(s.drop_first(), id)
    }
}

/// `s` with `u` written over the first record sharing its id, or appended
/// when no record shares it.
pub open spec fn spec_upsert(s: Seq<UserV>, u: UserV) -> Seq<UserV>
    decreases s.len(),
{
    if s.len() == 0 {
        seq![u]
    } else if s[0].id == u.id {
        seq![u] + s.drop_first()
    } else {
        seq![s[0]] + spec_upsert(s.drop_first(), u)
    }
}

/// Dropping the first record keeps ids distinct.
proof fn lemma_wf_drop_first(s: Seq<UserV>)
    requires
        pres_wf(s),
        s.len() > 0,
    ensures
        pres_wf(s.drop_first()),
{
    assert forall|i: int, j: int|
        0 <= i < s.drop_first().len() && 0 <= j < s.drop_first().len() && i != j
        implies s.drop_first()[i].id != s.drop_first()[j].id by {
        assert(s.drop_first()[i] == s[i + 1]);
        assert(s.drop_first()[j] == s[j + 1]);
    }
}

/// Every id found after an upsert was present before or is the new one.
proof fn lemma_upsert_ids(s: Seq<UserV>, u: UserV, id: Seq<char>)
    requires
        has_user(spec_upsert(s, u), id),
    ensures
        has_user(s, id) || id == u.id,
    decreases s.len(),
{
    let r = spec_upsert(s, u);
    if s.len() == 0 {
        assert(r == seq![u]);
    } else if s[0].id == u.id {
        let k = choose|i: int| 0 <= i < r.len() && r[i].id == id;
        if k == 0 {
        } else {
            assert(r[k] == s.drop_first()[k - 1]);
            assert(s[k] == s.drop_first()[k - 1]);
        }
    } else {
        let k = choose|i: int| 0 <= i < r.len() && r[i].id == id;
        if k == 0 {
            assert(s[0].id == id);
        } else {
            assert(r[k] == spec_upsert(s.drop_first(), u)[k - 1]);
            lemma_upsert_ids(s.drop_first(), u, id);
            if has_user(s.drop_first(), id) {
                let j = choose|i: int|
                    0 <= i < s.drop_first().len() && s.drop_first()[i].id == id;
                assert(s[j + 1].id == id);
            }
        }
    }
}

/// The presence law: after an upsert the ids are still distinct, the
/// upserted id holds exactly the newly written record, and every other id
/// reads as before. So any sequence of joins leaves one record per distinct
/// user id, holding the most recently upserted fields.
pub proof fn lemma_upsert_law(s: Seq<UserV>, u: UserV)
    requires
        pres_wf(s),
    ensures
        pres_wf(spec_upsert(s, u)),
        lookup(spec_upsert(s, u), u.id) == Some(u),
        forall|id: Seq<char>|
            id != u.id ==> #[trigger] lookup(spec_upsert(s, u), id) == lookup(s, id),
    decreases s.len(),
{
    let r = spec_upsert(s, u);
    if s.len() == 0 {
        assert(r == seq![u]);
        assert(r.drop_first() =~= Seq::<UserV>::empty());
        assert forall|id: Seq<char>| id != u.id
            implies #[trigger] lookup(r, id) == lookup(s, id) by {
            assert(lookup(r, id) == lookup(r.drop_first(), id));
        }
    } else if s[0].id == u.id {
        assert(r == seq![u] + s.drop_first());
        assert(r[0] == u);
        assert(r.drop_first() =~= s.drop_first());
        lemma_wf_drop_first(s);
        assert forall|i: int, j: int|
            0 <= i < r.len() && 0 <= j < r.len() && i != j
            implies r[i].id != r[j].id by {
            if i == 0 {
                assert(r[j] == s[j]);
            } else if j == 0 {
                assert(r[i] == s[i]);
            } else {
                assert(r[i] == s[i]);
                assert(r[j] == s[j]);
            }
        }
        assert forall|id: Seq<char>| id != u.id
            implies #[trigger] lookup(r, id) == lookup(s, id) by {
            assert(lookup(r, id) == lookup(r.drop_first(), id));
            assert(lookup(s, id) == lookup(s.drop_first(), id));
        }
    } else {
        lemma_wf_drop_first(s);
        lemma_upsert_law(s.drop_first(), u);
        let rest = spec_upsert(s.drop_first(), u);
        assert(r == seq![s[0]] + rest);
        assert(r[0] == s[0]);
        assert(r.drop_first() =~= rest);
        assert forall|i: int, j: int|
            0 <= i < r.len() && 0 <= j < r.len() && i != j
            implies r[i].id != r[j].id by {
            if i > 0 && j > 0 {
                assert(r[i] == rest[i - 1]);
                assert(r[j] == rest[j - 1]);
            } else if i == 0 && j > 0 {
                assert(r[j] == rest[j - 1]);
                if r[j].id == s[0].id {
                    lemma_upsert_ids(s.drop_first(), u, s[0].id);
                    if has_user(s.drop_first(), s[0].id) {
                        let m = choose|t: int|
                            0 <= t < s.drop_first().len() && s.drop_first()[t].id == s[0].id;
                        assert(s[m + 1].id == s[0].id);
                    }
                }
            } else if j == 0 && i > 0 {
                assert(r[i] == rest[i - 1]);
                if r[i].id == s[0].id {
                    lemma_upsert_ids(s.drop_first(), u, s[0].id);
                    if has_user(s.drop_first(), s[0].id) {
                        let m = choose|t: int|
                            0 <= t < s.drop_first().len() && s.drop_first()[t].id == s[0].id;
                        assert(s[m + 1].id == s[0].id);
                    }
                }
            }
        }
        assert(lookup(r, u.id) == lookup(rest, u.id));
        assert forall|id: Seq<char>| id != u.id
            implies #[trigger] lookup(r, id) == lookup(s, id) by {
            if id == s[0].id {
            } else {
                assert(lookup(r, id) == lookup(rest, id));
                assert(lookup(s, id) == lookup(s.drop_first(), id));
            }
        }
    }
}

/// The store after a whole sequence of upserts, applied in order.
pub open spec fn spec_upsert_all(s: Seq<UserV>, us: Seq<UserV>) -> Seq<UserV>
    decreases us.len(),
{
    if us.len() == 0 {
        s
    } else {
        spec_upsert_all(spec_upsert(s, us[0]), us.drop_first())
    }
}

/// The most recent record in `us` bearing `id`: a later element of `us`
/// takes precedence over an earlier one.
pub open spec fn last_with_id(us: Seq<UserV>, id: Seq<char>) -> Option<UserV>
    decreases us.len(),
{
    if us.len() == 0 {
        None
    } else {
        match last_with_id(us.drop_first(), id) {
            Some(u) => Some(u),
            None => if us[0].id == id {
                Some(us[0])
            } else {
                None
            },
        }
    }
}

/// The presence law over whole join sequences: after any finite sequence
/// of upserts the ids are still distinct, and every id reads as the most
/// recently upserted record bearing it — or as it read before, when the
/// sequence never bore it. From an empty store this is exactly one record
/// per distinct user id, holding the most recently upserted fields.
pub proof fn lemma_join_sequence(s: Seq<UserV>, us: Seq<UserV>)
    requires
        pres_wf(s),
    ensures
        pres_wf(spec_upsert_all(s, us)),
        forall|id: Seq<char>|
            #[trigger] lookup(spec_upsert_all(s, us), id) == (match last_with_id(us, id) {
                Some(u) => Some(u),
                None => lookup(s, id),
            }),
    decreases us.len(),
{
    if us.len() == 0 {
    } else {
        lemma_upsert_law(s, us[0]);
        lemma_join_sequence(spec_upsert(s, us[0]), us.drop_first());
        let r = spec_upsert_all(s, us);
        assert forall|id: Seq<char>|
            #[trigger] lookup(r, id) == (match last_with_id(us, id) {
                Some(u) => Some(u),
                None => lookup(s, id),
            }) by {
            match last_with_id(us.drop_first(), id) {
                Some(_) => {
                },
                None => {
                    assert(lookup(r, id) == lookup(spec_upsert(s, us[0]), id));
                    if id == us[0].id {
                        assert(lookup(spec_upsert(s, us[0]), us[0].id) == Some(us[0]));
                    } else {
                        assert(lookup(spec_upsert(s, us[0]), id) == lookup(s, id));
                    }
                },
            }
        }
    }
}

/// At the first index sharing the id, an upsert is an update in place.
proof fn lemma_upsert_at(s: Seq<UserV>, u: UserV, k: int)
    requires
        0 <= k < s.len(),
        s[k].id == u.id,
        forall|j: int| 0 <= j < k ==> (#[trigger] s[j]).id != u.id,
    ensures
        spec_upsert(s, u) == s.update(k, u),
    decreases k,
{
    if k == 0 {
        assert_seqs_equal!(seq![u] + s.drop_first() == s.update(0, u));
    } else {
        assert(s[0].id != u.id);
        assert(s.drop_first()[k - 1].id == u.id);
        assert forall|j: int| 0 <= j < k - 1
            implies (#[trigger] s.drop_first()[j]).id != u.id by {
            assert(s.drop_first()[j] == s[j + 1]);
        }
        lemma_upsert_at(s.drop_first(), u, k - 1);
        assert_seqs_equal!(seq![s[0]] + s.drop_first().update(k - 1, u) == s.update(k, u));
    }
}

/// When the id is absent, an upsert is an append.
proof fn lemma_upsert_absent(s: Seq<UserV>, u: UserV)
    requires
        !has_user(s, u.id),
    ensures
        spec_upsert(s, u) == s.push(u),
    decreases s.len(),
{
    if s.len() == 0 {
        assert_seqs_equal!(seq![u] == s.push(u));
    } else {
        assert(s[0].id != u.id);
        assert forall|i: int| 0 <= i < s.drop_first().len()
            implies s.drop_first()[i].id != u.id by {
            assert(s.drop_first()[i] == s[i + 1]);
        }
        lemma_upsert_absent(s.drop_first(), u);
        assert_seqs_equal!(seq![s[0]] + s.drop_first().push(u) == s.push(u));
    }
}

/// The store of known users.
pub struct PresenceStore {
    users: Vec<User>,
}

impl View for PresenceStore {
    type V = Seq<UserV>;

    closed spec fn view(&self) -> Seq<UserV> {
        Seq::new(self.users@.len(), |i: int| self.users@[i]@)
    }
}

impl PresenceStore {
    /// An empty store.
    pub fn new() -> (r: PresenceStore)
        ensures
            r@ == Seq::<UserV>::empty(),
    {
        let r = PresenceStore { users: Vec::new() };
        proof {
            assert_seqs_equal!(r@ == Seq::<UserV>::empty());
        }
        r
    }

    /// Inserts or overwrites the record for `u.id`.
    pub fn upsert(&mut self, u: User)
        ensures
            final(self)@ == spec_upsert(old(self)@, u@),
    {
        let ghost orig: Seq<UserV> = self@;
        let n = self.users.len();
        let mut i: usize = 0;
        while i < n
            invariant
                i <= n,
                n == self.users.len(),
                orig == old(self)@,
                self@ == orig,
                forall|j: int| 0 <= j < i ==> (#[trigger] orig[j]).id != u@.id,
            decreases n - i,
        {
            let hit = self.users[i].id == u.id;
            proof {
                assert(orig[i as int].id == self.users@[i as int]@.id);
            }
            if hit {
                self.users.remove(i);
                self.users.insert(i, u);
                proof {
                    lemma_upsert_at(orig, u@, i as int);
                    assert_seqs_equal!(self@ == orig.update(i as int, u@));
                }
                return;
            }
            i += 1;
        }
        self.users.push(u);
        proof {
            lemma_upsert_absent(orig, u@);
            assert_seqs_equal!(self@ == orig.push(u@));
        }
    }

    /// The record held for `id`, if any.
    pub fn get(&self, id: &String) -> (r: Option<&User>)
        ensures
            match r {
                Some(u) => lookup(self@, id@) == Some(u@),
                None => lookup(self@, id@) is None,
            },
    {
        let n = self.users.len();
        let mut i: usize = 0;
        while i < n
            invariant
                i <= n,
                n == self.users.len(),
                forall|j: int| 0 <= j < i ==> (#[trigger] self@[j]).id != id@,
            decreases n - i,
        {
            let hit = self.users[i].id.eq(id);
            proof {
                assert(self@[i as int].id == self.users@[i as int]@.id);
            }
            if hit {
                proof {
                    lemma_lookup_at(self@, id@, i as int);
                }
                return Some(&self.users[i]);
            }
            i += 1;
        }
        proof {
            lemma_lookup_absent(self@, id@);
        }
        None
    }

    /// The number of records held.
    pub fn len(&self) -> (r: usize)
        ensures
            r == self@.len(),
    {
        self.users.len()
    }

    /// The record at position `i`, for iteration by the host.
    pub fn user_at(&self, i: usize) -> (r: &User)
        requires
            i < self@.len(),
        ensures
            r@ == self@[i as int],
    {
        &self.users[i]
    }
}

/// At the first index holding `id`, lookup returns that record.
proof fn lemma_lookup_at(s: Seq<UserV>, id: Seq<char>, k: int)
    requires
        0 <= k < s.len(),
        s[k].id == id,
        forall|j: int| 0 <= j < k ==> (#[trigger] s[j]).id != id,
    ensures
        lookup(s, id) == Some(s[k]),
    decreases k,
{
    if k == 0 {
    } else {
        assert(s[0].id != id);
        assert(s.drop_first()[k - 1].id == id);
        assert forall|j: int| 0 <= j < k - 1
            implies (#[trigger] s.drop_first()[j]).id != id by {
            assert(s.drop_first()[j] == s[j + 1]);
        }
        lemma_lookup_at(s.drop_first(), id, k - 1);
    }
}

/// An absent id has no record.
proof fn lemma_lookup_absent(s: Seq<UserV>, id: Seq<char>)
    requires
        forall|j: int| 0 <= j < s.len() ==> (#[trigger] s[j]).id != id,
    ensures
        lookup(s, id) is None,
    decreases s.len(),
{
    if s.len() == 0 {
    } else {
        assert forall|j: int| 0 <= j < s.drop_first().len()
            implies (#[trigger] s.drop_first()[j]).id != id by {
            assert(s.drop_first()[j] == s[j + 1]);
        }
        lemma_lookup_absent(s.drop_first(), id);
    }
}

} // verus!
