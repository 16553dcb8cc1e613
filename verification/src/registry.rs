//! The session registry: the set of live sessions, each with its FIFO queue
//! of serialized outbound frames. Fan-out appends one frame to every queue;
//! removal filters a session out and is a no-op when the id is absent.

use vstd::prelude::*;
use vstd::assert_seqs_equal;

verus! {

/// Sequence of frame views held by a queue of serialized frames.
pub open spec fn frames(q: Seq<String>) -> Seq<Seq<char>> {
    Seq::new(q.len(), |i: int| q[i]@)
}

/// One live session: its id and its outbound delivery queue.
pub struct Session {
    pub id: u64,
    pub queue: Vec<String>,
}

/// Mathematical image of a `Session`.
#[verifier::ext_equal]
pub struct SessionV {
    pub id: u64,
    pub queue: Seq<Seq<char>>,
}

impl View for Session {
    type V = SessionV;

    open spec fn view(&self) -> SessionV {
        SessionV { id: self.id, queue: frames(self.queue@) }
    }
}

/// True when some session in `s` has id `id`.
pub open spec fn has_session(s: Seq<SessionV>, id: u64) -> bool {
    exists|i: int| 0 <= i < s.len() && s[i].id == id
}

/// All session ids in `s` are distinct.
pub open spec fn reg_wf(s: Seq<SessionV>) -> bool {
    forall|i: int, j: int|
        0 <= i < s.len() && 0 <= j < s.len() && i != j ==> s[i].id != s[j].id
}

/// All session ids in `s` lie below `n`.
pub open spec fn ids_below(s: Seq<SessionV>, n: u64) -> bool {
    forall|i: int| 0 <= i < s.len() ==> s[i].id < n
}

/// `s` with every session whose id is `id` filtered out.
pub open spec fn spec_remove(s: Seq<SessionV>, id: u64) -> Seq<SessionV>
    decreases s.len(),
{
    if s.len() == 0 {
        s
    } else if s[0].id == id {
        spec_remove(s.drop_first(), id)
    } else {
        seq![s[0]] + spec_remove(s.drop_first(), id)
    }
}

/// Every queue in `s` with `f` appended: one broadcast fan-out pass.
pub open spec fn spec_fanout(s: Seq<SessionV>, f: Seq<char>) -> Seq<SessionV> {
    Seq::new(s.len(), |i: int| SessionV { id: s[i].id, queue: s[i].queue.push(f) })
}

/// The queue of the first session in `s` with id `id`; empty when absent.
pub open spec fn queue_of(s: Seq<SessionV>, id: u64) -> Seq<Seq<char>>
    decreases s.len(),
{
    if s.len() == 0 {
        Seq::<Seq<char>>::empty()
    } else if s[0].id == id {
        s[0].queue
    } else {
        queue_of(s.drop_first(), id)
    }
}

/// `s` with the queue of the first session with id `id` emptied.
pub open spec fn spec_clear(s: Seq<SessionV>, id: u64) -> Seq<SessionV>
    decreases s.len(),
{
    if s.len() == 0 {
        s
    } else if s[0].id == id {
        seq![SessionV { id, queue: Seq::<Seq<char>>::empty() }] + s.drop_first()
    } else {
        seq![s[0]] + spec_clear(s.drop_first(), id)
    }
}

/// Removal eliminates the id entirely.
pub proof fn lemma_remove_not_present(s: Seq<SessionV>, id: u64)
    ensures
        !has_session(spec_remove(s, id), id),
    decreases s.len(),
{
    if s.len() == 0 {
    } else if s[0].id == id {
        lemma_remove_not_present(s.drop_first(), id);
    } else {
        lemma_remove_not_present(s.drop_first(), id);
        let r = seq![s[0]] + spec_remove(s.drop_first(), id);
        assert forall|i: int| 0 <= i < r.len() implies r[i].id != id by {
            if i > 0 {
                assert(r[i] == spec_remove(s.drop_first(), id)[i - 1]);
            }
        }
    }
}

/// Removing an absent id changes nothing.
pub proof fn lemma_remove_absent(s: Seq<SessionV>, id: u64)
    requires
        !has_session(s, id),
    ensures
        spec_remove(s, id) == s,
    decreases s.len(),
{
    if s.len() == 0 {
    } else {
        assert(s[0].id != id);
        assert forall|i: int| 0 <= i < s.drop_first().len() implies s.drop_first()[i].id != id by {
            assert(s.drop_first()[i] == s[i + 1]);
        }
        lemma_remove_absent(s.drop_first(), id);
        assert_seqs_equal!(seq![s[0]] + s.drop_first() == s);
    }
}

/// Removal is idempotent: a second removal of the same id is a no-op.
pub proof fn lemma_remove_idempotent(s: Seq<SessionV>, id: u64)
    ensures
        spec_remove(spec_remove(s, id), id) == spec_remove(s, id),
{
    lemma_remove_not_present(s, id);
    lemma_remove_absent(spec_remove(s, id), id);
}

/// Whatever removal keeps was already present.
pub proof fn lemma_remove_subset(s: Seq<SessionV>, id: u64)
    ensures
        forall|i: int|
            0 <= i < spec_remove(s, id).len() ==> exists|j: int|
                0 <= j < s.len() && s[j] == #[trigger] spec_remove(s, id)[i],
    decreases s.len(),
{
    if s.len() == 0 {
    } else {
        lemma_remove_subset(s.drop_first(), id);
        let rest = spec_remove(s.drop_first(), id);
        if s[0].id == id {
            assert forall|i: int| 0 <= i < rest.len() implies exists|j: int|
                0 <= j < s.len() && s[j] == #[trigger] rest[i] by {
                let j0 = choose|j: int|
                    0 <= j < s.drop_first().len() && s.drop_first()[j] == rest[i];
                assert(s[j0 + 1] == rest[i]);
            }
        } else {
            let r = seq![s[0]] + rest;
            assert forall|i: int| 0 <= i < r.len() implies exists|j: int|
                0 <= j < s.len() && s[j] == #[trigger] r[i] by {
                if i == 0 {
                    assert(s[0] == r[0]);
                } else {
                    let j0 = choose|j: int|
                        0 <= j < s.drop_first().len() && s.drop_first()[j] == rest[i - 1];
                    assert(s[j0 + 1] == r[i]);
                }
            }
        }
    }
}

/// Bounded ids stay bounded under removal.
pub proof fn lemma_remove_ids_below(s: Seq<SessionV>, id: u64, n: u64)
    requires
        ids_below(s, n),
    ensures
        ids_below(spec_remove(s, id), n),
{
    lemma_remove_subset(s, id);
    assert forall|i: int| 0 <= i < spec_remove(s, id).len()
        implies spec_remove(s, id)[i].id < n by {
        let j = choose|j: int| 0 <= j < s.len() && s[j] == spec_remove(s, id)[i];
        assert(s[j].id < n);
    }
}

/// Distinct ids stay distinct under removal.
pub proof fn lemma_remove_wf(s: Seq<SessionV>, id: u64)
    requires
        reg_wf(s),
    ensures
        reg_wf(spec_remove(s, id)),
    decreases s.len(),
{
    if s.len() == 0 {
    } else {
        assert(reg_wf(s.drop_first())) by {
            assert forall|i: int, j: int|
                0 <= i < s.drop_first().len() && 0 <= j < s.drop_first().len() && i != j
                implies s.drop_first()[i].id != s.drop_first()[j].id by {
                assert(s.drop_first()[i] == s[i + 1]);
                assert(s.drop_first()[j] == s[j + 1]);
            }
        }
        lemma_remove_wf(s.drop_first(), id);
        if s[0].id == id {
        } else {
            let rest = spec_remove(s.drop_first(), id);
            lemma_remove_subset(s.drop_first(), id);
            let r = seq![s[0]] + rest;
            assert forall|i: int, j: int|
                0 <= i < r.len() && 0 <= j < r.len() && i != j
                implies r[i].id != r[j].id by {
                if i == 0 && j > 0 {
                    let j0 = choose|k: int|
                        0 <= k < s.drop_first().len() && s.drop_first()[k] == rest[j - 1];
                    assert(s[j0 + 1] == r[j]);
                } else if j == 0 && i > 0 {
                    let i0 = choose|k: int|
                        0 <= k < s.drop_first().len() && s.drop_first()[k] == rest[i - 1];
                    assert(s[i0 + 1] == r[i]);
                } else if i > 0 && j > 0 {
                    assert(r[i] == rest[i - 1]);
                    assert(r[j] == rest[j - 1]);
                }
            }
        }
    }
}

/// The registry of live sessions.
pub struct SessionRegistry {
    sessions: Vec<Session>,
}

impl View for SessionRegistry {
    type V = Seq<SessionV>;

    closed spec fn view(&self) -> Seq<SessionV> {
        Seq::new(self.sessions@.len(), |i: int| self.sessions@[i]@)
    }
}

impl SessionRegistry {
    /// An empty registry.
    pub fn new() -> (r: SessionRegistry)
        ensures
            r@ == Seq::<SessionV>::empty(),
    {
        let r = SessionRegistry { sessions: Vec::new() };
        proof {
            assert_seqs_equal!(r@ == Seq::<SessionV>::empty());
        }
        r
    }

    /// Removes every session with id `id`; a no-op when the id is absent.
    pub fn unregister(&mut self, id: u64)
        ensures
            final(self)@ == spec_remove(old(self)@, id),
    {
        let ghost orig: Seq<SessionV> = self@;
        let mut kept: Vec<Session> = Vec::new();
        while self.sessions.len() > 0
            invariant
                spec_remove(orig, id) == Seq::new(kept@.len(), |i: int| kept@[i]@)
                    + spec_remove(self@, id),
                forall|i: int| 0 <= i < kept@.len() ==> (#[trigger] kept@[i]@).id != id,
            decreases self.sessions.len(),
        {
            let ghost pre: Seq<SessionV> = self@;
            let s = self.sessions.remove(0);
            proof {
                assert_seqs_equal!(self@ == pre.drop_first());
            }
            if s.id != id {
                let ghost kv: Seq<SessionV> = Seq::new(kept@.len(), |i: int| kept@[i]@);
                kept.push(s);
                proof {
                    assert_seqs_equal!(
                        Seq::new(kept@.len(), |i: int| kept@[i]@) == kv.push(pre[0])
                    );
                    assert_seqs_equal!(
                        kv.push(pre[0]) + spec_remove(pre.drop_first(), id)
                            == kv + (seq![pre[0]] + spec_remove(pre.drop_first(), id))
                    );
                }
            }
        }
        self.sessions = kept;
        proof {
            assert_seqs_equal!(
                spec_remove(orig, id) == Seq::new(self.sessions@.len(), |i: int| self.sessions@[i]@)
                    + spec_remove(Seq::<SessionV>::empty(), id)
            );
            assert_seqs_equal!(self@ == spec_remove(orig, id));
        }
    }

    /// Registers `id` with a fresh empty queue, silently replacing any
    /// session already held under the same id.
    pub fn register(&mut self, id: u64)
        ensures
            final(self)@ == spec_remove(old(self)@, id).push(
                SessionV { id, queue: Seq::<Seq<char>>::empty() },
            ),
    {
        self.unregister(id);
        let ghost mid: Seq<SessionV> = self@;
        self.sessions.push(Session { id, queue: Vec::new() });
        proof {
            assert(frames(Seq::<String>::empty()) =~= Seq::<Seq<char>>::empty());
            assert_seqs_equal!(
                self@ == mid.push(SessionV { id, queue: Seq::<Seq<char>>::empty() })
            );
        }
    }

    /// Appends the frame to every registered session's queue: one fan-out
    /// pass of the broadcast engine.
    pub fn enqueue_all(&mut self, frame: &String)
        ensures
            final(self)@ == spec_fanout(old(self)@, frame@),
    {
        let ghost orig: Seq<SessionV> = self@;
        let mut kept: Vec<Session> = Vec::new();
        while self.sessions.len() > 0
            invariant
                kept@.len() + self@.len() == orig.len(),
                forall|i: int| 0 <= i < kept@.len()
                    ==> #[trigger] kept@[i]@ == spec_fanout(orig, frame@)[i],
                forall|i: int| 0 <= i < self@.len()
                    ==> #[trigger] self@[i] == orig[kept@.len() + i],
            decreases self.sessions.len(),
        {
            let ghost pre: Seq<SessionV> = self@;
            let ghost k: int = kept@.len() as int;
            let mut s = self.sessions.remove(0);
            proof {
                assert_seqs_equal!(self@ == pre.drop_first());
            }
            proof {
                assert(pre[0] == orig[k]);
            }
            let ghost qv: Seq<Seq<char>> = s@.queue;
            s.queue.push(frame.clone());
            proof {
                assert_seqs_equal!(s@.queue == qv.push(frame@));
                assert(s@ =~= SessionV { id: orig[k].id, queue: orig[k].queue.push(frame@) });
                assert(spec_fanout(orig, frame@)[k] == SessionV { id: orig[k].id, queue: orig[k].queue.push(frame@) });
            }
            kept.push(s);
        }
        self.sessions = kept;
        proof {
            assert_seqs_equal!(self@ == spec_fanout(orig, frame@));
        }
    }

    /// Appends the frame to the queue of the first session with id `id`
    /// only; every other session is untouched. The one unicast in the
    /// design: the welcome event.
    pub fn enqueue_to(&mut self, id: u64, frame: &String)
        ensures
            final(self)@ == spec_append_to(old(self)@, id, frame@),
    {
        let ghost orig: Seq<SessionV> = self@;
        let mut kept: Vec<Session> = Vec::new();
        let mut done: bool = false;
        while self.sessions.len() > 0
            invariant
                spec_append_to(orig, id, frame@) == Seq::new(kept@.len(), |i: int| kept@[i]@)
                    + (if done { self@ } else { spec_append_to(self@, id, frame@) }),
            decreases self.sessions.len(),
        {
            let ghost pre: Seq<SessionV> = self@;
            let ghost kv: Seq<SessionV> = Seq::new(kept@.len(), |i: int| kept@[i]@);
            let mut s = self.sessions.remove(0);
            proof {
                assert_seqs_equal!(self@ == pre.drop_first());
            }
            if !done && s.id == id {
                let ghost qv: Seq<Seq<char>> = s@.queue;
                s.queue.push(frame.clone());
                proof {
                    assert_seqs_equal!(s@.queue == qv.push(frame@));
                    assert(s@ =~= SessionV { id: pre[0].id, queue: pre[0].queue.push(frame@) });
                }
                done = true;
                kept.push(s);
                proof {
                    assert_seqs_equal!(
                        Seq::new(kept@.len(), |i: int| kept@[i]@) == kv.push(pre[0].fanned(frame@))
                    );
                    assert_seqs_equal!(
                        kv.push(pre[0].fanned(frame@)) + pre.drop_first()
                            == kv + (seq![pre[0].fanned(frame@)] + pre.drop_first())
                    );
                }
            } else {
                let ghost was_done: bool = done;
                kept.push(s);
                proof {
                    assert_seqs_equal!(
                        Seq::new(kept@.len(), |i: int| kept@[i]@) == kv.push(pre[0])
                    );
                    if was_done {
                        assert_seqs_equal!(
                            kv.push(pre[0]) + pre.drop_first()
                                == kv + (seq![pre[0]] + pre.drop_first())
                        );
                    } else {
                        assert_seqs_equal!(
                            kv.push(pre[0]) + spec_append_to(pre.drop_first(), id, frame@)
                                == kv + (seq![pre[0]] + spec_append_to(pre.drop_first(), id, frame@))
                        );
                    }
                }
            }
        }
        self.sessions = kept;
        proof {
            if !done {
                assert(spec_append_to(Seq::<SessionV>::empty(), id, frame@)
                    =~= Seq::<SessionV>::empty());
            }
            assert_seqs_equal!(
                spec_append_to(orig, id, frame@)
                    == Seq::new(self.sessions@.len(), |i: int| self.sessions@[i]@)
            );
            assert_seqs_equal!(self@ == spec_append_to(orig, id, frame@));
        }
    }

    /// Drains and returns the queue of the first session with id `id`;
    /// returns an empty sequence when the id is absent.
    pub fn take(&mut self, id: u64) -> (r: Vec<String>)
        ensures
            frames(r@) == queue_of(old(self)@, id),
            final(self)@ == spec_clear(old(self)@, id),
            final(self)@.len() == old(self)@.len(),
            forall|i: int| 0 <= i < old(self)@.len()
                ==> (#[trigger] final(self)@[i]).id == old(self)@[i].id,
    {
        let ghost orig: Seq<SessionV> = self@;
        let n = self.sessions.len();
        let mut i: usize = 0;
        while i < n
            invariant
                i <= n,
                n == self.sessions.len(),
                orig == old(self)@,
                self@ == orig,
                forall|j: int| 0 <= j < i ==> (#[trigger] orig[j]).id != id,
            decreases n - i,
        {
            let hit = self.sessions[i].id == id;
            proof {
                assert(orig[i as int].id == self.sessions@[i as int].id);
            }
            if hit {
                let s = self.sessions.remove(i);
                proof {
                    assert(s@ == orig[i as int]);
                }
                let Session { id: sid, queue: q } = s;
                proof {
                    lemma_clear_at(orig, id, i as int);
                    lemma_queue_at(orig, id, i as int);
                    assert(frames(q@) == orig[i as int].queue);
                }
                let fresh = Session { id: sid, queue: Vec::new() };
                proof {
                    assert(fresh@ =~= SessionV { id, queue: Seq::<Seq<char>>::empty() }) by {
                        assert_seqs_equal!(frames(Seq::<String>::empty()) == Seq::<Seq<char>>::empty());
                    }
                }
                self.sessions.insert(i, fresh);
                proof {
                    assert_seqs_equal!(self@ == orig.update(i as int, SessionV { id, queue: Seq::<Seq<char>>::empty() }));
                    assert(frames(q@) == queue_of(orig, id));
                    assert(self@ == spec_clear(orig, id));
                }
                return q;
            }
            i += 1;
        }
        proof {
            lemma_clear_absent(orig, id);
            lemma_queue_absent(orig, id);
            assert_seqs_equal!(frames(Seq::<String>::empty()) == Seq::<Seq<char>>::empty());
        }
        Vec::new()
    }

    /// The ids of all registered sessions, in registry order.
    pub fn ids(&self) -> (r: Vec<u64>)
        ensures
            r@.len() == self@.len(),
            forall|i: int| 0 <= i < r@.len() ==> r@[i] == self@[i].id,
    {
        let n = self.sessions.len();
        let mut r: Vec<u64> = Vec::new();
        let mut i: usize = 0;
        while i < n
            invariant
                i <= n,
                n == self.sessions.len(),
                r@.len() == i,
                forall|j: int| 0 <= j < i ==> r@[j] == self@[j].id,
            decreases n - i,
        {
            r.push(self.sessions[i].id);
            i += 1;
        }
        r
    }

    /// Whether a session with id `id` is registered.
    pub fn contains(&self, id: u64) -> (r: bool)
        ensures
            r == has_session(self@, id),
    {
        let n = self.sessions.len();
        let mut i: usize = 0;
        while i < n
            invariant
                i <= n,
                n == self.sessions.len(),
                forall|j: int| 0 <= j < i ==> (#[trigger] self@[j]).id != id,
            decreases n - i,
        {
            if self.sessions[i].id == id {
                proof {
                    assert(self@[i as int].id == id);
                }
                return true;
            }
            proof {
                assert(self@[i as int].id != id);
            }
            i += 1;
        }
        false
    }

    /// The number of registered sessions.
    pub fn len(&self) -> (r: usize)
        ensures
            r == self@.len(),
    {
        self.sessions.len()
    }
}

impl SessionV {
    /// This session with `f` appended to its queue.
    pub open spec fn fanned(self, f: Seq<char>) -> SessionV {
        SessionV { id: self.id, queue: self.queue.push(f) }
    }
}

/// `s` with `f` appended to the queue of the first session with id `id`.
pub open spec fn spec_append_to(s: Seq<SessionV>, id: u64, f: Seq<char>) -> Seq<SessionV>
    decreases s.len(),
{
    if s.len() == 0 {
        s
    } else if s[0].id == id {
        seq![s[0].fanned(f)] + s.drop_first()
    } else {
        seq![s[0]] + spec_append_to(s.drop_first(), id, f)
    }
}

/// At the first index holding `id`, clearing empties exactly that queue.
proof fn lemma_clear_at(s: Seq<SessionV>, id: u64, k: int)
    requires
        0 <= k < s.len(),
        s[k].id == id,
        forall|j: int| 0 <= j < k ==> (#[trigger] s[j]).id != id,
    ensures
        spec_clear(s, id) == s.update(k, SessionV { id, queue: Seq::<Seq<char>>::empty() }),
    decreases k,
{
    if k == 0 {
        assert_seqs_equal!(
            seq![SessionV { id, queue: Seq::<Seq<char>>::empty() }] + s.drop_first()
                == s.update(0, SessionV { id, queue: Seq::<Seq<char>>::empty() })
        );
    } else {
        assert(s[0].id != id);
        assert(s.drop_first()[k - 1].id == id);
        assert forall|j: int| 0 <= j < k - 1 implies (#[trigger] s.drop_first()[j]).id != id by {
            assert(s.drop_first()[j] == s[j + 1]);
        }
        lemma_clear_at(s.drop_first(), id, k - 1);
        assert_seqs_equal!(
            seq![s[0]] + s.drop_first().update(k - 1, SessionV { id, queue: Seq::<Seq<char>>::empty() })
                == s.update(k, SessionV { id, queue: Seq::<Seq<char>>::empty() })
        );
    }
}

/// At the first index holding `id`, the queue of `id` is that session's.
proof fn lemma_queue_at(s: Seq<SessionV>, id: u64, k: int)
    requires
        0 <= k < s.len(),
        s[k].id == id,
        forall|j: int| 0 <= j < k ==> (#[trigger] s[j]).id != id,
    ensures
        queue_of(s, id) == s[k].queue,
    decreases k,
{
    if k == 0 {
    } else {
        assert(s[0].id != id);
        assert(s.drop_first()[k - 1].id == id);
        assert forall|j: int| 0 <= j < k - 1 implies (#[trigger] s.drop_first()[j]).id != id by {
            assert(s.drop_first()[j] == s[j + 1]);
        }
        lemma_queue_at(s.drop_first(), id, k - 1);
    }
}

/// Clearing an absent id changes nothing.
proof fn lemma_clear_absent(s: Seq<SessionV>, id: u64)
    requires
        !has_session(s, id),
    ensures
        spec_clear(s, id) == s,
    decreases s.len(),
{
    if s.len() == 0 {
    } else {
        assert(s[0].id != id);
        assert forall|i: int| 0 <= i < s.drop_first().len()
            implies s.drop_first()[i].id != id by {
            assert(s.drop_first()[i] == s[i + 1]);
        }
        lemma_clear_absent(s.drop_first(), id);
        assert_seqs_equal!(seq![s[0]] + s.drop_first() == s);
    }
}

/// Registering a fresh id and then appending a frame to it alone leaves
/// every other session untouched and gives the new session exactly that
/// one frame.
pub proof fn lemma_append_to_fresh(s: Seq<SessionV>, id: u64, f: Seq<char>)
    requires
        !has_session(s, id),
    ensures
        spec_append_to(s.push(SessionV { id, queue: Seq::<Seq<char>>::empty() }), id, f)
            == s.push(SessionV { id, queue: seq![f] }),
    decreases s.len(),
{
    let x = SessionV { id, queue: Seq::<Seq<char>>::empty() };
    let p = s.push(x);
    if s.len() == 0 {
        assert(p[0].id == id);
        assert(p[0].fanned(f) =~= SessionV { id, queue: seq![f] });
        assert_seqs_equal!(
            seq![p[0].fanned(f)] + p.drop_first() == s.push(SessionV { id, queue: seq![f] })
        );
    } else {
        assert(p[0] == s[0]);
        assert(s[0].id != id);
        assert(p.drop_first() =~= s.drop_first().push(x));
        assert forall|i: int| 0 <= i < s.drop_first().len()
            implies s.drop_first()[i].id != id by {
            assert(s.drop_first()[i] == s[i + 1]);
        }
        lemma_append_to_fresh(s.drop_first(), id, f);
        assert_seqs_equal!(
            seq![s[0]] + s.drop_first().push(SessionV { id, queue: seq![f] })
                == s.push(SessionV { id, queue: seq![f] })
        );
    }
}

/// The broadcast law: one fan-out pass reaches every session registered at
/// issue time — each queue gains exactly the issued frame at its end — and
/// no session beyond those registered, since the session set is unchanged.
pub proof fn lemma_broadcast_delivers(s: Seq<SessionV>, f: Seq<char>)
    ensures
        spec_fanout(s, f).len() == s.len(),
        forall|i: int| 0 <= i < s.len()
            ==> (#[trigger] spec_fanout(s, f)[i]).id == s[i].id,
        forall|i: int| 0 <= i < s.len()
            ==> (#[trigger] spec_fanout(s, f)[i]).queue == s[i].queue.push(f),
{
}

/// The ordering law: two broadcasts issued in sequence land in every
/// session's queue in issue order, after everything already queued.
pub proof fn lemma_fifo_order(s: Seq<SessionV>, f1: Seq<char>, f2: Seq<char>, i: int)
    requires
        0 <= i < s.len(),
    ensures
        spec_fanout(spec_fanout(s, f1), f2)[i].queue == s[i].queue + seq![f1, f2],
        spec_fanout(spec_fanout(s, f1), f2)[i].id == s[i].id,
{
    assert(spec_fanout(spec_fanout(s, f1), f2)[i].queue =~= s[i].queue + seq![f1, f2]);
}

/// The pruning law: a session removed from the registry is not registered
/// and stays unregistered under any later broadcast, so it receives none
/// of them.
pub proof fn lemma_removed_receives_nothing(s: Seq<SessionV>, id: u64, f: Seq<char>)
    ensures
        !has_session(spec_remove(s, id), id),
        !has_session(spec_fanout(spec_remove(s, id), f), id),
{
    lemma_remove_not_present(s, id);
    let r = spec_remove(s, id);
    if has_session(spec_fanout(r, f), id) {
        let i = choose|i: int| 0 <= i < spec_fanout(r, f).len() && spec_fanout(r, f)[i].id == id;
        assert(r[i].id == id);
    }
}

/// An absent id has an empty queue.
proof fn lemma_queue_absent(s: Seq<SessionV>, id: u64)
    requires
        !has_session(s, id),
    ensures
        queue_of(s, id) == Seq::<Seq<char>>::empty(),
    decreases s.len(),
{
    if s.len() == 0 {
    } else {
        assert(s[0].id != id);
        assert forall|i: int| 0 <= i < s.drop_first().len()
            implies s.drop_first()[i].id != id by {
            assert(s.drop_first()[i] == s[i + 1]);
        }
        lemma_queue_absent(s.drop_first(), id);
    }
}

} // verus!
