//! The relay: session lifecycle, message routing and the broadcast engine,
//! tied together over one state. The host drives it with plain values —
//! inbound frame text, lifecycle notices, clock readings — performs the
//! actual socket work itself, and drains each session's queue through
//! `take_outbound`.

use vstd::prelude::*;
use crate::events::{ClientEvent, ClientEventV, User, UserV, WireEvent, WireEventV};
use crate::json_in::{
    decode_event, gather_of, opt_doc_view, parse_inbound, InboundDoc, InboundDocV, spec_decode,
};
use crate::json_out::{encode_frame, spec_frame};
use crate::presence::{lemma_upsert_law, lookup, pres_wf, spec_upsert, PresenceStore};
use crate::registry::{
    frames, has_session, ids_below, lemma_append_to_fresh, lemma_remove_absent,
    lemma_remove_ids_below, lemma_remove_wf, queue_of, reg_wf, spec_clear, spec_fanout,
    spec_remove, SessionRegistry, SessionV,
};

verus! {

/// The welcome narration sent to a newly registered session alone.
pub open spec fn welcome_text(label: Seq<char>) -> Seq<char> {
    "Welcome to "@ + label + "!"@
}

/// The narration broadcast when a user joins.
pub open spec fn joined_text(name: Seq<char>) -> Seq<char> {
    name + " joined the chat"@
}

/// The narration broadcast when a session closes cleanly.
pub open spec fn left_text() -> Seq<char> {
    "A user left the chat"@
}

/// Pure dispatch by kind: the wire event one client event gives rise to.
pub open spec fn spec_route(e: ClientEventV) -> WireEventV {
    match e {
        ClientEventV::Join { user } => WireEventV::System { text: joined_text(user.name) },
        ClientEventV::Message { text, sender, encrypted } => WireEventV::Message {
            text,
            sender,
            encrypted,
        },
        ClientEventV::File { file_data, sender } => WireEventV::File { file_data, sender },
        ClientEventV::Edit { message_id, new_text, sender, encrypted } => WireEventV::Edited {
            message_id,
            new_text,
            sender,
            encrypted,
        },
        ClientEventV::Delete { message_id, sender } => WireEventV::Deleted { message_id, sender },
    }
}

/// The presence store after a client event: only a join touches it.
pub open spec fn spec_users_after(users: Seq<UserV>, e: ClientEventV) -> Seq<UserV> {
    match e {
        ClientEventV::Join { user } => spec_upsert(users, user),
        _ => users,
    }
}

/// Mathematical image of the whole relay.
#[verifier::ext_equal]
pub struct RelayV {
    pub sessions: Seq<SessionV>,
    pub users: Seq<UserV>,
    pub next_id: u64,
    pub label: Seq<char>,
}

/// The relay state after one decoded client event at time `now`: presence
/// updated on a join, and the routed event — stamped with `now` and
/// serialized — fanned out to every registered session's queue.
pub open spec fn spec_handle(s: RelayV, e: ClientEventV, now: u64) -> RelayV {
    RelayV {
        sessions: spec_fanout(s.sessions, spec_frame(spec_route(e), now)),
        users: spec_users_after(s.users, e),
        next_id: s.next_id,
        label: s.label,
    }
}

/// The relay state after one inbound frame: unparsable or undecodable
/// documents leave the state exactly as it was — the silent drop — and a
/// decoded event is handled.
pub open spec fn spec_apply(s: RelayV, d: Option<InboundDocV>, now: u64) -> RelayV {
    match d {
        None => s,
        Some(doc) => match spec_decode(doc) {
            None => s,
            Some(e) => spec_handle(s, e, now),
        },
    }
}

/// The relay state after a session departs: the session is unregistered,
/// and on a clean close — only then — a leave narration is broadcast to
/// the remaining sessions.
pub open spec fn spec_close(s: RelayV, id: u64, clean: bool, now: u64) -> RelayV {
    let removed = spec_remove(s.sessions, id);
    RelayV {
        sessions: if clean {
            spec_fanout(removed, spec_frame(WireEventV::System { text: left_text() }, now))
        } else {
            removed
        },
        users: s.users,
        next_id: s.next_id,
        label: s.label,
    }
}

/// The broadcast relay.
pub struct Relay {
    registry: SessionRegistry,
    presence: PresenceStore,
    next_id: u64,
    label: String,
}

impl View for Relay {
    type V = RelayV;

    closed spec fn view(&self) -> RelayV {
        RelayV {
            sessions: self.registry@,
            users: self.presence@,
            next_id: self.next_id,
            label: self.label@,
        }
    }
}

impl Relay {
    /// Validity: session ids and user ids are distinct, and every session
    /// id was allocated below the counter, so freshly allocated ids never
    /// collide with live ones.
    pub open spec fn wf(self) -> bool {
        &&& reg_wf(self@.sessions)
        &&& pres_wf(self@.users)
        &&& ids_below(self@.sessions, self@.next_id)
    }

    /// A fresh relay with no sessions, no known users, and the id counter
    /// at its start, so sessions can be opened.
    pub fn new(label: String) -> (r: Relay)
        ensures
            r.wf(),
            r@.sessions == Seq::<SessionV>::empty(),
            r@.users == Seq::<UserV>::empty(),
            r@.next_id == 1,
            r@.label == label@,
    {
        Relay {
            registry: SessionRegistry::new(),
            presence: PresenceStore::new(),
            next_id: 1,
            label,
        }
    }

    /// Broadcast engine: stamps the event with `now`, serializes it, and
    /// enqueues the frame onto every registered session's queue.
    pub fn broadcast(&mut self, e: WireEvent, now: u64)
        requires
            old(self).wf(),
        ensures
            final(self).wf(),
            final(self)@ == (RelayV {
                sessions: spec_fanout(old(self)@.sessions, spec_frame(e@, now)),
                ..old(self)@
            }),
    {
        let frame = encode_frame(&e, now);
        self.registry.enqueue_all(&frame);
        proof {
            let s = old(self)@.sessions;
            let f = spec_frame(e@, now);
            assert forall|i: int, j: int|
                0 <= i < spec_fanout(s, f).len() && 0 <= j < spec_fanout(s, f).len() && i != j
                implies spec_fanout(s, f)[i].id != spec_fanout(s, f)[j].id by {
                assert(spec_fanout(s, f)[i].id == s[i].id);
                assert(spec_fanout(s, f)[j].id == s[j].id);
            }
            assert forall|i: int| 0 <= i < spec_fanout(s, f).len()
                implies spec_fanout(s, f)[i].id < final(self)@.next_id by {
                assert(spec_fanout(s, f)[i].id == s[i].id);
            }
        }
    }

    /// Message router: dispatches one decoded client event — a join also
    /// upserts the embedded user into the presence store — and hands the
    /// routed event to the broadcast engine stamped with `now`.
    pub fn handle_event(&mut self, e: ClientEvent, now: u64)
        requires
            old(self).wf(),
        ensures
            final(self).wf(),
            final(self)@ == spec_handle(old(self)@, e@, now),
    {
        match e {
            ClientEvent::Join { user } => {
                let mut text = user.name.clone();
                proof {
                    lemma_upsert_law(self@.users, user@);
                }
                self.presence.upsert(user);
                text.append(" joined the chat");
                self.broadcast(WireEvent::System { text }, now);
                proof {
                    assert(final(self)@ =~= spec_handle(old(self)@, e@, now));
                }
            },
            ClientEvent::Message { text, sender, encrypted } => {
                self.broadcast(WireEvent::Message { text, sender, encrypted }, now);
                proof {
                    assert(final(self)@ =~= spec_handle(old(self)@, e@, now));
                }
            },
            ClientEvent::File { file_data, sender } => {
                self.broadcast(WireEvent::File { file_data, sender }, now);
                proof {
                    assert(final(self)@ =~= spec_handle(old(self)@, e@, now));
                }
            },
            ClientEvent::Edit { message_id, new_text, sender, encrypted } => {
                self.broadcast(
                    WireEvent::Edited { message_id, new_text, sender, encrypted },
                    now,
                );
                proof {
                    assert(final(self)@ =~= spec_handle(old(self)@, e@, now));
                }
            },
            ClientEvent::Delete { message_id, sender } => {
                self.broadcast(WireEvent::Deleted { message_id, sender }, now);
                proof {
                    assert(final(self)@ =~= spec_handle(old(self)@, e@, now));
                }
            },
        }
    }

    /// Applies one gathered inbound document: anything malformed — no
    /// document, or one that fails decoding — changes nothing and surfaces
    /// nothing; a decoded event is routed.
    pub fn apply_inbound(&mut self, doc: Option<InboundDoc>, now: u64)
        requires
            old(self).wf(),
        ensures
            final(self).wf(),
            final(self)@ == spec_apply(old(self)@, opt_doc_view(doc), now),
    {
        match doc {
            None => {},
            Some(d) => {
                match decode_event(d) {
                    None => {},
                    Some(e) => {
                        self.handle_event(e, now);
                    },
                }
            },
        }
    }

    /// Inbound duty of a connection handler: gathers one frame of text and
    /// applies it. The new state is fixed by the frame text alone: a frame
    /// that is not valid JSON, or whose document fails decoding, leaves
    /// the state untouched; a decoded event is routed and fanned out.
    pub fn handle_frame(&mut self, text: &str, now: u64)
        requires
            old(self).wf(),
        ensures
            final(self).wf(),
            final(self)@ == spec_apply(old(self)@, gather_of(text@), now),
    {
        let doc = parse_inbound(text);
        self.apply_inbound(doc, now);
    }

    /// Registers a new session under a fresh id and unicasts the welcome
    /// narration to that session alone — every other queue is untouched,
    /// and the new session's queue holds exactly the welcome frame. Yields
    /// nothing only when the id space is exhausted.
    pub fn open_session(&mut self, now: u64) -> (r: Option<u64>)
        requires
            old(self).wf(),
        ensures
            final(self).wf(),
            r is None <==> old(self)@.next_id == u64::MAX,
            r is None ==> final(self)@ == old(self)@,
            r is Some ==> r == Some(old(self)@.next_id),
            r is Some ==> final(self)@ == (RelayV {
                sessions: old(self)@.sessions.push(
                    (SessionV {
                        id: old(self)@.next_id,
                        queue: seq![
                            spec_frame(
                                WireEventV::System {
                                    text: welcome_text(old(self)@.label),
                                },
                                now,
                            ),
                        ],
                    }),
                ),
                next_id: (old(self)@.next_id + 1) as u64,
                ..old(self)@
            }),
            r is Some ==> !has_session(old(self)@.sessions, old(self)@.next_id),
    {
        if self.next_id == u64::MAX {
            return None;
        }
        let id = self.next_id;
        self.next_id = id + 1;
        proof {
            assert forall|i: int| 0 <= i < self@.sessions.len()
                implies self@.sessions[i].id != id by {
                assert(self@.sessions[i].id < id);
            }
            lemma_remove_absent(self@.sessions, id);
        }
        self.registry.register(id);
        let mut text = String::from_str("Welcome to ");
        text.append(self.label.as_str());
        text.append("!");
        let frame = encode_frame(&WireEvent::System { text }, now);
        self.registry.enqueue_to(id, &frame);
        proof {
            lemma_append_to_fresh(old(self)@.sessions, id, spec_frame(
                WireEventV::System { text: welcome_text(old(self)@.label) },
                now,
            ));
            let fin = final(self)@.sessions;
            let base = old(self)@.sessions;
            assert forall|i: int, j: int|
                0 <= i < fin.len() && 0 <= j < fin.len() && i != j
                implies fin[i].id != fin[j].id by {
                if i < base.len() && j < base.len() {
                    assert(fin[i] == base[i]);
                    assert(fin[j] == base[j]);
                } else if i < base.len() {
                    assert(fin[i] == base[i]);
                    assert(base[i].id < id);
                } else if j < base.len() {
                    assert(fin[j] == base[j]);
                    assert(base[j].id < id);
                }
            }
            assert forall|i: int| 0 <= i < fin.len()
                implies fin[i].id < final(self)@.next_id by {
                if i < base.len() {
                    assert(fin[i] == base[i]);
                    assert(base[i].id < id);
                }
            }
        }
        Some(id)
    }

    /// Closing path of a connection handler: unregisters the session, and
    /// on a clean close broadcasts the leave narration to the sessions
    /// that remain. An errored close narrates nothing.
    pub fn close_session(&mut self, id: u64, clean: bool, now: u64)
        requires
            old(self).wf(),
        ensures
            final(self).wf(),
            final(self)@ == spec_close(old(self)@, id, clean, now),
    {
        proof {
            lemma_remove_wf(self@.sessions, id);
            lemma_remove_ids_below(self@.sessions, id, self@.next_id);
        }
        self.registry.unregister(id);
        if clean {
            let text = String::from_str("A user left the chat");
            self.broadcast(WireEvent::System { text }, now);
        }
        proof {
            assert(final(self)@ =~= spec_close(old(self)@, id, clean, now));
        }
    }

    /// Pruning path of the broadcast engine: drops a session whose
    /// delivery failed. Idempotent — removing an absent id is a no-op.
    pub fn remove_session(&mut self, id: u64)
        requires
            old(self).wf(),
        ensures
            final(self).wf(),
            final(self)@ == (RelayV {
                sessions: spec_remove(old(self)@.sessions, id),
                ..old(self)@
            }),
    {
        proof {
            lemma_remove_wf(self@.sessions, id);
            lemma_remove_ids_below(self@.sessions, id, self@.next_id);
        }
        self.registry.unregister(id);
        proof {
            assert(final(self)@ =~= (RelayV {
                sessions: spec_remove(old(self)@.sessions, id),
                ..old(self)@
            }));
        }
    }

    /// Outbound duty of a connection handler: drains the session's queue,
    /// in FIFO order, for delivery onto its socket.
    pub fn take_outbound(&mut self, id: u64) -> (r: Vec<String>)
        requires
            old(self).wf(),
        ensures
            final(self).wf(),
            frames(r@) == queue_of(old(self)@.sessions, id),
            final(self)@ == (RelayV {
                sessions: spec_clear(old(self)@.sessions, id),
                ..old(self)@
            }),
    {
        let r = self.registry.take(id);
        proof {
            let fin = final(self)@.sessions;
            let base = old(self)@.sessions;
            assert forall|i: int, j: int|
                0 <= i < fin.len() && 0 <= j < fin.len() && i != j
                implies fin[i].id != fin[j].id by {
                assert(fin[i].id == base[i].id);
                assert(fin[j].id == base[j].id);
            }
            assert forall|i: int| 0 <= i < fin.len()
                implies fin[i].id < final(self)@.next_id by {
                assert(fin[i].id == base[i].id);
            }
            assert(final(self)@ =~= (RelayV {
                sessions: spec_clear(base, id),
                ..old(self)@
            }));
        }
        r
    }

    /// The ids of all registered sessions, in registry order.
    pub fn session_ids(&self) -> (r: Vec<u64>)
        ensures
            r@.len() == self@.sessions.len(),
            forall|i: int| 0 <= i < r@.len() ==> r@[i] == self@.sessions[i].id,
    {
        self.registry.ids()
    }

    /// Whether a session with id `id` is registered.
    pub fn has_open_session(&self, id: u64) -> (r: bool)
        ensures
            r == has_session(self@.sessions, id),
    {
        self.registry.contains(id)
    }

    /// The number of registered sessions.
    pub fn session_count(&self) -> (r: usize)
        ensures
            r == self@.sessions.len(),
    {
        self.registry.len()
    }

    /// The presence record held for a user id, if any.
    pub fn get_user(&self, id: &String) -> (r: Option<&User>)
        ensures
            match r {
                Some(u) => lookup(self@.users, id@) == Some(u@),
                None => lookup(self@.users, id@) is None,
            },
    {
        self.presence.get(id)
    }

    /// The number of known users.
    pub fn user_count(&self) -> (r: usize)
        ensures
            r == self@.users.len(),
    {
        self.presence.len()
    }

    /// The user record at position `i`, for iteration by the host.
    pub fn user_at(&self, i: usize) -> (r: &User)
        requires
            i < self@.users.len(),
        ensures
            r@ == self@.users[i as int],
    {
        self.presence.user_at(i)
    }
}

} // verus!
