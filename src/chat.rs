//! The session registry: which live connection each user is reachable on.
use vstd::prelude::*;

use crate::event::{presence_changed_payload, presence_changed_text};

verus! {

/// A payload handed to a connection for delivery as one outbound text frame.
pub struct MyMessage(pub String);

/// A connection handle registered for a user.
#[derive(Clone, Copy, Debug, PartialEq, Eq, Structural)]
pub struct SessionEntry {
    pub user_id: u128,
    pub handle: u64,
}

/// One payload to be enqueued, in order, on each of the listed connections.
pub struct Delivery {
    pub handles: Vec<u64>,
    pub message: MyMessage,
}

/// The abstract state of a [`ChatRoom`].
pub struct ChatRoomView {
    /// The connection each connected user is reached on.
    pub users: Map<u128, u64>,
    /// Every registered connection, with the user it was opened for.
    pub connections: Set<SessionEntry>,
}

impl ChatRoomView {
    /// The state after `add_session(user_id, handle)`: the user's mapping is
    /// replaced (last writer wins) and the connection is recorded.
    pub open spec fn added(self, user_id: u128, handle: u64) -> ChatRoomView {
        ChatRoomView {
            users: self.users.insert(user_id, handle),
            connections: self.connections.insert(SessionEntry { user_id, handle }),
        }
    }

    /// The state after `remove_session(user_id, handle)`: the connection is
    /// forgotten, and the user's mapping goes only if it names this handle.
    pub open spec fn removed(self, user_id: u128, handle: u64) -> ChatRoomView {
        ChatRoomView {
            users: if self.users.contains_key(user_id) && self.users[user_id] == handle {
                self.users.remove(user_id)
            } else {
                self.users
            },
            connections: self.connections.remove(SessionEntry { user_id, handle }),
        }
    }
}

/// Removing a connection twice is the same as removing it once; and removing
/// a stale handle, one that is not the user's current connection, leaves the
/// connected users and their connections unchanged.
pub proof fn lemma_remove_idempotent(v: ChatRoomView, user_id: u128, handle: u64)
    ensures
        v.removed(user_id, handle).removed(user_id, handle) == v.removed(user_id, handle),
        !(v.users.contains_key(user_id) && v.users[user_id] == handle) ==> v.removed(
            user_id,
            handle,
        ).users == v.users,
{
    let once = v.removed(user_id, handle);
    assert(once.connections.remove(SessionEntry { user_id, handle }) =~= once.connections);
}

/// After `add_session(u, h)` and then `remove_session(u, h)`, `u` is not
/// connected, and a broadcast to `u` alone reaches no connection.
pub proof fn lemma_add_then_remove(v: ChatRoomView, user_id: u128, handle: u64)
    ensures
        !v.added(user_id, handle).removed(user_id, handle).users.contains_key(user_id),
        live_handles(v.added(user_id, handle).removed(user_id, handle).users, seq![user_id])
            == Seq::<u64>::empty(),
{
    let after = v.added(user_id, handle).removed(user_id, handle);
    assert(seq![user_id].drop_last() =~= Seq::<u128>::empty());
    assert(seq![user_id].last() == user_id);
    assert(live_handles(after.users, Seq::<u128>::empty()) == Seq::<u64>::empty());
}

/// The handles that a broadcast to `ids` reaches: for each id in order, its
/// connection if it has one; ids without a connection are skipped.
pub open spec fn live_handles(users: Map<u128, u64>, ids: Seq<u128>) -> Seq<u64>
    decreases ids.len(),
{
    if ids.len() == 0 {
        Seq::empty()
    } else {
        let rest = live_handles(users, ids.drop_last());
        if users.contains_key(ids.last()) {
            rest.push(users[ids.last()])
        } else {
            rest
        }
    }
}

/// `handles` is what a broadcast to every member of `audience` reaches: the
/// connections of a duplicate-free listing of the audience, skipping members
/// that have none.
pub open spec fn reaches(users: Map<u128, u64>, handles: Seq<u64>, audience: Set<u128>) -> bool {
    exists|ids: Seq<u128>|
        ids.no_duplicates() && ids.to_set() == audience && handles == live_handles(users, ids)
}

/// The map from user to handle that a list of entries with distinct users
/// stands for.
pub closed spec fn session_map(s: Seq<SessionEntry>) -> Map<u128, u64> {
    Map::new(
        |u: u128| exists|i: int| 0 <= i < s.len() && #[trigger] s[i].user_id == u,
        |u: u128| s[choose|i: int| 0 <= i < s.len() && #[trigger] s[i].user_id == u].handle,
    )
}

/// No two entries name the same user.
pub open spec fn distinct_users(s: Seq<SessionEntry>) -> bool {
    forall|i: int, j: int|
        #![trigger s[i], s[j]]
        0 <= i < s.len() && 0 <= j < s.len() && s[i].user_id == s[j].user_id ==> i == j
}

proof fn lemma_session_map_at(s: Seq<SessionEntry>, i: int)
    requires
        distinct_users(s),
        0 <= i < s.len(),
    ensures
        session_map(s).contains_key(s[i].user_id),
        session_map(s)[s[i].user_id] == s[i].handle,
{
    let u = s[i].user_id;
    assert(s[i].user_id == u);
    let j = choose|j: int| 0 <= j < s.len() && #[trigger] s[j].user_id == u;
    assert(s[j].user_id == s[i].user_id);
}

proof fn lemma_session_map_keys(s: Seq<SessionEntry>, u: u128)
    ensures
        session_map(s).contains_key(u) <==> exists|i: int|
            0 <= i < s.len() && #[trigger] s[i].user_id == u,
{
}

proof fn lemma_session_map_update(s: Seq<SessionEntry>, i: int, e: SessionEntry)
    requires
        distinct_users(s),
        0 <= i < s.len(),
        e.user_id == s[i].user_id,
    ensures
        distinct_users(s.update(i, e)),
        session_map(s.update(i, e)) == session_map(s).insert(e.user_id, e.handle),
{
    let t = s.update(i, e);
    assert forall|a: int, b: int|
        0 <= a < t.len() && 0 <= b < t.len() && #[trigger] t[a].user_id == #[trigger] t[b].user_id implies a
        == b by {
        assert(s[a].user_id == t[a].user_id && s[b].user_id == t[b].user_id);
        assert(s[a] == s[a] && s[b] == s[b]);
    }
    let expected = session_map(s).insert(e.user_id, e.handle);
    assert forall|u: u128| #[trigger] session_map(t).contains_key(u) == expected.contains_key(u) by {
        lemma_session_map_keys(s, u);
        lemma_session_map_keys(t, u);
        assert(t[i].user_id == e.user_id);
        assert(s[i].user_id == e.user_id);
        if expected.contains_key(u) && u != e.user_id {
            let k = choose|k: int| 0 <= k < s.len() && #[trigger] s[k].user_id == u;
            assert(t[k].user_id == u);
        }
        if session_map(t).contains_key(u) {
            let k = choose|k: int| 0 <= k < t.len() && #[trigger] t[k].user_id == u;
            assert(s[k].user_id == u);
        }
    }
    assert forall|u: u128| #[trigger] session_map(t).contains_key(u) implies session_map(t)[u]
        == expected[u] by {
        lemma_session_map_keys(t, u);
        let k = choose|k: int| 0 <= k < t.len() && #[trigger] t[k].user_id == u;
        lemma_session_map_at(t, k);
        if k != i {
            assert(s[k] == t[k]);
            lemma_session_map_at(s, k);
        }
    }
    assert(session_map(t) =~= expected);
}

proof fn lemma_session_map_push(s: Seq<SessionEntry>, e: SessionEntry)
    requires
        distinct_users(s),
        forall|i: int| 0 <= i < s.len() ==> #[trigger] s[i].user_id != e.user_id,
    ensures
        distinct_users(s.push(e)),
        session_map(s.push(e)) == session_map(s).insert(e.user_id, e.handle),
{
    let t = s.push(e);
    let n = s.len() as int;
    assert forall|a: int, b: int|
        0 <= a < t.len() && 0 <= b < t.len() && #[trigger] t[a].user_id == #[trigger] t[b].user_id implies a
        == b by {
        if a < n && b < n {
            assert(s[a] == t[a] && s[b] == t[b]);
        } else if a < n {
            assert(s[a] == t[a]);
        } else if b < n {
            assert(s[b] == t[b]);
        }
    }
    let expected = session_map(s).insert(e.user_id, e.handle);
    assert forall|u: u128| #[trigger] session_map(t).contains_key(u) == expected.contains_key(u) by {
        lemma_session_map_keys(s, u);
        lemma_session_map_keys(t, u);
        if expected.contains_key(u) {
            if u == e.user_id {
                assert(t[n].user_id == u);
            } else {
                let k = choose|k: int| 0 <= k < s.len() && #[trigger] s[k].user_id == u;
                assert(t[k].user_id == u);
            }
        }
        if session_map(t).contains_key(u) && u != e.user_id {
            let k = choose|k: int| 0 <= k < t.len() && #[trigger] t[k].user_id == u;
            assert(s[k].user_id == u);
        }
    }
    assert forall|u: u128| #[trigger] session_map(t).contains_key(u) implies session_map(t)[u]
        == expected[u] by {
        lemma_session_map_keys(t, u);
        let k = choose|k: int| 0 <= k < t.len() && #[trigger] t[k].user_id == u;
        lemma_session_map_at(t, k);
        if k != n {
            assert(s[k] == t[k]);
            lemma_session_map_at(s, k);
        }
    }
    assert(session_map(t) =~= expected);
}

proof fn lemma_session_map_remove(s: Seq<SessionEntry>, i: int)
    requires
        distinct_users(s),
        0 <= i < s.len(),
    ensures
        distinct_users(s.remove(i)),
        session_map(s.remove(i)) == session_map(s).remove(s[i].user_id),
{
    let t = s.remove(i);
    let u0 = s[i].user_id;
    assert forall|k: int| 0 <= k < t.len() implies #[trigger] t[k] == (if k < i {
        s[k]
    } else {
        s[k + 1]
    }) by {}
    assert forall|a: int, b: int|
        0 <= a < t.len() && 0 <= b < t.len() && #[trigger] t[a].user_id == #[trigger] t[b].user_id implies a
        == b by {
        let a1 = if a < i { a } else { a + 1 };
        let b1 = if b < i { b } else { b + 1 };
        assert(s[a1] == t[a] && s[b1] == t[b]);
    }
    let expected = session_map(s).remove(u0);
    assert forall|u: u128| #[trigger] session_map(t).contains_key(u) == expected.contains_key(u) by {
        lemma_session_map_keys(s, u);
        lemma_session_map_keys(t, u);
        if expected.contains_key(u) {
            let k = choose|k: int| 0 <= k < s.len() && #[trigger] s[k].user_id == u;
            assert(k != i);
            let k1 = if k < i { k } else { k - 1 };
            assert(t[k1].user_id == u);
        }
        if session_map(t).contains_key(u) {
            let k = choose|k: int| 0 <= k < t.len() && #[trigger] t[k].user_id == u;
            let k1 = if k < i { k } else { k + 1 };
            assert(s[k1].user_id == u);
            assert(s[k1] == s[k1] && s[i] == s[i]);
        }
    }
    assert forall|u: u128| #[trigger] session_map(t).contains_key(u) implies session_map(t)[u]
        == expected[u] by {
        lemma_session_map_keys(t, u);
        let k = choose|k: int| 0 <= k < t.len() && #[trigger] t[k].user_id == u;
        lemma_session_map_at(t, k);
        let k1 = if k < i { k } else { k + 1 };
        assert(s[k1] == t[k]);
        lemma_session_map_at(s, k1);
    }
    assert(session_map(t) =~= expected);
}

proof fn lemma_remove_distinct<A>(s: Seq<A>, i: int)
    requires
        s.no_duplicates(),
        0 <= i < s.len(),
    ensures
        s.remove(i).no_duplicates(),
        s.remove(i).to_set() == s.to_set().remove(s[i]),
        forall|x: A| s.contains(x) && x != s[i] ==> #[trigger] s.remove(i).contains(x),
{
    let t = s.remove(i);
    assert forall|k: int| 0 <= k < t.len() implies #[trigger] t[k] == (if k < i {
        s[k]
    } else {
        s[k + 1]
    }) by {}
    assert forall|a: int, b: int| 0 <= a < t.len() && 0 <= b < t.len() && a != b implies t[a]
        != t[b] by {
        let a1 = if a < i { a } else { a + 1 };
        let b1 = if b < i { b } else { b + 1 };
        assert(s[a1] == t[a] && s[b1] == t[b]);
    }
    assert forall|x: A| s.contains(x) && x != s[i] implies #[trigger] t.contains(x) by {
        let k = choose|k: int| 0 <= k < s.len() && s[k] == x;
        let k1 = if k < i { k } else { k - 1 };
        assert(t[k1] == x);
    }
    assert forall|x: A| t.to_set().contains(x) <==> s.to_set().remove(s[i]).contains(x) by {
        if t.contains(x) {
            let k = choose|k: int| 0 <= k < t.len() && t[k] == x;
            let k1 = if k < i { k } else { k + 1 };
            assert(s[k1] == x);
            assert(k1 != i);
        }
    }
    assert(t.to_set() =~= s.to_set().remove(s[i]));
}

/// The registry of live connections.
///
/// It keeps two views of the same connections: the connection each user is
/// reached on, and every registered connection. A user maps to at most one
/// connection; a second connection of the same user replaces the mapping.
pub struct ChatRoom {
    sessions: Vec<SessionEntry>,
    user_sessions: Vec<SessionEntry>,
}

impl View for ChatRoom {
    type V = ChatRoomView;

    closed spec fn view(&self) -> ChatRoomView {
        ChatRoomView {
            users: session_map(self.user_sessions@),
            connections: self.sessions@.to_set(),
        }
    }
}

impl ChatRoom {
    /// The two views agree: every user's connection is a registered one.
    pub closed spec fn wf(&self) -> bool {
        &&& distinct_users(self.user_sessions@)
        &&& self.sessions@.no_duplicates()
        &&& forall|i: int|
            0 <= i < self.user_sessions@.len() ==> self.sessions@.contains(
                #[trigger] self.user_sessions@[i],
            )
    }

    pub fn new() -> (r: ChatRoom)
        ensures
            r.wf(),
            r@.users == Map::<u128, u64>::empty(),
            r@.connections == Set::<SessionEntry>::empty(),
    {
        let r = ChatRoom { sessions: Vec::new(), user_sessions: Vec::new() };
        proof {
            assert(r@.users =~= Map::<u128, u64>::empty());
            assert(r@.connections =~= Set::<SessionEntry>::empty());
        }
        r
    }

    /// The consistency of the views, stated over the abstract state.
    pub proof fn lemma_views_agree(&self)
        requires
            self.wf(),
        ensures
            forall|u: u128|
                #[trigger] self@.users.contains_key(u) ==> self@.connections.contains(
                    SessionEntry { user_id: u, handle: self@.users[u] },
                ),
    {
        assert forall|u: u128| #[trigger] self@.users.contains_key(u) implies self@.connections.contains(
            SessionEntry { user_id: u, handle: self@.users[u] },
        ) by {
            lemma_session_map_keys(self.user_sessions@, u);
            let i = choose|i: int|
                0 <= i < self.user_sessions@.len() && #[trigger] self.user_sessions@[i].user_id == u;
            lemma_session_map_at(self.user_sessions@, i);
            assert(self.sessions@.contains(self.user_sessions@[i]));
        }
    }

    fn position_of_user(&self, user_id: u128) -> (r: Option<usize>)
        ensures
            match r {
                Some(i) => i < self.user_sessions@.len() && self.user_sessions@[i as int].user_id
                    == user_id,
                None => forall|i: int|
                    0 <= i < self.user_sessions@.len() ==> #[trigger] self.user_sessions@[i].user_id
                        != user_id,
            },
    {
        let mut i: usize = 0;
        while i < self.user_sessions.len()
            invariant
                i <= self.user_sessions@.len(),
                forall|i2: int|
                    0 <= i2 < i ==> #[trigger] self.user_sessions@[i2].user_id != user_id,
            decreases self.user_sessions.len() - i,
        {
            if self.user_sessions[i].user_id == user_id {
                return Some(i);
            }
            i += 1;
        }
        None
    }

    fn position_of_session(&self, entry: SessionEntry) -> (r: Option<usize>)
        ensures
            match r {
                Some(i) => i < self.sessions@.len() && self.sessions@[i as int] == entry,
                None => !self.sessions@.contains(entry),
            },
    {
        let mut i: usize = 0;
        while i < self.sessions.len()
            invariant
                i <= self.sessions@.len(),
                forall|i2: int| 0 <= i2 < i ==> #[trigger] self.sessions@[i2] != entry,
            decreases self.sessions.len() - i,
        {
            if self.sessions[i] == entry {
                return Some(i);
            }
            i += 1;
        }
        None
    }

    /// The handles on which `message` must be enqueued to reach `user_ids`:
    /// each listed user that has a connection, in the order given; users
    /// without one are skipped.
    pub fn send_message(&self, user_ids: &Vec<u128>, message: &str) -> (r: Delivery)
        requires
            self.wf(),
        ensures
            r.handles@ == live_handles(self@.users, user_ids@),
            r.message.0@ == message@,
    {
        let mut handles: Vec<u64> = Vec::new();
        let mut k: usize = 0;
        while k < user_ids.len()
            invariant
                self.wf(),
                k <= user_ids@.len(),
                handles@ == live_handles(self@.users, user_ids@.subrange(0, k as int)),
            decreases user_ids.len() - k,
        {
            let user_id = user_ids[k];
            proof {
                assert(user_ids@.subrange(0, k + 1).drop_last() =~= user_ids@.subrange(0, k as int));
                lemma_session_map_keys(self.user_sessions@, user_id);
            }
            match self.position_of_user(user_id) {
                Some(i) => {
                    proof {
                        lemma_session_map_at(self.user_sessions@, i as int);
                    }
                    handles.push(self.user_sessions[i].handle);
                },
                None => {},
            }
            k += 1;
        }
        proof {
            assert(user_ids@.subrange(0, user_ids@.len() as int) =~= user_ids@);
        }
        Delivery { handles, message: MyMessage(message.to_owned()) }
    }

    /// Registers `handle` as the connection of `user_id`, replacing any earlier
    /// mapping of that user, then tells every connected user, the new one
    /// included, that presence changed.
    pub fn add_session(&mut self, user_id: u128, handle: u64) -> (r: Delivery)
        requires
            old(self).wf(),
        ensures
            final(self).wf(),
            final(self)@ == old(self)@.added(user_id, handle),
            r.message.0@ == presence_changed_text(),
            reaches(final(self)@.users, r.handles@, final(self)@.users.dom()),
    {
        let entry = SessionEntry { user_id, handle };
        let ghost old_sessions = self.sessions@;
        let ghost old_users = self.user_sessions@;
        match self.position_of_session(entry) {
            None => {
                self.sessions.push(entry);
                proof {
                    let n = old_sessions.len() as int;
                    assert forall|x: SessionEntry| #[trigger] self.sessions@.contains(x) <==> (
                    old_sessions.contains(x) || x == entry) by {
                        if self.sessions@.contains(x) {
                            let k = choose|k: int| 0 <= k < self.sessions@.len() && self.sessions@[k] == x;
                            if k < n {
                                assert(old_sessions[k] == x);
                            }
                        }
                        if old_sessions.contains(x) {
                            let k = choose|k: int| 0 <= k < n && old_sessions[k] == x;
                            assert(self.sessions@[k] == x);
                        }
                        if x == entry {
                            assert(self.sessions@[n] == x);
                        }
                    }
                    assert(self.sessions@.to_set() =~= old_sessions.to_set().insert(entry));
                    assert forall|a: int, b: int|
                        0 <= a < self.sessions@.len() && 0 <= b < self.sessions@.len() && a != b implies
                        self.sessions@[a] != self.sessions@[b] by {
                        if a < n && b < n {
                            assert(old_sessions[a] == self.sessions@[a]);
                            assert(old_sessions[b] == self.sessions@[b]);
                        } else if a < n {
                            assert(old_sessions.contains(self.sessions@[a]));
                        } else if b < n {
                            assert(old_sessions.contains(self.sessions@[b]));
                        }
                    }
                }
            },
            Some(i) => {
                proof {
                    assert(old_sessions.contains(entry));
                    assert(self.sessions@.to_set() =~= old_sessions.to_set().insert(entry));
                }
            },
        }
        proof {
            assert forall|x: SessionEntry| old_sessions.contains(x) implies #[trigger] self.sessions@.contains(x) by {
                assert(self.sessions@.to_set().contains(x));
            }
            assert(self.sessions@.contains(entry)) by {
                assert(self.sessions@.to_set().contains(entry));
            }
        }
        assert(self.user_sessions@ == old_users);
        match self.position_of_user(user_id) {
            Some(i) => {
                proof {
                    lemma_session_map_update(old_users, i as int, entry);
                }
                self.user_sessions.set(i, entry);
            },
            None => {
                proof {
                    lemma_session_map_push(old_users, entry);
                }
                self.user_sessions.push(entry);
            },
        }
        proof {
            assert forall|i: int| 0 <= i < self.user_sessions@.len() implies self.sessions@.contains(
                #[trigger] self.user_sessions@[i],
            ) by {
                if self.user_sessions@[i] != entry {
                    assert(self.user_sessions@[i] == old_users[i]);
                    assert(old_sessions.contains(old_users[i]));
                }
            }
        }
        let ids = self.get_connected_user_ids();
        let payload = presence_changed_payload();
        let r = self.send_message(&ids, payload.as_str());
        proof {
            assert(ids@.no_duplicates() && ids@.to_set() == self@.users.dom());
        }
        r
    }

    /// Forgets the connection `handle` of `user_id`. The user's mapping is
    /// dropped only if it still names this handle, so a stale disconnect does
    /// not evict a newer connection. Then every user still connected is told
    /// that presence changed.
    pub fn remove_session(&mut self, user_id: u128, handle: u64) -> (r: Delivery)
        requires
            old(self).wf(),
        ensures
            final(self).wf(),
            final(self)@ == old(self)@.removed(user_id, handle),
            r.message.0@ == presence_changed_text(),
            reaches(final(self)@.users, r.handles@, final(self)@.users.dom()),
    {
        let entry = SessionEntry { user_id, handle };
        let ghost old_sessions = self.sessions@;
        let ghost old_users = self.user_sessions@;
        match self.position_of_session(entry) {
            Some(i) => {
                proof {
                    lemma_remove_distinct(old_sessions, i as int);
                }
                self.sessions.remove(i);
            },
            None => {
                proof {
                    assert(old_sessions.to_set() =~= old_sessions.to_set().remove(entry));
                }
            },
        }
        match self.position_of_user(user_id) {
            Some(i) => {
                proof {
                    lemma_session_map_keys(old_users, user_id);
                    lemma_session_map_at(old_users, i as int);
                }
                if self.user_sessions[i].handle == handle {
                    proof {
                        lemma_session_map_remove(old_users, i as int);
                        lemma_remove_distinct(old_users, i as int);
                    }
                    self.user_sessions.remove(i);
                }
            },
            None => {
                proof {
                    lemma_session_map_keys(old_users, user_id);
                }
            },
        }
        proof {
            assert forall|i: int| 0 <= i < self.user_sessions@.len() implies self.sessions@.contains(
                #[trigger] self.user_sessions@[i],
            ) by {
                let x = self.user_sessions@[i];
                assert(old_users.contains(x));
                let k = choose|k: int| 0 <= k < old_users.len() && old_users[k] == x;
                if x == entry {
                    assert(old_users[k].user_id == user_id);
                    assert(false);
                }
                assert(old_sessions.contains(x));
            }
        }
        let ids = self.get_connected_user_ids();
        let payload = presence_changed_payload();
        let r = self.send_message(&ids, payload.as_str());
        proof {
            assert(ids@.no_duplicates() && ids@.to_set() == self@.users.dom());
        }
        r
    }

    /// A snapshot of the users that currently have a connection.
    pub fn get_connected_user_ids(&self) -> (r: Vec<u128>)
        requires
            self.wf(),
        ensures
            r@.no_duplicates(),
            r@.to_set() == self@.users.dom(),
    {
        let mut r: Vec<u128> = Vec::new();
        let mut i: usize = 0;
        while i < self.user_sessions.len()
            invariant
                self.wf(),
                i <= self.user_sessions@.len(),
                r@.len() == i,
                forall|k: int| 0 <= k < i ==> #[trigger] r@[k] == self.user_sessions@[k].user_id,
            decreases self.user_sessions.len() - i,
        {
            r.push(self.user_sessions[i].user_id);
            i += 1;
        }
        proof {
            assert forall|a: int, b: int|
                0 <= a < r@.len() && 0 <= b < r@.len() && a != b implies r@[a] != r@[b] by {
                assert(self.user_sessions@[a] == self.user_sessions@[a]);
                assert(self.user_sessions@[b] == self.user_sessions@[b]);
            }
            assert forall|u: u128| r@.to_set().contains(u) <==> self@.users.dom().contains(u) by {
                lemma_session_map_keys(self.user_sessions@, u);
                if r@.contains(u) {
                    let k = choose|k: int| 0 <= k < r@.len() && r@[k] == u;
                    assert(self.user_sessions@[k].user_id == u);
                }
                if self@.users.dom().contains(u) {
                    let k = choose|k: int|
                        0 <= k < self.user_sessions@.len() && #[trigger] self.user_sessions@[k].user_id
                            == u;
                    assert(r@[k] == u);
                }
            }
            assert(r@.to_set() =~= self@.users.dom());
        }
        r
    }
}

} // verus!
