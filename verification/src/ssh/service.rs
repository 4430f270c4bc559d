//! Sessions with remote servers, each under a unique random id. The live
//! connection of a session is of the type `C` that the program driving the
//! network chooses; the registry keeps it, looks it up and hands it back.

use vstd::prelude::*;

use crate::config::models::Server;

verus! {

/// The state of a session.
#[derive(Debug, Clone, PartialEq)]
pub enum SessionStatus {
    /// Created, not yet authenticated.
    Connecting,
    /// Authenticated; the connection is live.
    Connected,
    /// Closed.
    Disconnected,
    /// Failed, with the reason.
    Error(String),
}

/// The lowercase hexadecimal digit of `n` (`0 <= n < 16`).
pub open spec fn lower_hex_digit(n: int) -> char {
    if n < 10 {
        (48 + n) as char
    } else {
        (87 + n) as char
    }
}

/// Two lowercase hexadecimal digits per byte, high nibble first.
pub open spec fn hex_digits(bytes: Seq<u8>) -> Seq<char>
    decreases bytes.len(),
{
    if bytes.len() == 0 {
        Seq::empty()
    } else {
        seq![lower_hex_digit(bytes[0] as int / 16), lower_hex_digit(bytes[0] as int % 16)] + hex_digits(
            bytes.drop_first(),
        )
    }
}

/// The bytes of a version-4 UUID made from random bytes: the high nibble of byte 6
/// becomes the version (4) and the two high bits of byte 8 the variant (`10`).
pub open spec fn v4_bytes(bytes: Seq<u8>) -> Seq<u8> {
    bytes.update(6, (0x40 + bytes[6] % 16) as u8).update(8, (0x80 + bytes[8] % 64) as u8)
}

/// The hyphenated text of the version-4 UUID built from 16 random bytes: its bytes in
/// lowercase hexadecimal, in groups of 4, 2, 2, 2 and 6 bytes joined by `-`.
pub open spec fn uuid_v4_text(bytes: Seq<u8>) -> Seq<char> {
    let v = v4_bytes(bytes);
    hex_digits(v.subrange(0, 4)) + seq!['-'] + hex_digits(v.subrange(4, 6)) + seq!['-']
        + hex_digits(v.subrange(6, 8)) + seq!['-'] + hex_digits(v.subrange(8, 10)) + seq!['-']
        + hex_digits(v.subrange(10, 16))
}

/// The version-4 UUID built from `bytes` (`uuid::Builder::from_random_bytes`, which
/// sets the version and variant bits), in its `Display` form: lowercase hexadecimal,
/// hyphenated.
#[verifier::external_body]
fn uuid_text(bytes: [u8; 16]) -> (r: String)
    ensures
        r@ == uuid_v4_text(bytes@),
{
    ::uuid::Builder::from_random_bytes(bytes).into_uuid().to_string()
}

/// A session with one server.
pub struct SshSession<C> {
    /// Unique id of the session.
    pub id: String,
    /// The server the session is with.
    pub server: Server,
    /// Where the session stands.
    pub status: SessionStatus,
    /// The live connection, once authenticated.
    pub handle: Option<C>,
}

impl<C> SshSession<C> {
    /// A new session with `server` under the id made from `bytes` (the version-4 UUID
    /// they give): connecting, with no connection yet.
    pub fn from_random_bytes(server: Server, bytes: [u8; 16]) -> (s: Self)
        ensures
            s.id@ == uuid_v4_text(bytes@),
            s.server == server,
            s.status == SessionStatus::Connecting,
            s.handle is None,
    {
        SshSession { id: uuid_text(bytes), server, status: SessionStatus::Connecting, handle: None }
    }

    /// A new session with `server`, under a fresh random id (a version-4 UUID):
    /// connecting, with no connection yet. `None` where the random generator fails.
    pub fn new(server: Server) -> (s: Option<Self>)
        ensures
            s matches Some(x) ==> x.server == server && x.status == SessionStatus::Connecting
                && x.handle is None && exists|b: Seq<u8>| b.len() == 16 && x.id@ == #[trigger] uuid_v4_text(b),
    {
        let mut bytes = [0u8; 16];
        if crate::vault::crypto::fill_random(&mut bytes) {
            Some(Self::from_random_bytes(server, bytes))
        } else {
            None
        }
    }

    /// Records the connection that authenticated: the session is connected.
    pub fn attach(&mut self, handle: C)
        ensures
            final(self).id == old(self).id,
            final(self).server == old(self).server,
            final(self).status == SessionStatus::Connected,
            final(self).handle == Some(handle),
    {
        self.handle = Some(handle);
        self.status = SessionStatus::Connected;
    }

    /// Takes the connection out, to close it: the session is disconnected.
    pub fn detach(&mut self) -> (r: Option<C>)
        ensures
            r == old(self).handle,
            final(self).id == old(self).id,
            final(self).server == old(self).server,
            final(self).status == SessionStatus::Disconnected,
            final(self).handle is None,
    {
        self.status = SessionStatus::Disconnected;
        self.handle.take()
    }

    /// Whether the session is connected.
    pub fn is_connected(&self) -> (b: bool)
        ensures
            b == (self.status is Connected),
    {
        matches!(self.status, SessionStatus::Connected)
    }
}

/// Whether one of `v` has the id `id`.
pub open spec fn has_id<C>(v: Seq<SshSession<C>>, id: Seq<char>) -> bool {
    exists|i: int| 0 <= i < v.len() && (#[trigger] v[i]).id@ == id
}

/// The place of the session with the id `id` in `v` (meaningful where there is one).
pub open spec fn place_of<C>(v: Seq<SshSession<C>>, id: Seq<char>) -> int {
    choose|i: int| 0 <= i < v.len() && (#[trigger] v[i]).id@ == id
}

/// No two sessions of `v` share an id.
pub open spec fn distinct_ids<C>(v: Seq<SshSession<C>>) -> bool {
    forall|i: int, j: int| 0 <= i < v.len() && 0 <= j < v.len() && i != j ==> (#[trigger] v[i]).id@ != (#[trigger] v[j]).id@
}

/// The session with the id `id` in `v`, if there is one.
pub open spec fn lookup<C>(v: Seq<SshSession<C>>, id: Seq<char>) -> Option<SshSession<C>> {
    if has_id(v, id) {
        Some(v[place_of(v, id)])
    } else {
        None
    }
}

/// `v` with `s` added: in place of the session with the same id, else at the end.
pub open spec fn added<C>(v: Seq<SshSession<C>>, s: SshSession<C>) -> Seq<SshSession<C>> {
    if has_id(v, s.id@) {
        v.update(place_of(v, s.id@), s)
    } else {
        v.push(s)
    }
}

/// `v` without the session with the id `id`.
pub open spec fn removed<C>(v: Seq<SshSession<C>>, id: Seq<char>) -> Seq<SshSession<C>> {
    if has_id(v, id) {
        v.remove(place_of(v, id))
    } else {
        v
    }
}

/// The ids of `v`, in order.
pub open spec fn ids_of<C>(v: Seq<SshSession<C>>) -> Seq<Seq<char>> {
    v.map_values(|s: SshSession<C>| s.id@)
}

/// The live connections of `v`, in order.
pub open spec fn live_connections<C>(v: Seq<SshSession<C>>) -> Seq<C>
    decreases v.len(),
{
    if v.len() == 0 {
        Seq::empty()
    } else {
        match v[0].handle {
            Some(c) => seq![c] + live_connections(v.drop_first()),
            None => live_connections(v.drop_first()),
        }
    }
}

/// The sessions with servers, by id.
pub struct SshService<C> {
    sessions: Vec<SshSession<C>>,
}

impl<C> SshService<C> {
    /// The sessions, in the order they were added.
    pub closed spec fn sessions(&self) -> Seq<SshSession<C>> {
        self.sessions@
    }

    /// No two sessions share an id.
    pub closed spec fn wf(&self) -> bool {
        distinct_ids(self.sessions@)
    }

    /// A service with no session.
    pub fn new() -> (s: Self)
        ensures
            s.wf(),
            s.sessions() == Seq::<SshSession<C>>::empty(),
    {
        SshService { sessions: Vec::new() }
    }

    /// Where the session with the id `id` is, if there is one.
    fn find(&self, id: &str) -> (r: Option<usize>)
        requires
            self.wf(),
        ensures
            r is None <==> !has_id(self.sessions(), id@),
            r matches Some(i) ==> i < self.sessions().len() && i == place_of(self.sessions(), id@),
    {
        let mut i: usize = 0;
        while i < self.sessions.len()
            invariant
                i <= self.sessions@.len(),
                distinct_ids(self.sessions@),
                forall|k: int| 0 <= k < i ==> (#[trigger] self.sessions@[k]).id@ != id@,
            decreases self.sessions.len() - i,
        {
            if crate::text::str_eq(self.sessions[i].id.as_str(), id) {
                proof {
                    let p = place_of(self.sessions@, id@);
                    assert(has_id(self.sessions@, id@));
                    assert(self.sessions@[p].id@ == id@);
                    assert(self.sessions@[i as int].id@ == id@);
                    assert(p == i as int);
                }
                return Some(i);
            }
            i = i + 1;
        }
        None
    }

    /// Adds a session under its id, in place of any session with the same id, and
    /// gives the id back.
    pub fn add_session(&mut self, session: SshSession<C>) -> (id: String)
        requires
            old(self).wf(),
        ensures
            final(self).wf(),
            final(self).sessions() == added(old(self).sessions(), session),
            id@ == session.id@,
    {
        let id = session.id.clone();
        match self.find(id.as_str()) {
            Some(i) => {
                let ghost old_v = self.sessions@;
                self.sessions.set(i, session);
                proof {
                    assert forall|a: int, b: int|
                        0 <= a < self.sessions@.len() && 0 <= b < self.sessions@.len() && a != b implies (#[trigger] self.sessions@[a]).id@ != (#[trigger] self.sessions@[b]).id@ by {
                        if a != i as int && b != i as int {
                            assert(old_v[a] == self.sessions@[a]);
                            assert(old_v[b] == self.sessions@[b]);
                        } else if a == i as int {
                            assert(old_v[b] == self.sessions@[b]);
                        } else {
                            assert(old_v[a] == self.sessions@[a]);
                        }
                    }
                }
            },
            None => {
                let ghost old_v = self.sessions@;
                self.sessions.push(session);
                proof {
                    assert forall|a: int, b: int|
                        0 <= a < self.sessions@.len() && 0 <= b < self.sessions@.len() && a != b implies (#[trigger] self.sessions@[a]).id@ != (#[trigger] self.sessions@[b]).id@ by {
                        if a < old_v.len() && b < old_v.len() {
                            assert(old_v[a] == self.sessions@[a]);
                            assert(old_v[b] == self.sessions@[b]);
                        } else if a < old_v.len() {
                            assert(old_v[a] == self.sessions@[a]);
                            assert(!has_id(old_v, id@));
                        } else {
                            assert(old_v[b] == self.sessions@[b]);
                            assert(!has_id(old_v, id@));
                        }
                    }
                }
            },
        }
        id
    }

    /// The session with the id `id`, if there is one.
    pub fn get_session(&self, id: &str) -> (r: Option<&SshSession<C>>)
        requires
            self.wf(),
        ensures
            r is Some <==> has_id(self.sessions(), id@),
            r matches Some(s) ==> lookup(self.sessions(), id@) == Some(*s),
    {
        match self.find(id) {
            Some(i) => Some(&self.sessions[i]),
            None => None,
        }
    }

    /// The session with the id `id`, for changing it, if there is one. Its id stays.
    pub fn get_session_mut(&mut self, id: &str) -> (r: Option<&mut SshSession<C>>)
        requires
            old(self).wf(),
        ensures
            r is Some <==> has_id(old(self).sessions(), id@),
            r matches Some(s) ==> *s == old(self).sessions()[place_of(old(self).sessions(), id@)],
            r matches Some(s) ==> (final(s).id@ == id@ ==> final(self).wf() && final(self).sessions()
                == old(self).sessions().update(place_of(old(self).sessions(), id@), *final(s))),
            r is None ==> *final(self) == *old(self),
    {
        match self.find(id) {
            Some(i) => {
                Some(&mut self.sessions[i])
            },
            None => None,
        }
    }

    /// The ids of the sessions, in the order they were added.
    pub fn list_sessions(&self) -> (r: Vec<String>)
        ensures
            r@.map_values(|s: String| s@) == ids_of(self.sessions()),
    {
        let mut r: Vec<String> = Vec::new();
        let mut i: usize = 0;
        while i < self.sessions.len()
            invariant
                i <= self.sessions@.len(),
                r@.len() == i,
                forall|k: int| 0 <= k < i ==> (#[trigger] r@[k])@ == self.sessions@[k].id@,
            decreases self.sessions.len() - i,
        {
            r.push(self.sessions[i].id.clone());
            i = i + 1;
        }
        assert(r@.map_values(|s: String| s@) =~= ids_of(self.sessions@));
        r
    }

    /// Takes the session with the id `id` out of the service, to close it; `None`
    /// where there is none, and then nothing changes.
    pub fn remove_session(&mut self, id: &str) -> (r: Option<SshSession<C>>)
        requires
            old(self).wf(),
        ensures
            final(self).wf(),
            final(self).sessions() == removed(old(self).sessions(), id@),
            r == lookup(old(self).sessions(), id@),
    {
        match self.find(id) {
            Some(i) => {
                let ghost old_v = self.sessions@;
                let s = self.sessions.remove(i);
                proof {
                    assert forall|a: int, b: int|
                        0 <= a < self.sessions@.len() && 0 <= b < self.sessions@.len() && a != b implies (#[trigger] self.sessions@[a]).id@ != (#[trigger] self.sessions@[b]).id@ by {
                        let oa = if a < i { a } else { a + 1 };
                        let ob = if b < i { b } else { b + 1 };
                        assert(old_v[oa] == self.sessions@[a]);
                        assert(old_v[ob] == self.sessions@[b]);
                    }
                }
                Some(s)
            },
            None => None,
        }
    }

    /// Removes the session with the id `id` and hands back its live connection, to
    /// be closed; `None` where there is no such session or it had no connection.
    pub fn disconnect(&mut self, id: &str) -> (r: Option<C>)
        requires
            old(self).wf(),
        ensures
            final(self).wf(),
            final(self).sessions() == removed(old(self).sessions(), id@),
            r == (match lookup(old(self).sessions(), id@) {
                Some(s) => s.handle,
                None => None,
            }),
    {
        match self.remove_session(id) {
            Some(mut s) => s.detach(),
            None => None,
        }
    }

    /// Removes every session and hands back their live connections, in order, to
    /// be closed; the service is empty.
    pub fn disconnect_all(&mut self) -> (r: Vec<C>)
        ensures
            final(self).wf(),
            final(self).sessions() == Seq::<SshSession<C>>::empty(),
            r@ == live_connections(old(self).sessions()),
    {
        let mut taken: Vec<SshSession<C>> = Vec::new();
        std::mem::swap(&mut taken, &mut self.sessions);
        let ghost all = taken@;
        let mut r: Vec<C> = Vec::new();
        while taken.len() > 0
            invariant
                r@ + live_connections(taken@) == live_connections(all),
            decreases taken.len(),
        {
            let ghost before = taken@;
            let mut s = taken.remove(0);
            assert(taken@ =~= before.drop_first());
            match s.detach() {
                Some(c) => {
                    let ghost r0 = r@;
                    r.push(c);
                    assert(r@ + live_connections(taken@) =~= r0 + live_connections(before));
                },
                None => {
                    assert(r@ + live_connections(taken@) =~= r@ + live_connections(before));
                },
            }
        }
        assert(r@ + live_connections(taken@) =~= r@);
        r
    }

    /// The number of sessions.
    pub fn session_count(&self) -> (n: usize)
        ensures
            n == self.sessions().len(),
    {
        self.sessions.len()
    }
}

impl<C> Default for SshService<C> {
    /// A service with no session.
    fn default() -> (s: Self)
        ensures
            s.wf(),
            s.sessions() == Seq::<SshSession<C>>::empty(),
    {
        SshService::new()
    }
}

/// Reading a session after adding it gives it back.
pub proof fn lemma_lookup_after_add<C>(v: Seq<SshSession<C>>, s: SshSession<C>)
    requires
        distinct_ids(v),
    ensures
        lookup(added(v, s), s.id@) == Some(s),
        distinct_ids(added(v, s)),
{
    let w = added(v, s);
    if has_id(v, s.id@) {
        let p = place_of(v, s.id@);
        assert(w[p].id@ == s.id@);
        assert(has_id(w, s.id@));
        let q = place_of(w, s.id@);
        assert(w[q].id@ == s.id@);
        assert(q == p) by {
            if q != p {
                assert(v[q].id@ == w[q].id@);
            }
        }
    } else {
        let p = v.len() as int;
        assert(w[p] == s);
        assert(has_id(w, s.id@));
        let q = place_of(w, s.id@);
        assert(q == p) by {
            if q != p {
                assert(v[q] == w[q]);
                assert(has_id(v, s.id@));
            }
        }
    }
    assert forall|a: int, b: int| 0 <= a < w.len() && 0 <= b < w.len() && a != b implies (#[trigger] w[a]).id@ != (#[trigger] w[b]).id@ by {
        if has_id(v, s.id@) {
            let p = place_of(v, s.id@);
            if a != p && b != p {
            } else if a == p {
                assert(v[p].id@ == s.id@);
            } else {
                assert(v[p].id@ == s.id@);
            }
        } else {
            if a < v.len() && b < v.len() {
            } else if a < v.len() {
                assert(v[a] == w[a]);
            } else {
                assert(v[b] == w[b]);
            }
        }
    }
}

/// After a session is removed, there is none with its id, and the others stay.
pub proof fn lemma_lookup_after_remove<C>(v: Seq<SshSession<C>>, id: Seq<char>, other: Seq<char>)
    requires
        distinct_ids(v),
        other != id,
    ensures
        lookup(removed(v, id), id) is None,
        lookup(removed(v, id), other) == lookup(v, other),
{
    let w = removed(v, id);
    if has_id(v, id) {
        let p = place_of(v, id);
        assert(!has_id(w, id)) by {
            if has_id(w, id) {
                let q = place_of(w, id);
                let oq = if q < p { q } else { q + 1 };
                assert(w[q] == v[oq]);
            }
        }
        if has_id(v, other) {
            let o = place_of(v, other);
            assert(o != p);
            let wo = if o < p { o } else { o - 1 };
            assert(w[wo] == v[o]);
            assert(has_id(w, other));
            let q = place_of(w, other);
            let oq = if q < p { q } else { q + 1 };
            assert(w[q] == v[oq]);
            assert(oq == o);
        } else {
            assert(!has_id(w, other)) by {
                if has_id(w, other) {
                    let q = place_of(w, other);
                    let oq = if q < p { q } else { q + 1 };
                    assert(w[q] == v[oq]);
                }
            }
        }
    }
}

} // verus!
