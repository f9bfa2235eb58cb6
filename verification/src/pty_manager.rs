use vstd::prelude::*;
use vstd::slice::slice_to_vec;
use crate::errors::PtyError;
use crate::session::SessionStatus;
use crate::text::str_eq;

verus! {

/// One live or recently-live terminal-backed session.
///
/// The handle type `H` bundles whatever the process backend needs to
/// write to, resize, and terminate the child process; the registry owns
/// it exclusively and never inspects it.
pub struct PtySession<H> {
    pub id: String,
    pub project_id: String,
    pub status: SessionStatus,
    pub scrollback: Vec<u8>,
    pub handle: H,
}

/// The mathematical image of one session.
pub struct SessionModel<H> {
    pub id: Seq<char>,
    pub project_id: Seq<char>,
    pub status: SessionStatus,
    pub scrollback: Seq<u8>,
    pub handle: H,
}

impl<H> View for PtySession<H> {
    type V = SessionModel<H>;

    open spec fn view(&self) -> SessionModel<H> {
        SessionModel {
            id: self.id@,
            project_id: self.project_id@,
            status: self.status,
            scrollback: self.scrollback@,
            handle: self.handle,
        }
    }
}

/// Whether some session in the model carries the given id.
pub open spec fn spec_contains<H>(m: Seq<SessionModel<H>>, id: Seq<char>) -> bool {
    exists|i: int| 0 <= i < m.len() && m[i].id == id
}

/// The index of a session with the given id (meaningful under `spec_contains`).
pub open spec fn spec_index_of<H>(m: Seq<SessionModel<H>>, id: Seq<char>) -> int {
    choose|i: int| 0 <= i < m.len() && m[i].id == id
}

/// The session registered under the given id (meaningful under `spec_contains`).
pub open spec fn spec_session<H>(m: Seq<SessionModel<H>>, id: Seq<char>) -> SessionModel<H> {
    m[spec_index_of(m, id)]
}

/// No two sessions share an id: the registry is a map.
pub open spec fn spec_ids_unique<H>(m: Seq<SessionModel<H>>) -> bool {
    forall|i: int, j: int| 0 <= i < j < m.len() ==> m[i].id != m[j].id
}

/// How many sessions carry the given id.
pub open spec fn spec_count<H>(m: Seq<SessionModel<H>>, id: Seq<char>) -> nat
    decreases m.len(),
{
    if m.len() == 0 {
        0
    } else {
        spec_count(m.drop_last(), id) + if m.last().id == id { 1nat } else { 0nat }
    }
}

/// A freshly spawned session: running, with empty scrollback.
pub open spec fn spec_fresh<H>(id: Seq<char>, project_id: Seq<char>, handle: H) -> SessionModel<H> {
    SessionModel {
        id: id,
        project_id: project_id,
        status: SessionStatus::Running,
        scrollback: Seq::empty(),
        handle: handle,
    }
}

/// Registering a session under an id: any previous holder of the id is
/// displaced, the fresh session goes to the back.
pub open spec fn spec_insert<H>(
    m: Seq<SessionModel<H>>,
    id: Seq<char>,
    project_id: Seq<char>,
    handle: H,
) -> Seq<SessionModel<H>> {
    if spec_contains(m, id) {
        m.remove(spec_index_of(m, id)).push(spec_fresh(id, project_id, handle))
    } else {
        m.push(spec_fresh(id, project_id, handle))
    }
}

/// Attach-or-spawn: a no-op when the id is already live, otherwise a
/// fresh registration.
pub open spec fn spec_attach<H>(
    m: Seq<SessionModel<H>>,
    id: Seq<char>,
    project_id: Seq<char>,
    handle: H,
) -> Seq<SessionModel<H>> {
    if spec_contains(m, id) {
        m
    } else {
        m.push(spec_fresh(id, project_id, handle))
    }
}

/// Removal by id; absent ids are tolerated.
pub open spec fn spec_kill<H>(m: Seq<SessionModel<H>>, id: Seq<char>) -> Seq<SessionModel<H>> {
    if spec_contains(m, id) {
        m.remove(spec_index_of(m, id))
    } else {
        m
    }
}

/// Appending one output chunk to a session's scrollback; absent ids are
/// tolerated.
pub open spec fn spec_append<H>(
    m: Seq<SessionModel<H>>,
    id: Seq<char>,
    data: Seq<u8>,
) -> Seq<SessionModel<H>> {
    if spec_contains(m, id) {
        let i = spec_index_of(m, id);
        m.update(i, SessionModel { scrollback: m[i].scrollback + data, ..m[i] })
    } else {
        m
    }
}

/// The stream-end transition: the session, if still registered, becomes
/// `Stopped` in place, keeping its scrollback queryable.
pub open spec fn spec_stop<H>(m: Seq<SessionModel<H>>, id: Seq<char>) -> Seq<SessionModel<H>> {
    if spec_contains(m, id) {
        let i = spec_index_of(m, id);
        m.update(i, SessionModel { status: SessionStatus::Stopped, ..m[i] })
    } else {
        m
    }
}

/// The session registry: one entry per live (or naturally exited but not
/// yet removed) session, keyed by session id.
pub struct PtyManager<H> {
    sessions: Vec<PtySession<H>>,
}

impl<H> View for PtyManager<H> {
    type V = Seq<SessionModel<H>>;

    closed spec fn view(&self) -> Seq<SessionModel<H>> {
        self.sessions@.map(|_i: int, s: PtySession<H>| s@)
    }
}

impl<H> PtyManager<H> {
    /// The registry's invariant: ids are unique keys.
    pub open spec fn wf(&self) -> bool {
        spec_ids_unique(self@)
    }

    pub fn new() -> (r: PtyManager<H>)
        ensures
            r@ == Seq::<SessionModel<H>>::empty(),
            r.wf(),
    {
        let r = PtyManager { sessions: Vec::new() };
        proof {
            assert(r@ =~= Seq::<SessionModel<H>>::empty());
        }
        r
    }

    pub fn len(&self) -> (r: usize)
        ensures
            r == self@.len(),
    {
        self.sessions.len()
    }

    pub fn is_empty(&self) -> (r: bool)
        ensures
            r == (self@.len() == 0),
    {
        self.sessions.is_empty()
    }

    /// The position of the session with this id, if any.
    fn find_index(&self, id: &str) -> (r: Option<usize>)
        ensures
            match r {
                Some(i) => 0 <= i < self@.len() && self@[i as int].id == id@,
                None => !spec_contains(self@, id@),
            },
    {
        let n = self.sessions.len();
        let mut i: usize = 0;
        while i < n
            invariant
                i <= n,
                n == self@.len(),
                n == self.sessions@.len(),
                forall|k: int| 0 <= k < i ==> self@[k].id != id@,
                forall|k: int| 0 <= k < n ==> self@[k] == self.sessions@[k]@,
            decreases n - i,
        {
            if str_eq(self.sessions[i].id.as_str(), id) {
                return Some(i);
            }
            i = i + 1;
        }
        None
    }

    /// Whether a session with this id is currently registered.
    pub fn contains_session(&self, id: &str) -> (r: bool)
        ensures
            r == spec_contains(self@, id@),
    {
        self.find_index(id).is_some()
    }

    /// An independent copy of a session's status and scrollback, so that
    /// no caller ever holds a reference into the registry past the call.
    pub fn get_session(&self, id: &str) -> (r: Option<(SessionStatus, Vec<u8>)>)
        requires
            self.wf(),
        ensures
            match r {
                Some(s) => spec_contains(self@, id@) && s.0 == spec_session(self@, id@).status
                    && s.1@ == spec_session(self@, id@).scrollback,
                None => !spec_contains(self@, id@),
            },
    {
        match self.find_index(id) {
            Some(i) => {
                proof {
                    lemma_found_is_the_session(self@, id@, i as int);
                }
                let s = &self.sessions[i];
                Some((s.status, slice_to_vec(s.scrollback.as_slice())))
            }
            None => None,
        }
    }
}

/// Under unique ids, any position holding the id is the canonical one.
pub proof fn lemma_found_is_the_session<H>(m: Seq<SessionModel<H>>, id: Seq<char>, i: int)
    requires
        spec_ids_unique(m),
        0 <= i < m.len(),
        m[i].id == id,
    ensures
        spec_contains(m, id),
        spec_index_of(m, id) == i,
        spec_session(m, id) == m[i],
{
    assert(spec_contains(m, id));
    let j = spec_index_of(m, id);
    assert(0 <= j < m.len() && m[j].id == id);
    if i != j {
        assert(m[i].id != m[j].id);
    }
}

/// Removing any entry keeps the remaining ids unique.
pub proof fn lemma_remove_preserves_unique<H>(m: Seq<SessionModel<H>>, i: int)
    requires
        spec_ids_unique(m),
        0 <= i < m.len(),
    ensures
        spec_ids_unique(m.remove(i)),
{
    let r = m.remove(i);
    assert forall|a: int, b: int| 0 <= a < b < r.len() implies r[a].id != r[b].id by {
        let a0 = if a < i { a } else { a + 1 };
        let b0 = if b < i { b } else { b + 1 };
        assert(r[a] == m[a0]);
        assert(r[b] == m[b0]);
    }
}

/// Removing the entry that holds an id removes the id entirely.
pub proof fn lemma_remove_removes_id<H>(m: Seq<SessionModel<H>>, i: int)
    requires
        spec_ids_unique(m),
        0 <= i < m.len(),
    ensures
        !spec_contains(m.remove(i), m[i].id),
{
    let id = m[i].id;
    let r = m.remove(i);
    assert forall|a: int| 0 <= a < r.len() implies r[a].id != id by {
        let a0 = if a < i { a } else { a + 1 };
        assert(r[a] == m[a0]);
        if a0 != i {
            assert(m[a0].id != m[i].id);
        }
    }
}

/// Updating an entry without changing its id leaves containment, the
/// canonical index, and uniqueness untouched.
pub proof fn lemma_update_same_id<H>(m: Seq<SessionModel<H>>, i: int, s: SessionModel<H>)
    requires
        spec_ids_unique(m),
        0 <= i < m.len(),
        s.id == m[i].id,
    ensures
        spec_ids_unique(m.update(i, s)),
        spec_contains(m.update(i, s), m[i].id),
        spec_index_of(m.update(i, s), m[i].id) == i,
        forall|k: int| 0 <= k < m.len() ==> m.update(i, s)[k].id == m[k].id,
        forall|other: Seq<char>| spec_contains(m.update(i, s), other) == spec_contains(m, other),
{
    let u = m.update(i, s);
    assert forall|a: int, b: int| 0 <= a < b < u.len() implies u[a].id != u[b].id by {
        assert(u[a].id == m[a].id);
        assert(u[b].id == m[b].id);
    }
    assert(u[i].id == m[i].id);
    lemma_found_is_the_session(u, m[i].id, i);
    assert forall|other: Seq<char>|
        spec_contains(m.update(i, s), other) == spec_contains(m, other) by {
        if spec_contains(m, other) {
            let w = spec_index_of(m, other);
            assert(u[w].id == other);
        }
        if spec_contains(u, other) {
            let w = spec_index_of(u, other);
            assert(m[w].id == other);
        }
    }
}

/// Appending a session with a new id keeps ids unique.
pub proof fn lemma_push_new_id<H>(m: Seq<SessionModel<H>>, s: SessionModel<H>)
    requires
        spec_ids_unique(m),
        !spec_contains(m, s.id),
    ensures
        spec_ids_unique(m.push(s)),
        spec_contains(m.push(s), s.id),
{
    let p = m.push(s);
    assert forall|a: int, b: int| 0 <= a < b < p.len() implies p[a].id != p[b].id by {
        if b < m.len() {
            assert(p[a] == m[a]);
            assert(p[b] == m[b]);
        } else {
            assert(p[a] == m[a]);
            assert(p[b] == s);
        }
    }
    assert(p[m.len() as int] == s);
}

impl<H> PtyManager<H> {
    /// Registers a freshly spawned session under `id`, displacing (and
    /// handing back the handle of) any previous holder of the id.
    pub fn insert_session(&mut self, id: String, project_id: String, handle: H) -> (displaced: Option<
        H,
    >)
        requires
            old(self).wf(),
        ensures
            final(self).wf(),
            final(self)@ == spec_insert(old(self)@, id@, project_id@, handle),
            displaced is Some <==> spec_contains(old(self)@, id@),
            spec_contains(old(self)@, id@) ==> displaced == Some(
                spec_session(old(self)@, id@).handle,
            ),
    {
        let displaced: Option<H> = match self.find_index(id.as_str()) {
            Some(i) => {
                proof {
                    lemma_found_is_the_session(self@, id@, i as int);
                    lemma_remove_preserves_unique(self@, i as int);
                    lemma_remove_removes_id(self@, i as int);
                }
                let s = self.sessions.remove(i);
                proof {
                    assert(self@ =~= old(self)@.remove(i as int));
                }
                Some(s.handle)
            },
            None => None,
        };
        let ghost mid = self@;
        let fresh = PtySession {
            id: id,
            project_id: project_id,
            status: SessionStatus::Running,
            scrollback: Vec::new(),
            handle: handle,
        };
        proof {
            assert(fresh@ == spec_fresh(fresh.id@, fresh.project_id@, fresh.handle));
            lemma_push_new_id(mid, fresh@);
        }
        self.sessions.push(fresh);
        proof {
            assert(self@ =~= mid.push(spec_fresh(id@, project_id@, handle)));
        }
        displaced
    }

    /// The attach-or-spawn operation behind the shell command: when `id`
    /// is already live this is a no-op that hands the prepared handle
    /// back, otherwise it registers a fresh running session.
    pub fn attach_session(&mut self, id: String, project_id: String, handle: H) -> (r: Option<H>)
        requires
            old(self).wf(),
        ensures
            final(self).wf(),
            final(self)@ == spec_attach(old(self)@, id@, project_id@, handle),
            r is Some <==> spec_contains(old(self)@, id@),
            spec_contains(old(self)@, id@) ==> r == Some(handle),
    {
        match self.find_index(id.as_str()) {
            Some(_i) => Some(handle),
            None => {
                let ghost m0 = self@;
                let fresh = PtySession {
                    id: id,
                    project_id: project_id,
                    status: SessionStatus::Running,
                    scrollback: Vec::new(),
                    handle: handle,
                };
                proof {
                    assert(fresh@ == spec_fresh(fresh.id@, fresh.project_id@, fresh.handle));
                    lemma_push_new_id(m0, fresh@);
                }
                self.sessions.push(fresh);
                proof {
                    assert(self@ =~= m0.push(spec_fresh(id@, project_id@, handle)));
                }
                None
            },
        }
    }

    /// Removes the session and hands its handle out for termination;
    /// an absent id is tolerated as a no-op.
    pub fn kill_session(&mut self, id: &str) -> (r: Option<H>)
        requires
            old(self).wf(),
        ensures
            final(self).wf(),
            final(self)@ == spec_kill(old(self)@, id@),
            r is Some <==> spec_contains(old(self)@, id@),
            spec_contains(old(self)@, id@) ==> r == Some(spec_session(old(self)@, id@).handle),
    {
        match self.find_index(id) {
            Some(i) => {
                proof {
                    lemma_found_is_the_session(self@, id@, i as int);
                    lemma_remove_preserves_unique(self@, i as int);
                }
                let s = self.sessions.remove(i);
                proof {
                    assert(self@ =~= old(self)@.remove(i as int));
                }
                Some(s.handle)
            },
            None => None,
        }
    }

    /// Appends one output chunk to the session's scrollback, in stream
    /// order; reports whether the session was still registered.
    pub fn append_scrollback(&mut self, id: &str, data: &[u8]) -> (found: bool)
        requires
            old(self).wf(),
        ensures
            final(self).wf(),
            final(self)@ == spec_append(old(self)@, id@, data@),
            found == spec_contains(old(self)@, id@),
    {
        match self.find_index(id) {
            Some(i) => {
                proof {
                    lemma_found_is_the_session(self@, id@, i as int);
                }
                let ghost m0 = self@;
                let mut s = self.sessions.remove(i);
                let mut tail = slice_to_vec(data);
                s.scrollback.append(&mut tail);
                proof {
                    assert(s@ == SessionModel { scrollback: m0[i as int].scrollback + data@, ..m0[i as int] });
                    lemma_update_same_id(m0, i as int, s@);
                }
                self.sessions.insert(i, s);
                proof {
                    assert(self@ =~= m0.update(i as int, SessionModel {
                        scrollback: m0[i as int].scrollback + data@,
                        ..m0[i as int]
                    }));
                }
                true
            },
            None => false,
        }
    }

    /// The stream-end transition: marks the session `Stopped` in place
    /// (scrollback stays queryable); reports whether the session was
    /// still registered, which decides whether an exit notice is owed.
    pub fn mark_stopped(&mut self, id: &str) -> (was_present: bool)
        requires
            old(self).wf(),
        ensures
            final(self).wf(),
            final(self)@ == spec_stop(old(self)@, id@),
            was_present == spec_contains(old(self)@, id@),
    {
        match self.find_index(id) {
            Some(i) => {
                proof {
                    lemma_found_is_the_session(self@, id@, i as int);
                }
                let ghost m0 = self@;
                let mut s = self.sessions.remove(i);
                s.status = SessionStatus::Stopped;
                proof {
                    assert(s@ == SessionModel { status: SessionStatus::Stopped, ..m0[i as int] });
                    lemma_update_same_id(m0, i as int, s@);
                }
                self.sessions.insert(i, s);
                proof {
                    assert(self@ =~= m0.update(i as int, SessionModel {
                        status: SessionStatus::Stopped,
                        ..m0[i as int]
                    }));
                }
                true
            },
            None => false,
        }
    }

    /// A borrow of the handle of a registered session.
    pub fn session_handle(&self, id: &str) -> (r: Option<&H>)
        requires
            self.wf(),
        ensures
            match r {
                Some(h) => spec_contains(self@, id@) && *h == spec_session(self@, id@).handle,
                None => !spec_contains(self@, id@),
            },
    {
        match self.find_index(id) {
            Some(i) => {
                proof {
                    lemma_found_is_the_session(self@, id@, i as int);
                }
                Some(&self.sessions[i].handle)
            },
            None => None,
        }
    }

    /// The write operation's registry half: an unknown id is a
    /// `NotFound` error, a known id yields the handle to write through.
    pub fn write_target(&self, id: &str) -> (r: Result<&H, PtyError>)
        requires
            self.wf(),
        ensures
            match r {
                Ok(h) => spec_contains(self@, id@) && *h == spec_session(self@, id@).handle,
                Err(e) => !spec_contains(self@, id@) && e == PtyError::NotFound,
            },
    {
        match self.session_handle(id) {
            Some(h) => Ok(h),
            None => Err(PtyError::NotFound),
        }
    }

    /// The resize operation's registry half: an unknown id is tolerated
    /// as a no-op, never a fault.
    pub fn resize_target(&self, id: &str) -> (r: Option<&H>)
        requires
            self.wf(),
        ensures
            match r {
                Some(h) => spec_contains(self@, id@) && *h == spec_session(self@, id@).handle,
                None => !spec_contains(self@, id@),
            },
    {
        self.session_handle(id)
    }

    /// The scrollback of a live session, or the durable store's snapshot
    /// (`stored`) for an absent one, or empty when neither exists.
    pub fn get_scrollback(&self, id: &str, stored: Option<Vec<u8>>) -> (r: Vec<u8>)
        requires
            self.wf(),
        ensures
            spec_contains(self@, id@) ==> r@ == spec_session(self@, id@).scrollback,
            !spec_contains(self@, id@) ==> r@ == match stored {
                Some(v) => v@,
                None => Seq::<u8>::empty(),
            },
    {
        match self.find_index(id) {
            Some(i) => {
                proof {
                    lemma_found_is_the_session(self@, id@, i as int);
                }
                slice_to_vec(self.sessions[i].scrollback.as_slice())
            },
            None => match stored {
                Some(v) => v,
                None => Vec::new(),
            },
        }
    }
}

impl<H> Default for PtyManager<H> {
    fn default() -> (r: PtyManager<H>)
        ensures
            r@ == Seq::<SessionModel<H>>::empty(),
            r.wf(),
    {
        PtyManager::new()
    }
}

/// An id that was never registered is inert: `kill`, scrollback appends
/// and the stream-end transition all leave the registry exactly as it
/// was, and in particular its size unchanged.
pub proof fn lemma_absent_id_inert<H>(m: Seq<SessionModel<H>>, id: Seq<char>, data: Seq<u8>)
    requires
        !spec_contains(m, id),
    ensures
        spec_kill(m, id) == m,
        spec_append(m, id, data) == m,
        spec_stop(m, id) == m,
{
}

/// A session count of zero is the same thing as absence.
pub proof fn lemma_count_zero_iff_absent<H>(m: Seq<SessionModel<H>>, id: Seq<char>)
    ensures
        (spec_count(m, id) == 0) <==> !spec_contains(m, id),
    decreases m.len(),
{
    if m.len() == 0 {
        assert(!spec_contains(m, id));
    } else {
        let d = m.drop_last();
        lemma_count_zero_iff_absent(d, id);
        if spec_contains(m, id) {
            let i = spec_index_of(m, id);
            if i < m.len() - 1 {
                assert(d[i].id == id);
                assert(spec_contains(d, id));
            } else {
                assert(m.last().id == id);
            }
        }
        if spec_contains(d, id) {
            let i = spec_index_of(d, id);
            assert(m[i].id == id);
            assert(spec_contains(m, id));
        }
    }
}

/// Under unique ids an id occurs at most once.
pub proof fn lemma_unique_count_le_one<H>(m: Seq<SessionModel<H>>, id: Seq<char>)
    requires
        spec_ids_unique(m),
    ensures
        spec_count(m, id) <= 1,
    decreases m.len(),
{
    if m.len() > 0 {
        let d = m.drop_last();
        assert(spec_ids_unique(d)) by {
            assert(forall|i: int| 0 <= i < d.len() ==> d[i] == m[i]);
        }
        lemma_unique_count_le_one(d, id);
        if m.last().id == id {
            assert(!spec_contains(d, id)) by {
                if spec_contains(d, id) {
                    let i = spec_index_of(d, id);
                    assert(m[i].id == id);
                    assert(m[i].id != m[m.len() - 1].id);
                }
            }
            lemma_count_zero_iff_absent(d, id);
        }
    }
}

/// A registered id occurs at least once.
pub proof fn lemma_contains_count_pos<H>(m: Seq<SessionModel<H>>, id: Seq<char>)
    requires
        spec_contains(m, id),
    ensures
        spec_count(m, id) >= 1,
{
    lemma_count_zero_iff_absent(m, id);
}

/// Spawning a shell twice in succession under one id is idempotent:
/// the second attach changes nothing, and exactly one session is live
/// under the id after both calls.
pub proof fn lemma_attach_idempotent<H>(
    m: Seq<SessionModel<H>>,
    id: Seq<char>,
    p1: Seq<char>,
    h1: H,
    p2: Seq<char>,
    h2: H,
)
    requires
        spec_ids_unique(m),
    ensures
        spec_attach(spec_attach(m, id, p1, h1), id, p2, h2) == spec_attach(m, id, p1, h1),
        spec_ids_unique(spec_attach(m, id, p1, h1)),
        spec_count(spec_attach(m, id, p1, h1), id) == 1,
{
    let a1 = spec_attach(m, id, p1, h1);
    if spec_contains(m, id) {
        lemma_contains_count_pos(m, id);
        lemma_unique_count_le_one(m, id);
    } else {
        let fresh = spec_fresh(id, p1, h1);
        lemma_push_new_id(m, fresh);
        assert(a1 == m.push(fresh));
        assert(a1[m.len() as int].id == id);
        assert(spec_contains(a1, id));
        assert(a1.drop_last() =~= m);
        assert(a1.last() == fresh);
        lemma_count_zero_iff_absent(m, id);
        assert(spec_count(a1, id) == spec_count(m, id) + 1);
    }
}

/// Output chunks land in scrollback in stream order: after the pump
/// reads `b1` and then `b2`, the scrollback is the old scrollback
/// extended by `b1` then `b2`, in that order.
pub proof fn lemma_scrollback_order<H>(
    m: Seq<SessionModel<H>>,
    id: Seq<char>,
    b1: Seq<u8>,
    b2: Seq<u8>,
)
    requires
        spec_ids_unique(m),
        spec_contains(m, id),
    ensures
        spec_contains(spec_append(m, id, b1), id),
        spec_session(spec_append(spec_append(m, id, b1), id, b2), id).scrollback
            == spec_session(m, id).scrollback + b1 + b2,
{
    let i = spec_index_of(m, id);
    assert(0 <= i < m.len() && m[i].id == id);
    let s1 = SessionModel { scrollback: m[i].scrollback + b1, ..m[i] };
    lemma_update_same_id(m, i, s1);
    let a1 = m.update(i, s1);
    assert(spec_append(m, id, b1) == a1);
    assert(a1[i] == s1);
    let s2 = SessionModel { scrollback: a1[i].scrollback + b2, ..a1[i] };
    lemma_update_same_id(a1, i, s2);
    let a2 = a1.update(i, s2);
    assert(spec_append(a1, id, b2) == a2);
    lemma_found_is_the_session(a2, id, i);
    assert(spec_session(a2, id).scrollback == m[i].scrollback + b1 + b2);
}

/// After a kill removed the session, the id is gone entirely, so the
/// pump's stream-end pass finds nothing: the registry stays as the kill
/// left it and no exit notice is owed.
pub proof fn lemma_stop_after_kill_is_silent<H>(m: Seq<SessionModel<H>>, id: Seq<char>)
    requires
        spec_ids_unique(m),
    ensures
        !spec_contains(spec_kill(m, id), id),
        spec_stop(spec_kill(m, id), id) == spec_kill(m, id),
{
    if spec_contains(m, id) {
        let i = spec_index_of(m, id);
        lemma_remove_removes_id(m, i);
    }
}

/// Stopping moves the session to `Stopped` and touches nothing else.
pub proof fn lemma_stop_transition<H>(m: Seq<SessionModel<H>>, id: Seq<char>)
    requires
        spec_ids_unique(m),
        spec_contains(m, id),
    ensures
        spec_contains(spec_stop(m, id), id),
        spec_session(spec_stop(m, id), id).status == SessionStatus::Stopped,
        spec_session(spec_stop(m, id), id).scrollback == spec_session(m, id).scrollback,
        spec_session(spec_stop(m, id), id).id == spec_session(m, id).id,
        spec_session(spec_stop(m, id), id).project_id == spec_session(m, id).project_id,
{
    let i = spec_index_of(m, id);
    let s1 = SessionModel { status: SessionStatus::Stopped, ..m[i] };
    lemma_update_same_id(m, i, s1);
    lemma_found_is_the_session(m.update(i, s1), id, i);
}

/// Status transitions are monotonic: a stopped session never leaves
/// the stopped state under output appends or further stream-end
/// passes; only removal, or a fresh registration under the id, ends it.
pub proof fn lemma_stopped_is_terminal<H>(m: Seq<SessionModel<H>>, id: Seq<char>, data: Seq<u8>)
    requires
        spec_ids_unique(m),
        spec_contains(m, id),
        spec_session(m, id).status == SessionStatus::Stopped,
    ensures
        spec_session(spec_append(m, id, data), id).status == SessionStatus::Stopped,
        spec_session(spec_stop(m, id), id).status == SessionStatus::Stopped,
{
    let i = spec_index_of(m, id);
    let s1 = SessionModel { scrollback: m[i].scrollback + data, ..m[i] };
    lemma_update_same_id(m, i, s1);
    lemma_found_is_the_session(m.update(i, s1), id, i);
    lemma_stop_transition(m, id);
}

/// `Stopped` is terminal: a second stream-end pass changes nothing.
pub proof fn lemma_stop_idempotent<H>(m: Seq<SessionModel<H>>, id: Seq<char>)
    requires
        spec_ids_unique(m),
    ensures
        spec_stop(spec_stop(m, id), id) == spec_stop(m, id),
{
    if spec_contains(m, id) {
        let i = spec_index_of(m, id);
        let s1 = SessionModel { status: SessionStatus::Stopped, ..m[i] };
        lemma_update_same_id(m, i, s1);
        let a1 = m.update(i, s1);
        assert(spec_stop(m, id) == a1);
        lemma_found_is_the_session(a1, id, i);
        assert(SessionModel { status: SessionStatus::Stopped, ..a1[i] } == a1[i]);
        assert(a1.update(i, a1[i]) =~= a1);
    }
}

} // verus!
