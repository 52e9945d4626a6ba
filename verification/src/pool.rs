//! The sessions that are kept for threads: which connection a thread has, which
//! session it can take up again, who makes room when the pool is full, and
//! where a session works.

use vstd::prelude::*;
use crate::json::{
    json_string, json_text, mapping_bytes, mapping_read, text_map, text_mapping,
};
use crate::adapter::copy_text;
use crate::config::{setting_view, AgentTransport};
use crate::table::Table;
use crate::text::{
    ascii_digit, ascii_letter, is_digit, is_letter, only, same, to_chars, trim_of, trimmed_of,
    without_back, without_front,
};

verus! {

// ---------------------------------------------------------------------------
// Working directories
// ---------------------------------------------------------------------------

/// The characters that the name of a session's directory is made of.
pub open spec fn is_dir_char(c: char) -> bool {
    is_letter(c) || is_digit(c) || c == '-' || c == '_' || c == '.'
}

/// A text with an underscore for each character that cannot stand in a name.
pub open spec fn underscored(s: Seq<char>) -> Seq<char> {
    s.map_values(
        |c: char|
            if is_dir_char(c) {
                c
            } else {
                '_'
            },
    )
}

/// The name of a session's directory.
pub open spec fn dir_name(thread: Seq<char>) -> Seq<char> {
    let name = trimmed_of(underscored(thread), '_');
    if name.len() == 0 {
        "session"@
    } else {
        name
    }
}

pub fn sanitize_session_dir_component(thread_id: &str) -> (r: String)
    ensures
        r@ == dir_name(thread_id@),
{
    let v = to_chars(thread_id);
    let mut name = String::new();
    let mut i: usize = 0;
    let ghost all = underscored(v@);
    while i < v.len()
        invariant
            i <= v@.len(),
            all == underscored(v@),
            name@ == all.take(i as int),
        decreases v@.len() - i,
    {
        let c = v[i];
        assert(all.take(i + 1) =~= all.take(i as int).push(all[i as int]));
        if ascii_letter(c) || ascii_digit(c) || c == '-' || c == '_' || c == '.' {
            name.push(c);
        } else {
            name.push('_');
        }
        i += 1;
    }
    assert(all.take(all.len() as int) =~= all);
    let trimmed = trim_of(name.as_str(), '_');
    if trimmed.as_str().unicode_len() == 0 {
        "session".to_owned()
    } else {
        trimmed
    }
}

/// The name of a session's directory is one name, of safe characters, without an
/// underscore at either end, and the directory name of itself. Where nothing is left
/// of a thread's name, it is `session`.
pub proof fn dir_name_is_safe(thread: Seq<char>)
    ensures
        dir_name(thread).len() > 0,
        forall|i: int| 0 <= i < dir_name(thread).len() ==> is_dir_char(#[trigger] dir_name(thread)[i]),
        dir_name(thread)[0] != '_',
        dir_name(thread).last() != '_',
        (forall|i: int| 0 <= i < thread.len() ==> !is_dir_char(#[trigger] thread[i]) || thread[i]
            == '_') ==> dir_name(thread) == "session"@,
        dir_name(dir_name(thread)) == dir_name(thread),
{
    reveal_strlit("session");
    let u = underscored(thread);
    let a = without_front(u, only('_'));
    let t = trimmed_of(u, '_');
    let d = dir_name(thread);
    crate::text::lemma_trim_ends(u, only('_'));
    crate::text::lemma_trim_ends(a, only('_'));
    assert forall|i: int| 0 <= i < d.len() implies is_dir_char(#[trigger] d[i]) by {
        if t.len() > 0 {
            assert(t[i] == a[i]);
            assert(a[i] == u[u.len() - a.len() + i]);
        }
    }
    assert(underscored(d) =~= d);
    if t.len() > 0 {
        assert(t[0] == a[0]);
    }
    assert(d[0] != '_' && d.last() != '_');
    assert(without_front(d, only('_')) == d);
    assert(without_back(d, only('_')) == d);
    if forall|i: int| 0 <= i < thread.len() ==> !is_dir_char(#[trigger] thread[i]) || thread[i] == '_' {
        if t.len() > 0 {
            let at = u.len() - a.len();
            assert(a[0] == u[at]);
            assert(thread[at] == thread[at]);
            assert(u[at] == '_');
        }
    }
}

/// A name below a directory.
pub open spec fn below(base: Seq<char>, name: Seq<char>) -> Seq<char> {
    if base.len() == 0 || base.last() == '/' {
        base + name
    } else {
        base + "/"@ + name
    }
}

pub fn path_below(base: &str, name: &str) -> (r: String)
    ensures
        r@ == below(base@, name@),
{
    let v = to_chars(base);
    let mut out = base.to_owned();
    if v.len() > 0 && v[v.len() - 1] != '/' {
        out.append("/");
    }
    out.append(name);
    out
}

/// Where a session works.
#[derive(Debug)]
pub struct WorkDir {
    pub path: String,
    /// Whether the directory is to be made.
    pub create: bool,
}

/// Whether a session that is told of no directory works here.
pub open spec fn is_place_of(
    transport: AgentTransport,
    working_dir: Seq<char>,
    per_session: bool,
    base_is_dir: bool,
    thread: Seq<char>,
    r: Result<WorkDir, String>,
) -> bool {
    &&& transport == AgentTransport::Stdio && !base_is_dir ==> r is Err && r->Err_0@
        == "agent working_dir does not exist or is not a directory: "@ + working_dir
    &&& transport == AgentTransport::WebSocket || base_is_dir ==> r is Ok && r->Ok_0.path@ == (
    if per_session {
        below(working_dir, dir_name(thread))
    } else {
        working_dir
    }) && r->Ok_0.create == (per_session && transport == AgentTransport::Stdio)
}

/// Resolves the directory of a session that is told of none. An agent on this
/// machine needs the base directory, and gets its own below it where each
/// session has one.
pub fn resolve_working_dir(
    transport: AgentTransport,
    working_dir: &str,
    per_session: bool,
    base_is_dir: bool,
    thread_id: &str,
) -> (r: Result<WorkDir, String>)
    ensures
        is_place_of(transport, working_dir@, per_session, base_is_dir, thread_id@, r),
{
    if transport == AgentTransport::Stdio && !base_is_dir {
        let mut e = "agent working_dir does not exist or is not a directory: ".to_owned();
        e.append(working_dir);
        return Err(e);
    }
    if !per_session {
        return Ok(WorkDir { path: working_dir.to_owned(), create: false });
    }
    let name = sanitize_session_dir_component(thread_id);
    Ok(
        WorkDir {
            path: path_below(working_dir, name.as_str()),
            create: transport == AgentTransport::Stdio,
        },
    )
}

// ---------------------------------------------------------------------------
// Handles and gates
// ---------------------------------------------------------------------------

/// Takes a thread's handle out if it is the one expected, and not one that has
/// come in its place.
pub fn remove_if_same_handle(map: &mut Table<u64>, key: &str, expected: u64) -> (r: Option<u64>)
    ensures
        if old(map)@.contains_key(key@) && old(map)@[key@] == expected {
            &&& r == Some(expected)
            &&& final(map)@ == old(map)@.remove(key@)
        } else {
            &&& r is None
            &&& final(map)@ == old(map)@
        },
{
    let there = match map.get(key) {
        Some(current) => *current == expected,
        None => false,
    };
    if there {
        map.remove(key)
    } else {
        None
    }
}

/// A thread's gate: the one that it has, or else a fresh one.
pub fn get_or_insert_gate(map: &mut Table<u64>, key: &str, fresh: u64) -> (r: u64)
    ensures
        r == (if old(map)@.contains_key(key@) {
            old(map)@[key@]
        } else {
            fresh
        }),
        final(map)@ == old(map)@.insert(key@, r),
{
    match map.get(key) {
        Some(gate) => {
            let gate = *gate;
            assert(map@ =~= map@.insert(key@, gate));
            gate
        },
        None => {
            map.insert(key.to_owned(), fresh);
            fresh
        },
    }
}

// ---------------------------------------------------------------------------
// Deciding on a session
// ---------------------------------------------------------------------------

/// What is to be done for a thread that wants a session.
#[derive(Debug)]
pub enum SessionPlan {
    /// The connection that it has is alive.
    Reuse,
    /// A connection is to be made; the session named is taken up if it can be.
    Create { had_existing: bool, saved: Option<String> },
}

/// What is done for a thread with this connection, alive or not, and this session
/// put aside.
pub open spec fn plan_of(existing: Option<(bool, Option<String>)>, suspended: Option<String>) -> SessionPlan {
    match existing {
        Some((alive, served)) => if alive {
            SessionPlan::Reuse
        } else {
            SessionPlan::Create {
                had_existing: true,
                saved: if suspended is Some {
                    suspended
                } else {
                    served
                },
            }
        },
        None => SessionPlan::Create { had_existing: false, saved: suspended },
    }
}

/// Decides on a thread's session from its connection, alive or not, with the
/// session that it served, and from the session that was put aside.
pub fn plan_session(existing: Option<(bool, Option<String>)>, suspended: Option<String>) -> (r:
    SessionPlan)
    ensures
        r == plan_of(existing, suspended),
{
    match existing {
        Some((true, _)) => SessionPlan::Reuse,
        Some((false, served)) => {
            let saved = if suspended.is_some() {
                suspended
            } else {
                served
            };
            SessionPlan::Create { had_existing: true, saved }
        },
        None => SessionPlan::Create { had_existing: false, saved: suspended },
    }
}

/// The session to take up: the one saved, where the agent can.
pub fn session_to_load(saved: &Option<String>, supports_load: bool) -> (r: Option<String>)
    ensures
        r == (if supports_load {
            *saved
        } else {
            None
        }),
{
    if supports_load {
        copy_text(saved)
    } else {
        None
    }
}

/// Whether a session that there was is lost.
pub open spec fn was_lost(resumed: bool, had_existing: bool, was_saved: bool) -> bool {
    !resumed && (had_existing || was_saved)
}

/// Whether the thread is told that its session was lost: it had one, and it was
/// not taken up again.
pub fn is_reset(resumed: bool, had_existing: bool, saved: &Option<String>) -> (r: bool)
    ensures
        r == was_lost(resumed, had_existing, *saved is Some),
{
    !resumed && (had_existing || saved.is_some())
}

/// Whether a session is new to its thread.
pub fn is_fresh(had_existing: bool, saved: &Option<String>) -> (r: bool)
    ensures
        r == (!had_existing && saved is None),
{
    !had_existing && saved.is_none()
}

/// A connection as it was found: whether it was in use, and if not, when it last
/// was, whether it is alive, and which session it serves.
#[derive(Debug)]
pub struct Probe {
    pub key: String,
    pub handle: u64,
    pub busy: bool,
    pub last_active: u64,
    pub alive: bool,
    pub session_id: Option<String>,
}

/// Whether a connection may make room for a thread.
pub open spec fn may_yield(p: Probe, key: Seq<char>) -> bool {
    !p.busy && p.key@ != key
}

/// Whether a connection, by its place, is the one that makes room for a thread.
pub open spec fn is_pick(probes: Seq<Probe>, key: Seq<char>, r: Option<usize>) -> bool {
    match r {
        None => forall|i: int| 0 <= i < probes.len() ==> !may_yield(#[trigger] probes[i], key),
        Some(c) => c < probes.len() && may_yield(probes[c as int], key) && forall|i: int|
            0 <= i < probes.len() && may_yield(#[trigger] probes[i], key)
                ==> probes[c as int].last_active <= probes[i].last_active && (i < c
                ==> probes[c as int].last_active < probes[i].last_active),
    }
}

/// Picks the connection that makes room for a thread: of those that are not in
/// use, the one idle longest; the first of several.
pub fn pick_candidate(probes: &Vec<Probe>, key: &str) -> (r: Option<usize>)
    ensures
        is_pick(probes@, key@, r),
{
    let mut best: Option<usize> = None;
    let mut i: usize = 0;
    while i < probes.len()
        invariant
            i <= probes@.len(),
            match best {
                None => forall|k: int| 0 <= k < i ==> !may_yield(#[trigger] probes@[k], key@),
                Some(c) => c < i && may_yield(probes@[c as int], key@) && forall|k: int|
                    0 <= k < i && may_yield(#[trigger] probes@[k], key@)
                        ==> probes@[c as int].last_active <= probes@[k].last_active && (k < c
                        ==> probes@[c as int].last_active < probes@[k].last_active),
            },
        decreases probes@.len() - i,
    {
        let p = &probes[i];
        if !p.busy && !same(p.key.as_str(), key) {
            match best {
                Some(c) => {
                    if p.last_active < probes[c].last_active {
                        best = Some(i);
                    }
                },
                None => {
                    best = Some(i);
                },
            }
        }
        i += 1;
    }
    best
}

// ---------------------------------------------------------------------------
// The pool
// ---------------------------------------------------------------------------

/// What the pool holds, by thread.
pub struct PoolView {
    /// The connections, as handles.
    pub active: Map<Seq<char>, u64>,
    /// The sessions that can be cancelled.
    pub cancel: Map<Seq<char>, String>,
    /// The sessions that were put aside.
    pub suspended: Map<Seq<char>, String>,
    /// The sessions that outlive this process.
    pub persisted: Map<Seq<char>, String>,
    /// The directories that threads asked for.
    pub workdirs: Map<Seq<char>, String>,
    /// The gates of threads that get a connection.
    pub gates: Map<Seq<char>, u64>,
    pub max_sessions: nat,
}

impl PoolView {
    /// What holds of the pool at all times: it is not over its size, a session
    /// that was put aside has no connection, only a connection can be cancelled,
    /// and every session that is put aside or can be cancelled outlives this
    /// process.
    pub open spec fn wf(self) -> bool {
        &&& self.active.dom().finite()
        &&& self.active.len() <= self.max_sessions
        &&& forall|k: Seq<char>| #[trigger]
            self.suspended.contains_key(k) ==> !self.active.contains_key(k)
                && self.persisted.contains_key(k) && self.persisted[k]@ == self.suspended[k]@
        &&& forall|k: Seq<char>| #[trigger]
            self.cancel.contains_key(k) ==> self.active.contains_key(k)
                && self.persisted.contains_key(k) && self.persisted[k]@ == self.cancel[k]@
    }

    /// The pool without a thread's connection. Its session, if it has one, is put
    /// aside; if it has none, there is nothing to outlive this process.
    pub open spec fn retired(self, key: Seq<char>, session: Option<String>) -> PoolView {
        PoolView {
            active: self.active.remove(key),
            cancel: self.cancel.remove(key),
            suspended: match session {
                Some(s) => self.suspended.insert(key, s),
                None => self.suspended,
            },
            persisted: match session {
                Some(s) => self.persisted.insert(key, s),
                None => self.persisted.remove(key),
            },
            ..self
        }
    }

    /// Whether a thread still has a connection that was found before.
    pub open spec fn still_has(self, key: Seq<char>, handle: u64) -> bool {
        self.active.contains_key(key) && self.active[key] == handle
    }

    /// The pool with room made, where it is full and the candidate is still there.
    pub open spec fn with_room(self, candidate: Option<Candidate>) -> PoolView {
        match candidate {
            Some(c) => if self.active.len() >= self.max_sessions && self.still_has(
                c.key@,
                c.handle,
            ) {
                self.retired(c.key@, c.session_id)
            } else {
                self
            },
            None => self,
        }
    }

    /// The pool with a thread's connection in it. A session without a name can
    /// neither be cancelled nor taken up again.
    pub open spec fn with_connection(self, key: Seq<char>, handle: u64, session: String) -> PoolView {
        PoolView {
            active: self.active.insert(key, handle),
            suspended: self.suspended.remove(key),
            persisted: if session@.len() == 0 {
                self.persisted.remove(key)
            } else {
                self.persisted.insert(key, session)
            },
            cancel: if session@.len() == 0 {
                self.cancel
            } else {
                self.cancel.insert(key, session)
            },
            ..self
        }
    }

    /// The pool with a thread's directory, if it asked for one and had none.
    pub open spec fn with_workdir(self, key: Seq<char>, asked: bool, dir: String) -> PoolView {
        if asked && !self.workdirs.contains_key(key) {
            PoolView { workdirs: self.workdirs.insert(key, dir), ..self }
        } else {
            self
        }
    }

    /// Whether a connection was taken in for a thread, and what made room for it.
    pub open spec fn took_in(
        self,
        key: Seq<char>,
        handle: u64,
        session: String,
        candidate: Option<Candidate>,
        asked: bool,
        dir: String,
        made_room: Option<u64>,
        after: PoolView,
    ) -> bool {
        let roomy = self.with_room(candidate);
        &&& roomy.active.len() < roomy.max_sessions
        &&& after == roomy.with_connection(key, handle, session).with_workdir(key, asked, dir)
        &&& made_room == (if self.active.len() >= self.max_sessions {
            Some(candidate->0.handle)
        } else {
            None
        })
    }

    /// Whether there was no room for a connection.
    pub open spec fn refused(self, candidate: Option<Candidate>, after: PoolView) -> bool {
        let roomy = self.with_room(candidate);
        roomy.active.len() >= roomy.max_sessions && after == roomy
    }

    /// Whether the place of a thread was looked at: a connection that is neither in
    /// use nor alive was taken out of it.
    pub open spec fn vacated(self, key: Seq<char>, lives: bool, r: Vacancy, after: PoolView) -> bool {
        if !self.active.contains_key(key) {
            &&& r == Vacancy::Free(None)
            &&& after == self
        } else if lives {
            &&& r is Taken
            &&& after == self
        } else {
            &&& r == Vacancy::Free(Some(self.active[key]))
            &&& after == (PoolView {
                active: self.active.remove(key),
                cancel: self.cancel.remove(key),
                ..self
            })
        }
    }

    /// Whether a thread has a session, with a connection that lives or without.
    pub open spec fn has_session(self, key: Seq<char>, lives: bool) -> bool {
        self.suspended.contains_key(key) || self.persisted.contains_key(key) || (
        self.active.contains_key(key) && lives)
    }

    /// Whether a thread that has a say in it works here.
    pub open spec fn chooses(self, key: Seq<char>, asked: Option<Seq<char>>, dir: Option<String>) -> bool {
        match dir {
            Some(d) => if self.workdirs.contains_key(key) {
                d == self.workdirs[key]
            } else {
                asked == Some(d@)
            },
            None => !self.workdirs.contains_key(key) && asked is None,
        }
    }

    /// The pool with nothing of a thread in it.
    pub open spec fn without(self, key: Seq<char>) -> PoolView {
        PoolView {
            active: self.active.remove(key),
            cancel: self.cancel.remove(key),
            suspended: self.suspended.remove(key),
            persisted: self.persisted.remove(key),
            workdirs: self.workdirs.remove(key),
            gates: self.gates.remove(key),
            ..self
        }
    }

    /// The pool once an idle connection has been put aside. A session without a
    /// name leaves no directory behind either.
    pub open spec fn swept(self, p: Probe, cutoff: u64) -> PoolView {
        if is_idle(p, cutoff) && self.still_has(p.key@, p.handle) {
            let v = self.retired(p.key@, p.session_id);
            if p.session_id is None {
                PoolView { workdirs: v.workdirs.remove(p.key@), ..v }
            } else {
                v
            }
        } else {
            self
        }
    }

    /// The pool once the first `k` connections found have been looked at.
    pub open spec fn swept_all(self, probes: Seq<Probe>, cutoff: u64, k: int) -> PoolView
        decreases k,
    {
        if k <= 0 {
            self
        } else {
            self.swept_all(probes, cutoff, k - 1).swept(probes[k - 1], cutoff)
        }
    }

    /// The connections that sweeping the first `k` takes away, in their order.
    pub open spec fn let_go(self, probes: Seq<Probe>, cutoff: u64, k: int) -> Seq<u64>
        decreases k,
    {
        if k <= 0 {
            Seq::empty()
        } else {
            let p = probes[k - 1];
            let before = self.let_go(probes, cutoff, k - 1);
            if is_idle(p, cutoff) && self.swept_all(probes, cutoff, k - 1).still_has(
                p.key@,
                p.handle,
            ) {
                before.push(p.handle)
            } else {
                before
            }
        }
    }

    /// The pool with the first `k` sessions put aside.
    pub open spec fn put_aside(self, sessions: Seq<(String, String)>, k: int) -> PoolView
        decreases k,
    {
        if k <= 0 {
            self
        } else {
            let v = self.put_aside(sessions, k - 1);
            let (key, session) = sessions[k - 1];
            PoolView {
                suspended: v.suspended.insert(key@, session),
                persisted: v.persisted.insert(key@, session),
                ..v
            }
        }
    }

    /// The pool without any connection, all sessions put aside.
    pub open spec fn closed(self, sessions: Seq<(String, String)>) -> PoolView {
        PoolView {
            active: Map::empty(),
            cancel: Map::empty(),
            ..self.put_aside(sessions, sessions.len() as int)
        }
    }
}

/// Whether a connection is idle: not in use, and long so, or dead.
pub open spec fn is_idle(p: Probe, cutoff: u64) -> bool {
    !p.busy && (p.last_active < cutoff || !p.alive)
}

/// A connection that may make room, as it was found.
#[derive(Debug)]
pub struct Candidate {
    pub key: String,
    pub handle: u64,
    pub session_id: Option<String>,
}

/// What keeps the pool's properties through each change.
proof fn lemma_retired(v: PoolView, key: Seq<char>, session: Option<String>)
    requires
        v.wf(),
        v.active.contains_key(key),
    ensures
        v.retired(key, session).wf(),
        v.retired(key, session).active.len() + 1 == v.active.len(),
{
}

proof fn lemma_without(v: PoolView, key: Seq<char>)
    requires
        v.wf(),
    ensures
        v.without(key).wf(),
{
}

proof fn lemma_emptied(v: PoolView, key: Seq<char>)
    requires
        v.wf(),
    ensures
        (PoolView { active: v.active.remove(key), cancel: v.cancel.remove(key), ..v }).wf(),
{
}

proof fn lemma_with_connection(v: PoolView, key: Seq<char>, handle: u64, session: String)
    requires
        v.wf(),
        v.active.len() < v.max_sessions,
        !v.active.contains_key(key),
    ensures
        v.with_connection(key, handle, session).wf(),
{
}

proof fn lemma_swept_all(v: PoolView, probes: Seq<Probe>, cutoff: u64, k: int)
    requires
        v.wf(),
        0 <= k <= probes.len(),
    ensures
        v.swept_all(probes, cutoff, k).wf(),
    decreases k,
{
    if k > 0 {
        lemma_swept_all(v, probes, cutoff, k - 1);
        let w = v.swept_all(probes, cutoff, k - 1);
        if w.active.contains_key(probes[k - 1].key@) {
            lemma_retired(w, probes[k - 1].key@, probes[k - 1].session_id);
        }
    }
}

proof fn lemma_put_aside(v: PoolView, sessions: Seq<(String, String)>, k: int)
    requires
        v.wf(),
        0 <= k <= sessions.len(),
    ensures
        forall|q: Seq<char>| #[trigger]
            v.put_aside(sessions, k).suspended.contains_key(q) ==> v.put_aside(
                sessions,
                k,
            ).persisted.contains_key(q) && v.put_aside(sessions, k).persisted[q]@ == v.put_aside(
                sessions,
                k,
            ).suspended[q]@,
        v.put_aside(sessions, k).max_sessions == v.max_sessions,
    decreases k,
{
    if k > 0 {
        lemma_put_aside(v, sessions, k - 1);
    }
}

/// The sessions of threads.
#[derive(Debug)]
pub struct SessionPool {
    active: Table<u64>,
    cancel: Table<String>,
    suspended: Table<String>,
    persisted: Table<String>,
    workdirs: Table<String>,
    gates: Table<u64>,
    max_sessions: usize,
}

impl View for SessionPool {
    type V = PoolView;

    closed spec fn view(&self) -> PoolView {
        PoolView {
            active: self.active@,
            cancel: self.cancel@,
            suspended: self.suspended@,
            persisted: self.persisted@,
            workdirs: self.workdirs@,
            gates: self.gates@,
            max_sessions: self.max_sessions as nat,
        }
    }
}

/// How it stands with the place that a new connection is to take.
#[derive(Debug)]
pub enum Vacancy {
    /// Another connection is there, and is in use or alive.
    Taken,
    /// The place is free; this connection was dead and is taken out.
    Free(Option<u64>),
}

/// The mapping that a file holds; an empty one where it holds none.
pub fn load_mapping(data: &[u8]) -> (r: Table<String>)
    ensures
        match mapping_read(data@) {
            Some(m) => text_map(r@) == m,
            None => r@ == Map::<Seq<char>, String>::empty(),
        },
{
    match text_mapping(data) {
        Some(t) => t,
        None => Table::new(),
    }
}

/// The bytes in which a mapping is kept in a file.
pub fn save_mapping(mapping: &Table<String>) -> (r: Vec<u8>)
    ensures
        mapping_read(r@) == Some(text_map(mapping@)),
{
    mapping_bytes(mapping)
}

impl SessionPool {
    /// An empty pool that knows the sessions saved before it started.
    pub fn new(max_sessions: usize, saved: Table<String>, workdirs: Table<String>) -> (r: Self)
        ensures
            r@.wf(),
            r@.active == Map::<Seq<char>, u64>::empty(),
            r@.cancel == Map::<Seq<char>, String>::empty(),
            r@.suspended == saved@,
            r@.persisted == saved@,
            r@.workdirs == workdirs@,
            r@.gates == Map::<Seq<char>, u64>::empty(),
            r@.max_sessions == max_sessions,
    {
        let persisted = saved.duplicate();
        SessionPool {
            active: Table::new(),
            cancel: Table::new(),
            suspended: saved,
            persisted,
            workdirs,
            gates: Table::new(),
            max_sessions,
        }
    }

    /// The sessions that outlive this process.
    pub fn persisted(&self) -> (r: &Table<String>)
        ensures
            r@ == self@.persisted,
    {
        &self.persisted
    }

    /// The directories that threads asked for.
    pub fn workdirs(&self) -> (r: &Table<String>)
        ensures
            r@ == self@.workdirs,
    {
        &self.workdirs
    }

    /// The connections, as handles.
    pub fn active(&self) -> (r: &Table<u64>)
        ensures
            r@ == self@.active,
    {
        &self.active
    }

    /// A thread's gate, which it passes before it gets a connection.
    pub fn gate(&mut self, key: &str, fresh: u64) -> (r: u64)
        requires
            old(self)@.wf(),
        ensures
            r == (if old(self)@.gates.contains_key(key@) {
                old(self)@.gates[key@]
            } else {
                fresh
            }),
            final(self)@ == (PoolView { gates: old(self)@.gates.insert(key@, r), ..old(self)@ }),
            final(self)@.wf(),
    {
        get_or_insert_gate(&mut self.gates, key, fresh)
    }

    /// A thread's connection, and its session that was put aside.
    pub fn look_up(&self, key: &str) -> (r: (Option<u64>, Option<String>))
        ensures
            r.0 == (if self@.active.contains_key(key@) {
                Some(self@.active[key@])
            } else {
                None
            }),
            r.1 == (if self@.suspended.contains_key(key@) {
                Some(self@.suspended[key@])
            } else {
                None
            }),
    {
        let handle = match self.active.get(key) {
            Some(h) => Some(*h),
            None => None,
        };
        let session = match self.suspended.get(key) {
            Some(s) => Some(s.clone()),
            None => None,
        };
        (handle, session)
    }

    /// Whether a thread has a session: put aside, kept, or with a connection
    /// that is in use or alive.
    pub fn has_active_session(&self, key: &str, in_use: bool, alive: bool) -> (r: bool)
        ensures
            r == self@.has_session(key@, in_use || alive),
    {
        if self.suspended.contains_key(key) || self.persisted.contains_key(key) {
            return true;
        }
        self.active.contains_key(key) && (in_use || alive)
    }

    /// The directory of a thread that has a say in it: the one that it had
    /// before, or else the one that it asks for.
    pub fn chosen_workdir(&self, key: &str, asked: Option<&str>) -> (r: Option<String>)
        ensures
            self@.chooses(key@, setting_view(asked), r),
    {
        match self.workdirs.get(key) {
            Some(d) => Some(d.clone()),
            None => match asked {
                Some(d) => Some(d.to_owned()),
                None => None,
            },
        }
    }

    /// Looks at the place that a new connection is to take. A connection that is
    /// neither in use nor alive is taken out.
    pub fn vacate(&mut self, key: &str, in_use: bool, alive: bool) -> (r: Vacancy)
        requires
            old(self)@.wf(),
        ensures
            final(self)@.wf(),
            old(self)@.vacated(key@, in_use || alive, r, final(self)@),
    {
        if !self.active.contains_key(key) {
            return Vacancy::Free(None);
        }
        if in_use || alive {
            return Vacancy::Taken;
        }
        let ghost before = self@;
        let _ = self.cancel.remove(key);
        let gone = self.active.remove(key);
        proof {
            lemma_emptied(before, key@);
        }
        Vacancy::Free(gone)
    }

    /// Takes a thread's connection out and puts its session aside.
    fn retire(&mut self, key: &str, session: &Option<String>)
        requires
            old(self)@.wf(),
            old(self)@.active.contains_key(key@),
        ensures
            final(self)@ == old(self)@.retired(key@, *session),
            final(self)@.wf(),
    {
        let ghost before = self@;
        let _ = self.active.remove(key);
        let _ = self.cancel.remove(key);
        match session {
            Some(s) => {
                self.persisted.insert(key.to_owned(), s.clone());
                self.suspended.insert(key.to_owned(), s.clone());
            },
            None => {
                let _ = self.persisted.remove(key);
            },
        }
        proof {
            lemma_retired(before, key@, *session);
        }
    }

    /// Takes in the connection of a thread whose place is free. Where the pool is full, the candidate
    /// makes room, if it is still there; where there is no room then, the
    /// connection is refused. Gives the handle that made room.
    pub fn take_in(
        &mut self,
        key: &str,
        handle: u64,
        session_id: String,
        candidate: &Option<Candidate>,
        asked: bool,
        workdir: String,
    ) -> (r: Result<Option<u64>, String>)
        requires
            old(self)@.wf(),
            !old(self)@.active.contains_key(key@),
        ensures
            final(self)@.wf(),
            match r {
                Ok(made_room) => old(self)@.took_in(
                    key@,
                    handle,
                    session_id,
                    *candidate,
                    asked,
                    workdir,
                    made_room,
                    final(self)@,
                ),
                Err(e) => old(self)@.refused(*candidate, final(self)@) && e@ == "pool exhausted ("@
                    + crate::text::decimal(old(self)@.max_sessions) + " sessions)"@,
            },
    {
        let ghost before = self@;
        let mut made_room: Option<u64> = None;
        if self.active.len() >= self.max_sessions {
            if let Some(c) = candidate {
                let there = match self.active.get(c.key.as_str()) {
                    Some(h) => *h == c.handle,
                    None => false,
                };
                if there {
                    self.retire(c.key.as_str(), &c.session_id);
                    made_room = Some(c.handle);
                    proof {
                        lemma_retired(before, c.key@, c.session_id);
                    }
                }
            }
        }
        let ghost roomy = self@;
        assert(roomy == before.with_room(*candidate));
        if self.active.len() >= self.max_sessions {
            let mut e = "pool exhausted (".to_owned();
            crate::text::append_decimal(&mut e, self.max_sessions as u64);
            e.append(" sessions)");
            return Err(e);
        }
        if session_id.as_str().unicode_len() == 0 {
            let _ = self.persisted.remove(key);
        } else {
            self.persisted.insert(key.to_owned(), session_id.clone());
            self.cancel.insert(key.to_owned(), session_id.clone());
        }
        let _ = self.suspended.remove(key);
        self.active.insert(key.to_owned(), handle);
        proof {
            lemma_with_connection(roomy, key@, handle, session_id);
        }
        if asked && !self.workdirs.contains_key(key) {
            self.workdirs.insert(key.to_owned(), workdir);
        }
        Ok(made_room)
    }

    /// The session of a thread that can be cancelled.
    pub fn cancel_target(&self, key: &str) -> (r: Result<String, String>)
        ensures
            match r {
                Ok(s) => self@.cancel.contains_key(key@) && s == self@.cancel[key@],
                Err(e) => !self@.cancel.contains_key(key@) && e@ == "no session for thread "@ + key@,
            },
    {
        match self.cancel.get(key) {
            Some(s) => Ok(s.clone()),
            None => {
                let mut e = "no session for thread ".to_owned();
                e.append(key);
                Err(e)
            },
        }
    }

    /// The connection of a thread that must have one.
    pub fn connection(&self, key: &str) -> (r: Result<u64, String>)
        ensures
            match r {
                Ok(h) => self@.active.contains_key(key@) && h == self@.active[key@],
                Err(e) => !self@.active.contains_key(key@) && e@ == "no connection for thread "@
                    + key@,
            },
    {
        match self.active.get(key) {
            Some(h) => Ok(*h),
            None => {
                let mut e = "no connection for thread ".to_owned();
                e.append(key);
                Err(e)
            },
        }
    }

    /// Forgets all there is of a thread. Gives the connection that it had; that it
    /// had none is an error, but everything else is forgotten all the same.
    pub fn reset_session(&mut self, key: &str) -> (r: Result<u64, String>)
        requires
            old(self)@.wf(),
        ensures
            final(self)@ == old(self)@.without(key@),
            final(self)@.wf(),
            match r {
                Ok(h) => old(self)@.active.contains_key(key@) && h == old(self)@.active[key@],
                Err(e) => !old(self)@.active.contains_key(key@) && e@ == "no session for thread "@
                    + key@,
            },
    {
        proof {
            lemma_without(self@, key@);
        }
        let removed = self.active.remove(key);
        let _ = self.cancel.remove(key);
        let _ = self.suspended.remove(key);
        let _ = self.persisted.remove(key);
        let _ = self.gates.remove(key);
        let _ = self.workdirs.remove(key);
        match removed {
            Some(h) => Ok(h),
            None => {
                let mut e = "no session for thread ".to_owned();
                e.append(key);
                Err(e)
            },
        }
    }

    /// Puts the idle connections aside that are still as they were found. Gives
    /// their handles.
    pub fn cleanup_idle(&mut self, probes: &Vec<Probe>, cutoff: u64) -> (r: Vec<u64>)
        requires
            old(self)@.wf(),
        ensures
            final(self)@ == old(self)@.swept_all(probes@, cutoff, probes@.len() as int),
            final(self)@.wf(),
            r@ == old(self)@.let_go(probes@, cutoff, probes@.len() as int),
            old(self)@.active.len() == final(self)@.active.len() + r@.len(),
    {
        let ghost before = self@;
        let mut retired: Vec<u64> = Vec::new();
        let mut i: usize = 0;
        while i < probes.len()
            invariant
                i <= probes@.len(),
                before.wf(),
                self@.wf(),
                self@ == before.swept_all(probes@, cutoff, i as int),
                before.active.len() == self@.active.len() + retired@.len(),
                retired@ == before.let_go(probes@, cutoff, i as int),
            decreases probes@.len() - i,
        {
            let p = &probes[i];
            let ghost now = self@;
            if !p.busy && (p.last_active < cutoff || !p.alive) {
                let there = match self.active.get(p.key.as_str()) {
                    Some(h) => *h == p.handle,
                    None => false,
                };
                if there {
                    self.retire(p.key.as_str(), &p.session_id);
                    proof {
                        lemma_retired(now, p.key@, p.session_id);
                    }
                    if p.session_id.is_none() {
                        let _ = self.workdirs.remove(p.key.as_str());
                    }
                    retired.push(p.handle);
                }
            }
            assert(self@ == now.swept(*p, cutoff));
            i += 1;
        }
        retired
    }

    /// Puts all sessions aside and lets all connections go.
    pub fn shutdown(&mut self, sessions: &Vec<(String, String)>)
        requires
            old(self)@.wf(),
        ensures
            final(self)@ == old(self)@.closed(sessions@),
            final(self)@.wf(),
    {
        let ghost before = self@;
        let mut i: usize = 0;
        while i < sessions.len()
            invariant
                i <= sessions@.len(),
                self@ == before.put_aside(sessions@, i as int),
            decreases sessions@.len() - i,
        {
            let key = sessions[i].0.clone();
            let session = sessions[i].1.clone();
            self.persisted.insert(sessions[i].0.clone(), sessions[i].1.clone());
            self.suspended.insert(key, session);
            i += 1;
        }
        proof {
            lemma_put_aside(before, sessions@, sessions@.len() as int);
        }
        let ghost kept = self@;
        self.active.clear();
        self.cancel.clear();
        proof {
            assert(self@.active =~= Map::<Seq<char>, u64>::empty());
            assert(self@.active.len() == 0);
            assert(self@.suspended == kept.suspended);
            assert(self@.persisted == kept.persisted);
            assert forall|k: Seq<char>| #[trigger] self@.suspended.contains_key(k) implies !self@.active.contains_key(k)
                && self@.persisted.contains_key(k) && self@.persisted[k]@ == self@.suspended[k]@ by {
                assert(kept.suspended.contains_key(k));
            }
        }
    }
}

// ---------------------------------------------------------------------------
// What the pool keeps
// ---------------------------------------------------------------------------

/// A session that makes room can be taken up again: it is put aside under its
/// name, and outlives this process.
pub proof fn evicted_sessions_can_be_resumed(v: PoolView, c: Candidate)
    requires
        v.wf(),
        v.active.len() >= v.max_sessions,
        v.still_has(c.key@, c.handle),
        c.session_id is Some,
    ensures
        v.with_room(Some(c)).suspended.contains_key(c.key@),
        v.with_room(Some(c)).suspended[c.key@] == c.session_id->0,
        v.with_room(Some(c)).persisted.contains_key(c.key@),
        v.with_room(Some(c)).persisted[c.key@] == c.session_id->0,
        !v.with_room(Some(c)).active.contains_key(c.key@),
{
}

/// A thread's directory, once it is set, stays until the thread is reset: taking
/// in connections, of this thread or of others, does not change it.
pub proof fn workdir_is_immutable(
    v: PoolView,
    key: Seq<char>,
    other: Seq<char>,
    handle: u64,
    session: String,
    candidate: Option<Candidate>,
    asked: bool,
    dir: String,
)
    requires
        v.workdirs.contains_key(key),
    ensures
        ({
            let after = v.with_room(candidate).with_connection(other, handle, session).with_workdir(
                other,
                asked,
                dir,
            );
            after.workdirs.contains_key(key) && after.workdirs[key] == v.workdirs[key]
        }),
        !v.without(key).workdirs.contains_key(key),
{
}

/// A reset leaves nothing of the thread, and nothing of any other thread is
/// changed by it.
pub proof fn reset_is_complete_and_local(v: PoolView, key: Seq<char>, other: Seq<char>)
    requires
        v.wf(),
        other != key,
    ensures
        v.without(key).wf(),
        !v.without(key).active.contains_key(key),
        !v.without(key).cancel.contains_key(key),
        !v.without(key).suspended.contains_key(key),
        !v.without(key).persisted.contains_key(key),
        !v.without(key).workdirs.contains_key(key),
        v.without(key).active.contains_key(other) == v.active.contains_key(other),
        v.without(key).suspended.contains_key(other) == v.suspended.contains_key(other),
        v.without(key).persisted.contains_key(other) == v.persisted.contains_key(other),
        v.without(key).workdirs.contains_key(other) == v.workdirs.contains_key(other),
{
}

/// After a shutdown every session that was named can be taken up again by the
/// next process.
pub proof fn shutdown_keeps_sessions(v: PoolView, sessions: Seq<(String, String)>, i: int)
    requires
        v.wf(),
        0 <= i < sessions.len(),
        forall|a: int, b: int|
            0 <= a < b < sessions.len() ==> (#[trigger] sessions[a]).0@ != (#[trigger] sessions[b]).0@,
    ensures
        v.closed(sessions).persisted.contains_key(sessions[i].0@),
        v.closed(sessions).persisted[sessions[i].0@] == sessions[i].1,
        v.closed(sessions).active.dom().is_empty(),
{
    lemma_put_aside_keeps(v, sessions, i, sessions.len() as int);
}

proof fn lemma_put_aside_keeps(v: PoolView, sessions: Seq<(String, String)>, i: int, k: int)
    requires
        0 <= i < k <= sessions.len(),
        forall|a: int, b: int|
            0 <= a < b < sessions.len() ==> (#[trigger] sessions[a]).0@ != (#[trigger] sessions[b]).0@,
    ensures
        v.put_aside(sessions, k).persisted.contains_key(sessions[i].0@),
        v.put_aside(sessions, k).persisted[sessions[i].0@] == sessions[i].1,
    decreases k,
{
    if i < k - 1 {
        lemma_put_aside_keeps(v, sessions, i, k - 1);
        assert(sessions[i].0@ != sessions[k - 1].0@);
    }
}

// ---------------------------------------------------------------------------
// Cancelling
// ---------------------------------------------------------------------------

/// The request that cancels what a session is at.
pub fn cancel_request(session_id: &str) -> (r: String)
    ensures
        r@
            == "{\"jsonrpc\":\"2.0\",\"method\":\"session/cancel\",\"params\":{\"sessionId\":"@
            + json_text(session_id@) + "}}"@,
{
    let mut out =
        "{\"jsonrpc\":\"2.0\",\"method\":\"session/cancel\",\"params\":{\"sessionId\":".to_owned();
    out.append(json_string(session_id).as_str());
    out.append("}}");
    out
}

} // verus!
