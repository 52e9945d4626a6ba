//! How the sessions of threads are kept, put aside and forgotten.

use vstd::prelude::*;
use crate::config::AgentTransport;
use crate::pool::{
    below, dir_name, is_dir_char, is_pick, is_place_of, may_yield, plan_of, was_lost, Candidate, PoolView,
    Probe, Vacancy, WorkDir,
};
use crate::text::{begins, ends};

verus! {

/// Whether two states of a pool agree on all that they hold of a thread.
pub open spec fn agree_on(a: PoolView, b: PoolView, key: Seq<char>) -> bool {
    &&& a.active.contains_key(key) == b.active.contains_key(key)
    &&& a.active.contains_key(key) ==> a.active[key] == b.active[key]
    &&& a.cancel.contains_key(key) == b.cancel.contains_key(key)
    &&& a.cancel.contains_key(key) ==> a.cancel[key] == b.cancel[key]
    &&& a.suspended.contains_key(key) == b.suspended.contains_key(key)
    &&& a.suspended.contains_key(key) ==> a.suspended[key] == b.suspended[key]
    &&& a.persisted.contains_key(key) == b.persisted.contains_key(key)
    &&& a.persisted.contains_key(key) ==> a.persisted[key] == b.persisted[key]
    &&& a.workdirs.contains_key(key) == b.workdirs.contains_key(key)
    &&& a.workdirs.contains_key(key) ==> a.workdirs[key] == b.workdirs[key]
    &&& a.gates.contains_key(key) == b.gates.contains_key(key)
    &&& a.gates.contains_key(key) ==> a.gates[key] == b.gates[key]
}

/// Whether no two probes are of the same thread.
pub open spec fn distinct_probes(probes: Seq<Probe>) -> bool {
    forall|i: int, j: int|
        0 <= i < j < probes.len() ==> (#[trigger] probes[i]).key@ != (#[trigger] probes[j]).key@
}

proof fn lemma_swept_agree(v: PoolView, probes: Seq<Probe>, cutoff: u64, k: int, key: Seq<char>)
    requires
        0 <= k <= probes.len(),
        forall|i: int| 0 <= i < k ==> (#[trigger] probes[i]).key@ != key,
    ensures
        agree_on(v.swept_all(probes, cutoff, k), v, key),
    decreases k,
{
    if k > 0 {
        lemma_swept_agree(v, probes, cutoff, k - 1, key);
        assert(probes[k - 1].key@ != key);
    }
}

proof fn lemma_let_go_grows(v: PoolView, probes: Seq<Probe>, cutoff: u64, i: int, k: int)
    requires
        0 <= i <= k <= probes.len(),
    ensures
        v.let_go(probes, cutoff, i).len() <= v.let_go(probes, cutoff, k).len(),
        forall|n: int|
            0 <= n < v.let_go(probes, cutoff, i).len() ==> v.let_go(probes, cutoff, i)[n]
                == #[trigger] v.let_go(probes, cutoff, k)[n],
    decreases k,
{
    if i < k {
        lemma_let_go_grows(v, probes, cutoff, i, k - 1);
    }
}

proof fn lemma_swept_later(v: PoolView, probes: Seq<Probe>, cutoff: u64, i: int, k: int)
    requires
        distinct_probes(probes),
        0 <= i < k <= probes.len(),
    ensures
        agree_on(
            v.swept_all(probes, cutoff, k),
            v.swept_all(probes, cutoff, i + 1),
            probes[i].key@,
        ),
    decreases k,
{
    if i + 1 < k {
        lemma_swept_later(v, probes, cutoff, i, k - 1);
        assert(probes[i].key@ != probes[k - 1].key@);
    }
}

/// After a cleanup, each connection that was found not in use and either last
/// active before the cutoff or dead, and which its thread still has, is not
/// active any more, however many connections the pool holds. Its handle is
/// among those given, and its session, if it has one, is put aside and kept;
/// without one, nothing is kept for the thread, nor its directory.
#[verifier::rlimit(40)]
#[verifier::spinoff_prover]
pub proof fn idle_connections_are_put_aside(
    v: PoolView,
    probes: Seq<Probe>,
    cutoff: u64,
    i: int,
)
    requires
        distinct_probes(probes),
        0 <= i < probes.len(),
        !probes[i].busy,
        probes[i].last_active < cutoff || !probes[i].alive,
        v.active.contains_key(probes[i].key@),
        v.active[probes[i].key@] == probes[i].handle,
    ensures
        ({
            let after = v.swept_all(probes, cutoff, probes.len() as int);
            let p = probes[i];
            &&& !after.active.contains_key(p.key@)
            &&& !after.cancel.contains_key(p.key@)
            &&& v.let_go(probes, cutoff, probes.len() as int).contains(p.handle)
            &&& p.session_id matches Some(s) ==> {
                &&& after.suspended.contains_key(p.key@) && after.suspended[p.key@] == s
                &&& after.persisted.contains_key(p.key@) && after.persisted[p.key@] == s
                &&& after.workdirs.contains_key(p.key@) == v.workdirs.contains_key(p.key@)
            }
            &&& p.session_id is None ==> !after.persisted.contains_key(p.key@)
                && !after.workdirs.contains_key(p.key@)
        }),
{
    let n = probes.len() as int;
    let p = probes[i];
    assert forall|j: int| 0 <= j < i implies (#[trigger] probes[j]).key@ != p.key@ by {
        assert(probes[j].key@ != probes[i].key@);
    }
    lemma_swept_agree(v, probes, cutoff, i, p.key@);
    lemma_swept_later(v, probes, cutoff, i, n);
    lemma_let_go_grows(v, probes, cutoff, i + 1, n);
    let gone = v.let_go(probes, cutoff, i + 1);
    assert(gone.last() == p.handle);
    assert(gone[gone.len() - 1] == v.let_go(probes, cutoff, n)[gone.len() - 1]);
}

/// A cleanup leaves everything as it is of a thread whose connection was in
/// use, or was alive and last active at the cutoff or after it, or has been
/// replaced since, and of every thread that was not looked at.
#[verifier::rlimit(40)]
#[verifier::spinoff_prover]
pub proof fn other_connections_are_left(
    v: PoolView,
    probes: Seq<Probe>,
    cutoff: u64,
    key: Seq<char>,
)
    requires
        distinct_probes(probes),
        forall|i: int|
            0 <= i < probes.len() && (#[trigger] probes[i]).key@ == key ==> {
                ||| probes[i].busy
                ||| probes[i].alive && probes[i].last_active >= cutoff
                ||| !v.active.contains_key(key)
                ||| v.active[key] != probes[i].handle
            },
    ensures
        agree_on(v.swept_all(probes, cutoff, probes.len() as int), v, key),
{
    let n = probes.len() as int;
    if exists|i: int| 0 <= i < n && (#[trigger] probes[i]).key@ == key {
        let i = choose|i: int| 0 <= i < n && (#[trigger] probes[i]).key@ == key;
        assert forall|j: int| 0 <= j < i implies (#[trigger] probes[j]).key@ != key by {
            assert(probes[j].key@ != probes[i].key@);
        }
        lemma_swept_agree(v, probes, cutoff, i, key);
        lemma_swept_later(v, probes, cutoff, i, n);
    } else {
        lemma_swept_agree(v, probes, cutoff, n, key);
    }
}

/// A connection that is taken in is the thread's from then on; a session that
/// it serves can be cancelled and is kept, and one that was put aside before is
/// put aside no more. The directory asked for is the thread's unless it had one.
/// Every other thread but the one that made room is left as it was.
pub proof fn taken_in_connections_serve(
    v: PoolView,
    key: Seq<char>,
    handle: u64,
    session: String,
    candidate: Option<Candidate>,
    asked: bool,
    dir: String,
    other: Seq<char>,
)
    requires
        other != key,
        candidate matches Some(c) ==> other != c.key@,
    ensures
        ({
            let after = v.with_room(candidate).with_connection(key, handle, session).with_workdir(
                key,
                asked,
                dir,
            );
            &&& after.active.contains_key(key) && after.active[key] == handle
            &&& !after.suspended.contains_key(key)
            &&& session@.len() > 0 ==> {
                &&& after.cancel.contains_key(key) && after.cancel[key] == session
                &&& after.persisted.contains_key(key) && after.persisted[key] == session
            }
            &&& session@.len() == 0 ==> !after.persisted.contains_key(key)
            &&& !v.workdirs.contains_key(key) ==> after.workdirs.contains_key(key) == asked
            &&& !v.workdirs.contains_key(key) && asked ==> after.workdirs[key] == dir
            &&& v.workdirs.contains_key(key) ==> after.workdirs.contains_key(key)
                && after.workdirs[key] == v.workdirs[key]
            &&& agree_on(after, v, other)
            &&& after.max_sessions == v.max_sessions
        }),
{
}

/// Room is made only in a full pool, and only by the connection that was picked
/// for it, if its thread still has it; then there is one connection fewer. In
/// every other case nothing changes.
pub proof fn room_is_made_only_when_full(v: PoolView, candidate: Option<Candidate>)
    requires
        v.wf(),
    ensures
        v.active.len() < v.max_sessions ==> v.with_room(candidate) == v,
        candidate is None ==> v.with_room(candidate) == v,
        candidate matches Some(c) ==> {
            let there = v.active.contains_key(c.key@) && v.active[c.key@] == c.handle;
            &&& !there ==> v.with_room(candidate) == v
            &&& there && v.active.len() >= v.max_sessions ==> {
                &&& !v.with_room(candidate).active.contains_key(c.key@)
                &&& v.with_room(candidate).active.len() == v.active.len() - 1
                &&& v.with_room(candidate).workdirs == v.workdirs
            }
        },
{
}

/// A connection is taken in wherever there is room or room can be made, and
/// refused only in a full pool that none could leave. The pool never holds more
/// than it may; a handle is given exactly if it made room.
pub proof fn connections_are_taken_in_where_there_is_room(
    v: PoolView,
    key: Seq<char>,
    handle: u64,
    session: String,
    candidate: Option<Candidate>,
    asked: bool,
    dir: String,
    made_room: Option<u64>,
    after: PoolView,
)
    requires
        v.wf(),
        !v.active.contains_key(key),
    ensures
        v.took_in(key, handle, session, candidate, asked, dir, made_room, after) ==> {
            &&& after.active.contains_key(key) && after.active[key] == handle
            &&& after.active.len() <= after.max_sessions
            &&& session@.len() == 0 ==> !after.cancel.contains_key(key) && !after.persisted.contains_key(
                key,
            )
            &&& v.active.len() < v.max_sessions ==> made_room is None && after.active.len()
                == v.active.len() + 1
            &&& v.active.len() >= v.max_sessions ==> {
                &&& candidate matches Some(c) && made_room == Some(c.handle)
                    && v.active.contains_key(c.key@) && v.active[c.key@] == c.handle
                    && !after.active.contains_key(c.key@)
                &&& after.active.len() == v.active.len()
            }
        },
        v.refused(candidate, after) ==> {
            &&& v.active.len() >= v.max_sessions
            &&& !after.active.contains_key(key)
            &&& v.max_sessions > 0 ==> after == v && (candidate is None || !v.active.contains_key(
                candidate->0.key@,
            ) || v.active[candidate->0.key@] != candidate->0.handle)
        },
{
}

/// To forget a thread leaves everything of every other thread as it was, and of
/// the thread itself nothing.
pub proof fn forgetting_touches_one_thread(v: PoolView, key: Seq<char>, other: Seq<char>)
    requires
        other != key,
    ensures
        agree_on(v.without(key), v, other),
        !v.without(key).active.contains_key(key),
        !v.without(key).cancel.contains_key(key),
        !v.without(key).suspended.contains_key(key),
        !v.without(key).persisted.contains_key(key),
        !v.without(key).workdirs.contains_key(key),
        !v.without(key).gates.contains_key(key),
        v.without(key).max_sessions == v.max_sessions,
{
}

proof fn lemma_put_aside_other(v: PoolView, sessions: Seq<(String, String)>, k: int, key: Seq<char>)
    requires
        0 <= k <= sessions.len(),
        forall|i: int| 0 <= i < k ==> (#[trigger] sessions[i]).0@ != key,
    ensures
        agree_on(v.put_aside(sessions, k), v, key),
        v.put_aside(sessions, k).workdirs == v.workdirs,
    decreases k,
{
    if k > 0 {
        lemma_put_aside_other(v, sessions, k - 1, key);
        assert(sessions[k - 1].0@ != key);
    }
}

proof fn lemma_put_aside_last(v: PoolView, sessions: Seq<(String, String)>, k: int, i: int)
    requires
        0 <= i < k <= sessions.len(),
        forall|j: int| i < j < k ==> (#[trigger] sessions[j]).0@ != sessions[i].0@,
    ensures
        v.put_aside(sessions, k).suspended.contains_key(sessions[i].0@),
        v.put_aside(sessions, k).suspended[sessions[i].0@] == sessions[i].1,
        v.put_aside(sessions, k).persisted.contains_key(sessions[i].0@),
        v.put_aside(sessions, k).persisted[sessions[i].0@] == sessions[i].1,
    decreases k,
{
    if i < k - 1 {
        assert(sessions[k - 1].0@ != sessions[i].0@);
        lemma_put_aside_last(v, sessions, k - 1, i);
    }
}

/// When the pool is closed no connection is left, and every session that was
/// reported for a thread, the last one of each, can be taken up again. Of
/// threads without one, what was put aside or kept before stays.
pub proof fn closing_puts_every_session_aside(
    v: PoolView,
    sessions: Seq<(String, String)>,
    key: Seq<char>,
    i: int,
)
    ensures
        !v.closed(sessions).active.contains_key(key),
        !v.closed(sessions).cancel.contains_key(key),
        0 <= i < sessions.len() && sessions[i].0@ == key && (forall|j: int|
            i < j < sessions.len() ==> (#[trigger] sessions[j]).0@ != key) ==> {
            &&& v.closed(sessions).suspended.contains_key(key)
            &&& v.closed(sessions).suspended[key] == sessions[i].1
            &&& v.closed(sessions).persisted.contains_key(key)
            &&& v.closed(sessions).persisted[key] == sessions[i].1
        },
        (forall|j: int| 0 <= j < sessions.len() ==> (#[trigger] sessions[j]).0@ != key) ==> {
            &&& v.closed(sessions).suspended.contains_key(key) == v.suspended.contains_key(key)
            &&& v.suspended.contains_key(key) ==> v.closed(sessions).suspended[key]
                == v.suspended[key]
            &&& v.closed(sessions).persisted.contains_key(key) == v.persisted.contains_key(key)
            &&& v.persisted.contains_key(key) ==> v.closed(sessions).persisted[key]
                == v.persisted[key]
            &&& v.closed(sessions).workdirs.contains_key(key) == v.workdirs.contains_key(key)
        },
{
    let n = sessions.len() as int;
    if 0 <= i < n && sessions[i].0@ == key && (forall|j: int|
        i < j < n ==> (#[trigger] sessions[j]).0@ != key) {
        lemma_put_aside_last(v, sessions, n, i);
    }
    if forall|j: int| 0 <= j < n ==> (#[trigger] sessions[j]).0@ != key {
        lemma_put_aside_other(v, sessions, n, key);
    }
}

/// A connection that is alive is used again. Otherwise a session that was put
/// aside is taken up before the one that the dead connection served; without
/// either, a new one is begun.
pub proof fn sessions_are_taken_up_again(served: Option<String>, suspended: Option<String>)
    ensures
        plan_of(Some((true, served)), suspended) is Reuse,
        !(plan_of(None, suspended) is Reuse),
        !(plan_of(Some((false, served)), suspended) is Reuse),
        suspended is Some ==> plan_of(Some((false, served)), suspended)->saved == suspended,
        suspended is None ==> plan_of(Some((false, served)), suspended)->saved == served,
        plan_of(None, suspended)->saved == suspended,
        plan_of(Some((false, served)), suspended)->had_existing,
        !plan_of(None, suspended)->had_existing,
{
}

/// A place is taken only by a connection that lives; a dead one is taken out and
/// given, and nothing else of any thread changes. A place that is free then takes
/// a connection in.
pub proof fn dead_connections_give_way(
    v: PoolView,
    key: Seq<char>,
    lives: bool,
    r: Vacancy,
    after: PoolView,
    other: Seq<char>,
)
    requires
        v.vacated(key, lives, r, after),
        other != key,
    ensures
        r is Taken <==> v.active.contains_key(key) && lives,
        r is Taken ==> after == v,
        r matches Vacancy::Free(gone) ==> !after.active.contains_key(key) && (gone is Some
            <==> v.active.contains_key(key)),
        r matches Vacancy::Free(Some(h)) ==> v.active[key] == h && !lives && !after.cancel.contains_key(
            key,
        ),
        agree_on(after, v, other),
        after.suspended == v.suspended && after.persisted == v.persisted && after.workdirs
            == v.workdirs,
{
}

/// A thread keeps the directory that it had, whatever it asks for later; only one
/// that has none gets the one it asks for.
pub proof fn directories_are_kept(
    v: PoolView,
    key: Seq<char>,
    asked: Option<Seq<char>>,
    dir: Option<String>,
    other: Option<Seq<char>>,
    again: Option<String>,
)
    requires
        v.chooses(key, asked, dir),
        v.chooses(key, other, again),
    ensures
        v.workdirs.contains_key(key) ==> dir == Some(v.workdirs[key]) && again == dir,
        !v.workdirs.contains_key(key) ==> (dir is Some <==> asked is Some),
        !v.workdirs.contains_key(key) && asked is Some ==> dir->0@ == asked->0,
{
}

/// A thread has a session while one is put aside or kept for it, and while its
/// connection lives; forgetting it leaves none.
pub proof fn forgotten_threads_have_no_session(v: PoolView, key: Seq<char>, lives: bool)
    ensures
        v.suspended.contains_key(key) ==> v.has_session(key, lives),
        v.persisted.contains_key(key) ==> v.has_session(key, lives),
        v.active.contains_key(key) ==> v.has_session(key, true),
        !v.without(key).has_session(key, lives),
{
}

/// A thread is told that its session is lost only where it had one that was not
/// taken up again.
pub proof fn losses_are_told(had_existing: bool, was_saved: bool)
    ensures
        !was_lost(true, had_existing, was_saved),
        was_lost(false, had_existing, was_saved) <==> had_existing || was_saved,
{
}

/// An agent on this machine needs its base directory. Where each session has a
/// directory of its own, that stands below the base, is named by the thread, and
/// is made for an agent on this machine; otherwise all work in the base.
pub proof fn sessions_work_below_the_base(
    transport: AgentTransport,
    base: Seq<char>,
    per_session: bool,
    base_is_dir: bool,
    thread: Seq<char>,
    r: Result<WorkDir, String>,
)
    requires
        is_place_of(transport, base, per_session, base_is_dir, thread, r),
    ensures
        r is Err <==> transport == AgentTransport::Stdio && !base_is_dir,
        r matches Ok(d) ==> begins(d.path@, base),
        r matches Ok(d) ==> !per_session ==> d.path@ == base && !d.create,
        r matches Ok(d) ==> per_session ==> ends(d.path@, dir_name(thread)) && d.path@.len()
            > base.len(),
        r matches Ok(d) ==> per_session ==> (d.create <==> transport == AgentTransport::Stdio),
{
    names_stand_below_their_directory(base, dir_name(thread));
    crate::pool::dir_name_is_safe(thread);
    assert(base.subrange(0, base.len() as int) =~= base);
}

/// Of the connections that could make room, the one that was idle longest is
/// picked, and one is picked wherever there is one.
pub proof fn longest_idle_connections_make_room(
    probes: Seq<Probe>,
    key: Seq<char>,
    r: Option<usize>,
    i: int,
)
    requires
        is_pick(probes, key, r),
        0 <= i < probes.len(),
        !probes[i].busy,
        probes[i].key@ != key,
    ensures
        r is Some,
        r->0 < probes.len(),
        !probes[r->0 as int].busy,
        probes[r->0 as int].key@ != key,
        probes[r->0 as int].last_active <= probes[i].last_active,
{
    assert(may_yield(probes[i], key));
}

/// The connection picked to make room is never in use and never the thread's
/// own.
pub proof fn only_idle_connections_yield(p: Probe, key: Seq<char>)
    ensures
        may_yield(p, key) <==> !p.busy && p.key@ != key,
{
}

/// A name below a directory begins with the directory and ends with the name,
/// with one slash between them where the directory does not end with one.
pub proof fn names_stand_below_their_directory(base: Seq<char>, name: Seq<char>)
    ensures
        begins(below(base, name), base),
        ends(below(base, name), name),
        below(base, name).len() == base.len() + name.len() + (if base.len() > 0 && base.last()
            != '/' {
            1int
        } else {
            0
        }),
        base.len() > 0 && base.last() != '/' ==> below(base, name)[base.len() as int] == '/',
{
    reveal_strlit("/");
    let r = below(base, name);
    assert(r.subrange(0, base.len() as int) =~= base);
    assert(r.subrange(r.len() - name.len(), r.len() as int) =~= name);
}

/// A thread whose id can be the name of a directory, and has no underscore at
/// its ends, has that name as its directory.
pub proof fn plain_ids_name_their_directory(thread: Seq<char>)
    requires
        thread.len() > 0,
        forall|i: int| 0 <= i < thread.len() ==> is_dir_char(#[trigger] thread[i]),
        thread[0] != '_',
        thread.last() != '_',
    ensures
        dir_name(thread) == thread,
{
    assert(crate::pool::underscored(thread) =~= thread);
}

} // verus!
