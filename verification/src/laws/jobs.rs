//! What a job does when it runs, and what is noted of it.

use vstd::prelude::*;
use crate::adapter::{ChannelRef, SenderContext};
use crate::config::CronJobConfig;
use crate::cronjobs::{
    document_error, document_tables, goal_missed, goal_reached, has_check, is_announcement,
    is_first_step, is_step_after_announcement, is_step_after_check, is_step_after_thread,
    is_writable, job_place, run_before, runs_in, text_under, texts_under, write_error, CheckOutcome,
    CronStep, ID, JOBS,
};
use crate::text::{blank, ends, lemma_parts_stand, occurs, trimmed};

verus! {

/// A goal is reached exactly if the command ended well and its output, of either
/// kind, holds the mark; what kept it from being reached is told otherwise.
pub proof fn goals_need_success_and_the_mark(outcome: CheckOutcome, marker: Seq<char>)
    ensures
        goal_reached(outcome, marker) <==> outcome is Exited && outcome->success && (occurs(
            outcome->stdout@,
            marker,
        ) || occurs(outcome->stderr@, marker)),
        outcome is Exited && !outcome->success ==> !goal_reached(outcome, marker),
        goal_missed(CheckOutcome::TimedOut) != goal_missed(CheckOutcome::FailedToStart),
{
    reveal_strlit("command timed out");
    reveal_strlit("command failed to start");
    assert("command timed out"@.len() == 17);
    assert("command failed to start"@.len() == 23);
}

/// A job checks for success exactly if it names both a command for it and a mark
/// to look for.
pub proof fn checks_need_a_command_and_a_mark(job: CronJobConfig)
    ensures
        has_check(job) <==> job.disable_on_success is Some && !blank(job.disable_on_success->0@)
            && job.disable_on_success_match is Some && !blank(job.disable_on_success_match->0@),
{
}

/// A job is announced where it is to run, with its message behind the name it
/// runs under.
#[verifier::rlimit(40)]
#[verifier::spinoff_prover]
pub proof fn jobs_are_announced_in_their_channel(job: CronJobConfig, step: CronStep)
    requires
        is_announcement(job, step),
    ensures
        step is Announce,
        step->Announce_channel.platform == job.platform,
        step->Announce_channel.channel_id == job.channel,
        step->Announce_channel.thread_id == job.thread_id,
        ends(step->Announce_text@, job.message@),
        occurs(step->Announce_text@, "["@ + job.sender_name@ + "]"@),
{
    let t = step->Announce_text@;
    reveal_strlit("🕐 [");
    reveal_strlit("🕐 ");
    reveal_strlit("[");
    reveal_strlit("]");
    reveal_strlit("]: ");
    reveal_strlit(": ");
    assert("🕐 ["@ =~= "🕐 "@ + "["@);
    assert("]: "@ =~= "]"@ + ": "@);
    let said = "["@ + job.sender_name@ + "]"@;
    lemma_parts_stand("🕐 "@, said, ": "@ + job.message@);
    assert("🕐 "@ + said + (": "@ + job.message@) =~= t);
    let e = Seq::<char>::empty();
    lemma_parts_stand("🕐 ["@ + job.sender_name@ + "]: "@, e, job.message@);
    assert(("🕐 ["@ + job.sender_name@ + "]: "@) + e + job.message@ =~= t);
}

/// Whether a step speaks in the channel, or the thread, that a job names.
pub open spec fn speaks_for(job: CronJobConfig, c: ChannelRef) -> bool {
    c.platform == job.platform && c.channel_id == job.channel && c.thread_id == job.thread_id
}

/// Without an adapter a job does nothing. With one it first runs its check, if it
/// has one, for at least a second, with the command and the mark it names; else
/// it is announced at once.
pub proof fn jobs_check_before_they_announce(job: CronJobConfig, has_adapter: bool, step: CronStep)
    requires
        is_first_step(job, has_adapter, step),
    ensures
        !has_adapter ==> step is Stop,
        has_adapter ==> step is RunCheck || step is Announce,
        step is RunCheck ==> {
            &&& job.disable_on_success is Some && step->command@ == trimmed(job.disable_on_success->0@)
            &&& job.disable_on_success_match is Some && step->marker@ == trimmed(
                job.disable_on_success_match->0@,
            )
            &&& step->timeout_secs >= 1
            &&& job.disable_on_success_timeout_secs >= 1 ==> step->timeout_secs
                == job.disable_on_success_timeout_secs
        },
        step is Announce ==> speaks_for(job, step->Announce_channel),
        has_adapter && (job.disable_on_success is None || job.disable_on_success_match is None)
            ==> step is Announce,
{
}

/// A job whose goal is reached is not announced: its channel is told, and it is
/// turned off if it is one of the user's own and has an id. A job whose goal is
/// not reached is announced.
#[verifier::rlimit(40)]
#[verifier::spinoff_prover]
pub proof fn reached_goals_end_jobs(
    job: CronJobConfig,
    usercron: bool,
    command: Seq<char>,
    marker: Seq<char>,
    achieved: bool,
    step: CronStep,
)
    requires
        is_step_after_check(job, usercron, command, marker, achieved, step),
    ensures
        achieved <==> step is GoalReached,
        !achieved ==> step is Announce && speaks_for(job, step->Announce_channel),
        achieved ==> {
            &&& speaks_for(job, step->GoalReached_channel)
            &&& occurs(step->GoalReached_text@, command)
            &&& occurs(step->GoalReached_text@, marker)
            &&& !usercron ==> step->disable is None
            &&& usercron && job.id is Some && !blank(job.id->0@) ==> step->disable is Some
                && step->disable->0@ == trimmed(job.id->0@)
            &&& job.id is None ==> step->disable is None
        },
{
    if achieved {
        let t = step->GoalReached_text@;
        let a = "✅ Goal achieved: `"@;
        let b = "` matched `"@;
        let c = "`. Disabling cronjob."@;
        lemma_parts_stand(a, command, b + marker + c);
        assert(a + command + (b + marker + c) =~= t);
        lemma_parts_stand(a + command + b, marker, c);
        assert((a + command + b) + marker + c =~= t);
    }
}

/// A job that has a thread runs in it; one that has none has a thread made for
/// it first, named by its message. What could not be announced does not run.
pub proof fn jobs_run_in_threads(job: CronJobConfig, posted: bool, step: CronStep)
    requires
        is_step_after_announcement(job, posted, step),
    ensures
        !posted <==> step is Stop,
        posted && job.thread_id is Some <==> step is Dispatch,
        posted && job.thread_id is None <==> step is CreateThread,
        step is Dispatch ==> speaks_for(job, step->Dispatch_channel) && step->keep is None,
        step is CreateThread ==> speaks_for(job, step->CreateThread_channel) && step->title_of
            == job.message,
{
}

/// A job runs in the thread that was made for it, and that thread is kept for a
/// job of the user's own that has an id, under that id. Where no thread could be
/// made, the job does not run, and its channel is told why.
pub proof fn made_threads_are_kept(
    job: CronJobConfig,
    usercron: bool,
    thread: Result<ChannelRef, String>,
    step: CronStep,
)
    requires
        is_step_after_thread(job, usercron, thread, step),
    ensures
        thread matches Ok(t) ==> step is Dispatch && step->Dispatch_channel == t,
        thread matches Err(e) ==> step is Fail && speaks_for(job, step->Fail_channel) && ends(
            step->Fail_text@,
            e@,
        ),
        thread is Ok && usercron && job.id is Some && !blank(job.id->0@) ==> (step->keep matches Some(
            (id, thread_id),
        ) && id@ == trimmed(job.id->0@) && thread_id@ == thread->Ok_0.route()),
        thread is Ok && (!usercron || job.id is None) ==> step->keep is None,
{
    if thread is Err {
        let e = Seq::<char>::empty();
        lemma_parts_stand("⚠️ cronjob: failed to create thread: "@, e, thread->Err_0@);
        assert("⚠️ cronjob: failed to create thread: "@ + e + thread->Err_0@
            =~= "⚠️ cronjob: failed to create thread: "@ + thread->Err_0@);
    }
}

/// A job that runs in a thread is told of with the channel that the thread
/// belongs to, where that is known, and with the thread itself.
pub proof fn jobs_know_their_thread(reply: ChannelRef, s: SenderContext)
    requires
        runs_in(reply, s),
    ensures
        reply.parent_id matches Some(p) ==> s.channel_id@ == p@,
        reply.parent_id is None ==> s.channel_id@ == reply.channel_id@,
        s.thread_id is Some,
        reply.thread_id matches Some(t) ==> s.thread_id->0@ == t@,
        reply.thread_id is None ==> s.thread_id->0@ == reply.channel_id@,
{
}

proof fn lemma_job_place(ids: Seq<Option<Seq<char>>>, id: Seq<char>)
    ensures
        0 <= job_place(ids, id) <= ids.len(),
        forall|i: int| 0 <= i < job_place(ids, id) ==> #[trigger] ids[i] != Some(id),
        job_place(ids, id) < ids.len() ==> ids[job_place(ids, id)] == Some(id),
    decreases ids.len(),
{
    if ids.len() > 0 && ids[0] != Some(id) {
        lemma_job_place(ids.drop_first(), id);
        assert forall|i: int| 0 <= i < job_place(ids, id) implies #[trigger] ids[i] != Some(id) by {
            if i > 0 {
                assert(ids.drop_first()[i - 1] == ids[i]);
            }
        }
    }
}

/// A job is found by its id: the first that has it, and none where none has it.
pub proof fn jobs_are_found_by_id(ids: Seq<Option<Seq<char>>>, id: Seq<char>, i: int)
    ensures
        0 <= i < ids.len() && ids[i] == Some(id) && (forall|k: int|
            0 <= k < i ==> #[trigger] ids[k] != Some(id)) ==> job_place(ids, id) == i,
        (forall|k: int| 0 <= k < ids.len() ==> #[trigger] ids[k] != Some(id)) ==> job_place(ids, id)
            == ids.len(),
{
    lemma_job_place(ids, id);
    let at = job_place(ids, id);
    if at < ids.len() {
        assert(ids[at] == Some(id));
        if 0 <= i < at {
            assert(ids[i] != Some(id));
        }
    }
}

/// The user's file can be written back to exactly if it can be read, lists jobs,
/// and one of them has the id; and if the id of the thread can be written.
#[verifier::rlimit(40)]
#[verifier::spinoff_prover]
pub proof fn known_jobs_can_be_written(content: Seq<char>, id: Seq<char>, thread_id: Option<Seq<char>>)
    ensures
        write_error(content, id, thread_id) is None <==> {
            &&& document_error(content) is None
            &&& document_tables(content, JOBS@) is Some
            &&& exists|i: int|
                0 <= i < document_tables(content, JOBS@)->0.len() && text_under(
                    #[trigger] document_tables(content, JOBS@)->0[i],
                    ID@,
                ) == Some(id)
            &&& thread_id is Some ==> is_writable(thread_id->0)
        },
        document_error(content) is Some ==> write_error(content, id, thread_id) == document_error(
            content,
        ),
{
    if document_tables(content, JOBS@) is Some {
        let tables = document_tables(content, JOBS@)->0;
        let ids = texts_under(tables, ID@);
        lemma_job_place(ids, id);
        let at = job_place(ids, id);
        if at < ids.len() {
            assert(ids[at] == Some(id));
            assert(text_under(tables[at], ID@) == Some(id));
        }
        if exists|i: int| 0 <= i < tables.len() && text_under(#[trigger] tables[i], ID@) == Some(id) {
            let i = choose|i: int|
                0 <= i < tables.len() && text_under(#[trigger] tables[i], ID@) == Some(id);
            assert(ids[i] == Some(id));
            if at >= ids.len() {
                assert(ids[i] != Some(id));
            }
        }
    }
}

proof fn lemma_no_run(s: Seq<char>, c: char, k: int)
    requires
        0 <= k <= s.len(),
        forall|i: int| 0 <= i < s.len() ==> #[trigger] s[i] != c,
    ensures
        run_before(s, c, k) == 0,
{
}

/// A text without quotes can always be written.
pub proof fn plain_texts_can_be_written(s: Seq<char>)
    requires
        forall|i: int| 0 <= i < s.len() ==> #[trigger] s[i] != '"' && s[i] != '\'',
    ensures
        is_writable(s),
{
    assert forall|k: int| 0 <= k <= s.len() implies #[trigger] run_before(s, '"', k) <= 255
        && run_before(s, '\'', k) <= 255 by {
        lemma_no_run(s, '"', k);
        lemma_no_run(s, '\'', k);
    }
}

} // verus!
