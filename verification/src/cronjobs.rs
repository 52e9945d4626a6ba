//! One run of a scheduled job, step by step, and what a run writes back to the
//! user's file.

use toml_edit::DocumentMut;
use vstd::prelude::*;
use crate::adapter::{copy_text, ChannelRef, SenderContext};
use crate::config::{as_text, filled, non_empty, setting_view, text_view, CronJobConfig};
use crate::text::{contains, debug_form, debug_string, occurs, same, to_chars};

verus! {

// ---------------------------------------------------------------------------
// The check whether a job's goal is reached
// ---------------------------------------------------------------------------

/// What became of a job's check.
#[derive(Debug)]
pub enum CheckOutcome {
    FailedToStart,
    WaitFailed,
    Exited { success: bool, stdout: String, stderr: String },
    TimedOut,
}

/// Whether a job's goal is reached, and if not, why not.
#[derive(Debug)]
pub enum DisableOnSuccessResult {
    Achieved,
    NotAchieved(&'static str),
}

/// A goal is reached when the check ends well and prints the marker.
pub open spec fn goal_reached(outcome: CheckOutcome, marker: Seq<char>) -> bool {
    outcome matches CheckOutcome::Exited { success, stdout, stderr } && success && (occurs(
        stdout@,
        marker,
    ) || occurs(stderr@, marker))
}

/// Why a goal is not reached.
pub open spec fn goal_missed(outcome: CheckOutcome) -> Seq<char> {
    match outcome {
        CheckOutcome::FailedToStart => "command failed to start"@,
        CheckOutcome::WaitFailed => "command wait failed"@,
        CheckOutcome::TimedOut => "command timed out"@,
        CheckOutcome::Exited { success, stdout, stderr } => if success {
            "success marker not found"@
        } else {
            "command exited non-zero"@
        },
    }
}

/// Judges a check.
pub fn check_disable_on_success(outcome: &CheckOutcome, marker: &str) -> (r: DisableOnSuccessResult)
    ensures
        match r {
            DisableOnSuccessResult::Achieved => goal_reached(*outcome, marker@),
            DisableOnSuccessResult::NotAchieved(reason) => !goal_reached(*outcome, marker@)
                && reason@ == goal_missed(*outcome),
        },
{
    match outcome {
        CheckOutcome::FailedToStart => DisableOnSuccessResult::NotAchieved(
            "command failed to start",
        ),
        CheckOutcome::WaitFailed => DisableOnSuccessResult::NotAchieved("command wait failed"),
        CheckOutcome::TimedOut => DisableOnSuccessResult::NotAchieved("command timed out"),
        CheckOutcome::Exited { success, stdout, stderr } => {
            if !*success {
                return DisableOnSuccessResult::NotAchieved("command exited non-zero");
            }
            if contains(stdout.as_str(), marker) || contains(stderr.as_str(), marker) {
                DisableOnSuccessResult::Achieved
            } else {
                DisableOnSuccessResult::NotAchieved("success marker not found")
            }
        },
    }
}

// ---------------------------------------------------------------------------
// A run
// ---------------------------------------------------------------------------

/// What a run does next.
#[derive(Debug)]
pub enum CronStep {
    /// End the run.
    Stop,
    /// See whether the goal is reached.
    RunCheck { command: String, marker: String, timeout_secs: u64, working_dir: Option<String> },
    /// Tell that the goal is reached, and switch the job off under its name.
    GoalReached { channel: ChannelRef, text: String, disable: Option<String> },
    /// Post the job's message.
    Announce { channel: ChannelRef, text: String },
    /// Open a thread for the answer.
    CreateThread { channel: ChannelRef, title_of: String },
    /// Hand the message to the agent; keep the thread under the job's name.
    Dispatch { channel: ChannelRef, keep: Option<(String, String)> },
    /// Tell that the run failed.
    Fail { channel: ChannelRef, text: String },
}

/// Where a job posts.
pub open spec fn is_job_channel(job: CronJobConfig, c: ChannelRef) -> bool {
    &&& c.platform == job.platform
    &&& c.channel_id == job.channel
    &&& c.thread_id == job.thread_id
    &&& c.parent_id is None
    &&& c.origin_event_id is None
}

fn job_channel(job: &CronJobConfig) -> (r: ChannelRef)
    ensures
        is_job_channel(*job, r),
{
    ChannelRef {
        platform: job.platform.clone(),
        channel_id: job.channel.clone(),
        thread_id: copy_text(&job.thread_id),
        parent_id: None,
        origin_event_id: None,
    }
}

/// Whether a job has a check: a command, and a marker to look for.
pub open spec fn has_check(job: CronJobConfig) -> bool {
    filled(text_view(job.disable_on_success)) is Some && filled(
        text_view(job.disable_on_success_match),
    ) is Some
}

/// The step that posts a job's message.
pub open spec fn is_announcement(job: CronJobConfig, step: CronStep) -> bool {
    step matches CronStep::Announce { channel, text } && is_job_channel(job, channel) && text@
        == "🕐 ["@ + job.sender_name@ + "]: "@ + job.message@
}

fn announce(job: &CronJobConfig) -> (r: CronStep)
    ensures
        is_announcement(*job, r),
{
    let mut text = "🕐 [".to_owned();
    text.append(job.sender_name.as_str());
    text.append("]: ");
    text.append(job.message.as_str());
    CronStep::Announce { channel: job_channel(job), text }
}

/// Whether a step is the first of a job's run.
pub open spec fn is_first_step(job: CronJobConfig, has_adapter: bool, step: CronStep) -> bool {
    &&& !has_adapter ==> step is Stop
    &&& has_adapter && has_check(job) ==> (step matches CronStep::RunCheck {
        command,
        marker,
        timeout_secs,
        working_dir,
    } && Some(command@) == filled(text_view(job.disable_on_success)) && Some(marker@) == filled(
        text_view(job.disable_on_success_match),
    ) && timeout_secs == (if job.disable_on_success_timeout_secs == 0 {
        1
    } else {
        job.disable_on_success_timeout_secs
    }) && text_view(working_dir) == filled(text_view(job.disable_on_success_working_dir)))
    &&& has_adapter && !has_check(job) ==> is_announcement(job, step)
}

/// The first step of a run: the check, where the job has one. Without an adapter
/// for the job's platform there is no run.
pub fn begin_run(job: &CronJobConfig, has_adapter: bool) -> (r: CronStep)
    ensures
        is_first_step(*job, has_adapter, r),
{
    if !has_adapter {
        return CronStep::Stop;
    }
    if let Some(command) = non_empty(as_text(&job.disable_on_success)) {
        if let Some(marker) = non_empty(as_text(&job.disable_on_success_match)) {
            let timeout_secs = if job.disable_on_success_timeout_secs == 0 {
                1
            } else {
                job.disable_on_success_timeout_secs
            };
            return CronStep::RunCheck {
                command,
                marker,
                timeout_secs,
                working_dir: non_empty(as_text(&job.disable_on_success_working_dir)),
            };
        }
    }
    announce(job)
}

/// Whether a step follows the check of a job's goal.
pub open spec fn is_step_after_check(
    job: CronJobConfig,
    usercron: bool,
    command: Seq<char>,
    marker: Seq<char>,
    achieved: bool,
    step: CronStep,
) -> bool {
    if achieved {
        step matches CronStep::GoalReached { channel, text, disable } && is_job_channel(job, channel)
            && text@ == "✅ Goal achieved: `"@ + command + "` matched `"@ + marker
            + "`. Disabling cronjob."@ && text_view(disable) == (if usercron {
            filled(text_view(job.id))
        } else {
            None
        })
    } else {
        is_announcement(job, step)
    }
}

/// The step after the check: the job is switched off where its goal is reached,
/// and posted as usual where not.
pub fn after_check(
    job: &CronJobConfig,
    usercron: bool,
    command: &str,
    marker: &str,
    result: &DisableOnSuccessResult,
) -> (r: CronStep)
    ensures
        is_step_after_check(*job, usercron, command@, marker@, *result is Achieved, r),
{
    match result {
        DisableOnSuccessResult::NotAchieved(_) => announce(job),
        DisableOnSuccessResult::Achieved => {
            let mut text = "✅ Goal achieved: `".to_owned();
            text.append(command);
            text.append("` matched `");
            text.append(marker);
            text.append("`. Disabling cronjob.");
            let disable = if usercron {
                non_empty(as_text(&job.id))
            } else {
                None
            };
            CronStep::GoalReached { channel: job_channel(job), text, disable }
        },
    }
}

/// Whether a step follows the announcement of a job.
pub open spec fn is_step_after_announcement(job: CronJobConfig, posted: bool, step: CronStep) -> bool {
    &&& !posted ==> step is Stop
    &&& posted && job.thread_id is Some ==> (step matches CronStep::Dispatch { channel, keep }
        && is_job_channel(job, channel) && keep is None)
    &&& posted && job.thread_id is None ==> (step matches CronStep::CreateThread { channel, title_of }
        && is_job_channel(job, channel) && title_of == job.message)
}

/// The step after the message was posted, or was not: a job with a thread is
/// answered there, another gets a thread first.
pub fn after_announce(job: &CronJobConfig, posted: bool) -> (r: CronStep)
    ensures
        is_step_after_announcement(*job, posted, r),
{
    if !posted {
        CronStep::Stop
    } else if job.thread_id.is_some() {
        CronStep::Dispatch { channel: job_channel(job), keep: None }
    } else {
        CronStep::CreateThread { channel: job_channel(job), title_of: job.message.clone() }
    }
}

/// Whether a step follows the making of a job's thread.
pub open spec fn is_step_after_thread(
    job: CronJobConfig,
    usercron: bool,
    thread: Result<ChannelRef, String>,
    step: CronStep,
) -> bool {
    match thread {
        Ok(t) => step matches CronStep::Dispatch { channel, keep } && channel == t && (match keep {
            Some((id, thread_id)) => usercron && Some(id@) == filled(text_view(job.id)) && thread_id@
                == t.route(),
            None => !(usercron && filled(text_view(job.id)) is Some),
        }),
        Err(e) => step matches CronStep::Fail { channel, text } && is_job_channel(job, channel) && text@
            == "⚠️ cronjob: failed to create thread: "@ + e@,
    }
}

/// The step after a thread was opened, or was not. A job of the user's file that
/// has a name keeps the thread.
pub fn after_thread(
    job: &CronJobConfig,
    usercron: bool,
    thread: Result<ChannelRef, String>,
) -> (r: CronStep)
    ensures
        is_step_after_thread(*job, usercron, thread, r),
{
    match thread {
        Ok(channel) => {
            let id = if usercron {
                non_empty(as_text(&job.id))
            } else {
                None
            };
            let keep = match id {
                Some(id) => Some((id, channel.resolve_channel().to_owned())),
                None => None,
            };
            CronStep::Dispatch { channel, keep }
        },
        Err(e) => {
            let mut text = "⚠️ cronjob: failed to create thread: ".to_owned();
            text.append(e.as_str());
            CronStep::Fail { channel: job_channel(job), text }
        },
    }
}

/// What is posted where the agent could not be reached.
pub fn run_error(e: &str) -> (r: String)
    ensures
        r@ == "⚠️ cronjob error: "@ + e@,
{
    let mut text = "⚠️ cronjob error: ".to_owned();
    text.append(e);
    text
}

/// Whether a job is told of as running in a thread, or in a channel.
pub open spec fn runs_in(reply: ChannelRef, s: SenderContext) -> bool {
    &&& s.channel_id@ == (match reply.parent_id {
        Some(p) => p@,
        None => reply.channel_id@,
    })
    &&& text_view(s.thread_id) == Some(reply.route())
}

/// Who a job's message is from, as the agent is told: the scheduler, under the
/// job's name, in the channel that the thread belongs to.
pub fn cron_sender(job: &CronJobConfig, reply: &ChannelRef, timestamp: String) -> (r: SenderContext)
    ensures
        r.schema@ == "openab.sender.v1"@,
        r.sender_id@ == "openab-cron"@,
        r.sender_name == job.sender_name,
        r.display_name == job.sender_name,
        r.channel == job.platform,
        runs_in(*reply, r),
        r.is_bot,
        r.timestamp == Some(timestamp),
        r.message_id is None,
        r.receiver_id is None,
        r.handoff_token is None,
        r.referenced_message_id is None,
        r.referenced_channel_id is None,
        r.referenced_author_id is None,
        r.referenced_author_name is None,
{
    let channel_id = match &reply.parent_id {
        Some(p) => p.clone(),
        None => reply.channel_id.clone(),
    };
    SenderContext {
        schema: "openab.sender.v1".to_owned(),
        sender_id: "openab-cron".to_owned(),
        sender_name: job.sender_name.clone(),
        display_name: job.sender_name.clone(),
        channel: job.platform.clone(),
        channel_id,
        thread_id: Some(reply.resolve_channel().to_owned()),
        is_bot: true,
        timestamp: Some(timestamp),
        message_id: None,
        receiver_id: None,
        handoff_token: None,
        referenced_message_id: None,
        referenced_channel_id: None,
        referenced_author_id: None,
        referenced_author_name: None,
    }
}

// ---------------------------------------------------------------------------
// Writing back to the user's file
// ---------------------------------------------------------------------------

/// A value of the `toml_edit` crate.
#[verifier::external_type_specification]
#[verifier::external_body]
pub struct ExItem(toml_edit::Item);

/// What a key of a table stands for: a text, a truth value, a whole number, or
/// something else.
pub enum Cell {
    Text(Seq<char>),
    Flag(bool),
    Whole(i64),
    Other,
}

/// What a value of `toml_edit` stands for.
pub uninterp spec fn cell_of(item: toml_edit::Item) -> Cell;

/// What `toml_edit` has to say against a text; nothing where it reads it.
pub uninterp spec fn document_error(content: Seq<char>) -> Option<Seq<char>>;

/// The tables of an array of tables at the top of a document, each with what its
/// keys stand for; nothing where there is no such array.
pub uninterp spec fn document_tables(content: Seq<char>, array: Seq<char>) -> Option<
    Seq<Map<Seq<char>, Cell>>,
>;

/// What the keys at the top of a document stand for.
pub uninterp spec fn document_keys(content: Seq<char>) -> Map<Seq<char>, Cell>;

/// A document with a key of one of the tables of an array set.
pub uninterp spec fn document_with(
    content: Seq<char>,
    array: Seq<char>,
    place: int,
    key: Seq<char>,
    value: Cell,
) -> Seq<char>;

/// The text of a key of a table, where it has one that is a text.
pub open spec fn text_under(table: Map<Seq<char>, Cell>, key: Seq<char>) -> Option<Seq<char>> {
    if table.contains_key(key) && table[key] is Text {
        Some(table[key]->Text_0)
    } else {
        None
    }
}

/// The texts of a key of tables.
pub open spec fn texts_under(tables: Seq<Map<Seq<char>, Cell>>, key: Seq<char>) -> Seq<
    Option<Seq<char>>,
> {
    tables.map_values(|t: Map<Seq<char>, Cell>| text_under(t, key))
}

/// The texts of a row.
pub open spec fn names(ids: Seq<Option<String>>) -> Seq<Option<Seq<char>>> {
    ids.map_values(|o: Option<String>| text_view(o))
}

/// How many characters right before a place are all the same one.
pub open spec fn run_before(s: Seq<char>, c: char, k: int) -> int
    decreases k,
{
    if k <= 0 || s[k - 1] != c {
        0
    } else {
        1 + run_before(s, c, k - 1)
    }
}

/// Whether a text has no more than 255 equal quotes in a row.
pub open spec fn is_writable(s: Seq<char>) -> bool {
    forall|k: int|
        0 <= k <= s.len() ==> #[trigger] run_before(s, '"', k) <= 255 && run_before(s, '\'', k) <= 255
}

/// `DocumentMut::from_str` and the tables of an array of tables: the text of each
/// table's key, where it has one that is a text. What is read, and what is said
/// against a text, depends on the text alone.
#[verifier::external_body]
fn texts_in_tables(content: &str, array: &str, key: &str) -> (r: Result<
    Option<Vec<Option<String>>>,
    String,
>)
    ensures
        match r {
            Err(e) => document_error(content@) == Some(e@),
            Ok(None) => document_error(content@) is None && document_tables(content@, array@) is None,
            Ok(Some(texts)) => document_error(content@) is None && document_tables(
                content@,
                array@,
            ) is Some && names(texts@) == texts_under(document_tables(content@, array@)->0, key@),
        },
{
    let doc = content.parse::<DocumentMut>().map_err(|e| e.to_string())?;
    let tables = doc.get(array).and_then(|item| item.as_array_of_tables());
    Ok(tables.map(|a| {
        a.iter().map(|t| t.get(key).and_then(|i| i.as_str()).map(|s| s.to_string())).collect()
    }))
}

/// `toml_edit::value` on a truth value: a value that stands for it.
#[verifier::external_body]
fn flag_item(flag: bool) -> (r: toml_edit::Item)
    ensures
        cell_of(r) == Cell::Flag(flag),
{
    toml_edit::value(flag)
}

/// `toml_edit::value` on a text: a value that stands for it.
#[verifier::external_body]
fn text_item(text: &str) -> (r: toml_edit::Item)
    ensures
        cell_of(r) == Cell::Text(text@),
{
    toml_edit::value(text)
}

/// `Table::index_mut` on one table of an array of tables, and the document as text
/// again, which depends on the arguments alone. What is written reads back: the key
/// stands for the value, and all other keys and tables of the array, the other arrays
/// of tables and the keys at the top for what they did; of values other than texts,
/// truth values and whole numbers it is only said that they are there. A text is written by counting its quotes in a byte, so a longer row of
/// them is left out.
#[verifier::external_body]
fn set_in_table(content: &str, array: &str, place: usize, key: &str, value: toml_edit::Item) -> (r:
    String)
    requires
        document_error(content@) is None,
        document_tables(content@, array@) is Some,
        place < document_tables(content@, array@)->0.len(),
        cell_of(value) is Text || cell_of(value) is Flag,
        cell_of(value) is Text ==> is_writable(cell_of(value)->Text_0),
    ensures
        r@ == document_with(content@, array@, place as int, key@, cell_of(value)),
        document_error(r@) is None,
        document_tables(r@, array@) == Some(
            with_cell(document_tables(content@, array@)->0, place as int, key@, cell_of(value)),
        ),
        forall|a: Seq<char>|
            a != array@ ==> #[trigger] document_tables(r@, a) == document_tables(content@, a),
        document_keys(r@) == document_keys(content@),
{
    let mut doc = content.parse::<DocumentMut>().unwrap();
    let tables = doc[array].as_array_of_tables_mut().unwrap();
    tables.get_mut(place).unwrap()[key] = value;
    doc.to_string()
}

/// Tables with a key of one of them set.
pub open spec fn with_cell(
    tables: Seq<Map<Seq<char>, Cell>>,
    place: int,
    key: Seq<char>,
    value: Cell,
) -> Seq<Map<Seq<char>, Cell>> {
    tables.update(place, tables[place].insert(key, value))
}

/// Tests whether a text can be written.
fn can_be_written(text: &str) -> (r: bool)
    ensures
        r == is_writable(text@),
{
    let v = to_chars(text);
    let mut double: usize = 0;
    let mut single: usize = 0;
    let mut i: usize = 0;
    while i < v.len()
        invariant
            i <= v@.len(),
            v@ == text@,
            double <= 255,
            single <= 255,
            double == run_before(text@, '"', i as int),
            single == run_before(text@, '\'', i as int),
            forall|k: int|
                0 <= k <= i ==> #[trigger] run_before(text@, '"', k) <= 255 && run_before(
                    text@,
                    '\'',
                    k,
                ) <= 255,
        decreases v@.len() - i,
    {
        double = if v[i] == '"' {
            double + 1
        } else {
            0
        };
        single = if v[i] == '\'' {
            single + 1
        } else {
            0
        };
        i += 1;
        if double > 255 || single > 255 {
            assert(run_before(text@, '"', i as int) > 255 || run_before(text@, '\'', i as int) > 255);
            return false;
        }
    }
    true
}

/// The place of the first job with a name, or the number of jobs.
pub open spec fn job_place(ids: Seq<Option<Seq<char>>>, id: Seq<char>) -> int
    decreases ids.len(),
{
    if ids.len() == 0 || ids[0] == Some(id) {
        0
    } else {
        1 + job_place(ids.drop_first(), id)
    }
}

proof fn lemma_job_place(ids: Seq<Option<Seq<char>>>, id: Seq<char>)
    ensures
        0 <= job_place(ids, id) <= ids.len(),
        forall|i: int| 0 <= i < job_place(ids, id) ==> #[trigger] ids[i] != Some(id),
        job_place(ids, id) < ids.len() ==> ids[job_place(ids, id)] == Some(id),
    decreases ids.len(),
{
    if ids.len() > 0 && ids[0] != Some(id) {
        lemma_job_place(ids.drop_first(), id);
        assert forall|i: int| 0 <= i < job_place(ids, id) implies #[trigger] ids[i] != Some(id) by {
            if i > 0 {
                assert(ids[i] == ids.drop_first()[i - 1]);
            }
        }
    }
}

/// Finds the first job with a name.
pub fn find_job(ids: &Vec<Option<String>>, id: &str) -> (r: Option<usize>)
    ensures
        match r {
            Some(i) => i < ids@.len() && i == job_place(names(ids@), id@),
            None => job_place(names(ids@), id@) == ids@.len(),
        },
{
    let ghost all = names(ids@);
    proof {
        lemma_job_place(all, id@);
    }
    let mut i: usize = 0;
    while i < ids.len()
        invariant
            i <= ids@.len(),
            all == names(ids@),
            forall|k: int| 0 <= k < i ==> #[trigger] all[k] != Some(id@),
            0 <= job_place(all, id@) <= all.len(),
            forall|k: int| 0 <= k < job_place(all, id@) ==> #[trigger] all[k] != Some(id@),
            job_place(all, id@) < all.len() ==> all[job_place(all, id@)] == Some(id@),
        decreases ids@.len() - i,
    {
        assert(all[i as int] == text_view(ids@[i as int]));
        if let Some(name) = &ids[i] {
            if same(name.as_str(), id) {
                assert(job_place(all, id@) == i);
                return Some(i);
            }
        }
        i += 1;
    }
    None
}

/// The array of the jobs in the user's file, and the keys that are written back.
pub const JOBS: &'static str = "jobs";

pub const ID: &'static str = "id";

pub const ENABLED: &'static str = "enabled";

pub const THREAD_ID: &'static str = "thread_id";

/// The user's file with a job switched on or off, where that is asked for.
pub open spec fn switched(content: Seq<char>, place: int, enabled: Option<bool>) -> Seq<char> {
    match enabled {
        Some(b) => document_with(content, JOBS@, place, ENABLED@, Cell::Flag(b)),
        None => content,
    }
}

/// The user's file with a job given a thread, where that is asked for.
pub open spec fn threaded(content: Seq<char>, place: int, thread_id: Option<Seq<char>>) -> Seq<char> {
    match thread_id {
        Some(t) => document_with(content, JOBS@, place, THREAD_ID@, Cell::Text(t)),
        None => content,
    }
}

/// The jobs once one of them is switched on or off and given a thread: the keys that
/// are asked for, and nothing else.
pub open spec fn jobs_written(
    jobs: Seq<Map<Seq<char>, Cell>>,
    place: int,
    enabled: Option<bool>,
    thread_id: Option<Seq<char>>,
) -> Seq<Map<Seq<char>, Cell>> {
    let first = match enabled {
        Some(b) => with_cell(jobs, place, ENABLED@, Cell::Flag(b)),
        None => jobs,
    };
    match thread_id {
        Some(t) => with_cell(first, place, THREAD_ID@, Cell::Text(t)),
        None => first,
    }
}

/// The place of the first job with a name in the user's file.
pub open spec fn place_of(content: Seq<char>, id: Seq<char>) -> int {
    job_place(texts_under(document_tables(content, JOBS@)->0, ID@), id)
}

/// What stands against writing back to a job of the user's file.
pub open spec fn write_error(content: Seq<char>, id: Seq<char>, thread_id: Option<Seq<char>>) -> Option<
    Seq<char>,
> {
    if document_error(content) is Some {
        document_error(content)
    } else if document_tables(content, JOBS@) is None {
        Some("usercron file has no [[jobs]] array"@)
    } else if place_of(content, id) >= document_tables(content, JOBS@)->0.len() {
        Some("usercron job id "@ + debug_form(id) + " not found"@)
    } else if thread_id is Some && !is_writable(thread_id->0) {
        Some("usercron thread id has too many quotes in a row"@)
    } else {
        None
    }
}

/// Writes back to the first job of a name whether it is enabled, and its thread.
/// What is written reads back, and every other job, every other key of the job, and
/// the rest of the file stay as they were, so the next write finds them all where they were.
pub fn update_usercron_job(
    content: &str,
    id: &str,
    enabled: Option<bool>,
    thread_id: Option<&str>,
) -> (r: Result<String, String>)
    ensures
        match r {
            Ok(text) => {
                let place = place_of(content@, id@);
                &&& write_error(content@, id@, setting_view(thread_id)) is None
                &&& text@ == threaded(
                    switched(content@, place, enabled),
                    place,
                    setting_view(thread_id),
                )
                &&& document_error(text@) is None
                &&& document_tables(text@, JOBS@) == Some(
                    jobs_written(
                        document_tables(content@, JOBS@)->0,
                        place,
                        enabled,
                        setting_view(thread_id),
                    ),
                )
                &&& forall|a: Seq<char>|
                    a != JOBS@ ==> #[trigger] document_tables(text@, a) == document_tables(
                        content@,
                        a,
                    )
                &&& document_keys(text@) == document_keys(content@)
            },
            Err(e) => write_error(content@, id@, setting_view(thread_id)) == Some(e@),
        },
{
    let ids = match texts_in_tables(content, JOBS, ID) {
        Err(e) => return Err(e),
        Ok(None) => return Err("usercron file has no [[jobs]] array".to_owned()),
        Ok(Some(ids)) => ids,
    };
    let ghost jobs = document_tables(content@, JOBS@)->0;
    assert(names(ids@).len() == ids@.len());
    assert(texts_under(jobs, ID@).len() == jobs.len());
    let place = match find_job(&ids, id) {
        Some(place) => place,
        None => {
            let mut e = "usercron job id ".to_owned();
            e.append(debug_string(id).as_str());
            e.append(" not found");
            return Err(e);
        },
    };
    if let Some(t) = thread_id {
        if !can_be_written(t) {
            return Err("usercron thread id has too many quotes in a row".to_owned());
        }
    }
    let mut text = content.to_owned();
    if let Some(b) = enabled {
        text = set_in_table(text.as_str(), JOBS, place, ENABLED, flag_item(b));
    }
    if let Some(t) = thread_id {
        text = set_in_table(text.as_str(), JOBS, place, THREAD_ID, text_item(t));
    }
    Ok(text)
}

/// Writing back to a job leaves every other job as it was, and of the job itself
/// changes the two keys at most: what is asked for reads back.
pub proof fn write_back_is_local(
    jobs: Seq<Map<Seq<char>, Cell>>,
    place: int,
    enabled: Option<bool>,
    thread_id: Option<Seq<char>>,
    other: int,
    key: Seq<char>,
)
    requires
        0 <= place < jobs.len(),
        0 <= other < jobs.len(),
        key != ENABLED@,
        key != THREAD_ID@,
    ensures
        jobs_written(jobs, place, enabled, thread_id).len() == jobs.len(),
        other != place ==> jobs_written(jobs, place, enabled, thread_id)[other] == jobs[other],
        enabled matches Some(b) ==> jobs_written(jobs, place, enabled, thread_id)[place].contains_key(
            ENABLED@,
        ) && jobs_written(jobs, place, enabled, thread_id)[place][ENABLED@] == Cell::Flag(b),
        thread_id matches Some(t) ==> text_under(
            jobs_written(jobs, place, enabled, thread_id)[place],
            THREAD_ID@,
        ) == Some(t),
        jobs_written(jobs, place, enabled, thread_id)[place].contains_key(key) == jobs[place].contains_key(
            key,
        ),
        jobs[place].contains_key(key) ==> jobs_written(jobs, place, enabled, thread_id)[place][key]
            == jobs[place][key],
        texts_under(jobs_written(jobs, place, enabled, thread_id), ID@) == texts_under(jobs, ID@),
{
    reveal_strlit("enabled");
    reveal_strlit("thread_id");
    reveal_strlit("id");
    assert(ENABLED@.len() != THREAD_ID@.len());
    assert(ID@.len() != ENABLED@.len());
    assert(ID@.len() != THREAD_ID@.len());
    assert(texts_under(jobs_written(jobs, place, enabled, thread_id), ID@) =~= texts_under(jobs, ID@));
}

} // verus!
